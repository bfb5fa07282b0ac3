use boids::config::{cursor_to_arena, Agent, Config, MouseInput};
use boids::integrator::{bound, ceil_sqrt_exec, clamp_velocity, integrate_agent};
use boids::simulation::{new_agent, spawn_population, tick};
use boids::steering::{agent_force, alignment, boid_system, cohesion, compute_forces, separation};
use boids::vector::{div_trunc, Vector};
use boids::visibility::{is_in_range, SightAngle};

fn v(x: i64, y: i64) -> Vector {
    Vector::new(x, y)
}

fn agent(id: usize, pos: (i64, i64), vel: (i64, i64)) -> Agent {
    new_agent(id, v(pos.0, pos.1), v(vel.0, vel.1))
}

fn no_mouse() -> MouseInput {
    MouseInput { cursor: None, left: false, right: false }
}

#[test]
fn default_config_values() {
    let c = Config::default_config();
    assert_eq!(c.agent_count, 200);
    assert_eq!(c.arena_width, 70_000);
    assert_eq!(c.arena_height, 50_000);
    assert_eq!(c.margin, 2_000);
    assert_eq!(c.max_speed, 10_000);
    assert_eq!(c.separation.coefficient, 5_000_000);
    assert_eq!(c.mouse.coefficient, 300_000_000);
    assert_eq!(c.cohesion.angle, SightAngle { cos_num: -433, cos_den: 500 });
}

#[test]
fn vector_arithmetic() {
    let a = v(3, -4);
    let b = v(1, 2);
    assert_eq!(a.add(&b), v(4, -2));
    assert_eq!(a.diff(&b), v(2, -6));
    assert_eq!(a.multiply(3), v(9, -12));
    assert_eq!(v(-7, 7).div(2), v(-3, 3));
    assert_eq!(a.length_squared(), 25);
    assert_eq!(a.dot(&b), -5);
    assert_eq!(a.distance_squared(&b), 40);
    assert_eq!(Vector::origin(), v(0, 0));
    assert_eq!(div_trunc(-7, 2), -3);
    assert_eq!(div_trunc(7, 2), 3);
}

#[test]
fn ceil_sqrt_values() {
    assert_eq!(ceil_sqrt_exec(0), 0);
    assert_eq!(ceil_sqrt_exec(1), 1);
    assert_eq!(ceil_sqrt_exec(2), 2);
    assert_eq!(ceil_sqrt_exec(4), 2);
    assert_eq!(ceil_sqrt_exec(5), 3);
    assert_eq!(ceil_sqrt_exec(2_500_000_000), 50_000);
}

#[test]
fn visibility_is_asymmetric() {
    let angle = SightAngle { cos_num: 1, cos_den: 2 };
    let a_pos = v(0, 0);
    let b_pos = v(1_000, 0);
    let heading_east = v(1_000, 0);
    assert!(is_in_range(&a_pos, &b_pos, 3_000, &heading_east, angle));
    assert!(!is_in_range(&b_pos, &a_pos, 3_000, &heading_east, angle));
}

#[test]
fn visibility_radius_boundary_is_inclusive() {
    let all_round = SightAngle { cos_num: -1, cos_den: 1 };
    let vel = v(0, 500);
    assert!(is_in_range(&v(0, 0), &v(3_000, 0), 3_000, &vel, all_round));
    assert!(!is_in_range(&v(0, 0), &v(3_001, 0), 3_000, &vel, all_round));
    assert!(is_in_range(&v(0, 0), &v(1_800, 2_400), 3_000, &vel, all_round));
    assert!(!is_in_range(&v(0, 0), &v(1_800, 2_401), 3_000, &vel, all_round));
}

#[test]
fn visibility_angle_boundary_is_inclusive() {
    // cos(half aperture) = 3/5; the direction (3, 4) makes exactly that angle.
    let angle = SightAngle { cos_num: 3, cos_den: 5 };
    let heading = v(100, 0);
    assert!(is_in_range(&v(0, 0), &v(300, 400), 1_000, &heading, angle));
    assert!(!is_in_range(&v(0, 0), &v(300, 401), 1_000, &heading, angle));
    assert!(is_in_range(&v(0, 0), &v(300, -400), 1_000, &heading, angle));
    // a half aperture of 90 degrees includes the perpendicular exactly
    let half = SightAngle { cos_num: 0, cos_den: 1 };
    assert!(is_in_range(&v(0, 0), &v(0, 1_000), 1_000, &heading, half));
    assert!(!is_in_range(&v(0, 0), &v(-1, 999), 1_000, &heading, half));
}

#[test]
fn visibility_zero_velocity_faces_east() {
    let angle = SightAngle { cos_num: 1, cos_den: 2 };
    assert!(is_in_range(&v(0, 0), &v(100, 0), 1_000, &v(0, 0), angle));
    assert!(!is_in_range(&v(0, 0), &v(-100, 0), 1_000, &v(0, 0), angle));
}

#[test]
fn separation_values() {
    assert_eq!(separation(&v(0, 0), &v(5_000, 0), 5_000_000), v(-1_000, 0));
    assert_eq!(separation(&v(5_000, 0), &v(0, 0), 5_000_000), v(1_000, 0));
    assert_eq!(separation(&v(7, 7), &v(7, 7), 5_000_000), v(0, 0));
    assert_eq!(separation(&v(0, 0), &v(3, 4), 100), v(-12, -16));
}

#[test]
fn alignment_and_cohesion_values() {
    assert_eq!(alignment(&v(100, 0), &v(0, 100), 2), v(-200, 200));
    assert_eq!(cohesion(&v(10, 10), &v(40, -20), 10), v(300, -300));
}

#[test]
fn two_agents_repel_along_their_line() {
    let cfg = Config::default_config();
    let a = agent(0, (0, 0), (1_000, 0));
    let b = agent(1, (5_000, 0), (-1_000, 0));
    let sep_a = separation(&a.position, &b.position, cfg.separation.coefficient);
    let sep_b = separation(&b.position, &a.position, cfg.separation.coefficient);
    assert!(sep_a.x < 0 && sep_a.y == 0);
    assert!(sep_b.x > 0 && sep_b.y == 0);
    let agents = vec![a, b];
    // separation plus cohesion toward the other (50 pixels, inside 80)
    assert_eq!(agent_force(&a, &agents, &no_mouse(), &cfg), v(-1_000 + 50_000, 0));
    assert_eq!(agent_force(&b, &agents, &no_mouse(), &cfg), v(1_000 - 50_000, 0));
}

#[test]
fn lone_agent_feels_no_force() {
    let cfg = Config::default_config();
    let a = agent(0, (1_234, -567), (300, 400));
    let agents = vec![a];
    assert_eq!(agent_force(&a, &agents, &no_mouse(), &cfg), v(0, 0));
    let idle = MouseInput { cursor: Some(v(1_300, -567)), left: false, right: false };
    assert_eq!(agent_force(&a, &agents, &idle, &cfg), v(0, 0));
}

#[test]
fn no_separation_outside_range() {
    let cfg = Config::default_config();
    let a = agent(0, (0, 0), (1_000, 0));
    let far = agent(1, (12_001, 0), (1_000, 0));
    assert_eq!(agent_force(&a, &vec![a, far], &no_mouse(), &cfg), v(0, 0));
    // a neighbour on the very same spot is inside the minimum range
    let same = agent(1, (0, 0), (1_000, 0));
    assert_eq!(agent_force(&a, &vec![a, same], &no_mouse(), &cfg), v(0, 0));
}

#[test]
fn mouse_radius_boundary() {
    let cfg = Config::default_config();
    let a = agent(0, (0, 0), (1_000, 0));
    let agents = vec![a];
    let at_edge = MouseInput { cursor: Some(v(24_000, 0)), left: false, right: true };
    assert_eq!(agent_force(&a, &agents, &at_edge, &cfg), v(-12_500, 0));
    let beyond = MouseInput { cursor: Some(v(24_001, 0)), left: false, right: true };
    assert_eq!(agent_force(&a, &agents, &beyond, &cfg), v(0, 0));
    let attract = MouseInput { cursor: Some(v(24_000, 0)), left: true, right: false };
    assert_eq!(agent_force(&a, &agents, &attract, &cfg), v(12_500, 0));
    let both = MouseInput { cursor: Some(v(24_000, 0)), left: true, right: true };
    assert_eq!(agent_force(&a, &agents, &both, &cfg), v(0, 0));
    // behind the agent the cursor is out of its 120-degree cone
    let behind = MouseInput { cursor: Some(v(-1_000, 0)), left: false, right: true };
    assert_eq!(agent_force(&a, &agents, &behind, &cfg), v(0, 0));
}

#[test]
fn forces_do_not_depend_on_order() {
    let cfg = Config::default_config();
    let a = agent(0, (0, 0), (1_000, 200));
    let b = agent(1, (2_000, 500), (-300, 800));
    let c = agent(2, (-1_500, 1_000), (600, -600));
    let first = compute_forces(&vec![a, b, c], &no_mouse(), &cfg);
    let second = compute_forces(&vec![c, a, b], &no_mouse(), &cfg);
    let third = compute_forces(&vec![b, c, a], &no_mouse(), &cfg);
    assert_eq!(first[0], second[1]);
    assert_eq!(first[1], second[2]);
    assert_eq!(first[2], second[0]);
    assert_eq!(first[0], third[2]);
    assert_eq!(first[1], third[0]);
    assert_eq!(first[2], third[1]);
    assert_ne!(first[0], v(0, 0));
}

#[test]
fn force_pass_writes_back_after_scan() {
    let cfg = Config::default_config();
    let a = agent(0, (0, 0), (1_000, 0));
    let b = agent(1, (5_000, 0), (-1_000, 0));
    let mut agents = vec![a, b];
    boid_system(&mut agents, &no_mouse(), &cfg);
    assert_eq!(agents[0].force, v(49_000, 0));
    assert_eq!(agents[1].force, v(-49_000, 0));
    assert_eq!(agents[0].position, a.position);
    assert_eq!(agents[1].velocity, b.velocity);
}

#[test]
fn speed_is_clamped() {
    assert_eq!(clamp_velocity(&v(30_000, 40_000), 10_000), v(6_000, 8_000));
    assert_eq!(clamp_velocity(&v(10_000, 0), 10_000), v(10_000, 0));
    assert_eq!(clamp_velocity(&v(600, -800), 10_000), v(600, -800));
    let r = clamp_velocity(&v(12_345_678, -98_765), 10_000);
    assert!(r.length_squared() <= 100_000_000);
    assert!(r.x > 0 && r.y < 0);
}

#[test]
fn reflection_mirrors_exactly() {
    let cfg = Config::default_config();
    // right edge at 33000, top edge at 23000
    let (p, vel) = bound(&v(33_500, 0), &v(700, 100), &cfg);
    assert_eq!(p, v(32_500, 0));
    assert_eq!(vel, v(-700, 100));
    let (p, vel) = bound(&v(-33_250, 23_100), &v(-300, 400), &cfg);
    assert_eq!(p, v(-32_750, 22_900));
    assert_eq!(vel, v(300, -400));
    let (p, vel) = bound(&v(1_000, -1_000), &v(-300, 400), &cfg);
    assert_eq!(p, v(1_000, -1_000));
    assert_eq!(vel, v(-300, 400));
}

#[test]
fn far_outside_position_lands_inside() {
    let cfg = Config::default_config();
    let (p, vel) = bound(&v(90_000, -60_000), &v(50_000, 0), &cfg);
    assert_eq!(p, v(-24_000, 14_000));
    assert_eq!(vel, v(-10_000, 0));
}

#[test]
fn integrator_uses_old_velocity_for_position() {
    let cfg = Config::default_config();
    let mut a = agent(3, (0, 0), (1_000, -2_000));
    a.force = v(500, 500);
    let r = integrate_agent(&a, 500_000, &cfg);
    assert_eq!(r.id, 3);
    assert_eq!(r.position, v(500, -1_000));
    assert_eq!(r.velocity, v(1_250, -1_750));
    assert_eq!(r.force, v(500, 500));
}

#[test]
fn cursor_is_moved_to_arena_frame() {
    assert_eq!(cursor_to_arena(&v(0, 0), 70_000, 50_000), v(-35_000, 25_000));
    assert_eq!(cursor_to_arena(&v(35_000, 25_000), 70_000, 50_000), v(0, 0));
    assert_eq!(cursor_to_arena(&v(45_000, 5_000), 70_000, 50_000), v(10_000, 20_000));
}

#[test]
fn spawned_population_is_in_bounds() {
    let cfg = Config::default_config();
    let agents = spawn_population(&cfg);
    assert_eq!(agents.len(), 200);
    for (i, a) in agents.iter().enumerate() {
        assert_eq!(a.id, i);
        assert!(a.position.x.abs() <= 25_000 && a.position.y.abs() <= 25_000);
        assert!(a.velocity.x.abs() <= 5_000 && a.velocity.y.abs() <= 5_000);
        assert_eq!(a.force, v(0, 0));
    }
    assert!(agents.iter().any(|a| a.position != agents[0].position));
}

#[test]
fn ticks_keep_agents_in_arena_and_under_top_speed() {
    let cfg = Config::default_config();
    let mut agents = spawn_population(&cfg);
    let mouse = MouseInput { cursor: Some(v(1_000, 2_000)), left: true, right: false };
    for _ in 0..20 {
        tick(&mut agents, &mouse, 16_667, &cfg);
        for a in agents.iter() {
            assert!(a.position.x >= -33_000 && a.position.x <= 33_000);
            assert!(a.position.y >= -23_000 && a.position.y <= 23_000);
            assert!(a.velocity.length_squared() <= 100_000_000);
        }
    }
}
