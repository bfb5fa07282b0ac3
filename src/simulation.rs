//! The population: spawning it, and one tick of force pass and integrator.
use vstd::prelude::*;
use rand::Rng;
use crate::config::{Agent, Config, MouseInput, MAX_AGENTS, TICKS_PER_SECOND};
use crate::integrator::{apply_force_system, in_arena, integrate, ready};
use crate::steering::{boid_system, steering_force};
use crate::vector::{Vector, bounded, lemma_norm_bounds, norm_sq};

verus! {

/// Relies on rand's `thread_rng().gen_range(lo..=hi)`: a value in `[lo, hi]`
/// (it panics only on an empty range, which `requires` leaves out).
#[verifier::external_body]
fn random_between(lo: i64, hi: i64) -> (r: i64)
    requires
        lo <= hi,
    ensures
        lo <= r <= hi,
{
    rand::thread_rng().gen_range(lo..=hi)
}

/// An agent as spawned: the given state and no force yet.
pub fn new_agent(id: usize, position: Vector, velocity: Vector) -> (r: Agent)
    ensures
        r.id == id,
        r.position == position,
        r.velocity == velocity,
        r.force@ == (0int, 0int),
{
    Agent { id, position, velocity, force: Vector::origin() }
}

/// A spawned agent lies in the spawn region and moves at most half the top
/// speed on each axis.
pub open spec fn spawned(a: Agent, cfg: Config) -> bool {
    &&& -(cfg.spawn_width / 2) <= a.position.x <= cfg.spawn_width / 2
    &&& -(cfg.spawn_height / 2) <= a.position.y <= cfg.spawn_height / 2
    &&& bounded(a.velocity@, cfg.max_speed / 2)
    &&& a.force@ == (0int, 0int)
}

/// A fresh population of `cfg.agent_count` agents with identities `0, 1, ...`
/// in order, random positions in the spawn region and random velocities.
pub fn spawn_population(cfg: &Config) -> (r: Vec<Agent>)
    requires
        cfg.wf(),
    ensures
        r.len() == cfg.agent_count,
        forall|i: int| 0 <= i < r.len() ==> (#[trigger] r[i]).id == i && spawned(r[i], *cfg),
        forall|i: int| 0 <= i < r.len() ==> ready(#[trigger] r[i], *cfg),
{
    let mut agents: Vec<Agent> = Vec::new();
    let half_w = cfg.spawn_width / 2;
    let half_h = cfg.spawn_height / 2;
    let half_v = cfg.max_speed / 2;
    let mut i: usize = 0;
    while i < cfg.agent_count
        invariant
            0 <= i <= cfg.agent_count,
            agents.len() == i,
            cfg.wf(),
            half_w == cfg.spawn_width / 2,
            half_h == cfg.spawn_height / 2,
            half_v == cfg.max_speed / 2,
            forall|k: int| 0 <= k < i ==> (#[trigger] agents[k]).id == k && spawned(agents[k], *cfg),
        decreases cfg.agent_count - i,
    {
        let px = random_between(-half_w, half_w);
        let py = random_between(-half_h, half_h);
        let vx = random_between(-half_v, half_v);
        let vy = random_between(-half_v, half_v);
        agents.push(new_agent(i, Vector::new(px, py), Vector::new(vx, vy)));
        i = i + 1;
    }
    agents
}

/// The agent `a` with its force replaced.
pub open spec fn with_force(a: Agent, force: Vector) -> Agent {
    Agent { force, ..a }
}

/// One tick: the force pass over the population as it stands, then the
/// integrator over `dt`. Every agent ends in the arena, no faster than the
/// top speed, and ready for the next tick.
pub fn tick(agents: &mut Vec<Agent>, mouse: &MouseInput, dt: i64, cfg: &Config)
    requires
        cfg.wf(),
        mouse.wf(),
        0 <= dt <= TICKS_PER_SECOND,
        old(agents).len() <= MAX_AGENTS,
        forall|i: int| 0 <= i < old(agents).len() ==> ready(#[trigger] old(agents)[i], *cfg),
    ensures
        final(agents).len() == old(agents).len(),
        forall|i: int| 0 <= i < final(agents).len() ==> {
            &&& (#[trigger] final(agents)[i]).id == old(agents)[i].id
            &&& final(agents)[i].force@ == steering_force(old(agents)[i], old(agents)@, *mouse, *cfg)
            &&& (final(agents)[i].position@, final(agents)[i].velocity@)
                == integrate(with_force(old(agents)[i], final(agents)[i].force), dt as int, *cfg)
            &&& in_arena(final(agents)[i].position@, *cfg)
            &&& norm_sq(final(agents)[i].velocity@) <= cfg.max_speed * cfg.max_speed
            &&& ready(final(agents)[i], *cfg)
        },
{
    let ghost start = agents@;
    proof {
        assert forall|i: int| 0 <= i < agents.len() implies #[trigger] agents@[i].wf() by {
            assert(ready(start[i], *cfg));
        }
    }
    boid_system(agents, mouse, cfg);
    let ghost mid = agents@;
    proof {
        assert forall|i: int| 0 <= i < mid.len() implies ready(#[trigger] mid[i], *cfg) by {
            assert(ready(start[i], *cfg));
        }
    }
    apply_force_system(agents, dt, cfg);
    proof {
        assert forall|i: int| 0 <= i < agents.len() implies ready(#[trigger] agents@[i], *cfg) by {
            assert(ready(mid[i], *cfg));
            assert(with_force(start[i], mid[i].force) == mid[i]);
            lemma_norm_bounds(agents@[i].velocity@, cfg.max_speed as int);
        }
    }
}

} // verus!
