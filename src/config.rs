//! Simulation parameters, agents and per-tick input.
use vstd::prelude::*;
use crate::vector::{Vector, bounded};
use crate::visibility::{SightAngle, SIGHT_COORD_LIMIT};

verus! {

/// Length units per pixel of the window.
pub const UNITS_PER_PIXEL: i64 = 100;

/// Time units (microseconds) per second.
pub const TICKS_PER_SECOND: i64 = 1_000_000;

/// Bound on each component of an agent's position and velocity, and of the
/// cursor position.
pub const COORD_LIMIT: i64 = 0x100_0000;

/// Largest population the force pass accepts.
pub const MAX_AGENTS: usize = 0x1_0000;

/// Bound on the coefficients of the inverse-square rules (separation, mouse).
pub const INVERSE_SQUARE_COEF_LIMIT: i64 = 0x1_0000_0000;

/// Bound on the coefficients of the linear rules (alignment, cohesion).
pub const LINEAR_COEF_LIMIT: i64 = 0x1_0000;

/// Bound on each component of a computed force.
pub const FORCE_LIMIT: i64 = 0x4_0000_0000_0000;

/// One steering rule's strength and cone of awareness.
#[derive(Clone, Copy, Debug, PartialEq, Eq, Structural)]
pub struct Behavior {
    pub coefficient: i64,
    pub radius: i64,
    pub angle: SightAngle,
}

impl Behavior {
    pub open spec fn wf(self, coef_limit: int) -> bool {
        &&& 0 <= self.coefficient <= coef_limit
        &&& 0 <= self.radius <= 2 * SIGHT_COORD_LIMIT
        &&& self.angle.wf()
    }
}

/// All parameters of a simulation, in length units (`UNITS_PER_PIXEL` per
/// pixel) and time units (`TICKS_PER_SECOND` per second).
#[derive(Clone, Copy, Debug, PartialEq, Eq, Structural)]
pub struct Config {
    pub agent_count: usize,
    pub spawn_width: i64,
    pub spawn_height: i64,
    pub arena_width: i64,
    pub arena_height: i64,
    pub margin: i64,
    pub max_speed: i64,
    pub separation: Behavior,
    pub separation_min_range: i64,
    pub alignment: Behavior,
    pub cohesion: Behavior,
    pub mouse: Behavior,
}

impl Config {
    pub open spec fn wf(self) -> bool {
        &&& self.agent_count <= MAX_AGENTS
        &&& 0 <= self.spawn_width <= self.arena_width
        &&& 0 <= self.spawn_height <= self.arena_height
        &&& 0 < self.arena_width <= COORD_LIMIT
        &&& 0 < self.arena_height <= COORD_LIMIT
        &&& 0 <= self.margin
        &&& self.left() < self.right()
        &&& self.bottom() < self.top()
        &&& 0 < self.max_speed <= COORD_LIMIT / 4
        &&& self.margin + self.max_speed <= self.right() - self.left()
        &&& self.margin + self.max_speed <= self.top() - self.bottom()
        &&& self.separation.wf(INVERSE_SQUARE_COEF_LIMIT as int)
        &&& 0 <= self.separation_min_range <= 2 * SIGHT_COORD_LIMIT
        &&& self.alignment.wf(LINEAR_COEF_LIMIT as int)
        &&& self.cohesion.wf(LINEAR_COEF_LIMIT as int)
        &&& self.mouse.wf(INVERSE_SQUARE_COEF_LIMIT as int)
    }

    /// The inner edges of the arena: a centered rectangle less the margin.
    pub open spec fn left(self) -> int {
        -(self.arena_width / 2) + self.margin
    }

    pub open spec fn right(self) -> int {
        self.arena_width / 2 - self.margin
    }

    pub open spec fn bottom(self) -> int {
        -(self.arena_height / 2) + self.margin
    }

    pub open spec fn top(self) -> int {
        self.arena_height / 2 - self.margin
    }

    /// The documented defaults: 200 agents spawned in 500 x 500 pixels, a
    /// 700 x 500 window with a margin of 20, a top speed of 100 pixels per
    /// second, and the rules' coefficients, radii and apertures.
    pub fn default_config() -> (r: Config)
        ensures
            r.wf(),
            r.agent_count == 200,
            r.spawn_width == 500 * UNITS_PER_PIXEL,
            r.spawn_height == 500 * UNITS_PER_PIXEL,
            r.arena_width == 700 * UNITS_PER_PIXEL,
            r.arena_height == 500 * UNITS_PER_PIXEL,
            r.margin == 20 * UNITS_PER_PIXEL,
            r.max_speed == 100 * UNITS_PER_PIXEL,
            r.separation.coefficient == 500 * UNITS_PER_PIXEL * UNITS_PER_PIXEL,
            r.separation.radius == 120 * UNITS_PER_PIXEL,
            r.separation.angle == (SightAngle { cos_num: -1i64, cos_den: 1 }),
            r.separation_min_range == 0,
            r.alignment.coefficient == 1,
            r.alignment.radius == 30 * UNITS_PER_PIXEL,
            r.alignment.angle == (SightAngle { cos_num: 1, cos_den: 2 }),
            r.cohesion.coefficient == 10,
            r.cohesion.radius == 80 * UNITS_PER_PIXEL,
            r.cohesion.angle == (SightAngle { cos_num: -433i64, cos_den: 500 }),
            r.mouse.coefficient == 30000 * UNITS_PER_PIXEL * UNITS_PER_PIXEL,
            r.mouse.radius == 240 * UNITS_PER_PIXEL,
            r.mouse.angle == (SightAngle { cos_num: 1, cos_den: 2 }),
    {
        Config {
            agent_count: 200,
            spawn_width: 500 * UNITS_PER_PIXEL,
            spawn_height: 500 * UNITS_PER_PIXEL,
            arena_width: 700 * UNITS_PER_PIXEL,
            arena_height: 500 * UNITS_PER_PIXEL,
            margin: 20 * UNITS_PER_PIXEL,
            max_speed: 100 * UNITS_PER_PIXEL,
            separation: Behavior {
                coefficient: 500 * UNITS_PER_PIXEL * UNITS_PER_PIXEL,
                radius: 120 * UNITS_PER_PIXEL,
                angle: SightAngle { cos_num: -1, cos_den: 1 },
            },
            separation_min_range: 0,
            alignment: Behavior {
                coefficient: 1,
                radius: 30 * UNITS_PER_PIXEL,
                angle: SightAngle { cos_num: 1, cos_den: 2 },
            },
            cohesion: Behavior {
                coefficient: 10,
                radius: 80 * UNITS_PER_PIXEL,
                angle: SightAngle { cos_num: -433, cos_den: 500 },
            },
            mouse: Behavior {
                coefficient: 30000 * UNITS_PER_PIXEL * UNITS_PER_PIXEL,
                radius: 240 * UNITS_PER_PIXEL,
                angle: SightAngle { cos_num: 1, cos_den: 2 },
            },
        }
    }
}

/// One simulated agent. `force` is recomputed by every force pass.
#[derive(Clone, Copy, Debug, PartialEq, Eq, Structural)]
pub struct Agent {
    pub id: usize,
    pub position: Vector,
    pub velocity: Vector,
    pub force: Vector,
}

impl Agent {
    pub open spec fn wf(self) -> bool {
        &&& bounded(self.position@, COORD_LIMIT as int)
        &&& bounded(self.velocity@, COORD_LIMIT as int)
    }
}

/// The mouse as the simulation sees it during one tick: the cursor in arena
/// coordinates, if it is inside the window, and the two buttons.
#[derive(Clone, Copy, Debug, PartialEq, Eq, Structural)]
pub struct MouseInput {
    pub cursor: Option<Vector>,
    pub left: bool,
    pub right: bool,
}

impl MouseInput {
    pub open spec fn wf(self) -> bool {
        self.cursor matches Some(c) ==> bounded(c@, COORD_LIMIT as int)
    }
}

/// Turns window coordinates (origin at the top left, y downwards) into arena
/// coordinates (origin at the center, y upwards).
pub fn cursor_to_arena(cursor: &Vector, width: i64, height: i64) -> (r: Vector)
    requires
        bounded(cursor@, COORD_LIMIT as int),
        0 < width <= COORD_LIMIT,
        0 < height <= COORD_LIMIT,
    ensures
        r@ == (cursor.x - width / 2, -(cursor.y - height / 2)),
{
    Vector { x: cursor.x - width / 2, y: -(cursor.y - height / 2) }
}

} // verus!
