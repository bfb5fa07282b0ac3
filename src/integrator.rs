//! The integrator: semi-implicit Euler step, boundary reflection and the
//! speed clamp.
use vstd::prelude::*;
use crate::config::{Agent, Config, COORD_LIMIT, FORCE_LIMIT, TICKS_PER_SECOND};
use crate::vector::{IVec, Vector, bounded, div_trunc, lemma_trunc_div_bound, norm_sq, trunc_div, vadd, vdiv, vscale};

verus! {

/// `r` is the least natural number whose square is at least `n`.
pub open spec fn is_ceil_sqrt(n: int, r: int) -> bool {
    &&& r >= 0
    &&& r * r >= n
    &&& (r == 0 || (r - 1) * (r - 1) < n)
}

/// The square root of `n`, rounded up.
pub open spec fn ceil_sqrt(n: int) -> int {
    choose|r: int| is_ceil_sqrt(n, r)
}

proof fn lemma_ceil_sqrt_unique(n: int, a: int, b: int)
    requires
        is_ceil_sqrt(n, a),
        is_ceil_sqrt(n, b),
    ensures
        a == b,
{
    if a < b {
        assert(a * a <= (b - 1) * (b - 1)) by (nonlinear_arith)
            requires 0 <= a <= b - 1;
    } else if b < a {
        assert(b * b <= (a - 1) * (a - 1)) by (nonlinear_arith)
            requires 0 <= b <= a - 1;
    }
}

/// The square root of `n`, rounded up.
pub fn ceil_sqrt_exec(n: u128) -> (r: u128)
    requires
        n <= 0x100_0000_0000_0000_0000_0000_0000,
    ensures
        r == ceil_sqrt(n as int),
        is_ceil_sqrt(n as int, r as int),
        r <= 0x10_0000_0000_0000,
{
    let mut lo: u128 = 0;
    let mut hi: u128 = 0x10_0000_0000_0000;
    if n == 0 {
        proof {
            assert(is_ceil_sqrt(0, 0));
            lemma_ceil_sqrt_unique(0, 0, ceil_sqrt(0));
        }
        return 0;
    }
    while hi - lo > 1
        invariant
            lo < hi <= 0x10_0000_0000_0000,
            lo * lo < n,
            hi * hi >= n,
        decreases hi - lo,
    {
        let mid = lo + (hi - lo) / 2;
        assert(mid * mid <= 0x100_0000_0000_0000_0000_0000_0000) by (nonlinear_arith)
            requires mid <= 0x10_0000_0000_0000;
        if mid * mid >= n {
            hi = mid;
        } else {
            lo = mid;
        }
    }
    proof {
        assert(is_ceil_sqrt(n as int, hi as int));
        lemma_ceil_sqrt_unique(n as int, hi as int, ceil_sqrt(n as int));
    }
    hi
}

/// Rescales `v` to length `max` when its length is `max` or more: each
/// component becomes `v * max / ceil_sqrt(|v|^2)`, rounded toward zero.
pub open spec fn clamp_speed(v: IVec, max: int) -> IVec {
    let n = norm_sq(v);
    if n >= max * max {
        let l = ceil_sqrt(n);
        (trunc_div(v.0 * max, l), trunc_div(v.1 * max, l))
    } else {
        v
    }
}

/// Mirrors `p` across the violated edge of `[lo, hi]` and flips `v`.
pub open spec fn reflect_axis(p: int, v: int, lo: int, hi: int) -> (int, int) {
    if p < lo {
        (2 * lo - p, -v)
    } else if p > hi {
        (2 * hi - p, -v)
    } else {
        (p, v)
    }
}

/// Boundary handling: reflection on each axis, then the speed clamp.
pub open spec fn bound_state(pos: IVec, vel: IVec, cfg: Config) -> (IVec, IVec) {
    let (px, vx) = reflect_axis(pos.0, vel.0, cfg.left(), cfg.right());
    let (py, vy) = reflect_axis(pos.1, vel.1, cfg.bottom(), cfg.top());
    ((px, py), clamp_speed((vx, vy), cfg.max_speed as int))
}

/// The position and velocity before boundary handling: the velocity takes
/// the force over `dt`, the position moves with the velocity held before.
pub open spec fn advance(a: Agent, dt: int) -> (IVec, IVec) {
    (
        vadd(a.position@, vdiv(vscale(a.velocity@, dt), TICKS_PER_SECOND as int)),
        vadd(a.velocity@, vdiv(vscale(a.force@, dt), TICKS_PER_SECOND as int)),
    )
}

/// One tick of the integrator for one agent.
pub open spec fn integrate(a: Agent, dt: int, cfg: Config) -> (IVec, IVec) {
    bound_state(advance(a, dt).0, advance(a, dt).1, cfg)
}

/// Inside the arena's inner rectangle.
pub open spec fn in_arena(p: IVec, cfg: Config) -> bool {
    cfg.left() <= p.0 <= cfg.right() && cfg.bottom() <= p.1 <= cfg.top()
}

/// Inside the window, which holds the arena and its margin.
pub open spec fn in_window(p: IVec, cfg: Config) -> bool {
    &&& -(cfg.arena_width / 2) <= p.0 <= cfg.arena_width / 2
    &&& -(cfg.arena_height / 2) <= p.1 <= cfg.arena_height / 2
}

/// An agent ready for a tick: in the window, at most the top speed on each
/// axis.
pub open spec fn ready(a: Agent, cfg: Config) -> bool {
    &&& in_window(a.position@, cfg)
    &&& bounded(a.velocity@, cfg.max_speed as int)
    &&& bounded(a.force@, FORCE_LIMIT as int)
}

proof fn lemma_ceil_sqrt_from(n: int, r: int)
    requires
        n >= 0,
        r >= 0,
        r == 0 || (r - 1) * (r - 1) < n,
    ensures
        is_ceil_sqrt(n, ceil_sqrt(n)),
    decreases n - r,
{
    if r * r >= n {
        assert(is_ceil_sqrt(n, r));
    } else {
        assert(r < n) by (nonlinear_arith)
            requires r >= 0, r * r < n;
        lemma_ceil_sqrt_from(n, r + 1);
    }
}

proof fn lemma_scaled_component(a: int, q: int, l: int)
    requires
        l > 0,
        q == trunc_div(a, l),
    ensures
        q * q * (l * l) <= a * a,
{
    if a >= 0 {
        assert(0 <= q * l <= a) by (nonlinear_arith)
            requires l > 0, a >= 0, q == a / l;
        assert(q * q * (l * l) <= a * a) by (nonlinear_arith)
            requires 0 <= q * l <= a;
    } else {
        assert(0 <= (-q) * l <= -a) by (nonlinear_arith)
            requires l > 0, -a >= 0, -q == (-a) / l;
        assert(q * q * (l * l) <= a * a) by (nonlinear_arith)
            requires 0 <= (-q) * l <= -a;
    }
}

/// The speed clamp leaves a velocity no longer than `max`.
pub proof fn lemma_clamp_within(v: IVec, max: int)
    requires
        max > 0,
    ensures
        norm_sq(clamp_speed(v, max)) <= max * max,
        bounded(clamp_speed(v, max), max),
{
    let n = norm_sq(v);
    let r = clamp_speed(v, max);
    if n >= max * max {
        let l = ceil_sqrt(n);
        assert(n >= 0) by (nonlinear_arith)
            requires n == v.0 * v.0 + v.1 * v.1;
        lemma_ceil_sqrt_from(n, 0);
        assert(l > 0) by (nonlinear_arith)
            requires l * l >= n, n >= max * max, max > 0, l >= 0;
        lemma_scaled_component(v.0 * max, r.0, l);
        lemma_scaled_component(v.1 * max, r.1, l);
        let ll = l * l;
        let m = max * max;
        let a = r.0 * r.0;
        let b = r.1 * r.1;
        assert((v.0 * max) * (v.0 * max) == (v.0 * v.0) * m) by (nonlinear_arith)
            requires m == max * max;
        assert((v.1 * max) * (v.1 * max) == (v.1 * v.1) * m) by (nonlinear_arith)
            requires m == max * max;
        assert((v.0 * v.0) * m + (v.1 * v.1) * m == m * n) by (nonlinear_arith)
            requires n == v.0 * v.0 + v.1 * v.1;
        assert(m * n <= m * ll) by (nonlinear_arith)
            requires m == max * max, n <= ll;
        assert((a + b) * ll == a * ll + b * ll) by (nonlinear_arith);
        assert(a * ll + b * ll <= m * ll);
        assert(ll > 0) by (nonlinear_arith)
            requires ll == l * l, l > 0;
        assert(a + b <= m) by (nonlinear_arith)
            requires (a + b) * ll <= m * ll, ll > 0;
    }
    assert(bounded(r, max)) by (nonlinear_arith)
        requires r.0 * r.0 + r.1 * r.1 <= max * max, max > 0;
}

/// Rescales a velocity of length `max` or more to length `max`.
pub fn clamp_velocity(v: &Vector, max: i64) -> (r: Vector)
    requires
        bounded(v@, 0x8_0000_0000_0000),
        0 < max <= COORD_LIMIT,
    ensures
        r@ == clamp_speed(v@, max as int),
        norm_sq(r@) <= max * max,
        bounded(r@, max as int),
{
    proof {
        lemma_clamp_within(v@, max as int);
    }
    let n = v.length_squared();
    assert(0 <= n <= 0x80_0000_0000_0000_0000_0000_0000) by (nonlinear_arith)
        requires n == v.x * v.x + v.y * v.y, -0x8_0000_0000_0000 <= v.x <= 0x8_0000_0000_0000,
            -0x8_0000_0000_0000 <= v.y <= 0x8_0000_0000_0000;
    let m = max as i128;
    assert(0 < m * m <= 0x1_0000_0000_0000) by (nonlinear_arith)
        requires 0 < m <= 0x100_0000;
    if n >= m * m {
        let l = ceil_sqrt_exec(n as u128) as i128;
        assert(l > 0) by (nonlinear_arith)
            requires l * l >= n, n >= m * m, m > 0, l >= 0;
        assert(-0x8_0000_0000_0000_0000_0000 <= (v.x as i128) * m <= 0x8_0000_0000_0000_0000_0000) by (nonlinear_arith)
            requires 0 < m <= 0x100_0000, -0x8_0000_0000_0000 <= v.x <= 0x8_0000_0000_0000;
        assert(-0x8_0000_0000_0000_0000_0000 <= (v.y as i128) * m <= 0x8_0000_0000_0000_0000_0000) by (nonlinear_arith)
            requires 0 < m <= 0x100_0000, -0x8_0000_0000_0000 <= v.y <= 0x8_0000_0000_0000;
        let qx = div_trunc((v.x as i128) * m, l);
        let qy = div_trunc((v.y as i128) * m, l);
        Vector { x: qx as i64, y: qy as i64 }
    } else {
        *v
    }
}

fn reflect(p: i64, v: i64, lo: i64, hi: i64) -> (r: (i64, i64))
    requires
        -0x1000_0000_0000_0000 <= p <= 0x1000_0000_0000_0000,
        -0x1000_0000_0000_0000 <= v <= 0x1000_0000_0000_0000,
        -0x100_0000 <= lo <= 0x100_0000,
        -0x100_0000 <= hi <= 0x100_0000,
    ensures
        (r.0 as int, r.1 as int) == reflect_axis(p as int, v as int, lo as int, hi as int),
{
    if p < lo {
        (2 * lo - p, -v)
    } else if p > hi {
        (2 * hi - p, -v)
    } else {
        (p, v)
    }
}

/// Boundary handling: each axis on which `pos` left the arena is mirrored
/// across the edge it crossed, with that velocity component negated; then a
/// velocity of `max_speed` or more is rescaled to `max_speed`.
pub fn bound(pos: &Vector, vel: &Vector, cfg: &Config) -> (r: (Vector, Vector))
    requires
        cfg.wf(),
        bounded(pos@, 0x1000_0000_0000_0000),
        bounded(vel@, 0x8_0000_0000_0000),
    ensures
        (r.0@, r.1@) == bound_state(pos@, vel@, *cfg),
        norm_sq(r.1@) <= cfg.max_speed * cfg.max_speed,
        bounded(r.1@, cfg.max_speed as int),
{
    let left = -(cfg.arena_width / 2) + cfg.margin;
    let right = cfg.arena_width / 2 - cfg.margin;
    let bottom = -(cfg.arena_height / 2) + cfg.margin;
    let top = cfg.arena_height / 2 - cfg.margin;
    let (px, vx) = reflect(pos.x, vel.x, left, right);
    let (py, vy) = reflect(pos.y, vel.y, bottom, top);
    let v = clamp_velocity(&Vector { x: vx, y: vy }, cfg.max_speed);
    (Vector { x: px, y: py }, v)
}

/// `v * dt / TICKS_PER_SECOND`, rounded toward zero: what a rate adds over
/// `dt`.
fn over_time(v: &Vector, dt: i64) -> (r: Vector)
    requires
        bounded(v@, FORCE_LIMIT as int),
        0 <= dt <= TICKS_PER_SECOND,
    ensures
        r@ == vdiv(vscale(v@, dt as int), TICKS_PER_SECOND as int),
        bounded(r@, FORCE_LIMIT as int),
        forall|b: int| #![trigger bounded(v@, b)] b >= 0 && bounded(v@, b) ==> bounded(r@, b),
{
    let t = TICKS_PER_SECOND as i128;
    let d = dt as i128;
    assert(-0x4_0000_0000_0000_0000_0000 <= (v.x as i128) * d <= 0x4_0000_0000_0000_0000_0000) by (nonlinear_arith)
        requires 0 <= d <= 1_000_000, -0x4_0000_0000_0000 <= v.x <= 0x4_0000_0000_0000;
    assert(-0x4_0000_0000_0000_0000_0000 <= (v.y as i128) * d <= 0x4_0000_0000_0000_0000_0000) by (nonlinear_arith)
        requires 0 <= d <= 1_000_000, -0x4_0000_0000_0000 <= v.y <= 0x4_0000_0000_0000;
    let qx = div_trunc((v.x as i128) * d, t);
    let qy = div_trunc((v.y as i128) * d, t);
    proof {
        assert forall|b: int| #![trigger bounded(v@, b)] b >= 0 && bounded(v@, b) implies bounded((qx as int, qy as int), b) by {
            assert(-(b * t) <= v.x * d <= b * t) by (nonlinear_arith)
                requires 0 <= d <= t, -b <= v.x <= b, b >= 0;
            assert(-(b * t) <= v.y * d <= b * t) by (nonlinear_arith)
                requires 0 <= d <= t, -b <= v.y <= b, b >= 0;
            lemma_trunc_div_bound(v.x * d, t as int, b);
            lemma_trunc_div_bound(v.y * d, t as int, b);
        }
        assert(bounded(v@, FORCE_LIMIT as int));
    }
    Vector { x: qx as i64, y: qy as i64 }
}

/// One tick for one agent: velocity and position advance over `dt`, then
/// boundary handling. The identity and the force are kept.
pub fn integrate_agent(a: &Agent, dt: i64, cfg: &Config) -> (r: Agent)
    requires
        cfg.wf(),
        a.wf(),
        bounded(a.force@, FORCE_LIMIT as int),
        0 <= dt <= TICKS_PER_SECOND,
    ensures
        r.id == a.id,
        r.force == a.force,
        (r.position@, r.velocity@) == integrate(*a, dt as int, *cfg),
        norm_sq(r.velocity@) <= cfg.max_speed * cfg.max_speed,
        bounded(r.velocity@, cfg.max_speed as int),
        ready(*a, *cfg) ==> in_arena(r.position@, *cfg),
{
    let dv = over_time(&a.force, dt);
    let dp = over_time(&a.velocity, dt);
    assert(bounded(a.velocity@, COORD_LIMIT as int));
    let vel_next = a.velocity.add(&dv);
    let pos_next = a.position.add(&dp);
    let (p, v) = bound(&pos_next, &vel_next, cfg);
    proof {
        if ready(*a, *cfg) {
            assert(bounded(a.velocity@, cfg.max_speed as int));
            lemma_reflection_lands_inside(pos_next@, vel_next@, *cfg);
        }
    }
    Agent { id: a.id, position: p, velocity: v, force: a.force }
}

/// One integrator pass over the population.
pub fn apply_force_system(agents: &mut Vec<Agent>, dt: i64, cfg: &Config)
    requires
        cfg.wf(),
        0 <= dt <= TICKS_PER_SECOND,
        forall|i: int| 0 <= i < old(agents).len() ==>
            (#[trigger] old(agents)[i]).wf() && bounded(old(agents)[i].force@, FORCE_LIMIT as int),
    ensures
        final(agents).len() == old(agents).len(),
        forall|i: int| 0 <= i < final(agents).len() ==> {
            &&& (#[trigger] final(agents)[i]).id == old(agents)[i].id
            &&& final(agents)[i].force == old(agents)[i].force
            &&& (final(agents)[i].position@, final(agents)[i].velocity@) == integrate(old(agents)[i], dt as int, *cfg)
            &&& norm_sq(final(agents)[i].velocity@) <= cfg.max_speed * cfg.max_speed
            &&& ready(old(agents)[i], *cfg) ==> in_arena(final(agents)[i].position@, *cfg)
        },
{
    let ghost before = agents@;
    let mut i: usize = 0;
    while i < agents.len()
        invariant
            0 <= i <= agents.len(),
            agents.len() == before.len(),
            cfg.wf(),
            0 <= dt <= TICKS_PER_SECOND,
            forall|k: int| 0 <= k < before.len() ==>
                (#[trigger] before[k]).wf() && bounded(before[k].force@, FORCE_LIMIT as int),
            forall|k: int| 0 <= k < i ==> {
                &&& (#[trigger] agents[k]).id == before[k].id
                &&& agents[k].force == before[k].force
                &&& (agents[k].position@, agents[k].velocity@) == integrate(before[k], dt as int, *cfg)
                &&& norm_sq(agents[k].velocity@) <= cfg.max_speed * cfg.max_speed
                &&& ready(before[k], *cfg) ==> in_arena(agents[k].position@, *cfg)
            },
            forall|k: int| i <= k < before.len() ==> #[trigger] agents[k] == before[k],
        decreases agents.len() - i,
    {
        proof {
            assert(before[i as int].wf());
        }
        let next = integrate_agent(&agents[i], dt, cfg);
        agents.set(i, next);
        i = i + 1;
    }
}

/// After boundary handling the position lies in the arena, whenever it had
/// left the arena by no more than the arena's own width (or height) on
/// each axis.
pub proof fn lemma_reflection_lands_inside(pos: IVec, vel: IVec, cfg: Config)
    requires
        cfg.wf(),
        2 * cfg.left() - cfg.right() <= pos.0 <= 2 * cfg.right() - cfg.left(),
        2 * cfg.bottom() - cfg.top() <= pos.1 <= 2 * cfg.top() - cfg.bottom(),
    ensures
        in_arena(bound_state(pos, vel, cfg).0, cfg),
{
}

/// Reflection is mirror-exact: an agent `delta` past the right edge, slower
/// than the top speed, ends `delta` inside it with its horizontal velocity
/// negated and nothing else changed.
pub proof fn lemma_reflection_mirrors_right(pos: IVec, vel: IVec, delta: int, cfg: Config)
    requires
        cfg.wf(),
        delta > 0,
        pos.0 == cfg.right() + delta,
        cfg.bottom() <= pos.1 <= cfg.top(),
        norm_sq(vel) < cfg.max_speed * cfg.max_speed,
    ensures
        bound_state(pos, vel, cfg).0 == (cfg.right() - delta, pos.1),
        bound_state(pos, vel, cfg).1 == (-vel.0, vel.1),
{
    assert(norm_sq((-vel.0, vel.1)) == norm_sq(vel)) by (nonlinear_arith);
}

/// The same at the left edge.
pub proof fn lemma_reflection_mirrors_left(pos: IVec, vel: IVec, delta: int, cfg: Config)
    requires
        cfg.wf(),
        delta > 0,
        pos.0 == cfg.left() - delta,
        cfg.bottom() <= pos.1 <= cfg.top(),
        norm_sq(vel) < cfg.max_speed * cfg.max_speed,
    ensures
        bound_state(pos, vel, cfg).0 == (cfg.left() + delta, pos.1),
        bound_state(pos, vel, cfg).1 == (-vel.0, vel.1),
{
    assert(norm_sq((-vel.0, vel.1)) == norm_sq(vel)) by (nonlinear_arith);
}

} // verus!
