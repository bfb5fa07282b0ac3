//! The visibility predicate: a disc of given radius, cut to a cone around
//! the observer's heading.
use vstd::prelude::*;
use crate::vector::{IVec, Vector, bounded, dot, norm_sq, vsub};

verus! {

/// Bound on the components of positions and of vectors between them that the
/// predicate accepts.
pub const SIGHT_COORD_LIMIT: i64 = 0x200_0000;

/// Bound on the denominator of a sight angle's cosine.
pub const COS_DEN_LIMIT: i64 = 1024;

/// The aperture of a cone of awareness, given by the cosine of half the
/// aperture as the fraction `cos_num / cos_den`: `(-1, 1)` sees all around,
/// `(1, 2)` is a cone of 120 degrees.
#[derive(Clone, Copy, Debug, PartialEq, Eq, Structural)]
pub struct SightAngle {
    pub cos_num: i64,
    pub cos_den: i64,
}

impl SightAngle {
    pub open spec fn wf(self) -> bool {
        1 <= self.cos_den <= COS_DEN_LIMIT && -self.cos_den <= self.cos_num <= self.cos_den
    }
}

/// The direction that stands for a vector; the zero vector points along +x.
pub open spec fn heading(v: IVec) -> IVec {
    if v == (0int, 0int) {
        (1int, 0int)
    } else {
        v
    }
}

/// For nonzero `a` and `b`, the cosine of the angle between them is at least
/// `num / den`, stated without square roots.
pub open spec fn within_angle(a: IVec, b: IVec, num: int, den: int) -> bool {
    let lhs = dot(a, b) * den;
    let rhs_sq = num * num * (norm_sq(a) * norm_sq(b));
    if num >= 0 {
        lhs >= 0 && lhs * lhs >= rhs_sq
    } else {
        lhs >= 0 || lhs * lhs <= rhs_sq
    }
}

/// `target` lies within `radius` of `origin`, and the direction from `origin`
/// to `target` makes an angle of at most half the aperture with the heading of
/// `velocity`. Both bounds are inclusive.
pub open spec fn in_range(origin: IVec, target: IVec, radius: int, velocity: IVec, angle: SightAngle) -> bool {
    let d = vsub(target, origin);
    &&& norm_sq(d) <= radius * radius
    &&& within_angle(heading(d), heading(velocity), angle.cos_num as int, angle.cos_den as int)
}

proof fn lemma_mul_le(a: int, b: int, ma: int, mb: int)
    requires
        0 <= a <= ma,
        0 <= b <= mb,
    ensures
        0 <= a * b <= ma * mb,
{
    assert(0 <= a * b <= ma * mb) by (nonlinear_arith)
        requires 0 <= a <= ma, 0 <= b <= mb;
}

proof fn lemma_dot_bound(a: IVec, b: IVec, ma: int, mb: int)
    requires
        bounded(a, ma),
        bounded(b, mb),
    ensures
        -2 * (ma * mb) <= dot(a, b) <= 2 * (ma * mb),
        0 <= norm_sq(a) <= 2 * (ma * ma),
{
    assert(-(ma * mb) <= a.0 * b.0 <= ma * mb) by (nonlinear_arith)
        requires -ma <= a.0 <= ma, -mb <= b.0 <= mb;
    assert(-(ma * mb) <= a.1 * b.1 <= ma * mb) by (nonlinear_arith)
        requires -ma <= a.1 <= ma, -mb <= b.1 <= mb;
    assert(0 <= a.0 * a.0 <= ma * ma) by (nonlinear_arith)
        requires -ma <= a.0 <= ma;
    assert(0 <= a.1 * a.1 <= ma * ma) by (nonlinear_arith)
        requires -ma <= a.1 <= ma;
}

fn heading_of(v: &Vector) -> (r: Vector)
    ensures
        r@ == heading(v@),
{
    if v.x == 0 && v.y == 0 {
        Vector { x: 1, y: 0 }
    } else {
        *v
    }
}

/// Whether `target_pos` is visible from `self_pos` for an observer moving
/// with `self_vel`, within `radius` and the aperture `angle`.
pub fn is_in_range(self_pos: &Vector, target_pos: &Vector, radius: i64, self_vel: &Vector, angle: SightAngle) -> (r: bool)
    requires
        bounded(vsub(target_pos@, self_pos@), SIGHT_COORD_LIMIT as int),
        bounded(self_vel@, SIGHT_COORD_LIMIT as int),
        0 <= radius <= 2 * SIGHT_COORD_LIMIT,
        angle.wf(),
    ensures
        r == in_range(self_pos@, target_pos@, radius as int, self_vel@, angle),
{
    let dist_sq = self_pos.distance_squared(target_pos);
    let r128 = radius as i128;
    assert(r128 * r128 <= 0x10_0000_0000_0000) by (nonlinear_arith)
        requires 0 <= r128 <= 0x400_0000;
    if dist_sq > r128 * r128 {
        return false;
    }
    let d = target_pos.diff(self_pos);
    let a = heading_of(&d);
    let h = heading_of(self_vel);
    let ghost lim = SIGHT_COORD_LIMIT as int;
    proof {
        lemma_dot_bound(a@, h@, lim, lim);
        lemma_dot_bound(h@, a@, lim, lim);
    }
    let dt = a.dot(&h);
    let na = a.length_squared();
    let nh = h.length_squared();
    let num = angle.cos_num as i128;
    let den = angle.cos_den as i128;
    assert(-0x2000_0000_0000_0000 <= dt * den <= 0x2000_0000_0000_0000) by (nonlinear_arith)
        requires -0x8_0000_0000_0000 <= dt <= 0x8_0000_0000_0000, 1 <= den <= 1024;
    let lhs = dt * den;
    assert(0 <= lhs * lhs <= 0x400_0000_0000_0000_0000_0000_0000_0000) by (nonlinear_arith)
        requires -0x2000_0000_0000_0000 <= lhs <= 0x2000_0000_0000_0000;
    assert(0 <= num * num <= 0x10_0000) by (nonlinear_arith)
        requires -1024 <= num <= 1024;
    proof {
        lemma_mul_le(na as int, nh as int, 0x8_0000_0000_0000, 0x8_0000_0000_0000);
        lemma_mul_le(num * num, na * nh, 0x10_0000, 0x40_0000_0000_0000_0000_0000_0000);
    }
    let rhs_sq = num * num * (na * nh);
    if num >= 0 {
        lhs >= 0 && lhs * lhs >= rhs_sq
    } else {
        lhs >= 0 || lhs * lhs <= rhs_sq
    }
}

} // verus!
