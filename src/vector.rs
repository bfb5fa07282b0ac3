//! Two-dimensional integer vectors shared by positions, velocities and forces.
use vstd::prelude::*;

verus! {

/// A pair of integers seen as a mathematical vector.
pub type IVec = (int, int);

pub open spec fn vadd(a: IVec, b: IVec) -> IVec {
    (a.0 + b.0, a.1 + b.1)
}

pub open spec fn vsub(a: IVec, b: IVec) -> IVec {
    (a.0 - b.0, a.1 - b.1)
}

pub open spec fn vneg(a: IVec) -> IVec {
    (-a.0, -a.1)
}

pub open spec fn vscale(a: IVec, k: int) -> IVec {
    (a.0 * k, a.1 * k)
}

/// Division rounding toward zero, as Rust's integer division does.
pub open spec fn trunc_div(a: int, b: int) -> int {
    if a >= 0 {
        a / b
    } else {
        -((-a) / b)
    }
}

pub open spec fn vdiv(a: IVec, k: int) -> IVec {
    (trunc_div(a.0, k), trunc_div(a.1, k))
}

pub open spec fn dot(a: IVec, b: IVec) -> int {
    a.0 * b.0 + a.1 * b.1
}

pub open spec fn norm_sq(a: IVec) -> int {
    dot(a, a)
}

/// Both components lie in `[-lim, lim]`.
pub open spec fn bounded(a: IVec, lim: int) -> bool {
    -lim <= a.0 <= lim && -lim <= a.1 <= lim
}

/// An integer vector used for positions, velocities and forces.
#[derive(Clone, Copy, Debug, PartialEq, Eq, Structural)]
pub struct Vector {
    pub x: i64,
    pub y: i64,
}

impl View for Vector {
    type V = IVec;

    open spec fn view(&self) -> IVec {
        (self.x as int, self.y as int)
    }
}

pub proof fn lemma_trunc_div_bound(a: int, b: int, lim: int)
    requires
        b > 0,
        -(lim * b) <= a <= lim * b,
    ensures
        -lim <= trunc_div(a, b) <= lim,
        a >= 0 ==> trunc_div(a, b) >= 0,
        a <= 0 ==> trunc_div(a, b) <= 0,
{
    if a >= 0 {
        assert(a / b <= lim) by (nonlinear_arith)
            requires b > 0, a >= 0, a <= lim * b;
        assert(a / b >= 0) by (nonlinear_arith)
            requires b > 0, a >= 0;
    } else {
        assert((-a) / b <= lim) by (nonlinear_arith)
            requires b > 0, -a >= 0, -a <= lim * b;
        assert((-a) / b >= 0) by (nonlinear_arith)
            requires b > 0, -a >= 0;
    }
}

/// A vector no longer than `lim` has both components within `lim`.
pub proof fn lemma_norm_bounds(a: IVec, lim: int)
    requires
        lim >= 0,
        norm_sq(a) <= lim * lim,
    ensures
        bounded(a, lim),
{
    assert(bounded(a, lim)) by (nonlinear_arith)
        requires a.0 * a.0 + a.1 * a.1 <= lim * lim, lim >= 0;
}

/// Integer division of `a` by a positive `b`, rounding toward zero.
pub fn div_trunc(a: i128, b: i128) -> (r: i128)
    requires
        b > 0,
        a > i128::MIN,
    ensures
        r == trunc_div(a as int, b as int),
{
    if a >= 0 {
        ((a as u128) / (b as u128)) as i128
    } else {
        let q = ((-a) as u128) / (b as u128);
        assert(q <= (-a) as u128) by (nonlinear_arith)
            requires q == ((-a) as u128) / (b as u128), b > 0, a < 0;
        -(q as i128)
    }
}

impl Vector {
    pub fn new(x: i64, y: i64) -> (r: Vector)
        ensures
            r@ == (x as int, y as int),
    {
        Vector { x, y }
    }

    /// The zero vector.
    pub fn origin() -> (r: Vector)
        ensures
            r@ == (0int, 0int),
    {
        Vector { x: 0, y: 0 }
    }

    pub fn add(&self, target: &Vector) -> (r: Vector)
        requires
            bounded(vadd(self@, target@), i64::MAX as int),
        ensures
            r@ == vadd(self@, target@),
    {
        Vector { x: self.x + target.x, y: self.y + target.y }
    }

    pub fn diff(&self, target: &Vector) -> (r: Vector)
        requires
            bounded(vsub(self@, target@), i64::MAX as int),
        ensures
            r@ == vsub(self@, target@),
    {
        Vector { x: self.x - target.x, y: self.y - target.y }
    }

    pub fn multiply(&self, k: i64) -> (r: Vector)
        requires
            bounded(vscale(self@, k as int), i64::MAX as int),
        ensures
            r@ == vscale(self@, k as int),
    {
        Vector { x: self.x * k, y: self.y * k }
    }

    /// Divides both components by a positive `k`, rounding toward zero.
    pub fn div(&self, k: i64) -> (r: Vector)
        requires
            k > 0,
            bounded(self@, i64::MAX as int),
        ensures
            r@ == vdiv(self@, k as int),
    {
        let qx = div_trunc(self.x as i128, k as i128);
        let qy = div_trunc(self.y as i128, k as i128);
        proof {
            let m = i64::MAX as int;
            assert(-(m * k) <= self.x <= m * k && -(m * k) <= self.y <= m * k) by (nonlinear_arith)
                requires k >= 1, m >= 0, -m <= self.x <= m, -m <= self.y <= m;
            lemma_trunc_div_bound(self.x as int, k as int, m);
            lemma_trunc_div_bound(self.y as int, k as int, m);
        }
        Vector { x: qx as i64, y: qy as i64 }
    }

    /// The dot product, computed without overflow.
    pub fn dot(&self, target: &Vector) -> (r: i128)
        requires
            bounded(self@, 0x4000_0000_0000_0000),
            bounded(target@, 0x4000_0000_0000_0000),
        ensures
            r == dot(self@, target@),
    {
        let ax = self.x as i128;
        let ay = self.y as i128;
        let bx = target.x as i128;
        let by = target.y as i128;
        assert(-0x1000_0000_0000_0000_0000_0000_0000_0000 <= ax * bx <= 0x1000_0000_0000_0000_0000_0000_0000_0000)
            by (nonlinear_arith)
            requires -0x4000_0000_0000_0000 <= ax <= 0x4000_0000_0000_0000,
                -0x4000_0000_0000_0000 <= bx <= 0x4000_0000_0000_0000;
        assert(-0x1000_0000_0000_0000_0000_0000_0000_0000 <= ay * by <= 0x1000_0000_0000_0000_0000_0000_0000_0000)
            by (nonlinear_arith)
            requires -0x4000_0000_0000_0000 <= ay <= 0x4000_0000_0000_0000,
                -0x4000_0000_0000_0000 <= by <= 0x4000_0000_0000_0000;
        ax * bx + ay * by
    }

    /// The squared distance between two points.
    pub fn distance_squared(&self, target: &Vector) -> (r: i128)
        requires
            bounded(vsub(target@, self@), 0x4000_0000_0000_0000),
        ensures
            r == norm_sq(vsub(target@, self@)),
    {
        target.diff(self).length_squared()
    }

    /// The squared Euclidean length.
    pub fn length_squared(&self) -> (r: i128)
        requires
            bounded(self@, 0x4000_0000_0000_0000),
        ensures
            r == norm_sq(self@),
    {
        self.dot(self)
    }
}

} // verus!
