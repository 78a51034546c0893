//! Integer 2D vectors and the coordinate budget.
//!
//! Coordinates are signed 64-bit sub-pixel units. The constants below
//! bound the magnitudes that each layer of the engine accepts, so that
//! every product and sum computed by the geometry fits its machine word:
//! crosses and dots of in-budget vectors fit `i64`, and the wider
//! products needed for ratio comparison and movement scaling fit `i128`.

use vstd::prelude::*;

verus! {

/// Largest coordinate magnitude the geometric primitives accept.
pub const MAX_COORD: i64 = 0x2000_0000;

/// Largest placement (world position) magnitude for a swept collision test.
pub const MAX_POSITION: i64 = 0x1000_0000;

/// Largest shape-local coordinate magnitude, and the bound on scene positions.
pub const MAX_EXTENT: i64 = 0x800_0000;

/// Largest movement component for a single swept collision test.
pub const MAX_MOVEMENT: i64 = 0x80_0000;

/// Largest movement component for one tick of movement resolution.
pub const MAX_STEP: i64 = 0x40_0000;

/// Mathematical model of a 2D vector: a pair of unbounded integers.
pub struct IVec {
    pub x: int,
    pub y: int,
}

impl IVec {
    pub open spec fn add(self, o: IVec) -> IVec {
        IVec { x: self.x + o.x, y: self.y + o.y }
    }

    pub open spec fn sub(self, o: IVec) -> IVec {
        IVec { x: self.x - o.x, y: self.y - o.y }
    }

    pub open spec fn neg(self) -> IVec {
        IVec { x: -self.x, y: -self.y }
    }

    pub open spec fn dot(self, o: IVec) -> int {
        self.x * o.x + self.y * o.y
    }

    /// The 2D cross product `x1*y2 - y1*x2`.
    pub open spec fn cross(self, o: IVec) -> int {
        self.x * o.y - self.y * o.x
    }

    /// Both components lie in `[-b, b]`.
    pub open spec fn in_range(self, b: int) -> bool {
        -b <= self.x <= b && -b <= self.y <= b
    }

    pub open spec fn is_zero(self) -> bool {
        self.x == 0 && self.y == 0
    }
}

/// Executable 2D vector of sub-pixel coordinates.
#[derive(Clone, Copy, Debug, PartialEq, Eq, Structural)]
pub struct Vec2 {
    pub x: i64,
    pub y: i64,
}

impl View for Vec2 {
    type V = IVec;

    open spec fn view(&self) -> IVec {
        IVec { x: self.x as int, y: self.y as int }
    }
}

/// Builds the vector `(x, y)`.
pub fn vec2(x: i64, y: i64) -> (r: Vec2)
    ensures
        r@ == (IVec { x: x as int, y: y as int }),
{
    Vec2 { x, y }
}

impl Vec2 {
    pub fn add(self, o: Vec2) -> (r: Vec2)
        requires
            i64::MIN <= self@.x + o@.x <= i64::MAX,
            i64::MIN <= self@.y + o@.y <= i64::MAX,
        ensures
            r@ == self@.add(o@),
    {
        Vec2 { x: self.x + o.x, y: self.y + o.y }
    }

    pub fn sub(self, o: Vec2) -> (r: Vec2)
        requires
            i64::MIN <= self@.x - o@.x <= i64::MAX,
            i64::MIN <= self@.y - o@.y <= i64::MAX,
        ensures
            r@ == self@.sub(o@),
    {
        Vec2 { x: self.x - o.x, y: self.y - o.y }
    }

    pub fn neg(self) -> (r: Vec2)
        requires
            i64::MIN < self@.x,
            i64::MIN < self@.y,
        ensures
            r@ == self@.neg(),
    {
        Vec2 { x: -self.x, y: -self.y }
    }

    /// Dot product, proved free of overflow from the coordinate budget.
    pub fn dot(self, o: Vec2) -> (r: i64)
        requires
            self@.in_range(2 * MAX_COORD),
            o@.in_range(2 * MAX_COORD),
        ensures
            r == self@.dot(o@),
    {
        proof {
            lemma_mul_bound(self@.x, o@.x, 0x4000_0000, 0x4000_0000);
            lemma_mul_bound(self@.y, o@.y, 0x4000_0000, 0x4000_0000);
            assert(0x4000_0000int * 0x4000_0000int == 0x1000_0000_0000_0000int);
        }
        self.x * o.x + self.y * o.y
    }

    /// 2D cross product, proved free of overflow from the coordinate budget.
    pub fn cross(self, o: Vec2) -> (r: i64)
        requires
            self@.in_range(2 * MAX_COORD),
            o@.in_range(2 * MAX_COORD),
        ensures
            r == self@.cross(o@),
    {
        proof {
            lemma_mul_bound(self@.x, o@.y, 0x4000_0000, 0x4000_0000);
            lemma_mul_bound(self@.y, o@.x, 0x4000_0000, 0x4000_0000);
            assert(0x4000_0000int * 0x4000_0000int == 0x1000_0000_0000_0000int);
        }
        self.x * o.y - self.y * o.x
    }
}

/// `|a| <= m` and `|b| <= n` bound the product: `|a * b| <= m * n`.
pub proof fn lemma_mul_bound(a: int, b: int, m: int, n: int)
    requires
        -m <= a <= m,
        -n <= b <= n,
    ensures
        -(m * n) <= a * b <= m * n,
{
    assert(-(m * n) <= a * b <= m * n) by (nonlinear_arith)
        requires
            -m <= a <= m,
            -n <= b <= n,
    ;
}

/// Absolute value of an unbounded integer.
pub open spec fn iabs(a: int) -> int {
    if a >= 0 {
        a
    } else {
        -a
    }
}

/// A coordinate of no greater magnitude has no greater square.
pub proof fn lemma_sq_le(a: int, b: int)
    requires
        iabs(a) <= iabs(b),
    ensures
        a * a <= b * b,
{
    assert(a * a <= b * b) by (nonlinear_arith)
        requires
            iabs(a) <= iabs(b),
            iabs(a) == (if a >= 0 { a } else { -a }),
            iabs(b) == (if b >= 0 { b } else { -b }),
    ;
}

/// Division truncated toward zero, for a positive divisor.
pub open spec fn trunc_div(a: int, b: int) -> int {
    if a >= 0 {
        a / b
    } else {
        -((-a) / b)
    }
}

/// Truncating division of a wide intermediate by a positive divisor.
pub fn div_trunc(a: i128, b: i128) -> (q: i128)
    requires
        0 < b,
        i128::MIN < a,
    ensures
        q == trunc_div(a as int, b as int),
        -(if a >= 0 { a as int } else { -(a as int) }) <= q
            <= (if a >= 0 { a as int } else { -(a as int) }),
{
    if a >= 0 {
        let q: i128 = a / b;
        proof {
            vstd::arithmetic::div_mod::lemma_div_pos_is_pos(a as int, b as int);
            vstd::arithmetic::div_mod::lemma_div_nonincreasing(a as int, b as int);
        }
        q
    } else {
        let neg: i128 = -a;
        let q: i128 = neg / b;
        proof {
            vstd::arithmetic::div_mod::lemma_div_pos_is_pos(neg as int, b as int);
            vstd::arithmetic::div_mod::lemma_div_nonincreasing(neg as int, b as int);
        }
        -q
    }
}

/// The component of `v` along `e`: `(v·e)·e / (e·e)`, each coordinate
/// truncated toward zero; the zero vector when `e` is zero.
pub open spec fn project_ivec(v: IVec, e: IVec) -> IVec {
    if e.is_zero() {
        IVec { x: 0, y: 0 }
    } else {
        IVec {
            x: trunc_div(v.dot(e) * e.x, e.dot(e)),
            y: trunc_div(v.dot(e) * e.y, e.dot(e)),
        }
    }
}

/// `(trunc_div(n, d))²·d² <= n²`, and `d·|trunc_div(n, d)| <= |n|`.
pub proof fn lemma_trunc_div_sq_bound(n: int, d: int)
    requires
        0 < d,
    ensures
        d * iabs(trunc_div(n, d)) <= iabs(n),
        trunc_div(n, d) * trunc_div(n, d) * (d * d) <= n * n,
{
    let q = iabs(trunc_div(n, d));
    if n >= 0 {
        vstd::arithmetic::div_mod::lemma_div_pos_is_pos(n, d);
    } else {
        vstd::arithmetic::div_mod::lemma_div_pos_is_pos(-n, d);
    }
    assert(q == iabs(n) / d);
    vstd::arithmetic::div_mod::lemma_fundamental_div_mod(iabs(n), d);
    vstd::arithmetic::div_mod::lemma_mod_division_less_than_divisor(iabs(n), d);
    assert(d * q <= iabs(n));
    assert((d * q) * (d * q) <= iabs(n) * iabs(n)) by (nonlinear_arith)
        requires
            0 <= d * q,
            d * q <= iabs(n),
    ;
    assert(trunc_div(n, d) * trunc_div(n, d) * (d * d) == (d * q) * (d * q)) by (nonlinear_arith)
        requires
            q == iabs(trunc_div(n, d)),
    ;
    assert(iabs(n) * iabs(n) == n * n) by (nonlinear_arith);
}

/// Lagrange's identity in two dimensions: the square of the dot product
/// plus the square of the cross product is the product of the squared
/// lengths.
pub proof fn lemma_lagrange_identity(vx: int, vy: int, ex: int, ey: int)
    ensures
        (vx * ex + vy * ey) * (vx * ex + vy * ey) + (vx * ey - vy * ex) * (vx * ey - vy * ex)
            == (vx * vx + vy * vy) * (ex * ex + ey * ey),
{
    let a = vx * ex;
    let b = vy * ey;
    let c = vx * ey;
    let d = vy * ex;
    assert(a * b == c * d) by (nonlinear_arith)
        requires
            a == vx * ex,
            b == vy * ey,
            c == vx * ey,
            d == vy * ex,
    ;
    assert((a + b) * (a + b) == a * a + 2 * (a * b) + b * b) by (nonlinear_arith);
    assert((c - d) * (c - d) == c * c - 2 * (c * d) + d * d) by (nonlinear_arith);
    assert((vx * vx) * (ex * ex) == a * a) by (nonlinear_arith)
        requires
            a == vx * ex,
    ;
    assert((vx * vx) * (ey * ey) == c * c) by (nonlinear_arith)
        requires
            c == vx * ey,
    ;
    assert((vy * vy) * (ex * ex) == d * d) by (nonlinear_arith)
        requires
            d == vy * ex,
    ;
    assert((vy * vy) * (ey * ey) == b * b) by (nonlinear_arith)
        requires
            b == vy * ey,
    ;
    assert((vx * vx + vy * vy) * (ex * ex + ey * ey) == (vx * vx) * (ex * ex) + (vx * vx) * (ey
        * ey) + (vy * vy) * (ex * ex) + (vy * vy) * (ey * ey)) by (nonlinear_arith);
}

/// Projection never grows a vector: the truncated projection of `v` onto
/// `e` has squared length at most `v·v`, and so does each of its
/// components squared.
pub proof fn lemma_project_shrinks(v: IVec, e: IVec)
    ensures
        project_ivec(v, e).dot(project_ivec(v, e)) <= v.dot(v),
        project_ivec(v, e).x * project_ivec(v, e).x <= v.dot(v),
        project_ivec(v, e).y * project_ivec(v, e).y <= v.dot(v),
{
    assert(v.x * v.x + v.y * v.y >= 0) by (nonlinear_arith);
    if e.is_zero() {
    } else {
        let d = e.dot(e);
        let a = v.dot(e);
        assert(d > 0) by (nonlinear_arith)
            requires
                d == e.x * e.x + e.y * e.y,
                !(e.x == 0 && e.y == 0),
        ;
        let px = trunc_div(a * e.x, d);
        let py = trunc_div(a * e.y, d);
        lemma_trunc_div_sq_bound(a * e.x, d);
        lemma_trunc_div_sq_bound(a * e.y, d);
        // Lagrange's identity gives the Cauchy-Schwarz bound a² <= (v·v)·d.
        let cr = v.cross(e);
        lemma_lagrange_identity(v.x, v.y, e.x, e.y);
        assert(cr * cr >= 0) by (nonlinear_arith);
        assert(a * a <= (v.dot(v)) * d);
        assert((a * e.x) * (a * e.x) + (a * e.y) * (a * e.y) == (a * a) * d) by (nonlinear_arith)
            requires
                d == e.x * e.x + e.y * e.y,
        ;
        assert((px * px + py * py) * (d * d) <= ((v.dot(v)) * d) * d) by (nonlinear_arith)
            requires
                px * px * (d * d) <= (a * e.x) * (a * e.x),
                py * py * (d * d) <= (a * e.y) * (a * e.y),
                (a * e.x) * (a * e.x) + (a * e.y) * (a * e.y) == (a * a) * d,
                a * a <= (v.dot(v)) * d,
                d > 0,
        ;
        assert(px * px + py * py <= v.dot(v)) by (nonlinear_arith)
            requires
                (px * px + py * py) * (d * d) <= ((v.dot(v)) * d) * d,
                d > 0,
        ;
        assert(px * px >= 0 && py * py >= 0) by (nonlinear_arith);
    }
}

impl Vec2 {
    /// Projects `self` onto the direction of `e`, truncating toward zero;
    /// returns the zero vector when `e` is zero.
    pub fn project_onto(self, e: Vec2) -> (p: Vec2)
        requires
            self@.in_range(MAX_COORD as int),
            e@.in_range(2 * MAX_COORD as int),
        ensures
            p@ == project_ivec(self@, e@),
    {
        if e.x == 0 && e.y == 0 {
            return Vec2 { x: 0, y: 0 };
        }
        let d: i64 = e.dot(e);
        let a: i64 = self.dot(e);
        proof {
            assert(d > 0) by (nonlinear_arith)
                requires
                    d == e@.x * e@.x + e@.y * e@.y,
                    !(e@.x == 0 && e@.y == 0),
            ;
            lemma_mul_bound(a as int, e@.x, 0x8000_0000_0000_0000, 0x4000_0000);
            lemma_mul_bound(a as int, e@.y, 0x8000_0000_0000_0000, 0x4000_0000);
            assert(0x8000_0000_0000_0000int * 0x4000_0000int == 0x2000_0000_0000_0000_0000_0000int);
            lemma_project_shrinks(self@, e@);
        }
        let px: i128 = div_trunc((a as i128) * (e.x as i128), d as i128);
        let py: i128 = div_trunc((a as i128) * (e.y as i128), d as i128);
        proof {
            assert(self@.dot(self@) <= 0x0800_0000_0000_0000int) by {
                lemma_mul_bound(self@.x, self@.x, 0x2000_0000, 0x2000_0000);
                lemma_mul_bound(self@.y, self@.y, 0x2000_0000, 0x2000_0000);
                assert(0x2000_0000int * 0x2000_0000int == 0x0400_0000_0000_0000int);
            }
            assert(-0x4000_0000 <= px <= 0x4000_0000) by (nonlinear_arith)
                requires
                    px * px <= 0x0800_0000_0000_0000int,
            ;
            assert(-0x4000_0000 <= py <= 0x4000_0000) by (nonlinear_arith)
                requires
                    py * py <= 0x0800_0000_0000_0000int,
            ;
        }
        Vec2 { x: px as i64, y: py as i64 }
    }
}

} // verus!
