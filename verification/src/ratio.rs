//! Exact movement ratios.
//!
//! The fraction of an attempted movement that is safe to apply is kept
//! as a rational number `num/den` with `0 <= num <= den`, never rounded.
//! Comparisons cross-multiply in 128-bit arithmetic, so they are exact
//! for every ratio the geometry can produce.

use vstd::prelude::*;

use crate::vec2::{div_trunc, iabs, lemma_mul_bound, trunc_div, IVec, Vec2, MAX_COORD};

verus! {

/// Mathematical model of a ratio: `num/den` over unbounded integers.
pub struct IRatio {
    pub num: int,
    pub den: int,
}

impl IRatio {
    /// A well-formed ratio lies in `[0, 1]` and has a positive denominator.
    pub open spec fn wf(self) -> bool {
        0 < self.den && 0 <= self.num <= self.den
    }

    /// `self <= o` as rational numbers.
    pub open spec fn le(self, o: IRatio) -> bool {
        self.num * o.den <= o.num * self.den
    }

    /// `self < o` as rational numbers.
    pub open spec fn lt(self, o: IRatio) -> bool {
        self.num * o.den < o.num * self.den
    }

    pub open spec fn is_zero(self) -> bool {
        self.num == 0
    }

    pub open spec fn is_one(self) -> bool {
        self.num == self.den
    }

    /// The remaining fraction `1 - self`.
    pub open spec fn complement(self) -> IRatio {
        IRatio { num: self.den - self.num, den: self.den }
    }
}

/// Executable fraction of an attempted movement vector, in `[0, 1]`.
#[derive(Clone, Copy, Debug, PartialEq, Eq, Structural)]
pub struct Ratio {
    pub num: i64,
    pub den: i64,
}

impl View for Ratio {
    type V = IRatio;

    open spec fn view(&self) -> IRatio {
        IRatio { num: self.num as int, den: self.den as int }
    }
}

impl Ratio {
    pub open spec fn wf(self) -> bool {
        self@.wf()
    }

    pub fn new(num: i64, den: i64) -> (r: Ratio)
        requires
            0 < den,
            0 <= num <= den,
        ensures
            r@ == (IRatio { num: num as int, den: den as int }),
            r.wf(),
    {
        Ratio { num, den }
    }

    /// `self <= o` as rational numbers, by exact cross-multiplication.
    pub fn le(self, o: Ratio) -> (r: bool)
        requires
            self.wf(),
            o.wf(),
        ensures
            r == self@.le(o@),
    {
        proof {
            lemma_cross_mul_fits(self@, o@);
        }
        (self.num as i128) * (o.den as i128) <= (o.num as i128) * (self.den as i128)
    }

    /// `self < o` as rational numbers, by exact cross-multiplication.
    pub fn lt(self, o: Ratio) -> (r: bool)
        requires
            self.wf(),
            o.wf(),
        ensures
            r == self@.lt(o@),
    {
        proof {
            lemma_cross_mul_fits(self@, o@);
        }
        (self.num as i128) * (o.den as i128) < (o.num as i128) * (self.den as i128)
    }

    pub fn is_zero(self) -> (r: bool)
        ensures
            r == self@.is_zero(),
    {
        self.num == 0
    }

    pub fn is_one(self) -> (r: bool)
        ensures
            r == self@.is_one(),
    {
        self.num == self.den
    }

    /// The remaining fraction `1 - self`.
    pub fn complement(self) -> (r: Ratio)
        requires
            self.wf(),
        ensures
            r@ == self@.complement(),
            r.wf(),
    {
        Ratio { num: self.den - self.num, den: self.den }
    }
}

/// The cross-multiplied products of two ratios with 64-bit fields fit `i128`.
proof fn lemma_cross_mul_fits(a: IRatio, b: IRatio)
    requires
        -0x8000_0000_0000_0000 <= a.num <= 0x8000_0000_0000_0000,
        -0x8000_0000_0000_0000 <= a.den <= 0x8000_0000_0000_0000,
        -0x8000_0000_0000_0000 <= b.num <= 0x8000_0000_0000_0000,
        -0x8000_0000_0000_0000 <= b.den <= 0x8000_0000_0000_0000,
    ensures
        -0x4000_0000_0000_0000_0000_0000_0000_0000 <= a.num * b.den
            <= 0x4000_0000_0000_0000_0000_0000_0000_0000,
        -0x4000_0000_0000_0000_0000_0000_0000_0000 <= b.num * a.den
            <= 0x4000_0000_0000_0000_0000_0000_0000_0000,
{
    lemma_mul_bound(a.num, b.den, 0x8000_0000_0000_0000, 0x8000_0000_0000_0000);
    lemma_mul_bound(b.num, a.den, 0x8000_0000_0000_0000, 0x8000_0000_0000_0000);
    assert(0x8000_0000_0000_0000int * 0x8000_0000_0000_0000int
        == 0x4000_0000_0000_0000_0000_0000_0000_0000int);
}

/// `v` scaled by the ratio `r`, each coordinate truncated toward zero.
pub open spec fn scale_ivec(v: IVec, r: IRatio) -> IVec {
    IVec { x: trunc_div(v.x * r.num, r.den), y: trunc_div(v.y * r.num, r.den) }
}

/// Scaling by a well-formed ratio never grows a coordinate.
pub proof fn lemma_scale_shrinks(v: IVec, r: IRatio)
    requires
        r.wf(),
    ensures
        iabs(scale_ivec(v, r).x) <= iabs(v.x),
        iabs(scale_ivec(v, r).y) <= iabs(v.y),
{
    lemma_scale_coord_shrinks(v.x, r);
    lemma_scale_coord_shrinks(v.y, r);
}

proof fn lemma_scale_coord_shrinks(c: int, r: IRatio)
    requires
        r.wf(),
    ensures
        iabs(trunc_div(c * r.num, r.den)) <= iabs(c),
{
    let n = c * r.num;
    if n >= 0 {
        vstd::arithmetic::div_mod::lemma_div_pos_is_pos(n, r.den);
    } else {
        vstd::arithmetic::div_mod::lemma_div_pos_is_pos(-n, r.den);
    }
    assert(iabs(trunc_div(n, r.den)) == iabs(n) / r.den);
    assert(iabs(n) <= iabs(c) * r.den) by (nonlinear_arith)
        requires
            n == c * r.num,
            0 <= r.num <= r.den,
    ;
    vstd::arithmetic::div_mod::lemma_div_is_ordered(iabs(n), iabs(c) * r.den, r.den);
    vstd::arithmetic::div_mod::lemma_div_by_multiple(iabs(c), r.den);
}

impl Vec2 {
    /// Scales `self` by the ratio `r`, truncating each coordinate toward
    /// zero, so the scaled movement never overshoots the exact one.
    pub fn scale(self, r: Ratio) -> (s: Vec2)
        requires
            r.wf(),
            self@.in_range(MAX_COORD as int),
        ensures
            s@ == scale_ivec(self@, r@),
            iabs(s@.x) <= iabs(self@.x),
            iabs(s@.y) <= iabs(self@.y),
    {
        proof {
            lemma_mul_bound(self@.x, r@.num, 0x2000_0000, 0x8000_0000_0000_0000);
            lemma_mul_bound(self@.y, r@.num, 0x2000_0000, 0x8000_0000_0000_0000);
            assert(0x2000_0000int * 0x8000_0000_0000_0000int
                == 0x1000_0000_0000_0000_0000_0000int);
            lemma_scale_shrinks(self@, r@);
        }
        let sx: i128 = div_trunc((self.x as i128) * (r.num as i128), r.den as i128);
        let sy: i128 = div_trunc((self.y as i128) * (r.num as i128), r.den as i128);
        Vec2 { x: sx as i64, y: sy as i64 }
    }
}

} // verus!
