//! Exact rational scalars for the tableau.
//!
//! A `Rat` is a fraction of two machine integers with a positive
//! denominator. Arithmetic is exact: each operation either returns the
//! mathematically correct fraction or reports, through `None`, that its
//! numerator or denominator does not fit in a machine word. Comparisons
//! are total and never fail, since cross-multiplication of two 64-bit
//! words always fits in 128 bits.

use vstd::prelude::*;

verus! {

/// A rational number `num / den`. Well-formed values keep `den > 0`.
#[derive(Clone, Copy, PartialEq, Eq, Structural, Debug)]
pub struct Rat {
    pub num: i64,
    pub den: i64,
}

/// The unbounded mathematical value of a rational: a numerator and a
/// positive denominator, as mathematical integers. Fractions are not
/// reduced, so two distinct `RatVal`s can denote the same rational;
/// the comparisons below go by cross-multiplication.
pub ghost struct RatVal {
    pub num: int,
    pub den: int,
}

impl Rat {
    /// The mathematical value of this rational.
    pub open spec fn v(self) -> RatVal {
        RatVal { num: self.num as int, den: self.den as int }
    }

    /// The denominator is positive.
    pub open spec fn wf(self) -> bool {
        self.den > 0
    }

    /// Builds `num / den` from a positive denominator.
    pub fn new(num: i64, den: i64) -> (r: Rat)
        requires
            den > 0,
        ensures
            r.num == num,
            r.den == den,
            r.wf(),
    {
        Rat { num, den }
    }

    /// Builds the integer `n` as a rational.
    pub fn from_int(n: i64) -> (r: Rat)
        ensures
            r.num == n,
            r.den == 1,
            r.wf(),
    {
        Rat { num: n, den: 1 }
    }
}

/// The rational zero, `0 / 1`.
pub open spec fn rat_zero() -> Rat {
    Rat { num: 0, den: 1 }
}

/// The rational one, `1 / 1`.
pub open spec fn rat_one() -> Rat {
    Rat { num: 1, den: 1 }
}

pub open spec fn val_wf(a: RatVal) -> bool {
    a.den > 0
}

/// `a <= b` over mathematical rationals, by cross-multiplication.
/// Meaningful only for well-formed values.
pub open spec fn val_le(a: RatVal, b: RatVal) -> bool {
    a.num * b.den <= b.num * a.den
}

/// `a < b` over mathematical rationals.
pub open spec fn val_lt(a: RatVal, b: RatVal) -> bool {
    a.num * b.den < b.num * a.den
}

pub open spec fn add_val(a: RatVal, b: RatVal) -> RatVal {
    RatVal { num: a.num * b.den + b.num * a.den, den: a.den * b.den }
}

pub open spec fn sub_val(a: RatVal, b: RatVal) -> RatVal {
    RatVal { num: a.num * b.den - b.num * a.den, den: a.den * b.den }
}

pub open spec fn mul_val(a: RatVal, b: RatVal) -> RatVal {
    RatVal { num: a.num * b.num, den: a.den * b.den }
}

/// `a / b`, with the sign moved into the numerator so that the
/// denominator stays positive. Meaningful only when `b.num != 0`.
pub open spec fn div_val(a: RatVal, b: RatVal) -> RatVal {
    if b.num >= 0 {
        RatVal { num: a.num * b.den, den: a.den * b.num }
    } else {
        RatVal { num: -(a.num * b.den), den: -(a.den * b.num) }
    }
}

pub open spec fn in_i64(x: int) -> bool {
    i64::MIN <= x <= i64::MAX
}

/// Both components of the value fit in a machine word.
pub open spec fn val_fits(a: RatVal) -> bool {
    in_i64(a.num) && in_i64(a.den)
}

/// The product of two integers is bounded by the product of their bounds.
pub proof fn lemma_mul_bounds(x: int, y: int, bound_x: int, bound_y: int)
    by (nonlinear_arith)
    requires
        0 <= bound_x,
        0 <= bound_y,
        -bound_x <= x <= bound_x,
        -bound_y <= y <= bound_y,
    ensures
        -(bound_x * bound_y) <= x * y <= bound_x * bound_y,
{
}

/// The product of two positive integers is positive.
pub proof fn lemma_mul_pos(x: int, y: int)
    by (nonlinear_arith)
    requires
        x > 0,
        y > 0,
    ensures
        x * y > 0,
{
}

/// Multiplying by a positive integer preserves the sign.
pub proof fn lemma_mul_sign(x: int, y: int)
    by (nonlinear_arith)
    requires
        x > 0,
    ensures
        x * y > 0 <==> y > 0,
        x * y < 0 <==> y < 0,
        x * y == 0 <==> y == 0,
        x * y >= 0 <==> y >= 0,
        x * y == y * x,
{
}

/// A rational strictly below another is below everything the other is below.
pub proof fn lemma_val_lt_le_trans(a: RatVal, b: RatVal, c: RatVal)
    by (nonlinear_arith)
    requires
        val_wf(a),
        val_wf(b),
        val_wf(c),
        val_lt(a, b),
        val_le(b, c),
    ensures
        val_lt(a, c),
{
}

/// Both cross-products of two well-formed rationals fit in 128 bits,
/// with the slack needed to add or subtract them.
proof fn lemma_cross_products_fit(a: Rat, b: Rat)
    requires
        a.wf(),
        b.wf(),
    ensures
        -0x3fffffffffffffff8000000000000000 <= a.num * b.den
            <= 0x3fffffffffffffff8000000000000000,
        -0x3fffffffffffffff8000000000000000 <= b.num * a.den
            <= 0x3fffffffffffffff8000000000000000,
{
    lemma_mul_bounds(a.num as int, b.den as int, 0x8000000000000000, 0x7fffffffffffffff);
    lemma_mul_bounds(b.num as int, a.den as int, 0x8000000000000000, 0x7fffffffffffffff);
}

/// Exact addition; `None` when the result does not fit in a machine word.
pub fn rat_add(a: Rat, b: Rat) -> (r: Option<Rat>)
    requires
        a.wf(),
        b.wf(),
    ensures
        r is Some <==> val_fits(add_val(a.v(), b.v())),
        r matches Some(s) ==> s.v() == add_val(a.v(), b.v()) && s.wf(),
{
    proof {
        lemma_cross_products_fit(a, b);
        lemma_mul_bounds(a.den as int, b.den as int, 0x7fffffffffffffff, 0x7fffffffffffffff);
        lemma_mul_pos(a.den as int, b.den as int);
    }
    let n: i128 = (a.num as i128) * (b.den as i128) + (b.num as i128) * (a.den as i128);
    let d: i128 = (a.den as i128) * (b.den as i128);
    if i64::MIN as i128 <= n && n <= i64::MAX as i128 && d <= i64::MAX as i128 {
        Some(Rat { num: n as i64, den: d as i64 })
    } else {
        None
    }
}

/// Exact subtraction; `None` when the result does not fit in a machine word.
pub fn rat_sub(a: Rat, b: Rat) -> (r: Option<Rat>)
    requires
        a.wf(),
        b.wf(),
    ensures
        r is Some <==> val_fits(sub_val(a.v(), b.v())),
        r matches Some(s) ==> s.v() == sub_val(a.v(), b.v()) && s.wf(),
{
    proof {
        lemma_cross_products_fit(a, b);
        lemma_mul_bounds(a.den as int, b.den as int, 0x7fffffffffffffff, 0x7fffffffffffffff);
        lemma_mul_pos(a.den as int, b.den as int);
    }
    let n: i128 = (a.num as i128) * (b.den as i128) - (b.num as i128) * (a.den as i128);
    let d: i128 = (a.den as i128) * (b.den as i128);
    if i64::MIN as i128 <= n && n <= i64::MAX as i128 && d <= i64::MAX as i128 {
        Some(Rat { num: n as i64, den: d as i64 })
    } else {
        None
    }
}

/// Exact multiplication; `None` when the result does not fit in a machine word.
pub fn rat_mul(a: Rat, b: Rat) -> (r: Option<Rat>)
    requires
        a.wf(),
        b.wf(),
    ensures
        r is Some <==> val_fits(mul_val(a.v(), b.v())),
        r matches Some(s) ==> s.v() == mul_val(a.v(), b.v()) && s.wf(),
{
    proof {
        lemma_mul_bounds(a.num as int, b.num as int, 0x8000000000000000, 0x8000000000000000);
        lemma_mul_bounds(a.den as int, b.den as int, 0x7fffffffffffffff, 0x7fffffffffffffff);
        lemma_mul_pos(a.den as int, b.den as int);
    }
    let n: i128 = (a.num as i128) * (b.num as i128);
    let d: i128 = (a.den as i128) * (b.den as i128);
    if i64::MIN as i128 <= n && n <= i64::MAX as i128 && d <= i64::MAX as i128 {
        Some(Rat { num: n as i64, den: d as i64 })
    } else {
        None
    }
}

/// Exact division by a non-zero rational; `None` when the result does
/// not fit in a machine word.
pub fn rat_div(a: Rat, b: Rat) -> (r: Option<Rat>)
    requires
        a.wf(),
        b.wf(),
        b.num != 0,
    ensures
        r is Some <==> val_fits(div_val(a.v(), b.v())),
        r matches Some(s) ==> s.v() == div_val(a.v(), b.v()) && s.wf(),
{
    proof {
        lemma_cross_products_fit(a, b);
        lemma_mul_bounds(a.den as int, b.num as int, 0x7fffffffffffffff, 0x8000000000000000);
        lemma_mul_sign(a.den as int, b.num as int);
    }
    let mut n: i128 = (a.num as i128) * (b.den as i128);
    let mut d: i128 = (a.den as i128) * (b.num as i128);
    if d < 0 {
        n = -n;
        d = -d;
    }
    if i64::MIN as i128 <= n && n <= i64::MAX as i128 && d <= i64::MAX as i128 {
        Some(Rat { num: n as i64, den: d as i64 })
    } else {
        None
    }
}

/// Copies a vector of rationals element by element.
pub fn copy_rats(v: &Vec<Rat>) -> (r: Vec<Rat>)
    ensures
        r@ == v@,
{
    let mut out: Vec<Rat> = Vec::new();
    let mut i: usize = 0;
    while i < v.len()
        invariant
            i <= v@.len(),
            out@ == v@.subrange(0, i as int),
        decreases v@.len() - i,
    {
        out.push(v[i]);
        proof {
            assert(v@.subrange(0, i as int).push(v@[i as int]) =~= v@.subrange(0, i as int + 1));
        }
        i = i + 1;
    }
    proof {
        assert(out@ =~= v@);
    }
    out
}

/// Total comparison `a <= b`, by cross-multiplication in 128 bits.
pub fn rat_le(a: Rat, b: Rat) -> (r: bool)
    requires
        a.wf(),
        b.wf(),
    ensures
        r == val_le(a.v(), b.v()),
{
    proof {
        lemma_cross_products_fit(a, b);
    }
    (a.num as i128) * (b.den as i128) <= (b.num as i128) * (a.den as i128)
}

/// Total comparison `a < b`, by cross-multiplication in 128 bits.
pub fn rat_lt(a: Rat, b: Rat) -> (r: bool)
    requires
        a.wf(),
        b.wf(),
    ensures
        r == val_lt(a.v(), b.v()),
{
    proof {
        lemma_cross_products_fit(a, b);
    }
    (a.num as i128) * (b.den as i128) < (b.num as i128) * (a.den as i128)
}

} // verus!
