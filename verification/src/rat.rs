//! Exact rational scalars.
//!
//! A [`Rat`] is a fraction of two `i64` values with a positive denominator.
//! Fractions are not kept reduced; two values are equal when they cross
//! multiply to the same product, which [`qr_eq`] captures at the spec level.

use vstd::prelude::*;

verus! {

/// Mathematical (unbounded) image of a rational: a numerator and a positive
/// denominator, both as `int`.  All contracts in this crate speak of values
/// of this type.
pub ghost struct QRat {
    pub n: int,
    pub d: int,
}

/// Well-formedness of a mathematical rational: the denominator is positive.
pub open spec fn qr_wf(a: QRat) -> bool {
    a.d > 0
}

/// Equality of rational values: `a.n / a.d == b.n / b.d` by cross
/// multiplication.
pub open spec fn qr_eq(a: QRat, b: QRat) -> bool {
    a.n * b.d == b.n * a.d
}

/// Order on rational values with positive denominators, by cross
/// multiplication.
pub open spec fn qr_le(a: QRat, b: QRat) -> bool {
    a.n * b.d <= b.n * a.d
}

/// Strict order on rational values with positive denominators.
pub open spec fn qr_lt(a: QRat, b: QRat) -> bool {
    a.n * b.d < b.n * a.d
}

/// The rational value of the integer `k`.
pub open spec fn qr_int(k: int) -> QRat {
    QRat { n: k, d: 1 }
}

/// An executable rational number: `num / den` with `den > 0`.
#[derive(Clone, Copy, Debug, PartialEq, Eq, Structural)]
pub struct Rat {
    /// Numerator.
    pub num: i64,
    /// Denominator; kept strictly positive.
    pub den: i64,
}

impl View for Rat {
    type V = QRat;

    open spec fn view(&self) -> QRat {
        QRat { n: self.num as int, d: self.den as int }
    }
}

/// The product of two `i64`-range values stays inside the `i128` range.
pub proof fn lemma_i64_prod_fits(x: int, y: int)
    by (nonlinear_arith)
    requires
        -0x8000_0000_0000_0000 <= x <= 0x7fff_ffff_ffff_ffff,
        -0x8000_0000_0000_0000 <= y <= 0x7fff_ffff_ffff_ffff,
    ensures
        -0x4000_0000_0000_0000_0000_0000_0000_0000 <= x * y
            <= 0x4000_0000_0000_0000_0000_0000_0000_0000,
{
}

/// The product of two positive values is positive.
pub proof fn lemma_pos_prod(x: int, y: int)
    by (nonlinear_arith)
    requires
        x > 0,
        y > 0,
    ensures
        x * y > 0,
{
}

impl Rat {
    /// Well-formedness carried by every `Rat` this crate hands out.
    pub open spec fn wf(self) -> bool {
        qr_wf(self@)
    }

    /// Builds the rational `num / den`.
    pub fn new(num: i64, den: i64) -> (r: Rat)
        requires
            den > 0,
        ensures
            r.wf(),
            r@ == (QRat { n: num as int, d: den as int }),
    {
        Rat { num, den }
    }

    /// Builds the rational equal to the integer `k`.
    pub fn from_int(k: i64) -> (r: Rat)
        ensures
            r.wf(),
            r@ == qr_int(k as int),
    {
        Rat { num: k, den: 1 }
    }

    /// Exact comparison `self <= other` by cross multiplication.
    pub fn le(&self, other: &Rat) -> (r: bool)
        requires
            self.wf(),
            other.wf(),
        ensures
            r == qr_le(self@, other@),
    {
        proof {
            lemma_i64_prod_fits(self.num as int, other.den as int);
            lemma_i64_prod_fits(other.num as int, self.den as int);
        }
        (self.num as i128) * (other.den as i128) <= (other.num as i128) * (self.den as i128)
    }

    /// Exact comparison `self < other` by cross multiplication.
    pub fn lt(&self, other: &Rat) -> (r: bool)
        requires
            self.wf(),
            other.wf(),
        ensures
            r == qr_lt(self@, other@),
    {
        proof {
            lemma_i64_prod_fits(self.num as int, other.den as int);
            lemma_i64_prod_fits(other.num as int, self.den as int);
        }
        (self.num as i128) * (other.den as i128) < (other.num as i128) * (self.den as i128)
    }

    /// Exact equality of values, `self == other` as fractions.
    pub fn eq_val(&self, other: &Rat) -> (r: bool)
        requires
            self.wf(),
            other.wf(),
        ensures
            r == qr_eq(self@, other@),
    {
        proof {
            lemma_i64_prod_fits(self.num as int, other.den as int);
            lemma_i64_prod_fits(other.num as int, self.den as int);
        }
        (self.num as i128) * (other.den as i128) == (other.num as i128) * (self.den as i128)
    }
}

/// Value equality is transitive on well-formed rationals.
pub proof fn lemma_qr_eq_trans(a: QRat, b: QRat, c: QRat)
    by (nonlinear_arith)
    requires
        qr_wf(a),
        qr_wf(b),
        qr_wf(c),
        qr_eq(a, b),
        qr_eq(b, c),
    ensures
        qr_eq(a, c),
{
}

/// The order respects value equality on the left.
pub proof fn lemma_qr_le_eq_left(a: QRat, a2: QRat, b: QRat)
    by (nonlinear_arith)
    requires
        qr_wf(a),
        qr_wf(a2),
        qr_wf(b),
        qr_eq(a, a2),
        qr_le(a, b),
    ensures
        qr_le(a2, b),
{
}

/// The order is transitive on well-formed rationals.
pub proof fn lemma_qr_le_trans(a: QRat, b: QRat, c: QRat)
    by (nonlinear_arith)
    requires
        qr_wf(a),
        qr_wf(b),
        qr_wf(c),
        qr_le(a, b),
        qr_le(b, c),
    ensures
        qr_le(a, c),
{
}

/// The strict order is also transitive through the weak order.
pub proof fn lemma_qr_lt_le_trans(a: QRat, b: QRat, c: QRat)
    by (nonlinear_arith)
    requires
        qr_wf(a),
        qr_wf(b),
        qr_wf(c),
        qr_lt(a, b),
        qr_le(b, c),
    ensures
        qr_lt(a, c),
{
}

/// The order is total: of two well-formed rationals one is below the other.
pub proof fn lemma_qr_le_total(a: QRat, b: QRat)
    requires
        qr_wf(a),
        qr_wf(b),
    ensures
        qr_le(a, b) || qr_le(b, a),
{
}

} // verus!
