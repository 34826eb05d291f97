//! Points, free directions and rays.
//!
//! A [`Position`] is a point of 3-space (implicit homogeneous `w = 1`): it
//! participates in translation.  A [`Direction`] is a free vector (implicit
//! `w = 0`): translation leaves it unchanged.  Both store three numerators
//! over one shared positive denominator, so a whole vector is exact and its
//! components are the rationals `nx/den`, `ny/den`, `nz/den`.

use vstd::prelude::*;

use crate::rat::{lemma_i64_prod_fits, lemma_pos_prod, QRat, Rat};

verus! {

/// Mathematical image of a vector: three numerators over one positive
/// denominator, all unbounded.
pub ghost struct QV3 {
    pub x: int,
    pub y: int,
    pub z: int,
    pub d: int,
}

/// Mathematical image of a ray: an origin point and a direction.
pub ghost struct QRay {
    pub r0: QV3,
    pub v: QV3,
}

/// Well-formedness of a vector image: positive denominator.
pub open spec fn qv_wf(v: QV3) -> bool {
    v.d > 0
}

/// Componentwise value equality of two vectors, by cross multiplication.
pub open spec fn qv_eq(a: QV3, b: QV3) -> bool {
    &&& a.x * b.d == b.x * a.d
    &&& a.y * b.d == b.y * a.d
    &&& a.z * b.d == b.z * a.d
}

/// The zero vector.
pub open spec fn qv_zero() -> QV3 {
    QV3 { x: 0, y: 0, z: 0, d: 1 }
}

/// The vector with components `x`, `y`, `z` brought to the shared
/// denominator `x.d * y.d * z.d`.
pub open spec fn qv_make(x: QRat, y: QRat, z: QRat) -> QV3 {
    QV3 {
        x: x.n * y.d * z.d,
        y: y.n * x.d * z.d,
        z: z.n * x.d * y.d,
        d: x.d * y.d * z.d,
    }
}

/// Componentwise sum: numerators cross multiplied onto the product
/// denominator.
pub open spec fn qv_add(a: QV3, b: QV3) -> QV3 {
    QV3 {
        x: a.x * b.d + b.x * a.d,
        y: a.y * b.d + b.y * a.d,
        z: a.z * b.d + b.z * a.d,
        d: a.d * b.d,
    }
}

/// Componentwise negation.
pub open spec fn qv_neg(a: QV3) -> QV3 {
    QV3 { x: -a.x, y: -a.y, z: -a.z, d: a.d }
}

/// Dot product of the two vectors' values, ignoring the implicit homogeneous
/// coordinate: `(a.x*b.x + a.y*b.y + a.z*b.z) / (a.d*b.d)`.
pub open spec fn qv_dot(a: QV3, b: QV3) -> QRat {
    QRat { n: a.x * b.x + a.y * b.y + a.z * b.z, d: a.d * b.d }
}

/// Symmetric `i64` range; every stored numerator or denominator is proved to
/// lie in it.
pub open spec fn fits64(x: int) -> bool {
    -0x7fff_ffff_ffff_ffff <= x <= 0x7fff_ffff_ffff_ffff
}

/// Bound on a single product so that a sum of up to three such products is
/// still computable in 128-bit arithmetic.
pub open spec fn pfits(x: int, y: int) -> bool {
    -0x2000_0000_0000_0000_0000_0000_0000_0000 <= x * y
        <= 0x2000_0000_0000_0000_0000_0000_0000_0000
}

/// Machine bounds under which a three-term dot expression
/// `x1*y1 + x2*y2 + x3*y3` is computed exactly.
pub open spec fn dot3_fits(x1: int, y1: int, x2: int, y2: int, x3: int, y3: int) -> bool {
    &&& pfits(x1, y1)
    &&& pfits(x2, y2)
    &&& pfits(x3, y3)
    &&& fits64(x1 * y1 + x2 * y2 + x3 * y3)
}

/// Machine bounds under which [`qv_make`] is computed exactly.
pub open spec fn qv_make_fits(x: QRat, y: QRat, z: QRat) -> bool {
    &&& pfits(x.n * y.d, z.d)
    &&& pfits(y.n * x.d, z.d)
    &&& pfits(z.n * x.d, y.d)
    &&& pfits(x.d * y.d, z.d)
    &&& fits64(x.n * y.d * z.d)
    &&& fits64(y.n * x.d * z.d)
    &&& fits64(z.n * x.d * y.d)
    &&& fits64(x.d * y.d * z.d)
}

/// Machine bounds under which [`qv_add`] is computed exactly.
pub open spec fn qv_add_fits(a: QV3, b: QV3) -> bool {
    &&& pfits(a.x, b.d)
    &&& pfits(b.x, a.d)
    &&& pfits(a.y, b.d)
    &&& pfits(b.y, a.d)
    &&& pfits(a.z, b.d)
    &&& pfits(b.z, a.d)
    &&& fits64(a.x * b.d + b.x * a.d)
    &&& fits64(a.y * b.d + b.y * a.d)
    &&& fits64(a.z * b.d + b.z * a.d)
    &&& fits64(a.d * b.d)
}

/// Machine bounds under which [`qv_dot`] is computed exactly.
pub open spec fn qv_dot_fits(a: QV3, b: QV3) -> bool {
    &&& dot3_fits(a.x, b.x, a.y, b.y, a.z, b.z)
    &&& fits64(a.d * b.d)
}

/// A point of 3-space; participates in translation.
#[derive(Clone, Copy, Debug, PartialEq, Eq, Structural)]
pub struct Position {
    /// Numerator of the x component.
    pub nx: i64,
    /// Numerator of the y component.
    pub ny: i64,
    /// Numerator of the z component.
    pub nz: i64,
    /// Shared positive denominator of all three components.
    pub den: i64,
}

/// A free vector of 3-space; invariant under translation.
#[derive(Clone, Copy, Debug, PartialEq, Eq, Structural)]
pub struct Direction {
    /// Numerator of the x component.
    pub nx: i64,
    /// Numerator of the y component.
    pub ny: i64,
    /// Numerator of the z component.
    pub nz: i64,
    /// Shared positive denominator of all three components.
    pub den: i64,
}

/// A half line: all points `r0 + v*t` for `t >= 0`.  `v` need not be a unit
/// vector; the intersection solver accounts for its squared length.
#[derive(Clone, Copy, Debug, PartialEq, Eq, Structural)]
pub struct Ray {
    /// Origin of the ray.
    pub r0: Position,
    /// Direction of the ray.
    pub v: Direction,
}

impl View for Position {
    type V = QV3;

    open spec fn view(&self) -> QV3 {
        QV3 { x: self.nx as int, y: self.ny as int, z: self.nz as int, d: self.den as int }
    }
}

impl View for Direction {
    type V = QV3;

    open spec fn view(&self) -> QV3 {
        QV3 { x: self.nx as int, y: self.ny as int, z: self.nz as int, d: self.den as int }
    }
}

impl View for Ray {
    type V = QRay;

    open spec fn view(&self) -> QRay {
        QRay { r0: self.r0@, v: self.v@ }
    }
}

impl Position {
    /// Well-formedness: the shared denominator is positive.
    pub open spec fn wf(self) -> bool {
        qv_wf(self@)
    }

    /// Builds the point `(x, y, z)` over the shared denominator
    /// `x.den * y.den * z.den`.
    pub fn make(x: Rat, y: Rat, z: Rat) -> (r: Position)
        requires
            x.wf(),
            y.wf(),
            z.wf(),
            qv_make_fits(x@, y@, z@),
        ensures
            r.wf(),
            r@ == qv_make(x@, y@, z@),
    {
        proof {
            lemma_i64_prod_fits(x.num as int, y.den as int);
            lemma_i64_prod_fits(y.num as int, x.den as int);
            lemma_i64_prod_fits(z.num as int, x.den as int);
            lemma_i64_prod_fits(x.den as int, y.den as int);
            lemma_pos_prod(x.den as int, y.den as int);
            lemma_pos_prod(x.den as int * y.den as int, z.den as int);
        }
        Position {
            nx: ((x.num as i128) * (y.den as i128) * (z.den as i128)) as i64,
            ny: ((y.num as i128) * (x.den as i128) * (z.den as i128)) as i64,
            nz: ((z.num as i128) * (x.den as i128) * (y.den as i128)) as i64,
            den: ((x.den as i128) * (y.den as i128) * (z.den as i128)) as i64,
        }
    }

    /// The x component as a rational.
    pub fn _x(&self) -> (r: Rat)
        requires
            self.wf(),
        ensures
            r.wf(),
            r@ == (QRat { n: self@.x, d: self@.d }),
    {
        Rat { num: self.nx, den: self.den }
    }

    /// The y component as a rational.
    pub fn _y(&self) -> (r: Rat)
        requires
            self.wf(),
        ensures
            r.wf(),
            r@ == (QRat { n: self@.y, d: self@.d }),
    {
        Rat { num: self.ny, den: self.den }
    }

    /// The z component as a rational.
    pub fn _z(&self) -> (r: Rat)
        requires
            self.wf(),
        ensures
            r.wf(),
            r@ == (QRat { n: self@.z, d: self@.d }),
    {
        Rat { num: self.nz, den: self.den }
    }

    /// Moves the point by a free vector; the only affinely meaningful sum on
    /// points.
    pub fn add_dir(&self, rhs: &Direction) -> (r: Position)
        requires
            self.wf(),
            rhs.wf(),
            qv_add_fits(self@, rhs@),
        ensures
            r.wf(),
            r@ == qv_add(self@, rhs@),
    {
        proof {
            lemma_pos_prod(self.den as int, rhs.den as int);
        }
        Position {
            nx: ((self.nx as i128) * (rhs.den as i128) + (rhs.nx as i128) * (self.den as i128)) as i64,
            ny: ((self.ny as i128) * (rhs.den as i128) + (rhs.ny as i128) * (self.den as i128)) as i64,
            nz: ((self.nz as i128) * (rhs.den as i128) + (rhs.nz as i128) * (self.den as i128)) as i64,
            den: ((self.den as i128) * (rhs.den as i128)) as i64,
        }
    }

    /// Dot product with another point, ignoring the implicit `w` components.
    pub fn dot(&self, other: &Position) -> (r: Rat)
        requires
            self.wf(),
            other.wf(),
            qv_dot_fits(self@, other@),
        ensures
            r.wf(),
            r@ == qv_dot(self@, other@),
    {
        proof {
            lemma_pos_prod(self.den as int, other.den as int);
        }
        Rat {
            num: ((self.nx as i128) * (other.nx as i128) + (self.ny as i128) * (other.ny as i128)
                + (self.nz as i128) * (other.nz as i128)) as i64,
            den: ((self.den as i128) * (other.den as i128)) as i64,
        }
    }

    /// Dot product with a free vector, ignoring the implicit `w` components.
    pub fn dot_dir(&self, other: &Direction) -> (r: Rat)
        requires
            self.wf(),
            other.wf(),
            qv_dot_fits(self@, other@),
        ensures
            r.wf(),
            r@ == qv_dot(self@, other@),
    {
        proof {
            lemma_pos_prod(self.den as int, other.den as int);
        }
        Rat {
            num: ((self.nx as i128) * (other.nx as i128) + (self.ny as i128) * (other.ny as i128)
                + (self.nz as i128) * (other.nz as i128)) as i64,
            den: ((self.den as i128) * (other.den as i128)) as i64,
        }
    }
}

impl Direction {
    /// Well-formedness: the shared denominator is positive.
    pub open spec fn wf(self) -> bool {
        qv_wf(self@)
    }

    /// Builds the free vector `(x, y, z)` over the shared denominator
    /// `x.den * y.den * z.den`.
    pub fn make(x: Rat, y: Rat, z: Rat) -> (r: Direction)
        requires
            x.wf(),
            y.wf(),
            z.wf(),
            qv_make_fits(x@, y@, z@),
        ensures
            r.wf(),
            r@ == qv_make(x@, y@, z@),
    {
        proof {
            lemma_i64_prod_fits(x.num as int, y.den as int);
            lemma_i64_prod_fits(y.num as int, x.den as int);
            lemma_i64_prod_fits(z.num as int, x.den as int);
            lemma_i64_prod_fits(x.den as int, y.den as int);
            lemma_pos_prod(x.den as int, y.den as int);
            lemma_pos_prod(x.den as int * y.den as int, z.den as int);
        }
        Direction {
            nx: ((x.num as i128) * (y.den as i128) * (z.den as i128)) as i64,
            ny: ((y.num as i128) * (x.den as i128) * (z.den as i128)) as i64,
            nz: ((z.num as i128) * (x.den as i128) * (y.den as i128)) as i64,
            den: ((x.den as i128) * (y.den as i128) * (z.den as i128)) as i64,
        }
    }

    /// The zero vector.
    pub fn zero() -> (r: Direction)
        ensures
            r.wf(),
            r@ == qv_zero(),
    {
        Direction { nx: 0, ny: 0, nz: 0, den: 1 }
    }

    /// The x component as a rational.
    pub fn _x(&self) -> (r: Rat)
        requires
            self.wf(),
        ensures
            r.wf(),
            r@ == (QRat { n: self@.x, d: self@.d }),
    {
        Rat { num: self.nx, den: self.den }
    }

    /// The y component as a rational.
    pub fn _y(&self) -> (r: Rat)
        requires
            self.wf(),
        ensures
            r.wf(),
            r@ == (QRat { n: self@.y, d: self@.d }),
    {
        Rat { num: self.ny, den: self.den }
    }

    /// The z component as a rational.
    pub fn _z(&self) -> (r: Rat)
        requires
            self.wf(),
        ensures
            r.wf(),
            r@ == (QRat { n: self@.z, d: self@.d }),
    {
        Rat { num: self.nz, den: self.den }
    }

    /// Componentwise sum of two free vectors.
    pub fn add_dir(&self, rhs: &Direction) -> (r: Direction)
        requires
            self.wf(),
            rhs.wf(),
            qv_add_fits(self@, rhs@),
        ensures
            r.wf(),
            r@ == qv_add(self@, rhs@),
    {
        proof {
            lemma_pos_prod(self.den as int, rhs.den as int);
        }
        Direction {
            nx: ((self.nx as i128) * (rhs.den as i128) + (rhs.nx as i128) * (self.den as i128)) as i64,
            ny: ((self.ny as i128) * (rhs.den as i128) + (rhs.ny as i128) * (self.den as i128)) as i64,
            nz: ((self.nz as i128) * (rhs.den as i128) + (rhs.nz as i128) * (self.den as i128)) as i64,
            den: ((self.den as i128) * (rhs.den as i128)) as i64,
        }
    }

    /// Dot product with another free vector.
    pub fn dot(&self, other: &Direction) -> (r: Rat)
        requires
            self.wf(),
            other.wf(),
            qv_dot_fits(self@, other@),
        ensures
            r.wf(),
            r@ == qv_dot(self@, other@),
    {
        proof {
            lemma_pos_prod(self.den as int, other.den as int);
        }
        Rat {
            num: ((self.nx as i128) * (other.nx as i128) + (self.ny as i128) * (other.ny as i128)
                + (self.nz as i128) * (other.nz as i128)) as i64,
            den: ((self.den as i128) * (other.den as i128)) as i64,
        }
    }
}

impl Ray {
    /// Well-formedness: both parts have positive denominators.
    pub open spec fn wf(self) -> bool {
        self.r0.wf() && self.v.wf()
    }

    /// Builds a ray from an origin point and a direction.
    pub fn make(r0: Position, v: Direction) -> (r: Ray)
        requires
            r0.wf(),
            v.wf(),
        ensures
            r.wf(),
            r@ == (QRay { r0: r0@, v: v@ }),
    {
        Ray { r0, v }
    }
}

} // verus!
