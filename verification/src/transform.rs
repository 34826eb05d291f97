//! Named affine primitives and the transform-list compositor.
//!
//! Each [`TransformOp`] converts deterministically to one [`HMatrix`].  A
//! [`TransformList`] is an ordered sequence of ops attached to one scene
//! node; it folds right to left, so later ops in the list are applied closer
//! to the object and earlier ops are applied last.  Rotation angles are
//! given by their cosine and sine as exact rationals, since the angle itself
//! is in general not rational.

use vstd::prelude::*;

use crate::matrix::{
    qh_compose, qh_compose_fits, qh_id, qh_wf, qm_id, HMatrix, Matrix3x3, QHM, QM3,
};
use crate::rat::{lemma_i64_prod_fits, lemma_pos_prod, Rat};
use crate::vector::{fits64, qv_wf, qv_zero, Direction};

verus! {

/// One named affine primitive.
#[derive(Clone, Copy, Debug, PartialEq, Eq, Structural)]
pub enum TransformOp {
    /// Translation by an offset vector.
    Translate(Direction),
    /// Uniform scaling by one factor.
    UniformScale(Rat),
    /// Per-axis scaling by the components of a vector.
    Scale(Direction),
    /// Rotation about the x axis by the angle with this cosine and sine.
    RotateX { c: Rat, s: Rat },
    /// Rotation about the y axis by the angle with this cosine and sine.
    RotateY { c: Rat, s: Rat },
    /// Rotation about the z axis by the angle with this cosine and sine.
    RotateZ { c: Rat, s: Rat },
}

/// Well-formedness of an op: its rational parameters have positive
/// denominators.
pub open spec fn op_wf(op: TransformOp) -> bool {
    match op {
        TransformOp::Translate(t) => qv_wf(t@),
        TransformOp::UniformScale(k) => k.wf(),
        TransformOp::Scale(v) => qv_wf(v@),
        TransformOp::RotateX { c, s } => c.wf() && s.wf(),
        TransformOp::RotateY { c, s } => c.wf() && s.wf(),
        TransformOp::RotateZ { c, s } => c.wf() && s.wf(),
    }
}

/// The rotation matrix numerators about z for cosine `c` and sine `s`,
/// brought to the common denominator `c.d * s.d`.
pub open spec fn rot_z(c: crate::rat::QRat, s: crate::rat::QRat) -> QM3 {
    QM3 {
        e00: c.n * s.d,
        e01: -(s.n * c.d),
        e02: 0,
        e10: s.n * c.d,
        e11: c.n * s.d,
        e12: 0,
        e20: 0,
        e21: 0,
        e22: c.d * s.d,
        d: c.d * s.d,
    }
}

/// The rotation matrix numerators about x, as [`rot_z`] shifted one axis.
pub open spec fn rot_x(c: crate::rat::QRat, s: crate::rat::QRat) -> QM3 {
    QM3 {
        e00: c.d * s.d,
        e01: 0,
        e02: 0,
        e10: 0,
        e11: c.n * s.d,
        e12: -(s.n * c.d),
        e20: 0,
        e21: s.n * c.d,
        e22: c.n * s.d,
        d: c.d * s.d,
    }
}

/// The rotation matrix numerators about y, as [`rot_z`] shifted one axis.
pub open spec fn rot_y(c: crate::rat::QRat, s: crate::rat::QRat) -> QM3 {
    QM3 {
        e00: c.n * s.d,
        e01: 0,
        e02: s.n * c.d,
        e10: 0,
        e11: c.d * s.d,
        e12: 0,
        e20: -(s.n * c.d),
        e21: 0,
        e22: c.n * s.d,
        d: c.d * s.d,
    }
}

/// The one affine transform an op converts to.
pub open spec fn op_matrix(op: TransformOp) -> QHM {
    match op {
        TransformOp::Translate(t) => QHM { m: qm_id(), t: t@ },
        TransformOp::UniformScale(k) => QHM {
            m: QM3 {
                e00: k@.n, e01: 0, e02: 0, e10: 0, e11: k@.n, e12: 0, e20: 0, e21: 0, e22: k@.n,
                d: k@.d,
            },
            t: qv_zero(),
        },
        TransformOp::Scale(v) => QHM {
            m: QM3 {
                e00: v@.x, e01: 0, e02: 0, e10: 0, e11: v@.y, e12: 0, e20: 0, e21: 0, e22: v@.z,
                d: v@.d,
            },
            t: qv_zero(),
        },
        TransformOp::RotateX { c, s } => QHM { m: rot_x(c@, s@), t: qv_zero() },
        TransformOp::RotateY { c, s } => QHM { m: rot_y(c@, s@), t: qv_zero() },
        TransformOp::RotateZ { c, s } => QHM { m: rot_z(c@, s@), t: qv_zero() },
    }
}

/// Machine bounds under which an op's matrix is computed exactly.
pub open spec fn op_fits(op: TransformOp) -> bool {
    match op {
        TransformOp::Translate(_) => true,
        TransformOp::UniformScale(_) => true,
        TransformOp::Scale(_) => true,
        TransformOp::RotateX { c, s } => rot_fits(c@, s@),
        TransformOp::RotateY { c, s } => rot_fits(c@, s@),
        TransformOp::RotateZ { c, s } => rot_fits(c@, s@),
    }
}

/// Machine bounds for building one rotation matrix.
pub open spec fn rot_fits(c: crate::rat::QRat, s: crate::rat::QRat) -> bool {
    &&& fits64(c.n * s.d)
    &&& fits64(s.n * c.d)
    &&& fits64(c.d * s.d)
}

/// The net transform of an ordered op list: later ops innermost, so the
/// list folds right to left with composition.  The empty list folds to the
/// identity.
pub open spec fn fold_ops(s: Seq<TransformOp>) -> QHM
    decreases s.len(),
{
    if s.len() == 0 {
        qh_id()
    } else {
        qh_compose(op_matrix(s[0]), fold_ops(s.drop_first()))
    }
}

/// Machine bounds under which the whole fold is computed exactly.
pub open spec fn fold_fits(s: Seq<TransformOp>) -> bool
    decreases s.len(),
{
    if s.len() == 0 {
        true
    } else {
        &&& op_wf(s[0])
        &&& op_fits(s[0])
        &&& fold_fits(s.drop_first())
        &&& qh_compose_fits(op_matrix(s[0]), fold_ops(s.drop_first()))
    }
}

/// A fold of well-formed ops is well formed.
pub proof fn lemma_fold_wf(s: Seq<TransformOp>)
    requires
        fold_fits(s),
    ensures
        qh_wf(fold_ops(s)),
    decreases s.len(),
{
    if s.len() == 0 {
    } else {
        lemma_fold_wf(s.drop_first());
        let hd = op_matrix(s[0]);
        let tl = fold_ops(s.drop_first());
        assert(qh_wf(hd)) by {
            match s[0] {
                TransformOp::Translate(_) => {},
                TransformOp::UniformScale(_) => {},
                TransformOp::Scale(_) => {},
                TransformOp::RotateX { c, s: sn } => { lemma_pos_prod(c@.d, sn@.d); },
                TransformOp::RotateY { c, s: sn } => { lemma_pos_prod(c@.d, sn@.d); },
                TransformOp::RotateZ { c, s: sn } => { lemma_pos_prod(c@.d, sn@.d); },
            }
        };
        lemma_pos_prod(hd.m.d, tl.m.d);
        lemma_pos_prod(hd.m.d, tl.t.d);
        lemma_pos_prod(hd.m.d * tl.t.d, hd.t.d);
    }
}

/// Every suffix of a list within machine bounds is itself within bounds.
pub proof fn lemma_fold_fits_suffix(s: Seq<TransformOp>, i: int)
    requires
        fold_fits(s),
        0 <= i <= s.len(),
    ensures
        fold_fits(s.subrange(i, s.len() as int)),
    decreases i,
{
    if i == 0 {
        assert(s.subrange(0, s.len() as int) =~= s);
    } else {
        lemma_fold_fits_suffix(s.drop_first(), i - 1);
        assert(s.drop_first().subrange(i - 1, s.drop_first().len() as int) =~= s.subrange(
            i,
            s.len() as int,
        ));
    }
}

/// The ordered list of transform ops attached to one scene node.
#[derive(Clone, Debug)]
pub struct TransformList {
    /// The ops, outermost first: the last op is applied closest to the
    /// object.
    pub ops: Vec<TransformOp>,
}

impl TransformOp {
    /// Well-formedness as a spec shorthand.
    pub open spec fn wf(self) -> bool {
        op_wf(self)
    }

    /// Converts this op to its canonical affine transform.
    pub fn get_matrix(&self) -> (r: HMatrix)
        requires
            op_wf(*self),
            op_fits(*self),
        ensures
            r.wf(),
            r@ == op_matrix(*self),
    {
        match self {
            TransformOp::Translate(t) => HMatrix { m: Matrix3x3::identity(), t: *t },
            TransformOp::UniformScale(k) => HMatrix {
                m: Matrix3x3 {
                    n00: k.num, n01: 0, n02: 0, n10: 0, n11: k.num, n12: 0, n20: 0, n21: 0,
                    n22: k.num, den: k.den,
                },
                t: Direction::zero(),
            },
            TransformOp::Scale(v) => HMatrix {
                m: Matrix3x3 {
                    n00: v.nx, n01: 0, n02: 0, n10: 0, n11: v.ny, n12: 0, n20: 0, n21: 0,
                    n22: v.nz, den: v.den,
                },
                t: Direction::zero(),
            },
            TransformOp::RotateX { c, s } => {
                proof {
                    lemma_i64_prod_fits(c.num as int, s.den as int);
                    lemma_i64_prod_fits(s.num as int, c.den as int);
                    lemma_i64_prod_fits(c.den as int, s.den as int);
                    lemma_pos_prod(c.den as int, s.den as int);
                }
                let cn = ((c.num as i128) * (s.den as i128)) as i64;
                let sn = ((s.num as i128) * (c.den as i128)) as i64;
                let dn = ((c.den as i128) * (s.den as i128)) as i64;
                HMatrix {
                    m: Matrix3x3 {
                        n00: dn, n01: 0, n02: 0, n10: 0, n11: cn, n12: -sn, n20: 0, n21: sn,
                        n22: cn, den: dn,
                    },
                    t: Direction::zero(),
                }
            },
            TransformOp::RotateY { c, s } => {
                proof {
                    lemma_i64_prod_fits(c.num as int, s.den as int);
                    lemma_i64_prod_fits(s.num as int, c.den as int);
                    lemma_i64_prod_fits(c.den as int, s.den as int);
                    lemma_pos_prod(c.den as int, s.den as int);
                }
                let cn = ((c.num as i128) * (s.den as i128)) as i64;
                let sn = ((s.num as i128) * (c.den as i128)) as i64;
                let dn = ((c.den as i128) * (s.den as i128)) as i64;
                HMatrix {
                    m: Matrix3x3 {
                        n00: cn, n01: 0, n02: sn, n10: 0, n11: dn, n12: 0, n20: -sn, n21: 0,
                        n22: cn, den: dn,
                    },
                    t: Direction::zero(),
                }
            },
            TransformOp::RotateZ { c, s } => {
                proof {
                    lemma_i64_prod_fits(c.num as int, s.den as int);
                    lemma_i64_prod_fits(s.num as int, c.den as int);
                    lemma_i64_prod_fits(c.den as int, s.den as int);
                    lemma_pos_prod(c.den as int, s.den as int);
                }
                let cn = ((c.num as i128) * (s.den as i128)) as i64;
                let sn = ((s.num as i128) * (c.den as i128)) as i64;
                let dn = ((c.den as i128) * (s.den as i128)) as i64;
                HMatrix {
                    m: Matrix3x3 {
                        n00: cn, n01: -sn, n02: 0, n10: sn, n11: cn, n12: 0, n20: 0, n21: 0,
                        n22: dn, den: dn,
                    },
                    t: Direction::zero(),
                }
            },
        }
    }
}

impl TransformList {
    /// The empty list, which folds to the identity.
    pub fn empty() -> (r: TransformList)
        ensures
            r.ops@ =~= Seq::<TransformOp>::empty(),
    {
        TransformList { ops: Vec::new() }
    }

    /// Appends one op; it becomes the innermost transform of the list.
    pub fn push(&mut self, op: TransformOp)
        ensures
            final(self).ops@ == old(self).ops@.push(op),
    {
        self.ops.push(op);
    }

    /// Folds the whole list to the single net transform, right to left: the
    /// last op is applied first (closest to the object), the first op last.
    pub fn get_matrix(&self) -> (r: HMatrix)
        requires
            fold_fits(self.ops@),
        ensures
            r.wf(),
            r@ == fold_ops(self.ops@),
    {
        let len = self.ops.len();
        let mut result = HMatrix::identity();
        let mut i = len;
        proof {
            assert(self.ops@.subrange(len as int, len as int) =~= Seq::<TransformOp>::empty());
        }
        while i > 0
            invariant
                i <= len,
                len == self.ops@.len(),
                fold_fits(self.ops@),
                result.wf(),
                result@ == fold_ops(self.ops@.subrange(i as int, len as int)),
            decreases i,
        {
            i = i - 1;
            proof {
                lemma_fold_fits_suffix(self.ops@, i as int);
                assert(self.ops@.subrange(i as int, len as int).drop_first() =~= self.ops@
                    .subrange(i as int + 1, len as int));
                assert(self.ops@.subrange(i as int, len as int)[0] == self.ops@[i as int]);
            }
            let m = self.ops[i].get_matrix();
            result = m.mul(&result);
        }
        proof {
            assert(self.ops@.subrange(0, len as int) =~= self.ops@);
        }
        result
    }
}

} // verus!
