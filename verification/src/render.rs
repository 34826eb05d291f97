//! Scene nodes and ray intersection.
//!
//! A scene is a tree of nodes: a [`Sphere`] leaf holds the unit sphere in
//! its own body frame, a [`Union`] holds an ordered list of child nodes.
//! Each node carries its own transform list and, after [`Node::prepare_render`],
//! caches the reference-from-body transform `M_rb` and its inverse `M_br`.
//! [`Node::intersect`] maps a reference-frame ray into the body frame and
//! returns the smallest non-negative intersection parameter, if any.
//!
//! The intersection parameter of a sphere involves a square root, which is
//! in general irrational; the solver returns the exact rational
//! `(-B +/- s) / (2*A*K)` where `s` is the integer square root of the
//! discriminant scaled by `K = 8192`, so the result is within `1/(2*A*K)`
//! below the true root, and exact whenever the scaled discriminant is a
//! perfect square (as in every axis-aligned integer scene).

use vstd::prelude::*;

use crate::matrix::{
    qh_apply_ray, qh_apply_ray_fits, qh_inv, qh_inv_fits, qh_wf, qm_det, HMatrix,
};
use crate::rat::{qr_lt, QRat, Rat};
use crate::transform::{fold_fits, fold_ops, lemma_fold_fits_suffix, lemma_fold_wf, TransformList, TransformOp};
use crate::vector::{QRay, Ray};

verus! {

/// The fixed scale of the square-root approximation: the returned root
/// parameter has granularity `1 / (2 * A * 8192)`.
pub open spec fn root_scale() -> int {
    8192
}

/// Integer square root, rounded down: the unique `r >= 0` with
/// `r * r <= n < (r + 1) * (r + 1)`.
pub open spec fn isqrt_spec(n: int) -> int
    decreases n,
{
    if n < 1 {
        0
    } else {
        let r = 2 * isqrt_spec(n / 4);
        if (r + 1) * (r + 1) <= n {
            r + 1
        } else {
            r
        }
    }
}

/// The defining bracket of the integer square root.
#[verifier::rlimit(50)]
pub proof fn lemma_isqrt_bracket(n: int)
    requires
        n >= 0,
    ensures
        isqrt_spec(n) >= 0,
        isqrt_spec(n) * isqrt_spec(n) <= n,
        n < (isqrt_spec(n) + 1) * (isqrt_spec(n) + 1),
    decreases n,
{
    if n < 1 {
    } else {
        let m = n / 4;
        lemma_isqrt_bracket(m);
        let r0 = isqrt_spec(m);
        let r = 2 * r0;
        assert(4 * m <= n && n < 4 * (m + 1));
        assert(r * r == 4 * (r0 * r0)) by (nonlinear_arith)
            requires
                r == 2 * r0;
        assert((r + 2) * (r + 2) == 4 * ((r0 + 1) * (r0 + 1))) by (nonlinear_arith)
            requires
                r == 2 * r0;
        assert(r * r <= n);
        assert(n < (r + 2) * (r + 2));
        if (r + 1) * (r + 1) <= n {
            assert(isqrt_spec(n) == r + 1);
            assert(isqrt_spec(n) * isqrt_spec(n) == (r + 1) * (r + 1));
            assert(n < (isqrt_spec(n) + 1) * (isqrt_spec(n) + 1));
        } else {
            assert(isqrt_spec(n) == r);
            assert(isqrt_spec(n) * isqrt_spec(n) == r * r);
            assert(n < (isqrt_spec(n) + 1) * (isqrt_spec(n) + 1));
        }
    }
}

/// Any value satisfying the bracket is the integer square root.
pub proof fn lemma_isqrt_unique(n: int, r: int)
    requires
        n >= 0,
        r >= 0,
        r * r <= n,
        n < (r + 1) * (r + 1),
    ensures
        r == isqrt_spec(n),
{
    lemma_isqrt_bracket(n);
    let s = isqrt_spec(n);
    if r < s {
        assert((r + 1) * (r + 1) <= s * s) by (nonlinear_arith)
            requires
                0 <= r,
                r + 1 <= s;
    }
    if s < r {
        assert((s + 1) * (s + 1) <= r * r) by (nonlinear_arith)
            requires
                0 <= s,
                s + 1 <= r;
    }
}

/// Executable integer square root by binary search.
pub fn isqrt(n: u128) -> (r: u64)
    ensures
        r as int == isqrt_spec(n as int),
{
    let mut lo: u64 = 0;
    let mut hi: u64 = u64::MAX;
    proof {
        assert((hi as int + 1) * (hi as int + 1) > n as int) by (nonlinear_arith)
            requires
                hi as int + 1 == 0xffff_ffff_ffff_ffff + 1,
                n as int <= 0xffff_ffff_ffff_ffff_ffff_ffff_ffff_ffff;
    }
    while lo < hi
        invariant
            lo <= hi,
            (lo as int) * (lo as int) <= n as int,
            (n as int) < (hi as int + 1) * (hi as int + 1),
        decreases hi - lo,
    {
        let mid = hi - (hi - lo) / 2;
        proof {
            assert(lo < mid <= hi);
            assert((mid as int) * (mid as int) <= 0xffff_ffff_ffff_ffff * 0xffff_ffff_ffff_ffff)
                by (nonlinear_arith)
                requires
                    0 <= mid as int <= 0xffff_ffff_ffff_ffff;
        }
        if (mid as u128) * (mid as u128) <= n {
            lo = mid;
        } else {
            hi = mid - 1;
        }
    }
    proof {
        lemma_isqrt_unique(n as int, lo as int);
    }
    lo
}

/// Scaled quadratic coefficient `a = v . v`: the value times the positive
/// factor `r0.d^2 * v.d^2` clears all denominators.
pub open spec fn quad_a(r: QRay) -> int {
    (r.v.x * r.v.x + r.v.y * r.v.y + r.v.z * r.v.z) * (r.r0.d * r.r0.d)
}

/// Scaled quadratic coefficient `b = 2 * (r0 . v)`, cleared by the same
/// factor as [`quad_a`].
pub open spec fn quad_b(r: QRay) -> int {
    2 * (r.r0.x * r.v.x + r.r0.y * r.v.y + r.r0.z * r.v.z) * (r.r0.d * r.v.d)
}

/// Scaled quadratic coefficient `c = r0 . r0 - 1`, cleared by the same
/// factor as [`quad_a`].
pub open spec fn quad_c(r: QRay) -> int {
    (r.r0.x * r.r0.x + r.r0.y * r.r0.y + r.r0.z * r.r0.z - r.r0.d * r.r0.d) * (r.v.d * r.v.d)
}

/// Scaled discriminant of the unit-sphere quadratic.  Scaling `a`, `b`, `c`
/// by one positive factor leaves the roots and all sign tests unchanged.
pub open spec fn quad_d(r: QRay) -> int {
    quad_b(r) * quad_b(r) - 4 * quad_a(r) * quad_c(r)
}

/// Machine bounds for the solver: every numerator and denominator of the
/// body-frame ray lies within `+/- 2048`, with positive denominators.
pub open spec fn ray_in_range(r: QRay) -> bool {
    &&& -2048 <= r.r0.x <= 2048
    &&& -2048 <= r.r0.y <= 2048
    &&& -2048 <= r.r0.z <= 2048
    &&& 0 < r.r0.d <= 2048
    &&& -2048 <= r.v.x <= 2048
    &&& -2048 <= r.v.y <= 2048
    &&& -2048 <= r.v.z <= 2048
    &&& 0 < r.v.d <= 2048
}

/// The nearest-valid-root policy against the unit sphere, in the body
/// frame.  `None` when the discriminant is negative or both roots lie
/// behind the origin; otherwise the smaller non-negative root, with the
/// square root taken as the scaled integer square root of the discriminant.
pub open spec fn sphere_hit(r: QRay) -> Option<QRat> {
    let bb = quad_b(r);
    let dd = quad_d(r);
    if dd < 0 {
        None
    } else if bb > 0 && dd < bb * bb {
        None
    } else {
        let s0 = isqrt_spec(dd * (root_scale() * root_scale()));
        if bb <= 0 && dd <= bb * bb {
            Some(QRat { n: -bb * root_scale() - s0, d: 2 * quad_a(r) * root_scale() })
        } else {
            Some(QRat { n: -bb * root_scale() + s0, d: 2 * quad_a(r) * root_scale() })
        }
    }
}

/// A leaf node: the unit sphere `x^2 + y^2 + z^2 = 1` in its own body
/// frame, placed by its transform list.
pub struct Sphere {
    /// The node's own ordered transform ops.
    pub transforms: TransformList,
    /// Cached reference-from-body transform; valid only after preparation.
    pub m_rb: HMatrix,
    /// Cached body-from-reference transform; valid only after preparation.
    pub m_br: HMatrix,
}

/// A composite node: the union of an ordered list of owned child nodes.
pub struct Union {
    /// The owned children, intersected in order.
    pub item_list: Vec<Node>,
    /// The node's own ordered transform ops.
    pub transforms: TransformList,
    /// Cached reference-from-body transform; valid only after preparation.
    pub m_rb: HMatrix,
    /// Cached body-from-reference transform; valid only after preparation.
    pub m_br: HMatrix,
}

/// A scene node: the closed set of variants that can be rendered.
pub enum Node {
    /// A unit-sphere leaf.
    Sphere(Sphere),
    /// A union of children.
    Union(Union),
}

impl Sphere {
    /// A fresh sphere with no transforms and identity caches.
    pub fn make() -> (r: Sphere)
        ensures
            r.transforms.ops@ =~= Seq::<TransformOp>::empty(),
            r.m_rb@ == crate::matrix::qh_id(),
            r.m_br@ == crate::matrix::qh_id(),
    {
        Sphere {
            transforms: TransformList::empty(),
            m_rb: HMatrix::identity(),
            m_br: HMatrix::identity(),
        }
    }
}

impl Union {
    /// A fresh union with no children, no transforms and identity caches.
    pub fn make() -> (r: Union)
        ensures
            r.item_list@ =~= Seq::<Node>::empty(),
            r.transforms.ops@ =~= Seq::<TransformOp>::empty(),
            r.m_rb@ == crate::matrix::qh_id(),
            r.m_br@ == crate::matrix::qh_id(),
    {
        Union {
            item_list: Vec::new(),
            transforms: TransformList::empty(),
            m_rb: HMatrix::identity(),
            m_br: HMatrix::identity(),
        }
    }
}

impl Node {
    /// The node's transform list.
    pub open spec fn spec_transforms(self) -> Seq<TransformOp> {
        match self {
            Node::Sphere(s) => s.transforms.ops@,
            Node::Union(u) => u.transforms.ops@,
        }
    }

    /// The cached reference-from-body transform.
    pub open spec fn spec_m_rb(self) -> HMatrix {
        match self {
            Node::Sphere(s) => s.m_rb,
            Node::Union(u) => u.m_rb,
        }
    }

    /// The cached body-from-reference transform.
    pub open spec fn spec_m_br(self) -> HMatrix {
        match self {
            Node::Sphere(s) => s.m_br,
            Node::Union(u) => u.m_br,
        }
    }

    /// A node is prepared when its caches hold the fold of its own
    /// transforms and that fold's exact inverse, and all its children are
    /// prepared too.  Intersection queries are allowed only on prepared
    /// nodes.
    pub open spec fn prepared(self) -> bool
        decreases self, 0int,
    {
        &&& self.spec_m_rb()@ == fold_ops(self.spec_transforms())
        &&& qh_wf(self.spec_m_rb()@)
        &&& qm_det(self.spec_m_rb()@.m) != 0
        &&& self.spec_m_br()@ == qh_inv(self.spec_m_rb()@)
        &&& qh_wf(self.spec_m_br()@)
        &&& match self {
            Node::Sphere(_) => true,
            Node::Union(u) => Node::all_prepared(u.item_list@),
        }
    }

    /// All nodes of a list are prepared.
    pub open spec fn all_prepared(s: Seq<Node>) -> bool
        decreases s, 1int,
    {
        if s.len() == 0 {
            true
        } else {
            Node::all_prepared(s.drop_last()) && s.last().prepared()
        }
    }

    /// Machine bounds for preparation: the fold and its inversion stay
    /// exact, the fold is non-singular, and the same holds below.
    pub open spec fn prepare_fits(self) -> bool
        decreases self, 0int,
    {
        &&& fold_fits(self.spec_transforms())
        &&& qm_det(fold_ops(self.spec_transforms()).m) != 0
        &&& qh_inv_fits(fold_ops(self.spec_transforms()))
        &&& match self {
            Node::Sphere(_) => true,
            Node::Union(u) => Node::all_prepare_fits(u.item_list@),
        }
    }

    /// Machine bounds for preparing every node of a list.
    pub open spec fn all_prepare_fits(s: Seq<Node>) -> bool
        decreases s, 1int,
    {
        if s.len() == 0 {
            true
        } else {
            Node::all_prepare_fits(s.drop_last()) && s.last().prepare_fits()
        }
    }

    /// Two nodes are built alike: same variant, same transforms, and
    /// children built alike; the caches are left free.
    pub open spec fn same_build(self, other: Node) -> bool
        decreases self, 0int,
    {
        match (self, other) {
            (Node::Sphere(a), Node::Sphere(b)) => a.transforms.ops@ == b.transforms.ops@,
            (Node::Union(a), Node::Union(b)) => {
                &&& a.transforms.ops@ == b.transforms.ops@
                &&& a.item_list@.len() == b.item_list@.len()
                &&& Node::all_same_build(a.item_list@, b.item_list@)
            },
            _ => false,
        }
    }

    /// Pointwise [`Node::same_build`] over two lists of equal length.
    pub open spec fn all_same_build(s: Seq<Node>, t: Seq<Node>) -> bool
        decreases s, 1int,
    {
        if s.len() != t.len() {
            false
        } else if s.len() == 0 {
            true
        } else {
            Node::all_same_build(s.drop_last(), t.drop_last()) && s.last().same_build(t.last())
        }
    }

    /// The reference-frame intersection of a node: the ray mapped into the
    /// body frame by the cached `M_br`, then resolved locally.
    pub open spec fn spec_intersect(self, r: QRay) -> Option<QRat>
        decreases self, 1int,
    {
        self.spec_intersect_local(qh_apply_ray(self.spec_m_br()@, r))
    }

    /// The body-frame intersection: the sphere quadratic for a leaf, the
    /// nearest child hit for a union (first found wins on ties).
    pub open spec fn spec_intersect_local(self, rb: QRay) -> Option<QRat>
        decreases self, 0int,
    {
        match self {
            Node::Sphere(_) => sphere_hit(rb),
            Node::Union(u) => Node::spec_intersect_list(u.item_list@, rb),
        }
    }

    /// The nearest hit over a list of children, in order: a later child
    /// replaces the best hit only when strictly closer.
    pub open spec fn spec_intersect_list(s: Seq<Node>, rb: QRay) -> Option<QRat>
        decreases s, 2int,
    {
        if s.len() == 0 {
            None
        } else {
            opt_nearest(Node::spec_intersect_list(s.drop_last(), rb), s.last().spec_intersect(rb))
        }
    }

    /// Machine bounds for one reference-frame intersection.
    pub open spec fn intersect_fits(self, r: QRay) -> bool
        decreases self, 1int,
    {
        &&& qh_apply_ray_fits(self.spec_m_br()@, r)
        &&& self.intersect_local_fits(qh_apply_ray(self.spec_m_br()@, r))
    }

    /// Machine bounds for one body-frame intersection.
    pub open spec fn intersect_local_fits(self, rb: QRay) -> bool
        decreases self, 0int,
    {
        match self {
            Node::Sphere(_) => ray_in_range(rb) && quad_a(rb) > 0,
            Node::Union(u) => Node::intersect_list_fits(u.item_list@, rb),
        }
    }

    /// Machine bounds for intersecting every child of a list.
    pub open spec fn intersect_list_fits(s: Seq<Node>, rb: QRay) -> bool
        decreases s, 2int,
    {
        if s.len() == 0 {
            true
        } else {
            Node::intersect_list_fits(s.drop_last(), rb) && s.last().intersect_fits(rb)
        }
    }
}

/// Keeps the earlier hit unless the later one is strictly nearer; an
/// absent hit never wins.
pub open spec fn opt_nearest(prev: Option<QRat>, cur: Option<QRat>) -> Option<QRat> {
    match cur {
        Option::None => prev,
        Option::Some(t) => match prev {
            Option::None => Option::Some(t),
            Option::Some(b) => if qr_lt(t, b) {
                Option::Some(t)
            } else {
                Option::Some(b)
            },
        },
    }
}

/// An executable optional parameter agrees with its mathematical image.
pub open spec fn opt_matches(res: Option<Rat>, q: Option<QRat>) -> bool {
    match res {
        Option::None => q is None,
        Option::Some(t) => q == Option::Some(t@) && t.wf(),
    }
}


/// The product of two values bounded by `b1` and `b2` is bounded by
/// `b1 * b2`.
pub proof fn lemma_small_prod(x: int, y: int, b1: int, b2: int)
    by (nonlinear_arith)
    requires
        -b1 <= x <= b1,
        -b2 <= y <= b2,
        b1 >= 0,
        b2 >= 0,
    ensures
        -(b1 * b2) <= x * y <= b1 * b2,
{
}

/// A nonnegative value whose square is at most `b * b` is at most `b`.
pub proof fn lemma_sqrt_le(s: int, b: int)
    by (nonlinear_arith)
    requires
        s >= 0,
        b >= 0,
        s * s <= b * b,
    ensures
        s <= b,
{
}

/// Every element of a fully prepared list is prepared.
pub proof fn lemma_all_prepared_index(s: Seq<Node>, i: int)
    requires
        Node::all_prepared(s),
        0 <= i < s.len(),
    ensures
        s[i].prepared(),
    decreases s.len(),
{
    if i + 1 == s.len() {
    } else {
        assert(s.drop_last()[i] == s[i]);
        lemma_all_prepared_index(s.drop_last(), i);
    }
}

/// Every element of a list within preparation bounds is within bounds.
pub proof fn lemma_all_prepare_fits_index(s: Seq<Node>, i: int)
    requires
        Node::all_prepare_fits(s),
        0 <= i < s.len(),
    ensures
        s[i].prepare_fits(),
    decreases s.len(),
{
    if i + 1 == s.len() {
    } else {
        assert(s.drop_last()[i] == s[i]);
        lemma_all_prepare_fits_index(s.drop_last(), i);
    }
}

/// Every element of a list within intersection bounds is within bounds.
pub proof fn lemma_intersect_list_fits_index(s: Seq<Node>, rb: QRay, i: int)
    requires
        Node::intersect_list_fits(s, rb),
        0 <= i < s.len(),
    ensures
        s[i].intersect_fits(rb),
    decreases s.len(),
{
    if i + 1 == s.len() {
    } else {
        assert(s.drop_last()[i] == s[i]);
        lemma_intersect_list_fits_index(s.drop_last(), rb, i);
    }
}

/// A list is fully prepared when each of its elements is.
pub proof fn lemma_all_prepared_pointwise(s: Seq<Node>)
    requires
        forall|k: int| 0 <= k < s.len() ==> (#[trigger] s[k]).prepared(),
    ensures
        Node::all_prepared(s),
    decreases s.len(),
{
    if s.len() > 0 {
        assert(forall|k: int|
            0 <= k < s.drop_last().len() ==> #[trigger] s.drop_last()[k] == s[k]);
        lemma_all_prepared_pointwise(s.drop_last());
    }
}

/// Two lists are built alike when they match pointwise.
pub proof fn lemma_all_same_build_pointwise(a: Seq<Node>, b: Seq<Node>)
    requires
        a.len() == b.len(),
        forall|k: int| 0 <= k < a.len() ==> (#[trigger] a[k]).same_build(b[k]),
    ensures
        Node::all_same_build(a, b),
    decreases a.len(),
{
    if a.len() > 0 {
        assert(forall|k: int|
            0 <= k < a.drop_last().len() ==> #[trigger] a.drop_last()[k] == a[k]);
        assert(forall|k: int|
            0 <= k < b.drop_last().len() ==> #[trigger] b.drop_last()[k] == b[k]);
        lemma_all_same_build_pointwise(a.drop_last(), b.drop_last());
    }
}

/// Closed-form intersection of a body-frame ray with the unit sphere,
/// following the nearest-valid-root policy of [`sphere_hit`].
fn sphere_local(rv: &Ray) -> (res: Option<Rat>)
    requires
        rv.wf(),
        ray_in_range(rv@),
        quad_a(rv@) > 0,
    ensures
        opt_matches(res, sphere_hit(rv@)),
{
    let px = rv.r0.nx as i128;
    let py = rv.r0.ny as i128;
    let pz = rv.r0.nz as i128;
    let pd = rv.r0.den as i128;
    let vx = rv.v.nx as i128;
    let vy = rv.v.ny as i128;
    let vz = rv.v.nz as i128;
    let vd = rv.v.den as i128;
    proof {
        lemma_small_prod(vx as int, vx as int, 2048, 2048);
        lemma_small_prod(vy as int, vy as int, 2048, 2048);
        lemma_small_prod(vz as int, vz as int, 2048, 2048);
        lemma_small_prod(px as int, px as int, 2048, 2048);
        lemma_small_prod(py as int, py as int, 2048, 2048);
        lemma_small_prod(pz as int, pz as int, 2048, 2048);
        lemma_small_prod(pd as int, pd as int, 2048, 2048);
        lemma_small_prod(px as int, vx as int, 2048, 2048);
        lemma_small_prod(py as int, vy as int, 2048, 2048);
        lemma_small_prod(pz as int, vz as int, 2048, 2048);
        lemma_small_prod(pd as int, vd as int, 2048, 2048);
        lemma_small_prod(vd as int, vd as int, 2048, 2048);
        lemma_small_prod(
            vx as int * vx as int + vy as int * vy as int + vz as int * vz as int,
            pd as int * pd as int,
            12582912,
            4194304,
        );
        lemma_small_prod(
            2 * (px as int * vx as int + py as int * vy as int + pz as int * vz as int),
            pd as int * vd as int,
            25165824,
            4194304,
        );
        lemma_small_prod(
            px as int * px as int + py as int * py as int + pz as int * pz as int - pd as int
                * pd as int,
            vd as int * vd as int,
            16777216,
            4194304,
        );
    }
    let aa = (vx * vx + vy * vy + vz * vz) * (pd * pd);
    let bb = 2 * (px * vx + py * vy + pz * vz) * (pd * vd);
    let cc = (px * px + py * py + pz * pz - pd * pd) * (vd * vd);
    proof {
        lemma_small_prod(bb as int, bb as int, 105553116266496, 105553116266496);
        lemma_small_prod(4 * aa as int, cc as int, 211106232532992, 70368744177664);
    }
    let dd = bb * bb - 4 * aa * cc;
    if dd < 0 {
        return None;
    }
    if bb > 0 && dd < bb * bb {
        return None;
    }
    let scaled = (dd as u128) * 67108864u128;
    let s0 = isqrt(scaled);
    proof {
        lemma_isqrt_bracket(scaled as int);
        lemma_sqrt_le(s0 as int, 0x2000_0000_0000_0000);
    }
    let den = (2 * aa * 8192) as i64;
    if bb <= 0 && dd <= bb * bb {
        let num = (-bb * 8192 - (s0 as i128)) as i64;
        Some(Rat { num, den })
    } else {
        let num = (-bb * 8192 + (s0 as i128)) as i64;
        Some(Rat { num, den })
    }
}

impl Node {
    /// The cached reference-from-body transform.
    pub fn m_rb(&self) -> (r: &HMatrix)
        ensures
            *r == self.spec_m_rb(),
    {
        match self {
            Node::Sphere(s) => &s.m_rb,
            Node::Union(u) => &u.m_rb,
        }
    }

    /// The cached body-from-reference transform.
    pub fn m_br(&self) -> (r: &HMatrix)
        ensures
            *r == self.spec_m_br(),
    {
        match self {
            Node::Sphere(s) => &s.m_br,
            Node::Union(u) => &u.m_br,
        }
    }

    /// Appends a translation by `(x, y, z)` to this node's own transform
    /// list; it becomes the innermost transform.  The caches are left
    /// stale: the node must be prepared again before the next query.
    pub fn translate(&mut self, x: Rat, y: Rat, z: Rat)
        requires
            x.wf(),
            y.wf(),
            z.wf(),
            crate::vector::qv_make_fits(x@, y@, z@),
        ensures
            final(self).spec_transforms() == old(self).spec_transforms().push(
                TransformOp::Translate(
                    crate::vector::Direction {
                        nx: (x@.n * y@.d * z@.d) as i64,
                        ny: (y@.n * x@.d * z@.d) as i64,
                        nz: (z@.n * x@.d * y@.d) as i64,
                        den: (x@.d * y@.d * z@.d) as i64,
                    },
                ),
            ),
    {
        let d = crate::vector::Direction::make(x, y, z);
        match self {
            Node::Sphere(s) => s.transforms.push(TransformOp::Translate(d)),
            Node::Union(u) => u.transforms.push(TransformOp::Translate(d)),
        }
    }

    /// Computes and caches `M_rb` (the fold of this node's transforms) and
    /// `M_br` (its exact inverse), recursing into every child in order.
    /// Must be called before any intersection query, and again after any
    /// transform change.
    pub fn prepare_render(&mut self)
        requires
            old(self).prepare_fits(),
        ensures
            final(self).prepared(),
            old(self).same_build(*final(self)),
        decreases *old(self),
    {
        match self {
            Node::Sphere(s) => {
                proof {
                    lemma_fold_wf(s.transforms.ops@);
                }
                let m_rb = s.transforms.get_matrix();
                let m_br = m_rb.inv();
                s.m_rb = m_rb;
                s.m_br = m_br;
            },
            Node::Union(u) => {
                let ghost u_init = *u;
                let ghost orig = u_init.item_list@;
                let ghost trans0 = u_init.transforms.ops@;
                proof {
                    assert(*old(self) == Node::Union(u_init));
                    assert(Node::all_prepare_fits(orig));
                }
                let n_ch = u.item_list.len();
                let mut i: usize = 0;
                while i < n_ch
                    invariant
                        i <= n_ch,
                        u.item_list@.len() == n_ch,
                        orig.len() == n_ch,
                        *old(self) == Node::Union(u_init),
                        orig == u_init.item_list@,
                        Node::all_prepare_fits(orig),
                        u.transforms == u_init.transforms,
                        forall|k: int|
                            0 <= k < i ==> orig[k].same_build(#[trigger] u.item_list@[k])
                                && u.item_list@[k].prepared(),
                        forall|k: int| i <= k < n_ch ==> #[trigger] u.item_list@[k] == orig[k],
                    decreases n_ch - i,
                {
                    let ghost pre = u.item_list@;
                    let mut child = u.item_list.remove(i);
                    proof {
                        assert(child == orig[i as int]);
                        lemma_all_prepare_fits_index(orig, i as int);
                        assert(decreases_to!(*old(self) => (*old(self))->Union_0));
                        assert(decreases_to!((*old(self))->Union_0 => (*old(self))->Union_0
                            .item_list));
                        assert(decreases_to!((*old(self))->Union_0.item_list => (*old(
                            self,
                        ))->Union_0.item_list@));
                        assert(decreases_to!((*old(self))->Union_0.item_list@ => (*old(
                            self,
                        ))->Union_0.item_list@[i as int]));
                        assert((*old(self))->Union_0.item_list@[i as int] == child);
                        assert(decreases_to!(*old(self) => child));
                    }
                    child.prepare_render();
                    let ghost done = child;
                    u.item_list.insert(i, child);
                    proof {
                        let mid = pre.remove(i as int);
                        pre.remove_ensures(i as int);
                        mid.insert_ensures(i as int, done);
                        assert(u.item_list@ == mid.insert(i as int, done));
                        assert(forall|k: int|
                            0 <= k < i ==> #[trigger] u.item_list@[k] == pre[k]);
                        assert(u.item_list@[i as int] == done);
                        assert(forall|k: int|
                            i < k < n_ch ==> #[trigger] u.item_list@[k] == pre[k]) by {
                            assert(forall|k: int|
                                i <= k < n_ch - 1 ==> #[trigger] mid[k] == pre[k + 1]);
                            assert(forall|k: int|
                                i + 1 <= k < n_ch ==> #[trigger] u.item_list@[k] == mid[k - 1]);
                        };
                    }
                    i = i + 1;
                }
                proof {
                    lemma_all_prepared_pointwise(u.item_list@);
                    lemma_all_same_build_pointwise(orig, u.item_list@);
                    lemma_fold_wf(trans0);
                }
                let m_rb = u.transforms.get_matrix();
                let m_br = m_rb.inv();
                u.m_rb = m_rb;
                u.m_br = m_br;
            },
        }
    }

    /// Intersects a reference-frame ray with this node: the ray is mapped
    /// into the body frame through the cached `M_br`, then resolved
    /// locally.  Returns the smallest non-negative parameter, or `None`.
    pub fn intersect(&self, rv_r: &Ray) -> (res: Option<Rat>)
        requires
            self.prepared(),
            rv_r.wf(),
            self.intersect_fits(rv_r@),
        ensures
            opt_matches(res, self.spec_intersect(rv_r@)),
        decreases self, 1int,
    {
        let local = self.m_br().mul_ray(rv_r);
        self.intersect_local(&local)
    }

    /// Intersects a body-frame ray with this node's own geometry: the unit
    /// sphere for a leaf; for a union, every child in order, the nearest
    /// hit winning and the first found kept on ties.
    pub fn intersect_local(&self, rv_b: &Ray) -> (res: Option<Rat>)
        requires
            self.prepared(),
            rv_b.wf(),
            self.intersect_local_fits(rv_b@),
        ensures
            opt_matches(res, self.spec_intersect_local(rv_b@)),
        decreases self, 0int,
    {
        match self {
            Node::Sphere(_) => sphere_local(rv_b),
            Node::Union(u) => {
                let mut best: Option<Rat> = None;
                let n = u.item_list.len();
                let mut i: usize = 0;
                proof {
                    assert(u.item_list@.subrange(0, 0) =~= Seq::<Node>::empty());
                }
                while i < n
                    invariant
                        i <= n,
                        n == u.item_list@.len(),
                        self.prepared(),
                        rv_b.wf(),
                        self.intersect_local_fits(rv_b@),
                        *self == Node::Union(*u),
                        opt_matches(
                            best,
                            Node::spec_intersect_list(u.item_list@.subrange(0, i as int), rv_b@),
                        ),
                    decreases n - i,
                {
                    proof {
                        lemma_all_prepared_index(u.item_list@, i as int);
                        lemma_intersect_list_fits_index(u.item_list@, rv_b@, i as int);
                        assert(decreases_to!(*self => u.item_list@[i as int]));
                    }
                    let child = &u.item_list[i];
                    let cr = child.intersect(rv_b);
                    match cr {
                        Some(t) => {
                            match &best {
                                None => {
                                    best = Some(t);
                                },
                                Some(b) => {
                                    if t.lt(b) {
                                        best = Some(t);
                                    }
                                },
                            }
                        },
                        None => {},
                    }
                    proof {
                        assert(u.item_list@.subrange(0, i as int + 1).drop_last() =~= u
                            .item_list@.subrange(0, i as int));
                        assert(u.item_list@.subrange(0, i as int + 1).last() == u.item_list@[
                            i as int]);
                    }
                    i = i + 1;
                }
                proof {
                    assert(u.item_list@.subrange(0, n as int) =~= u.item_list@);
                }
                best
            },
        }
    }
}


/// Two optional hit parameters carry the same rational value.
pub open spec fn opt_val_eq(a: Option<QRat>, b: Option<QRat>) -> bool {
    match (a, b) {
        (Option::None, Option::None) => true,
        (Option::Some(x), Option::Some(y)) => crate::rat::qr_eq(x, y),
        _ => false,
    }
}

/// **Union nearest-wins.**  For a union of two children, the reported hit
/// parameter has the same rational value whatever the child order: the
/// nearer hit wins, and on an exact tie the two orders return equal values.
pub proof fn lemma_union_order_two(a: Node, b: Node, rb: QRay)
    ensures
        opt_val_eq(
            Node::spec_intersect_list(seq![a, b], rb),
            Node::spec_intersect_list(seq![b, a], rb),
        ),
{
    reveal_with_fuel(Node::spec_intersect_list, 4);
    let ab = seq![a, b];
    let ba = seq![b, a];
    assert(ab.drop_last() =~= seq![a]);
    assert(ba.drop_last() =~= seq![b]);
    assert(seq![a].drop_last() =~= Seq::<Node>::empty());
    assert(seq![b].drop_last() =~= Seq::<Node>::empty());
    assert(ab.last() == b);
    assert(ba.last() == a);
    assert(seq![a].last() == a);
    assert(seq![b].last() == b);
}

/// **Idempotent prepare.**  The caches of a prepared node are a function of
/// its build alone (variant, transforms, children): two prepared nodes that
/// are built alike hold bitwise identical cached matrices.  In particular,
/// preparing a node a second time with unchanged transforms recomputes
/// exactly the caches it already holds.
pub proof fn lemma_prepared_unique(a: Node, b: Node)
    requires
        a.same_build(b),
        a.prepared(),
        b.prepared(),
    ensures
        a.spec_m_rb() == b.spec_m_rb(),
        a.spec_m_br() == b.spec_m_br(),
{
    assert(a.spec_transforms() == b.spec_transforms());
    assert(a.spec_m_rb()@ == b.spec_m_rb()@);
    let x = a.spec_m_rb();
    let y = b.spec_m_rb();
    assert(x.m.n00 == y.m.n00 && x.m.n01 == y.m.n01 && x.m.n02 == y.m.n02 && x.m.n10 == y.m.n10
        && x.m.n11 == y.m.n11 && x.m.n12 == y.m.n12 && x.m.n20 == y.m.n20 && x.m.n21 == y.m.n21
        && x.m.n22 == y.m.n22 && x.m.den == y.m.den && x.t.nx == y.t.nx && x.t.ny == y.t.ny
        && x.t.nz == y.t.nz && x.t.den == y.t.den);
    assert(x == y);
    let p = a.spec_m_br();
    let q = b.spec_m_br();
    assert(p@ == q@);
    assert(p.m.n00 == q.m.n00 && p.m.n01 == q.m.n01 && p.m.n02 == q.m.n02 && p.m.n10 == q.m.n10
        && p.m.n11 == q.m.n11 && p.m.n12 == q.m.n12 && p.m.n20 == q.m.n20 && p.m.n21 == q.m.n21
        && p.m.n22 == q.m.n22 && p.m.den == q.m.den && p.t.nx == q.t.nx && p.t.ny == q.t.ny
        && p.t.nz == q.t.nz && p.t.den == q.t.den);
    assert(p == q);
}

} // verus!
