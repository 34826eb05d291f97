use raytrace::matrix::{HMatrix, Matrix3x3};
use raytrace::rat::Rat;
use raytrace::render::{isqrt, Node, Sphere, Union};
use raytrace::transform::{TransformList, TransformOp};
use raytrace::vector::{Direction, Position, Ray};

fn ri(k: i64) -> Rat {
    Rat::from_int(k)
}

fn pos(x: i64, y: i64, z: i64) -> Position {
    Position::make(ri(x), ri(y), ri(z))
}

fn dir(x: i64, y: i64, z: i64) -> Direction {
    Direction::make(ri(x), ri(y), ri(z))
}

fn ray(px: i64, py: i64, pz: i64, vx: i64, vy: i64, vz: i64) -> Ray {
    Ray::make(pos(px, py, pz), dir(vx, vy, vz))
}

fn assert_rat_int(r: &Rat, k: i64) {
    assert!(r.eq_val(&ri(k)), "expected {}, got {}/{}", k, r.num, r.den);
}

#[test]
fn isqrt_small_values() {
    assert_eq!(isqrt(0), 0);
    assert_eq!(isqrt(1), 1);
    assert_eq!(isqrt(3), 1);
    assert_eq!(isqrt(4), 2);
    assert_eq!(isqrt(15), 3);
    assert_eq!(isqrt(16), 4);
    assert_eq!(isqrt(1 << 40), 1 << 20);
}

#[test]
fn rat_comparisons() {
    let half = Rat::new(1, 2);
    let third = Rat::new(1, 3);
    assert!(third.lt(&half));
    assert!(third.le(&half));
    assert!(!half.lt(&third));
    assert!(Rat::new(2, 4).eq_val(&half));
}

#[test]
fn matrix_identity_multiplication() {
    let m = Matrix3x3 {
        n00: 1, n01: 2, n02: 3, n10: 4, n11: 5, n12: 6, n20: 7, n21: 8, n22: 10, den: 2,
    };
    let id = Matrix3x3::identity();
    let left = id.mul(&m);
    assert_eq!(left.n00, 1);
    assert_eq!(left.n21, 8);
    assert_eq!(left.den, 2);
    let right = m.mul(&id);
    assert_eq!(right.n12, 6);
    assert_eq!(right.den, 2);
}

// The compose contract is true matrix composition `A.M * B.M`, not the
// self-product of the left operand.
#[test]
fn compose_uses_both_linear_parts() {
    let scale2 = TransformOp::UniformScale(ri(2)).get_matrix();
    let scale3 = TransformOp::UniformScale(ri(3)).get_matrix();
    let both = scale2.mul(&scale3);
    let p = both.mul_pos(&pos(1, 1, 1));
    assert_rat_int(&p._x(), 6);
    assert_rat_int(&p._y(), 6);
    assert_rat_int(&p._z(), 6);
}

// Inverse identity: composing a transform with its inverse in either order
// yields the identity, exactly.
#[test]
fn inverse_identity_round_trip() {
    let m = Matrix3x3 {
        n00: 2, n01: 1, n02: 0, n10: 0, n11: 3, n12: 1, n20: 1, n21: 0, n22: 4, den: 2,
    };
    let h = HMatrix { m, t: dir(5, -3, 2) };
    let hinv = h.inv();
    let probe = pos(7, -4, 9);
    for c in [h.mul(&hinv), hinv.mul(&h)] {
        let q = c.mul_pos(&probe);
        assert!(q._x().eq_val(&probe._x()));
        assert!(q._y().eq_val(&probe._y()));
        assert!(q._z().eq_val(&probe._z()));
    }
}

// Point/direction duality: a translation leaves a free vector unchanged and
// moves a point; translating by an offset and then its negation returns the
// original point.
#[test]
fn translation_duality() {
    let fwd = TransformOp::Translate(dir(4, -7, 2)).get_matrix();
    let back = TransformOp::Translate(dir(-4, 7, -2)).get_matrix();
    let v = dir(3, 1, -5);
    let v2 = fwd.mul_dir(&v);
    assert!(v2._x().eq_val(&v._x()));
    assert!(v2._y().eq_val(&v._y()));
    assert!(v2._z().eq_val(&v._z()));
    let p = pos(9, 0, -2);
    let round = back.mul_pos(&fwd.mul_pos(&p));
    assert!(round._x().eq_val(&p._x()));
    assert!(round._y().eq_val(&p._y()));
    assert!(round._z().eq_val(&p._z()));
}

// Fold order: in [RotateZ(90 degrees), Translate(1,0,0)] the translation is
// innermost, so the local origin goes to (1,0,0) and then rotates to
// (0,1,0).
#[test]
fn fold_order_rotate_then_translate() {
    let mut list = TransformList::empty();
    list.push(TransformOp::RotateZ { c: ri(0), s: ri(1) });
    list.push(TransformOp::Translate(dir(1, 0, 0)));
    let net = list.get_matrix();
    let image = net.mul_pos(&pos(0, 0, 0));
    assert_rat_int(&image._x(), 0);
    assert_rat_int(&image._y(), 1);
    assert_rat_int(&image._z(), 0);
}

// Unit sphere, untransformed: the ray from (0,0,-2) along +z enters the
// near surface at exactly t = 1.
#[test]
fn unit_sphere_front_hit() {
    let mut node = Node::Sphere(Sphere::make());
    node.prepare_render();
    let t = node.intersect(&ray(0, 0, -2, 0, 0, 1)).expect("must hit");
    assert_rat_int(&t, 1);
}

// Miss case: a parallel ray offset outside the radius returns no hit.
#[test]
fn unit_sphere_miss() {
    let mut node = Node::Sphere(Sphere::make());
    node.prepare_render();
    assert!(node.intersect(&ray(2, 2, -2, 0, 0, 1)).is_none());
}

// Behind-camera case: from inside the sphere pointing at the far surface,
// the single non-negative root is returned, not the negative one.
#[test]
fn unit_sphere_inside_hit() {
    let mut node = Node::Sphere(Sphere::make());
    node.prepare_render();
    let t = node.intersect(&ray(0, 0, 0, 0, 0, -1)).expect("must hit");
    assert_rat_int(&t, 1);
}

fn sphere_at_z(z: i64) -> Node {
    let mut node = Node::Sphere(Sphere::make());
    node.translate(ri(0), ri(0), ri(z));
    node
}

// Union nearest-wins: the nearer of two translated spheres is reported,
// whatever the child order.
#[test]
fn union_nearest_wins_either_order() {
    for flip in [false, true] {
        let mut u = Union::make();
        if flip {
            u.item_list.push(sphere_at_z(10));
            u.item_list.push(sphere_at_z(5));
        } else {
            u.item_list.push(sphere_at_z(5));
            u.item_list.push(sphere_at_z(10));
        }
        let mut node = Node::Union(u);
        node.prepare_render();
        let t = node.intersect(&ray(0, 0, 0, 0, 0, 1)).expect("must hit");
        assert_rat_int(&t, 4);
    }
}

// A union with no children never reports a hit.
#[test]
fn empty_union_misses() {
    let mut node = Node::Union(Union::make());
    node.prepare_render();
    assert!(node.intersect(&ray(0, 0, -2, 0, 0, 1)).is_none());
}

// Idempotent prepare: preparing again with unchanged transforms leaves both
// cached matrices bitwise identical, down through the children.
#[test]
fn prepare_render_is_idempotent() {
    let mut u = Union::make();
    u.item_list.push(sphere_at_z(5));
    let mut node = Node::Union(u);
    node.translate(ri(0), ri(-1), ri(0));
    node.prepare_render();
    let rb1 = *node.m_rb();
    let br1 = *node.m_br();
    node.prepare_render();
    assert_eq!(rb1, *node.m_rb());
    assert_eq!(br1, *node.m_br());
    let t1 = node.intersect(&ray(0, -1, 0, 0, 0, 1)).expect("must hit");
    assert_rat_int(&t1, 4);
}

// A transformed union still resolves hits through both cached frames: the
// union is shifted down by one, so a ray at y = -1 sees the sphere dead on.
#[test]
fn union_translation_moves_children() {
    let mut u = Union::make();
    u.item_list.push(sphere_at_z(5));
    let mut node = Node::Union(u);
    node.translate(ri(0), ri(-1), ri(0));
    node.prepare_render();
    assert!(node.intersect(&ray(0, 1, 0, 0, 0, 1)).is_none());
    let t = node.intersect(&ray(0, -1, 0, 0, 0, 1)).expect("must hit");
    assert_rat_int(&t, 4);
}

// The dot product ignores the implicit homogeneous coordinate.
#[test]
fn dot_products() {
    let a = pos(1, 2, 3);
    let b = dir(4, -5, 6);
    let d = a.dot_dir(&b);
    assert_rat_int(&d, 12);
    let s = dir(1, 2, 2);
    assert_rat_int(&s.dot(&s), 9);
}

// Cramer inverse of a diagonal matrix divides each entry exactly.
#[test]
fn diagonal_inverse() {
    let m = Matrix3x3 {
        n00: 2, n01: 0, n02: 0, n10: 0, n11: 4, n12: 0, n20: 0, n21: 0, n22: 8, den: 1,
    };
    let w = m.inv();
    let p = w.mul_pos(&pos(2, 4, 8));
    assert_rat_int(&p._x(), 1);
    assert_rat_int(&p._y(), 1);
    assert_rat_int(&p._z(), 1);
}
