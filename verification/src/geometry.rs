//! Points, quads and axis rotations in signed fixed-point arithmetic.
//!
//! A coordinate is an `i64` carrying an implicit denominator: the value it
//! represents is the integer divided by some power of [`ONE`]. Rotating by a
//! cosine/sine pair given at scale `ONE` multiplies every coordinate by `ONE`,
//! so the denominator of a quad grows by one factor of `ONE` per rotation and
//! no rounding ever happens. The point-in-polygon test downstream only looks
//! at signs of cross products, which a common positive denominator does not
//! change.

use vstd::prelude::*;

verus! {

/// Fixed-point unit: a cosine/sine pair for an angle is given as integers
/// `c`, `s` with `c*c + s*s == ONE*ONE` (exactly for the right angles used to
/// build the cube, approximately for pairs derived from a real angle).
pub const ONE: i64 = 1000;

/// Largest coordinate magnitude accepted by [`matmul`] and [`rotate`]:
/// `3 * ONE * COORD_LIMIT` must stay below `i64::MAX`.
pub const COORD_LIMIT: i64 = 0x4_0000_0000_0000;

/// Mathematical model of a point: unbounded integer coordinates.
pub struct Pnt {
    pub x: int,
    pub y: int,
    pub z: int,
}

/// Mathematical model of a quad: four vertices in winding order.
pub struct QuadV {
    pub p0: Pnt,
    pub p1: Pnt,
    pub p2: Pnt,
    pub p3: Pnt,
}

/// A point (or direction): three fixed-point coordinates.
#[derive(Clone, Copy, PartialEq, Eq, Structural, Debug)]
pub struct Point {
    pub x: i64,
    pub y: i64,
    pub z: i64,
}

impl View for Point {
    type V = Pnt;

    open spec fn view(&self) -> Pnt {
        Pnt { x: self.x as int, y: self.y as int, z: self.z as int }
    }
}

/// An ordered planar convex quadrilateral: one cube face.
#[derive(Clone, Copy, PartialEq, Eq, Structural, Debug)]
pub struct Quad {
    pub p0: Point,
    pub p1: Point,
    pub p2: Point,
    pub p3: Point,
}

impl View for Quad {
    type V = QuadV;

    open spec fn view(&self) -> QuadV {
        QuadV { p0: self.p0@, p1: self.p1@, p2: self.p2@, p3: self.p3@ }
    }
}

/// One of the three coordinate axes a rotation can turn about.
#[derive(Clone, Copy, Debug)]
pub enum Axis {
    X,
    Y,
    Z,
}

/// A 3x3 matrix in row-major order, fixed-point entries.
#[derive(Clone, Copy, Debug)]
pub struct Mat3 {
    pub m00: i64,
    pub m01: i64,
    pub m02: i64,
    pub m10: i64,
    pub m11: i64,
    pub m12: i64,
    pub m20: i64,
    pub m21: i64,
    pub m22: i64,
}

pub open spec fn pt_bounded(p: Pnt, b: int) -> bool {
    -b <= p.x <= b && -b <= p.y <= b && -b <= p.z <= b
}

pub open spec fn quad_bounded(q: QuadV, b: int) -> bool {
    pt_bounded(q.p0, b) && pt_bounded(q.p1, b) && pt_bounded(q.p2, b) && pt_bounded(q.p3, b)
}

pub open spec fn mat_bounded(m: Mat3, b: int) -> bool {
    &&& -b <= m.m00 <= b
    &&& -b <= m.m01 <= b
    &&& -b <= m.m02 <= b
    &&& -b <= m.m10 <= b
    &&& -b <= m.m11 <= b
    &&& -b <= m.m12 <= b
    &&& -b <= m.m20 <= b
    &&& -b <= m.m21 <= b
    &&& -b <= m.m22 <= b
}

/// What multiplying a matrix by a point yields, exactly.
pub open spec fn mat_apply(m: Mat3, v: Pnt) -> Pnt {
    Pnt {
        x: m.m00 * v.x + m.m01 * v.y + m.m02 * v.z,
        y: m.m10 * v.x + m.m11 * v.y + m.m12 * v.z,
        z: m.m20 * v.x + m.m21 * v.y + m.m22 * v.z,
    }
}

/// Rotation of one point about an axis, before any renormalisation: the
/// result's denominator is `ONE` times the argument's.
pub open spec fn rot_pt(axis: Axis, c: int, s: int, p: Pnt) -> Pnt {
    match axis {
        Axis::X => Pnt { x: ONE * p.x, y: c * p.y - s * p.z, z: s * p.y + c * p.z },
        Axis::Y => Pnt { x: c * p.x + s * p.z, y: ONE * p.y, z: c * p.z - s * p.x },
        Axis::Z => Pnt { x: c * p.x - s * p.y, y: s * p.x + c * p.y, z: ONE * p.z },
    }
}

/// Rotation applied to every vertex of a quad independently.
pub open spec fn rot_quad(axis: Axis, c: int, s: int, q: QuadV) -> QuadV {
    QuadV {
        p0: rot_pt(axis, c, s, q.p0),
        p1: rot_pt(axis, c, s, q.p1),
        p2: rot_pt(axis, c, s, q.p2),
        p3: rot_pt(axis, c, s, q.p3),
    }
}

pub open spec fn pt_scale(k: int, p: Pnt) -> Pnt {
    Pnt { x: k * p.x, y: k * p.y, z: k * p.z }
}

pub open spec fn quad_scale(k: int, q: QuadV) -> QuadV {
    QuadV {
        p0: pt_scale(k, q.p0),
        p1: pt_scale(k, q.p1),
        p2: pt_scale(k, q.p2),
        p3: pt_scale(k, q.p3),
    }
}

proof fn lemma_neg_mul(a: int, b: int) by (nonlinear_arith)
    ensures
        (-a) * b == -(a * b),
{
}

proof fn lemma_abs_mul_le(a: int, b: int, ab: int, bb: int) by (nonlinear_arith)
    requires
        -ab <= a <= ab,
        -bb <= b <= bb,
        0 <= ab,
        0 <= bb,
    ensures
        -(ab * bb) <= a * b <= ab * bb,
{
}

/// Multiplies a 3x3 matrix by a point.
pub fn matmul(m: &Mat3, v: &Point) -> (r: Point)
    requires
        mat_bounded(*m, ONE as int),
        pt_bounded(v@, COORD_LIMIT as int),
    ensures
        r@ == mat_apply(*m, v@),
{
    proof {
        lemma_abs_mul_le(m.m00 as int, v.x as int, ONE as int, COORD_LIMIT as int);
        lemma_abs_mul_le(m.m01 as int, v.y as int, ONE as int, COORD_LIMIT as int);
        lemma_abs_mul_le(m.m02 as int, v.z as int, ONE as int, COORD_LIMIT as int);
        lemma_abs_mul_le(m.m10 as int, v.x as int, ONE as int, COORD_LIMIT as int);
        lemma_abs_mul_le(m.m11 as int, v.y as int, ONE as int, COORD_LIMIT as int);
        lemma_abs_mul_le(m.m12 as int, v.z as int, ONE as int, COORD_LIMIT as int);
        lemma_abs_mul_le(m.m20 as int, v.x as int, ONE as int, COORD_LIMIT as int);
        lemma_abs_mul_le(m.m21 as int, v.y as int, ONE as int, COORD_LIMIT as int);
        lemma_abs_mul_le(m.m22 as int, v.z as int, ONE as int, COORD_LIMIT as int);
    }
    Point {
        x: m.m00 * v.x + m.m01 * v.y + m.m02 * v.z,
        y: m.m10 * v.x + m.m11 * v.y + m.m12 * v.z,
        z: m.m20 * v.x + m.m21 * v.y + m.m22 * v.z,
    }
}

/// Rotates every vertex of a quad about `axis` by the angle whose cosine and
/// sine, at scale `ONE`, are `c` and `s`. The result's coordinates carry one
/// more factor of `ONE` in their denominator than the argument's.
pub fn rotate(quad: &Quad, axis: Axis, c: i64, s: i64) -> (r: Quad)
    requires
        -ONE <= c <= ONE,
        -ONE <= s <= ONE,
        quad_bounded(quad@, COORD_LIMIT as int),
    ensures
        r@ == rot_quad(axis, c as int, s as int, quad@),
{
    let mat = match axis {
        Axis::X => Mat3 {
            m00: ONE, m01: 0, m02: 0,
            m10: 0, m11: c, m12: -s,
            m20: 0, m21: s, m22: c,
        },
        Axis::Y => Mat3 {
            m00: c, m01: 0, m02: s,
            m10: 0, m11: ONE, m12: 0,
            m20: -s, m21: 0, m22: c,
        },
        Axis::Z => Mat3 {
            m00: c, m01: -s, m02: 0,
            m10: s, m11: c, m12: 0,
            m20: 0, m21: 0, m22: ONE,
        },
    };
    let r = Quad {
        p0: matmul(&mat, &quad.p0),
        p1: matmul(&mat, &quad.p1),
        p2: matmul(&mat, &quad.p2),
        p3: matmul(&mat, &quad.p3),
    };
    proof {
        // The matrix entry `-s` multiplies a coordinate; the specification
        // subtracts the product instead.
        lemma_neg_mul(s as int, quad.p0@.x);
        lemma_neg_mul(s as int, quad.p0@.y);
        lemma_neg_mul(s as int, quad.p0@.z);
        lemma_neg_mul(s as int, quad.p1@.x);
        lemma_neg_mul(s as int, quad.p1@.y);
        lemma_neg_mul(s as int, quad.p1@.z);
        lemma_neg_mul(s as int, quad.p2@.x);
        lemma_neg_mul(s as int, quad.p2@.y);
        lemma_neg_mul(s as int, quad.p2@.z);
        lemma_neg_mul(s as int, quad.p3@.x);
        lemma_neg_mul(s as int, quad.p3@.y);
        lemma_neg_mul(s as int, quad.p3@.z);
    }
    r
}

} // verus!

verus! {

// ---------------------------------------------------------------------------
// The canonical cube
// ---------------------------------------------------------------------------

/// The base face from which all six faces are generated: the unit square at
/// depth -1, counter-clockwise winding, at denominator 1.
pub open spec fn base_quad() -> QuadV {
    QuadV {
        p0: Pnt { x: -1, y: -1, z: -1 },
        p1: Pnt { x: 1, y: -1, z: -1 },
        p2: Pnt { x: 1, y: 1, z: -1 },
        p3: Pnt { x: -1, y: 1, z: -1 },
    }
}

/// Face `i` of the cube: the base face turned by a quarter-turn multiple
/// about Y (faces 0 to 3) or by a quarter turn about X (faces 4 and 5).
/// Quarter turns have exact fixed-point cosine/sine pairs, so the faces'
/// coordinates are exact: every coordinate is `ONE` or `-ONE`.
pub open spec fn canonical_face(i: int) -> QuadV {
    if i == 0 {
        rot_quad(Axis::Y, ONE as int, 0, base_quad())
    } else if i == 1 {
        rot_quad(Axis::Y, 0, ONE as int, base_quad())
    } else if i == 2 {
        rot_quad(Axis::Y, -(ONE as int), 0, base_quad())
    } else if i == 3 {
        rot_quad(Axis::Y, 0, -(ONE as int), base_quad())
    } else if i == 4 {
        rot_quad(Axis::X, 0, -(ONE as int), base_quad())
    } else {
        rot_quad(Axis::X, 0, ONE as int, base_quad())
    }
}

/// Builds the six faces of the cube from the base face, in face order.
pub fn make_geometry() -> (g: Vec<Quad>)
    ensures
        g@.len() == 6,
        forall|i: int| 0 <= i < 6 ==> (#[trigger] g@[i])@ == canonical_face(i),
        forall|i: int| 0 <= i < 6 ==> quad_bounded((#[trigger] g@[i])@, ONE as int),
{
    let base = Quad {
        p0: Point { x: -1, y: -1, z: -1 },
        p1: Point { x: 1, y: -1, z: -1 },
        p2: Point { x: 1, y: 1, z: -1 },
        p3: Point { x: -1, y: 1, z: -1 },
    };
    let mut g: Vec<Quad> = Vec::new();
    g.push(rotate(&base, Axis::Y, ONE, 0));
    g.push(rotate(&base, Axis::Y, 0, ONE));
    g.push(rotate(&base, Axis::Y, -ONE, 0));
    g.push(rotate(&base, Axis::Y, 0, -ONE));
    g.push(rotate(&base, Axis::X, 0, -ONE));
    g.push(rotate(&base, Axis::X, 0, ONE));
    proof {
        assert forall|i: int| 0 <= i < 6 implies quad_bounded((#[trigger] g@[i])@, ONE as int) by {
            if i == 0 {
                assert(quad_bounded(canonical_face(0), ONE as int));
            } else if i == 1 {
                assert(quad_bounded(canonical_face(1), ONE as int));
            } else if i == 2 {
                assert(quad_bounded(canonical_face(2), ONE as int));
            } else if i == 3 {
                assert(quad_bounded(canonical_face(3), ONE as int));
            } else if i == 4 {
                assert(quad_bounded(canonical_face(4), ONE as int));
            } else {
                assert(quad_bounded(canonical_face(5), ONE as int));
            }
        }
    }
    g
}

// ---------------------------------------------------------------------------
// Rotation laws
// ---------------------------------------------------------------------------

/// Squared distance between two points, at the squared denominator.
pub open spec fn dist_sq(p: Pnt, q: Pnt) -> int {
    (p.x - q.x) * (p.x - q.x) + (p.y - q.y) * (p.y - q.y) + (p.z - q.z) * (p.z - q.z)
}

/// A quad whose vertex order traces a parallelogram. Such a quad is planar,
/// and every face of the cube is one.
pub open spec fn is_parallelogram(q: QuadV) -> bool {
    &&& q.p1.x - q.p0.x == q.p2.x - q.p3.x
    &&& q.p1.y - q.p0.y == q.p2.y - q.p3.y
    &&& q.p1.z - q.p0.z == q.p2.z - q.p3.z
}

#[verifier::rlimit(100)]
proof fn lemma_rot2_round_trip(c: int, s: int, u: int, v: int) by (nonlinear_arith)
    ensures
        c * (c * u - s * v) + s * (s * u + c * v) == (c * c + s * s) * u,
        c * (s * u + c * v) - s * (c * u - s * v) == (c * c + s * s) * v,
        c * (c * u + s * v) - s * (c * v - s * u) == (c * c + s * s) * u,
        c * (c * v - s * u) + s * (c * u + s * v) == (c * c + s * s) * v,
{
}

/// Turning a point by an angle and then by its opposite multiplies every
/// coordinate by `c*c + s*s`; for an exact cosine/sine pair that factor is
/// `ONE*ONE`, the denominator the two rotations added, so the represented
/// point is unchanged.
pub proof fn lemma_rotate_round_trip_pt(axis: Axis, c: int, s: int, p: Pnt)
    requires
        c * c + s * s == ONE * ONE,
    ensures
        rot_pt(axis, c, -s, rot_pt(axis, c, s, p)) == pt_scale(ONE * ONE, p),
{
    let q = rot_pt(axis, c, s, p);
    match axis {
        Axis::X => {
            lemma_neg_mul(s, q.y);
            lemma_neg_mul(s, q.z);
            lemma_mul_assoc(ONE as int, ONE as int, p.x);
            lemma_rot2_round_trip(c, s, p.y, p.z);
        },
        Axis::Y => {
            lemma_neg_mul(s, q.x);
            lemma_neg_mul(s, q.z);
            lemma_mul_assoc(ONE as int, ONE as int, p.y);
            lemma_rot2_round_trip(c, s, p.x, p.z);
        },
        Axis::Z => {
            lemma_neg_mul(s, q.x);
            lemma_neg_mul(s, q.y);
            lemma_mul_assoc(ONE as int, ONE as int, p.z);
            lemma_rot2_round_trip(c, s, p.x, p.y);
        },
    }
}

/// Rotating a quad by an angle and then by its opposite gives back the quad,
/// uniformly scaled by the denominator the two rotations added.
pub proof fn lemma_rotate_round_trip(axis: Axis, c: int, s: int, q: QuadV)
    requires
        c * c + s * s == ONE * ONE,
    ensures
        rot_quad(axis, c, -s, rot_quad(axis, c, s, q)) == quad_scale(ONE * ONE, q),
{
    lemma_rotate_round_trip_pt(axis, c, s, q.p0);
    lemma_rotate_round_trip_pt(axis, c, s, q.p1);
    lemma_rotate_round_trip_pt(axis, c, s, q.p2);
    lemma_rotate_round_trip_pt(axis, c, s, q.p3);
}

proof fn lemma_mul_sub(a: int, b1: int, b2: int) by (nonlinear_arith)
    ensures
        a * b1 - a * b2 == a * (b1 - b2),
{
}

proof fn lemma_mul_comm(a: int, b: int) by (nonlinear_arith)
    ensures
        a * b == b * a,
{
}

proof fn lemma_mul_assoc(a: int, b: int, x: int) by (nonlinear_arith)
    ensures
        a * (b * x) == (a * b) * x,
{
}

proof fn lemma_sq_sub(a: int, b: int) by (nonlinear_arith)
    ensures
        (a - b) * (a - b) == a * a - 2 * (a * b) + b * b,
{
}

proof fn lemma_sq_add(a: int, b: int) by (nonlinear_arith)
    ensures
        (a + b) * (a + b) == a * a + 2 * (a * b) + b * b,
{
}

proof fn lemma_mul4(a: int, b: int, x: int, y: int) by (nonlinear_arith)
    ensures
        (a * b) * (x * y) == (a * x) * (b * y),
{
}

proof fn lemma_distrib2(p: int, q: int, r: int, t: int) by (nonlinear_arith)
    ensures
        (p + q) * (r + t) == p * r + p * t + q * r + q * t,
{
}

proof fn lemma_rot2_dist(c: int, s: int, u1: int, v1: int, u2: int, v2: int)
    ensures
        ((c * u1 - s * v1) - (c * u2 - s * v2)) * ((c * u1 - s * v1) - (c * u2 - s * v2))
            + ((s * u1 + c * v1) - (s * u2 + c * v2)) * ((s * u1 + c * v1) - (s * u2 + c * v2))
            == (c * c + s * s) * ((u1 - u2) * (u1 - u2) + (v1 - v2) * (v1 - v2)),
{
    let du = u1 - u2;
    let dv = v1 - v2;
    lemma_mul_sub(c, u1, u2);
    lemma_mul_sub(s, v1, v2);
    lemma_mul_sub(s, u1, u2);
    lemma_mul_sub(c, v1, v2);
    assert((c * u1 - s * v1) - (c * u2 - s * v2) == c * du - s * dv);
    assert((s * u1 + c * v1) - (s * u2 + c * v2) == s * du + c * dv);
    lemma_sq_sub(c * du, s * dv);
    lemma_sq_add(s * du, c * dv);
    lemma_mul4(c, du, c, du);
    lemma_mul4(s, dv, s, dv);
    lemma_mul4(s, du, s, du);
    lemma_mul4(c, dv, c, dv);
    lemma_mul4(c, du, s, dv);
    lemma_mul4(s, du, c, dv);
    lemma_mul_comm(s, c);
    lemma_mul_comm(du, dv);
    lemma_distrib2(c * c, s * s, du * du, dv * dv);
}

proof fn lemma_rot2_dist_y(c: int, s: int, u1: int, v1: int, u2: int, v2: int)
    ensures
        ((c * u1 + s * v1) - (c * u2 + s * v2)) * ((c * u1 + s * v1) - (c * u2 + s * v2))
            + ((c * v1 - s * u1) - (c * v2 - s * u2)) * ((c * v1 - s * u1) - (c * v2 - s * u2))
            == (c * c + s * s) * ((u1 - u2) * (u1 - u2) + (v1 - v2) * (v1 - v2)),
{
    let du = u1 - u2;
    let dv = v1 - v2;
    lemma_mul_sub(c, u1, u2);
    lemma_mul_sub(s, v1, v2);
    lemma_mul_sub(s, u1, u2);
    lemma_mul_sub(c, v1, v2);
    assert((c * u1 + s * v1) - (c * u2 + s * v2) == c * du + s * dv);
    assert((c * v1 - s * u1) - (c * v2 - s * u2) == c * dv - s * du);
    lemma_sq_add(c * du, s * dv);
    lemma_sq_sub(c * dv, s * du);
    lemma_mul4(c, du, c, du);
    lemma_mul4(s, dv, s, dv);
    lemma_mul4(s, du, s, du);
    lemma_mul4(c, dv, c, dv);
    lemma_mul4(c, du, s, dv);
    lemma_mul4(c, dv, s, du);
    lemma_mul_comm(s, c);
    lemma_mul_comm(du, dv);
    lemma_distrib2(c * c, s * s, du * du, dv * dv);
}

proof fn lemma_mul_dist2(k: int, a: int, b: int) by (nonlinear_arith)
    ensures
        k * (a + b) == k * a + k * b,
{
}

proof fn lemma_mul_dist3(k: int, a: int, b: int, x: int) by (nonlinear_arith)
    ensures
        k * (a + b + x) == k * a + k * b + k * x,
{
}

proof fn lemma_scale_sq(m: int, a1: int, a2: int) by (nonlinear_arith)
    ensures
        (m * a1 - m * a2) * (m * a1 - m * a2) == (m * m) * ((a1 - a2) * (a1 - a2)),
{
}

/// Rotation scales every squared distance by exactly `ONE*ONE`, the squared
/// denominator it adds: for an exact cosine/sine pair the represented
/// distances, hence the edge lengths of every quad, are preserved.
pub proof fn lemma_rotate_preserves_dist_sq(axis: Axis, c: int, s: int, a: Pnt, b: Pnt)
    requires
        c * c + s * s == ONE * ONE,
    ensures
        dist_sq(rot_pt(axis, c, s, a), rot_pt(axis, c, s, b)) == ONE * ONE * dist_sq(a, b),
{
    let ki: int = (ONE as int) * (ONE as int);
    let dx2: int = (a.x - b.x) * (a.x - b.x);
    let dy2: int = (a.y - b.y) * (a.y - b.y);
    let dz2: int = (a.z - b.z) * (a.z - b.z);
    lemma_mul_dist3(ki, dx2, dy2, dz2);
    match axis {
        Axis::X => {
            lemma_rot2_dist(c, s, a.y, a.z, b.y, b.z);
            lemma_scale_sq(ONE as int, a.x, b.x);
            lemma_mul_dist2(ki, dy2, dz2);
        },
        Axis::Y => {
            lemma_rot2_dist_y(c, s, a.x, a.z, b.x, b.z);
            lemma_scale_sq(ONE as int, a.y, b.y);
            lemma_mul_dist2(ki, dx2, dz2);
        },
        Axis::Z => {
            lemma_rot2_dist(c, s, a.x, a.y, b.x, b.y);
            lemma_scale_sq(ONE as int, a.z, b.z);
            lemma_mul_dist2(ki, dx2, dy2);
        },
    }
}

/// Edge lengths of a quad are preserved by rotation (squared, at the squared
/// denominator the rotation adds).
pub proof fn lemma_rotate_preserves_edge_lengths(axis: Axis, c: int, s: int, q: QuadV)
    requires
        c * c + s * s == ONE * ONE,
    ensures
        dist_sq(rot_quad(axis, c, s, q).p0, rot_quad(axis, c, s, q).p1) == ONE * ONE * dist_sq(q.p0, q.p1),
        dist_sq(rot_quad(axis, c, s, q).p1, rot_quad(axis, c, s, q).p2) == ONE * ONE * dist_sq(q.p1, q.p2),
        dist_sq(rot_quad(axis, c, s, q).p2, rot_quad(axis, c, s, q).p3) == ONE * ONE * dist_sq(q.p2, q.p3),
        dist_sq(rot_quad(axis, c, s, q).p3, rot_quad(axis, c, s, q).p0) == ONE * ONE * dist_sq(q.p3, q.p0),
{
    lemma_rotate_preserves_dist_sq(axis, c, s, q.p0, q.p1);
    lemma_rotate_preserves_dist_sq(axis, c, s, q.p1, q.p2);
    lemma_rotate_preserves_dist_sq(axis, c, s, q.p2, q.p3);
    lemma_rotate_preserves_dist_sq(axis, c, s, q.p3, q.p0);
}

proof fn lemma_lin_diff(c1: int, c2: int, a1: int, a2: int, b1: int, b2: int, d1: int, d2: int, e1: int, e2: int) by (nonlinear_arith)
    requires
        a1 - b1 == d1 - e1,
        a2 - b2 == d2 - e2,
    ensures
        (c1 * a1 + c2 * a2) - (c1 * b1 + c2 * b2) == (c1 * d1 + c2 * d2) - (c1 * e1 + c2 * e2),
        (c1 * a1 - c2 * a2) - (c1 * b1 - c2 * b2) == (c1 * d1 - c2 * d2) - (c1 * e1 - c2 * e2),
{
}

/// Rotation is linear, so it keeps a quad a parallelogram; a parallelogram is
/// planar, so the planarity of every cube face survives every rotation.
pub proof fn lemma_rotate_preserves_parallelogram(axis: Axis, c: int, s: int, q: QuadV)
    requires
        is_parallelogram(q),
    ensures
        is_parallelogram(rot_quad(axis, c, s, q)),
{
    match axis {
        Axis::X => {
            lemma_lin_diff(ONE as int, 0, q.p1.x, 0, q.p0.x, 0, q.p2.x, 0, q.p3.x, 0);
            lemma_lin_diff(c, s, q.p1.y, q.p1.z, q.p0.y, q.p0.z, q.p2.y, q.p2.z, q.p3.y, q.p3.z);
            lemma_lin_diff(s, c, q.p1.y, q.p1.z, q.p0.y, q.p0.z, q.p2.y, q.p2.z, q.p3.y, q.p3.z);
        },
        Axis::Y => {
            lemma_lin_diff(c, s, q.p1.x, q.p1.z, q.p0.x, q.p0.z, q.p2.x, q.p2.z, q.p3.x, q.p3.z);
            lemma_lin_diff(ONE as int, 0, q.p1.y, 0, q.p0.y, 0, q.p2.y, 0, q.p3.y, 0);
            lemma_lin_diff(c, s, q.p1.z, q.p1.x, q.p0.z, q.p0.x, q.p2.z, q.p2.x, q.p3.z, q.p3.x);
        },
        Axis::Z => {
            lemma_lin_diff(c, s, q.p1.x, q.p1.y, q.p0.x, q.p0.y, q.p2.x, q.p2.y, q.p3.x, q.p3.y);
            lemma_lin_diff(s, c, q.p1.x, q.p1.y, q.p0.x, q.p0.y, q.p2.x, q.p2.y, q.p3.x, q.p3.y);
            lemma_lin_diff(ONE as int, 0, q.p1.z, 0, q.p0.z, 0, q.p2.z, 0, q.p3.z, 0);
        },
    }
}

// ---------------------------------------------------------------------------
// The six faces close the cube
// ---------------------------------------------------------------------------

/// Corner `k` of the cube (0 to 7), coordinate signs taken from the bits of
/// `k`, at denominator `ONE` like the canonical faces.
pub open spec fn cube_corner(k: int) -> Pnt {
    Pnt {
        x: if k % 2 == 1 { ONE as int } else { -(ONE as int) },
        y: if (k / 2) % 2 == 1 { ONE as int } else { -(ONE as int) },
        z: if (k / 4) % 2 == 1 { ONE as int } else { -(ONE as int) },
    }
}

/// The corner-index pairs of the cube's twelve edges.
pub open spec fn cube_edge(e: int) -> (int, int) {
    if e == 0 { (0, 1) }
    else if e == 1 { (2, 3) }
    else if e == 2 { (4, 5) }
    else if e == 3 { (6, 7) }
    else if e == 4 { (0, 2) }
    else if e == 5 { (1, 3) }
    else if e == 6 { (4, 6) }
    else if e == 7 { (5, 7) }
    else if e == 8 { (0, 4) }
    else if e == 9 { (1, 5) }
    else if e == 10 { (2, 6) }
    else { (3, 7) }
}

pub open spec fn seg_matches(u: Pnt, v: Pnt, a: Pnt, b: Pnt) -> bool {
    (u == a && v == b) || (u == b && v == a)
}

/// Whether the segment `a`-`b` is one of the quad's four sides, in either
/// direction.
pub open spec fn quad_has_edge(q: QuadV, a: Pnt, b: Pnt) -> bool {
    ||| seg_matches(q.p0, q.p1, a, b)
    ||| seg_matches(q.p1, q.p2, a, b)
    ||| seg_matches(q.p2, q.p3, a, b)
    ||| seg_matches(q.p3, q.p0, a, b)
}

/// How many of the six canonical faces have the segment `a`-`b` as a side.
pub open spec fn edge_face_count(a: Pnt, b: Pnt) -> int {
    (if quad_has_edge(canonical_face(0), a, b) { 1int } else { 0 })
        + (if quad_has_edge(canonical_face(1), a, b) { 1int } else { 0 })
        + (if quad_has_edge(canonical_face(2), a, b) { 1int } else { 0 })
        + (if quad_has_edge(canonical_face(3), a, b) { 1int } else { 0 })
        + (if quad_has_edge(canonical_face(4), a, b) { 1int } else { 0 })
        + (if quad_has_edge(canonical_face(5), a, b) { 1int } else { 0 })
}

pub open spec fn edge_shared_by_two_faces(e: int) -> bool {
    edge_face_count(cube_corner(cube_edge(e).0), cube_corner(cube_edge(e).1)) == 2
}

/// The six canonical faces form a closed cube: each of the cube's twelve
/// edges is a side of exactly two faces.
pub proof fn lemma_faces_form_closed_cube()
    ensures
        forall|e: int| 0 <= e < 12 ==> #[trigger] edge_shared_by_two_faces(e),
{
    assert forall|e: int| 0 <= e < 12 implies #[trigger] edge_shared_by_two_faces(e) by {
        if e == 0 { assert(edge_shared_by_two_faces(0)); }
        else if e == 1 { assert(edge_shared_by_two_faces(1)); }
        else if e == 2 { assert(edge_shared_by_two_faces(2)); }
        else if e == 3 { assert(edge_shared_by_two_faces(3)); }
        else if e == 4 { assert(edge_shared_by_two_faces(4)); }
        else if e == 5 { assert(edge_shared_by_two_faces(5)); }
        else if e == 6 { assert(edge_shared_by_two_faces(6)); }
        else if e == 7 { assert(edge_shared_by_two_faces(7)); }
        else if e == 8 { assert(edge_shared_by_two_faces(8)); }
        else if e == 9 { assert(edge_shared_by_two_faces(9)); }
        else if e == 10 { assert(edge_shared_by_two_faces(10)); }
        else { assert(edge_shared_by_two_faces(11)); }
    }
}

} // verus!
