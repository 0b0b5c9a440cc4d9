//! Scan conversion: projects every supersampled pixel into object space and
//! paints the faces that contain it, in face order, with no depth test — a
//! later face always overwrites an earlier one.

use vstd::prelude::*;
use crate::geometry::{Point, Quad, QuadV, Pnt, quad_bounded, pt_bounded, quad_scale};
use crate::quant::{BUF_W, BUF_H, PALETTE_N};

verus! {

/// Denominator of every quad handed to the rasterizer: the canonical faces
/// carry one factor of `ONE` and the yaw and pitch rotations add one each.
pub const SCALE: i64 = 1_000_000_000;

/// Common denominator of the projected pixel coordinates:
/// `9 * 11 * (BUF_H - 1)`, from the aspect ratio 16/9, the zoom 11/10 and the
/// projection's division by `BUF_H - 1`.
pub const PROJ_DEN: i64 = 4851;

/// Largest quad coordinate the rasterizer accepts.
pub const RASTER_LIMIT: i64 = 0x2_0000_0000;

/// Bound under which the cross products of the inside test cannot overflow.
pub const TEST_LIMIT: i64 = 0x1000_0000_0000_0000;

/// Numerator of the projected x coordinate of pixel column `x`, over
/// `PROJ_DEN`: `(2*(x - (w - h)/2) / (h - 1) - 1) * 10/11` cleared of its
/// denominators, with `w = BUF_W`, `h = BUF_H`.
pub open spec fn proj_num_x(x: int) -> int {
    90 * (2 * x - 159)
}

/// Numerator of the projected y coordinate of pixel row `y`, over `PROJ_DEN`:
/// `(16/9) * (2*y / (h - 1) - 1) * 10/11` cleared of its denominators.
pub open spec fn proj_num_y(y: int) -> int {
    160 * (2 * y - 49)
}

pub open spec fn cross_at(a: Pnt, b: Pnt, p: Pnt) -> int {
    (b.x - a.x) * (p.y - a.y) - (b.y - a.y) * (p.x - a.x)
}

/// The point-in-convex-polygon predicate: `p` is inside the quad when the 2D
/// cross product of every directed edge with the vector to `p` is
/// non-negative. Depth is ignored on both sides.
pub open spec fn in_quad(q: QuadV, p: Pnt) -> bool {
    &&& cross_at(q.p0, q.p1, p) >= 0
    &&& cross_at(q.p1, q.p2, p) >= 0
    &&& cross_at(q.p2, q.p3, p) >= 0
    &&& cross_at(q.p3, q.p0, p) >= 0
}

pub open spec fn min2(a: int, b: int) -> int {
    if a <= b { a } else { b }
}

pub open spec fn max2(a: int, b: int) -> int {
    if a >= b { a } else { b }
}

/// Whether `p` lies in the quad's axis-aligned bounding box.
pub open spec fn in_bbox(q: QuadV, p: Pnt) -> bool {
    &&& min2(min2(q.p0.x, q.p1.x), min2(q.p2.x, q.p3.x)) <= p.x
    &&& p.x <= max2(max2(q.p0.x, q.p1.x), max2(q.p2.x, q.p3.x))
    &&& min2(min2(q.p0.y, q.p1.y), min2(q.p2.y, q.p3.y)) <= p.y
    &&& p.y <= max2(max2(q.p0.y, q.p1.y), max2(q.p2.y, q.p3.y))
}

/// The projected point of pixel `(x, y)` and the quad, brought to the common
/// denominator `PROJ_DEN * SCALE`.
pub open spec fn proj_pnt(x: int, y: int) -> Pnt {
    Pnt { x: proj_num_x(x) * SCALE, y: proj_num_y(y) * SCALE, z: 0 }
}

/// Whether the face paints pixel `(x, y)`: the projected point passes the
/// bounding-box cull and the inside test, both at the common denominator.
pub open spec fn covered(q: QuadV, x: int, y: int) -> bool {
    in_bbox(quad_scale(PROJ_DEN as int, q), proj_pnt(x, y))
        && in_quad(quad_scale(PROJ_DEN as int, q), proj_pnt(x, y))
}

/// Sample `(x, y)` of a buffer, row-major.
pub open spec fn pix(b: Seq<u8>, x: int, y: int) -> u8 {
    b[y * (BUF_W as int) + x]
}

proof fn lemma_abs_mul_le(a: int, b: int, ab: int, bb: int) by (nonlinear_arith)
    requires
        -ab <= a <= ab,
        -bb <= b <= bb,
        0 <= ab,
        0 <= bb,
    ensures
        -(ab * bb) <= a * b <= ab * bb,
{
}

fn cross_edge(a: &Point, b: &Point, p: &Point) -> (d: i128)
    requires
        pt_bounded(a@, TEST_LIMIT as int),
        pt_bounded(b@, TEST_LIMIT as int),
        pt_bounded(p@, TEST_LIMIT as int),
    ensures
        d as int == cross_at(a@, b@, p@),
{
    let ex = b.x as i128 - a.x as i128;
    let ey = b.y as i128 - a.y as i128;
    let dx = p.x as i128 - a.x as i128;
    let dy = p.y as i128 - a.y as i128;
    proof {
        lemma_abs_mul_le(ex as int, dy as int, 0x2000_0000_0000_0000, 0x2000_0000_0000_0000);
        lemma_abs_mul_le(ey as int, dx as int, 0x2000_0000_0000_0000, 0x2000_0000_0000_0000);
    }
    ex * dy - ey * dx
}

/// Tests whether `p` lies inside the convex quad, by the sign of the cross
/// product of each of the four edges with the vector to `p`.
pub fn test_in_poly(poly: &Quad, p: &Point) -> (r: bool)
    requires
        quad_bounded(poly@, TEST_LIMIT as int),
        pt_bounded(p@, TEST_LIMIT as int),
    ensures
        r == in_quad(poly@, p@),
{
    if cross_edge(&poly.p0, &poly.p1, p) < 0 {
        return false;
    }
    if cross_edge(&poly.p1, &poly.p2, p) < 0 {
        return false;
    }
    if cross_edge(&poly.p2, &poly.p3, p) < 0 {
        return false;
    }
    if cross_edge(&poly.p3, &poly.p0, p) < 0 {
        return false;
    }
    true
}

fn min2e(a: i64, b: i64) -> (m: i64)
    ensures
        m as int == min2(a as int, b as int),
{
    if a <= b { a } else { b }
}

fn max2e(a: i64, b: i64) -> (m: i64)
    ensures
        m as int == max2(a as int, b as int),
{
    if a >= b { a } else { b }
}

fn scale_pt_den(p: &Point) -> (r: Point)
    requires
        pt_bounded(p@, RASTER_LIMIT as int),
    ensures
        r@ == crate::geometry::pt_scale(PROJ_DEN as int, p@),
{
    Point { x: PROJ_DEN * p.x, y: PROJ_DEN * p.y, z: PROJ_DEN * p.z }
}

/// Paints `color` over every pixel the quad covers, leaving the others.
/// The quad's coordinates carry the denominator [`SCALE`].
pub fn rasterize_poly(buffer: &mut Vec<u8>, poly: &Quad, color: u8)
    requires
        old(buffer)@.len() == BUF_W * BUF_H,
        quad_bounded(poly@, RASTER_LIMIT as int),
    ensures
        final(buffer)@.len() == BUF_W * BUF_H,
        forall|xx: int, yy: int| 0 <= xx < BUF_W && 0 <= yy < BUF_H ==>
            #[trigger] pix(final(buffer)@, xx, yy)
                == (if covered(poly@, xx, yy) { color } else { pix(old(buffer)@, xx, yy) }),
{
    let qs = Quad {
        p0: scale_pt_den(&poly.p0),
        p1: scale_pt_den(&poly.p1),
        p2: scale_pt_den(&poly.p2),
        p3: scale_pt_den(&poly.p3),
    };
    let min_x = min2e(min2e(qs.p0.x, qs.p1.x), min2e(qs.p2.x, qs.p3.x));
    let max_x = max2e(max2e(qs.p0.x, qs.p1.x), max2e(qs.p2.x, qs.p3.x));
    let min_y = min2e(min2e(qs.p0.y, qs.p1.y), min2e(qs.p2.y, qs.p3.y));
    let max_y = max2e(max2e(qs.p0.y, qs.p1.y), max2e(qs.p2.y, qs.p3.y));
    let mut x: usize = 0;
    while x < BUF_W
        invariant
            x <= BUF_W,
            buffer@.len() == BUF_W * BUF_H,
            quad_bounded(poly@, RASTER_LIMIT as int),
            qs@ == quad_scale(PROJ_DEN as int, poly@),
            min_x as int == min2(min2(qs@.p0.x, qs@.p1.x), min2(qs@.p2.x, qs@.p3.x)),
            max_x as int == max2(max2(qs@.p0.x, qs@.p1.x), max2(qs@.p2.x, qs@.p3.x)),
            min_y as int == min2(min2(qs@.p0.y, qs@.p1.y), min2(qs@.p2.y, qs@.p3.y)),
            max_y as int == max2(max2(qs@.p0.y, qs@.p1.y), max2(qs@.p2.y, qs@.p3.y)),
            forall|xx: int, yy: int| 0 <= xx < BUF_W && 0 <= yy < BUF_H ==>
                #[trigger] pix(buffer@, xx, yy)
                    == (if xx < x && covered(poly@, xx, yy) { color } else { pix(old(buffer)@, xx, yy) }),
        decreases BUF_W - x,
    {
        let mut y: usize = 0;
        while y < BUF_H
            invariant
                x < BUF_W,
                y <= BUF_H,
                buffer@.len() == BUF_W * BUF_H,
                quad_bounded(poly@, RASTER_LIMIT as int),
                qs@ == quad_scale(PROJ_DEN as int, poly@),
                min_x as int == min2(min2(qs@.p0.x, qs@.p1.x), min2(qs@.p2.x, qs@.p3.x)),
                max_x as int == max2(max2(qs@.p0.x, qs@.p1.x), max2(qs@.p2.x, qs@.p3.x)),
                min_y as int == min2(min2(qs@.p0.y, qs@.p1.y), min2(qs@.p2.y, qs@.p3.y)),
                max_y as int == max2(max2(qs@.p0.y, qs@.p1.y), max2(qs@.p2.y, qs@.p3.y)),
                forall|xx: int, yy: int| 0 <= xx < BUF_W && 0 <= yy < BUF_H ==>
                    #[trigger] pix(buffer@, xx, yy)
                        == (if (xx < x || (xx == x && yy < y)) && covered(poly@, xx, yy) {
                            color
                        } else {
                            pix(old(buffer)@, xx, yy)
                        }),
            decreases BUF_H - y,
        {
            let ghost prev = buffer@;
            let nx: i64 = 90 * (2 * (x as i64) - 159);
            let ny: i64 = 160 * (2 * (y as i64) - 49);
            let px: i64 = nx * SCALE;
            let py: i64 = ny * SCALE;
            if !(px < min_x || px > max_x || py < min_y || py > max_y) {
                let pt = Point { x: px, y: py, z: 0 };
                if test_in_poly(&qs, &pt) {
                    buffer.set(y * BUF_W + x, color);
                }
            }
            proof {
                assert forall|xx: int, yy: int| 0 <= xx < BUF_W && 0 <= yy < BUF_H implies
                    #[trigger] pix(buffer@, xx, yy)
                        == (if (xx < x || (xx == x && yy < y + 1)) && covered(poly@, xx, yy) {
                            color
                        } else {
                            pix(old(buffer)@, xx, yy)
                        }) by {
                    if xx == x as int && yy == y as int {
                        assert(pix(prev, xx, yy) == pix(old(buffer)@, xx, yy));
                    } else {
                        assert(yy * (BUF_W as int) + xx != (y as int) * (BUF_W as int) + (x as int));
                        assert(pix(buffer@, xx, yy) == pix(prev, xx, yy));
                    }
                }
            }
            y = y + 1;
        }
        x = x + 1;
    }
}

/// Colour of face `i`: the palette entries 0x9, 0xd, 0xb, 0xa, 0xc, 0xe in
/// face order; the background colour 0 is never used for a face.
pub open spec fn face_color_spec(i: int) -> u8 {
    if i % 6 == 0 { 0x9u8 }
    else if i % 6 == 1 { 0xdu8 }
    else if i % 6 == 2 { 0xbu8 }
    else if i % 6 == 3 { 0xau8 }
    else if i % 6 == 4 { 0xcu8 }
    else { 0xeu8 }
}

/// Colour of face `i` of the palette cycle.
pub fn face_color(i: usize) -> (c: u8)
    ensures
        c == face_color_spec(i as int),
        0 < c < PALETTE_N,
{
    let r = i % 6;
    if r == 0 { 0x9 }
    else if r == 1 { 0xd }
    else if r == 2 { 0xb }
    else if r == 3 { 0xa }
    else if r == 4 { 0xc }
    else { 0xe }
}

/// Final colour of pixel `(x, y)` after painting the six faces in order:
/// the colour of the last face in the array that covers the pixel, or the
/// background 0 when none does — overlap is resolved purely by face order.
pub open spec fn frame_color(g: Seq<Quad>, x: int, y: int) -> u8 {
    if covered(g[5]@, x, y) { face_color_spec(5) }
    else if covered(g[4]@, x, y) { face_color_spec(4) }
    else if covered(g[3]@, x, y) { face_color_spec(3) }
    else if covered(g[2]@, x, y) { face_color_spec(2) }
    else if covered(g[1]@, x, y) { face_color_spec(1) }
    else if covered(g[0]@, x, y) { face_color_spec(0) }
    else { 0u8 }
}

/// Clears the buffer to the background colour and paints the six faces in
/// array order; where two faces overlap, the later one wins.
pub fn rasterize(buffer: &mut Vec<u8>, geometry: &Vec<Quad>)
    requires
        old(buffer)@.len() == BUF_W * BUF_H,
        geometry@.len() == 6,
        forall|i: int| 0 <= i < 6 ==> quad_bounded((#[trigger] geometry@[i])@, RASTER_LIMIT as int),
    ensures
        final(buffer)@.len() == BUF_W * BUF_H,
        forall|xx: int, yy: int| 0 <= xx < BUF_W && 0 <= yy < BUF_H ==>
            #[trigger] pix(final(buffer)@, xx, yy) == frame_color(geometry@, xx, yy),
        forall|xx: int, yy: int| 0 <= xx < BUF_W && 0 <= yy < BUF_H ==>
            #[trigger] pix(final(buffer)@, xx, yy) < PALETTE_N,
{
    let mut k: usize = 0;
    while k < BUF_W * BUF_H
        invariant
            k <= BUF_W * BUF_H,
            buffer@.len() == BUF_W * BUF_H,
            forall|j: int| 0 <= j < k ==> buffer@[j] == 0u8,
        decreases BUF_W * BUF_H - k,
    {
        buffer.set(k, 0);
        k = k + 1;
    }
    rasterize_poly(buffer, &geometry[0], face_color(0));
    rasterize_poly(buffer, &geometry[1], face_color(1));
    rasterize_poly(buffer, &geometry[2], face_color(2));
    rasterize_poly(buffer, &geometry[3], face_color(3));
    rasterize_poly(buffer, &geometry[4], face_color(4));
    rasterize_poly(buffer, &geometry[5], face_color(5));
}

/// Where two faces overlap at a pixel, the painted colour is the later
/// face's: face order alone resolves visibility.
pub proof fn lemma_later_face_wins(g: Seq<Quad>, i: int, j: int, x: int, y: int)
    requires
        g.len() == 6,
        0 <= i < j < 6,
        covered(g[i]@, x, y),
        covered(g[j]@, x, y),
        forall|k: int| j < k < 6 ==> !covered((#[trigger] g[k])@, x, y),
    ensures
        frame_color(g, x, y) == face_color_spec(j),
{
}

} // verus!
