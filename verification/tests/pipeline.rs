use vgacube::geometry::{make_geometry, rotate, matmul, Axis, Mat3, Point, Quad, ONE};
use vgacube::quant::{quantize_block, get_VGA_bytes, BUF_W, BUF_H};
use vgacube::raster::{test_in_poly, rasterize, face_color};
use vgacube::anim::AnimState;

fn pt(x: i64, y: i64, z: i64) -> Point {
    Point { x, y, z }
}

fn quad(p0: Point, p1: Point, p2: Point, p3: Point) -> Quad {
    Quad { p0, p1, p2, p3 }
}

fn scale_quad(q: &Quad, k: i64) -> Quad {
    quad(
        pt(q.p0.x * k, q.p0.y * k, q.p0.z * k),
        pt(q.p1.x * k, q.p1.y * k, q.p1.z * k),
        pt(q.p2.x * k, q.p2.y * k, q.p2.z * k),
        pt(q.p3.x * k, q.p3.y * k, q.p3.z * k),
    )
}

// An exact fixed-point cosine/sine pair: 600^2 + 800^2 == 1000^2.
const C: i64 = 600;
const S: i64 = 800;

#[test]
fn rotate_round_trip_restores_quad() {
    let q = quad(pt(-1, -1, -1), pt(1, -1, -1), pt(1, 1, -1), pt(-1, 1, -1));
    for axis in [Axis::X, Axis::Y, Axis::Z] {
        let once = rotate(&q, axis, C, S);
        let back = rotate(&once, axis, C, -S);
        assert_eq!(back, scale_quad(&q, ONE * ONE));
    }
}

#[test]
fn rotate_preserves_edge_lengths_and_planarity() {
    let q = quad(pt(-1, -1, -1), pt(1, -1, -1), pt(1, 1, -1), pt(-1, 1, -1));
    let d = |a: &Point, b: &Point| {
        (a.x - b.x) * (a.x - b.x) + (a.y - b.y) * (a.y - b.y) + (a.z - b.z) * (a.z - b.z)
    };
    for axis in [Axis::X, Axis::Y, Axis::Z] {
        let r = rotate(&q, axis, C, S);
        assert_eq!(d(&r.p0, &r.p1), ONE * ONE * d(&q.p0, &q.p1));
        assert_eq!(d(&r.p1, &r.p2), ONE * ONE * d(&q.p1, &q.p2));
        assert_eq!(d(&r.p2, &r.p3), ONE * ONE * d(&q.p2, &q.p3));
        assert_eq!(d(&r.p3, &r.p0), ONE * ONE * d(&q.p3, &q.p0));
        // the parallelogram shape (hence planarity) survives
        assert_eq!(r.p1.x - r.p0.x, r.p2.x - r.p3.x);
        assert_eq!(r.p1.y - r.p0.y, r.p2.y - r.p3.y);
        assert_eq!(r.p1.z - r.p0.z, r.p2.z - r.p3.z);
    }
}

#[test]
fn faces_form_closed_cube() {
    let g = make_geometry();
    assert_eq!(g.len(), 6);
    let corner = |k: usize| {
        pt(
            if k % 2 == 1 { ONE } else { -ONE },
            if (k / 2) % 2 == 1 { ONE } else { -ONE },
            if (k / 4) % 2 == 1 { ONE } else { -ONE },
        )
    };
    let edges: [(usize, usize); 12] = [
        (0, 1), (2, 3), (4, 5), (6, 7),
        (0, 2), (1, 3), (4, 6), (5, 7),
        (0, 4), (1, 5), (2, 6), (3, 7),
    ];
    for &(i, j) in edges.iter() {
        let a = corner(i);
        let b = corner(j);
        let mut n = 0;
        for f in g.iter() {
            let sides = [(f.p0, f.p1), (f.p1, f.p2), (f.p2, f.p3), (f.p3, f.p0)];
            if sides.iter().any(|&(u, v)| (u == a && v == b) || (u == b && v == a)) {
                n += 1;
            }
        }
        assert_eq!(n, 2, "edge {:?}-{:?} in {} faces", i, j, n);
    }
}

#[test]
fn matmul_identity_scaled() {
    let m = Mat3 {
        m00: ONE, m01: 0, m02: 0,
        m10: 0, m11: ONE, m12: 0,
        m20: 0, m21: 0, m22: ONE,
    };
    let v = pt(3, -4, 5);
    let r = matmul(&m, &v);
    assert_eq!(r, pt(3 * ONE, -4 * ONE, 5 * ONE));
}

#[test]
fn quantize_uniform_block() {
    assert_eq!(quantize_block(0x9, 0x9, 0x9, 0x9), (0xdb, 0x9));
}

#[test]
fn quantize_three_one() {
    assert_eq!(quantize_block(0x9, 0x9, 0x9, 0xd), (0xb2, 0xd9));
    assert_eq!(quantize_block(0xd, 0x9, 0xd, 0xd), (0xb2, 0x9d));
}

#[test]
fn quantize_two_two_tie_lower_wins() {
    assert_eq!(quantize_block(0x9, 0x9, 0xd, 0xd), (0xb1, 0xd9));
    assert_eq!(quantize_block(0xd, 0x9, 0xd, 0x9), (0xb1, 0xd9));
}

#[test]
fn quantize_two_one_one() {
    assert_eq!(quantize_block(5, 5, 7, 9), (0xb1, 0x75));
}

#[test]
fn quantize_all_distinct_sentinel() {
    assert_eq!(quantize_block(1, 2, 3, 4), (0x40, 0x0f));
}

#[test]
fn vga_bytes_reads_block() {
    let mut buffer = vec![0u8; BUF_W * BUF_H];
    buffer[0] = 0x9;
    buffer[1] = 0x9;
    buffer[BUF_W] = 0x9;
    buffer[BUF_W + 1] = 0x9;
    assert_eq!(get_VGA_bytes(&buffer, 0, 0), (0xdb, 0x9));
    assert_eq!(get_VGA_bytes(&buffer, 2, 0), (0xdb, 0x0));
}

#[test]
fn point_in_poly_centroid_and_outside() {
    let q = quad(pt(0, 0, 0), pt(10, 0, 0), pt(10, 10, 0), pt(0, 10, 0));
    assert!(test_in_poly(&q, &pt(5, 5, 0)));
    assert!(!test_in_poly(&q, &pt(20, 5, 0)));
    assert!(!test_in_poly(&q, &pt(5, -1, 0)));
    assert!(!test_in_poly(&q, &pt(-1, 5, 0)));
}

#[test]
fn rasterize_later_face_wins() {
    // six copies of one huge face: every covered pixel ends with face 5's colour
    let big = quad(
        pt(-2 * ONE * ONE * ONE, -2 * ONE * ONE * ONE, 0),
        pt(2 * ONE * ONE * ONE, -2 * ONE * ONE * ONE, 0),
        pt(2 * ONE * ONE * ONE, 2 * ONE * ONE * ONE, 0),
        pt(-2 * ONE * ONE * ONE, 2 * ONE * ONE * ONE, 0),
    );
    let g = vec![big; 6];
    let mut buffer = vec![0u8; BUF_W * BUF_H];
    rasterize(&mut buffer, &g);
    // the centre of the screen is covered by the quad
    let centre = 25 * BUF_W + 80;
    assert_eq!(buffer[centre], face_color(5));
    assert_eq!(face_color(5), 0xe);
}

#[test]
fn face_colors_cycle_past_background() {
    assert_eq!(
        (0..6).map(face_color).collect::<Vec<u8>>(),
        vec![0x9, 0xd, 0xb, 0xa, 0xc, 0xe]
    );
}

#[test]
fn throttle_steps_every_tenth_frame() {
    let mut st = AnimState::new();
    for k in 1..10 {
        st.advance();
        assert_eq!(st.counter, k);
        assert_eq!(st.yaw_tenths, 0);
        assert_eq!(st.pitch_tenths, 0);
    }
    st.advance();
    assert_eq!(st.counter, 0);
    assert_eq!(st.yaw_tenths, 2);
    assert_eq!(st.pitch_tenths, 1);
}
