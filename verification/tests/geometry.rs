use polytope4d::num::{isqrt64, SCALE};
use polytope4d::objects::{Camera, Object};
use polytope4d::projection::project_point;
use polytope4d::vector::{dist, rotate_point, PlaneTrig, Rotation, Vec4f};
use polytope4d::window::MainWindow;

#[test]
fn isqrt_small_values() {
    assert_eq!(isqrt64(0), 0);
    assert_eq!(isqrt64(1), 1);
    assert_eq!(isqrt64(2), 1);
    assert_eq!(isqrt64(3), 1);
    assert_eq!(isqrt64(4), 2);
    assert_eq!(isqrt64(24), 4);
    assert_eq!(isqrt64(25), 5);
}

#[test]
fn isqrt_large_values() {
    assert_eq!(isqrt64(u64::MAX), 4294967295);
    assert_eq!(isqrt64(1 << 62), 1 << 31);
}

#[test]
fn dist_exact_axis() {
    let origin = Vec4f::new0();
    let cam = Camera::new(Vec4f::new(0, 0, 0, -5 * SCALE));
    assert_eq!(dist(&origin, &cam.c), 5 * SCALE);
}

#[test]
fn dist_pythagorean() {
    let a = Vec4f::new(0, 0, 0, 0);
    let b = Vec4f::new(3, 4, 0, 0);
    assert_eq!(dist(&a, &b), 5);
    let c = Vec4f::new(1, 1, 0, 0);
    assert_eq!(dist(&a, &c), 1);
}

#[test]
fn identity_rotation_moves_nothing() {
    let r = Rotation::identity();
    let q = rotate_point(123, -456, 789, 1000, &r);
    assert_eq!(q, (123, -456, 789, 1000));
    let q2 = rotate_point(SCALE, SCALE, SCALE, SCALE, &r);
    assert_eq!(q2, (SCALE, SCALE, SCALE, SCALE));
}

#[test]
fn quarter_turn_in_xy() {
    let mut r = Rotation::identity();
    r.xy = PlaneTrig { sin: SCALE, cos: 0 };
    let q = rotate_point(SCALE, 0, 0, 0, &r);
    assert_eq!(q, (0, SCALE, 0, 0));
}

#[test]
fn projection_exact_value() {
    // Camera distance 5.0, window 800x600: the corner (1,1,1,1) lands on
    // (400 + 333, 300 - 333) after the two perspective divides.
    let d = 5 * SCALE;
    let p = project_point(SCALE, SCALE, SCALE, SCALE, d, 800, 600);
    assert_eq!(p, Some((733, -33)));
}

#[test]
fn projection_behind_camera_is_none() {
    let d = 5 * SCALE;
    assert_eq!(project_point(0, 0, 0, d, d, 800, 600), None);
    assert_eq!(project_point(0, 0, 0, d + 1, d, 800, 600), None);
}

#[test]
fn projection_second_stage_failure_is_none() {
    // z projects to a depth at or past the camera distance: the inner
    // stage rejects it even though the outer stage succeeded.
    let d = 5 * SCALE;
    assert_eq!(project_point(0, 0, 1 << 25, 0, d, 800, 600), None);
}

#[test]
fn tesseract_shape() {
    let t = Object::tesseract();
    assert_eq!(t.vertices.len(), 16);
    assert_eq!(t.edges.len(), 32);
    assert_eq!((t.vertices[0].x, t.vertices[0].y, t.vertices[0].z, t.vertices[0].w),
        (-SCALE, -SCALE, -SCALE, -SCALE));
    assert_eq!((t.vertices[15].x, t.vertices[15].y, t.vertices[15].z, t.vertices[15].w),
        (SCALE, SCALE, SCALE, SCALE));
    for v in &t.vertices {
        assert!(!v.selected);
        assert_eq!(v.get_proj(), None);
    }
    for e in &t.edges {
        assert!(e.0 < 16 && e.1 < 16);
        assert!(!e.2);
        let a = &t.vertices[e.0];
        let b = &t.vertices[e.1];
        let differing = [(a.x, b.x), (a.y, b.y), (a.z, b.z), (a.w, b.w)]
            .iter()
            .filter(|(p, q)| p != q)
            .count();
        assert_eq!(differing, 1);
    }
}

#[test]
fn tesseract_edges_are_distinct() {
    let t = Object::tesseract();
    for i in 0..t.edges.len() {
        for j in (i + 1)..t.edges.len() {
            assert!((t.edges[i].0, t.edges[i].1) != (t.edges[j].0, t.edges[j].1));
        }
    }
}

#[test]
fn identity_pass_matches_direct_projection() {
    // All angles zero, camera at (0,0,0,-5): the cached projection of the
    // corner (1,1,1,1) must match projecting it directly, bit for bit.
    let mut obj = Object::tesseract();
    let rot = Rotation::identity();
    let cam = Camera::new(Vec4f::new(0, 0, 0, -5 * SCALE));
    let d = dist(&Vec4f::new0(), &cam.c);
    let win = MainWindow::new(800, 600);
    obj.calc_vertices(&rot, d, &win);
    let direct = project_point(SCALE, SCALE, SCALE, SCALE, d, 800, 600);
    assert_eq!(obj.vertices[15].get_proj(), direct);
    assert_eq!(obj.vertices[15].get_proj(), Some((733, -33)));
    for v in &obj.vertices {
        assert!(v.get_proj().is_some());
    }
}
