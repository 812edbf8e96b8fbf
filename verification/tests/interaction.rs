use polytope4d::angle::{Angle, HALF_PI};
use polytope4d::events::{
    find_hovered_button, TWO_PI, get_enabled_buttons_count, intersect_with_box, is_click, lmb_click_event,
    lmb_drag_event, mouse_down_event, mouse_up_event, resize_event, ModeButton,
};
use polytope4d::num::SCALE;
use polytope4d::objects::Object;
use polytope4d::picking::{
    clear_selection_edges, clear_selection_vertices, dist_to_edge, find_closest_edge,
    find_closest_vertice,
};
use polytope4d::vector::Vec4f;
use polytope4d::window::{MainWindow, SceneWindow, WindowGroup};

fn projected_vertex(px: i64, py: i64) -> Vec4f {
    let mut v = Vec4f::new(0, 0, 0, 0);
    v.proj = Some((px, py));
    v
}

fn buttons(flags: [bool; 4]) -> Vec<ModeButton> {
    flags.iter().map(|&enabled| ModeButton { enabled, hovered: false }).collect()
}

fn enabled_flags(bs: &[ModeButton]) -> [bool; 4] {
    [bs[0].enabled, bs[1].enabled, bs[2].enabled, bs[3].enabled]
}

#[test]
fn click_at_199ms_drag_from_200ms() {
    assert!(is_click(0, 199));
    assert!(!is_click(0, 200));
    assert!(!is_click(0, 201));
    assert!(is_click(1000, 1000));
}

#[test]
fn mouse_down_latches_once() {
    let mut down = false;
    let mut timer: u64 = 0;
    mouse_down_event(&mut down, &mut timer, 500);
    assert!(down);
    assert_eq!(timer, 500);
    mouse_down_event(&mut down, &mut timer, 900);
    assert_eq!(timer, 500);
    mouse_up_event(&mut down);
    assert!(!down);
}

#[test]
fn short_hold_does_not_rotate() {
    let mut down = false;
    let mut timer: u64 = 0;
    let mut angle = Angle::new();
    lmb_drag_event(&mut down, &mut timer, (50, 50), (0, 0), &mut angle, 0, false, 1000);
    assert!(down);
    assert_eq!(timer, 1000);
    assert_eq!((angle.yw, angle.xw, angle.yz, angle.xz, angle.zw), (0, 0, 0, 0, 0));
}

#[test]
fn drag_after_timeout_rotates() {
    let mut down = true;
    let mut timer: u64 = 1000;
    let mut angle = Angle::new();
    // 200 ms held: pixel deltas 200 right, 100 down, wheel 50.
    lmb_drag_event(&mut down, &mut timer, (200, 100), (0, 0), &mut angle, 50, false, 1200);
    assert_eq!(angle.xw, 200 * SCALE / 200);
    assert_eq!(angle.yw, 100 * SCALE / 200);
    assert_eq!(angle.zw, 50 * SCALE / 100);
    assert_eq!(angle.yz, 0);
    assert_eq!(angle.xz, 0);
}

#[test]
fn drag_with_shift_hits_the_other_planes() {
    let mut down = true;
    let mut timer: u64 = 0;
    let mut angle = Angle::new();
    lmb_drag_event(&mut down, &mut timer, (200, 100), (0, 0), &mut angle, 0, true, 300);
    assert_eq!(angle.xz, 200 * SCALE / 200);
    assert_eq!(angle.yz, 100 * SCALE / 200);
    assert_eq!(angle.xw, 0);
    assert_eq!(angle.yw, 0);
}

#[test]
fn pitch_angles_stay_clamped() {
    let mut down = true;
    let mut timer: u64 = 0;
    let mut angle = Angle::new();
    // An enormous vertical drag saturates yw at pi/2.
    lmb_drag_event(&mut down, &mut timer, (0, 500000), (0, -500000), &mut angle, 0, false, 300);
    assert_eq!(angle.yw, HALF_PI);
    // Dragging further cannot leave the clamp range.
    lmb_drag_event(&mut down, &mut timer, (0, 500000), (0, -500000), &mut angle, 0, false, 300);
    assert_eq!(angle.yw, HALF_PI);
    // And the same drag with shift saturates yz downward.
    lmb_drag_event(&mut down, &mut timer, (0, -500000), (0, 500000), &mut angle, 0, true, 300);
    assert_eq!(angle.yz, -HALF_PI);
    assert!(angle.yz >= -HALF_PI && angle.yz <= HALF_PI);
    assert!(angle.yw >= -HALF_PI && angle.yw <= HALF_PI);
}

#[test]
fn unclamped_angles_wrap_around_a_full_turn() {
    let mut down = true;
    let mut timer: u64 = 0;
    let mut angle = Angle::new();
    // Seven full-speed horizontal drags of 4096 units each: the seventh
    // carries xw past one full turn and it wraps, keeping its sign.
    for _ in 0..7 {
        lmb_drag_event(&mut down, &mut timer, (200, 0), (0, 0), &mut angle, 0, false, 300);
    }
    assert_eq!(angle.xw, 7 * SCALE - TWO_PI);
    assert!(angle.xw > -TWO_PI && angle.xw < TWO_PI);
}

#[test]
fn resize_updates_main_window_only() {
    let mut windows = WindowGroup {
        main: MainWindow::new(640, 480),
        scene: SceneWindow::new(640, 480),
    };
    resize_event(&mut windows, 1024, 768);
    assert_eq!(windows.main.config.w, 1024);
    assert_eq!(windows.main.config.h, 768);
    assert_eq!(windows.scene.config.w, 640);
    assert_eq!(windows.scene.config.h, 480);
}

#[test]
fn hover_box_is_half_open() {
    assert!(intersect_with_box(10, 10, 10, 10, 5, 5));
    assert!(!intersect_with_box(15, 10, 10, 10, 5, 5));
    assert!(!intersect_with_box(9, 10, 10, 10, 5, 5));
}

#[test]
fn hovered_button_index() {
    let win = MainWindow::new(800, 600);
    // The row starts at 800 - 114 = 686, cells 28 px wide.
    assert_eq!(find_hovered_button(690, 10, &win), Some(0));
    assert_eq!(find_hovered_button(714, 10, &win), Some(1));
    assert_eq!(find_hovered_button(771, 10, &win), Some(3));
    assert_eq!(find_hovered_button(600, 10, &win), None);
    assert_eq!(find_hovered_button(690, 40, &win), None);
}

#[test]
fn enabled_button_count() {
    assert_eq!(get_enabled_buttons_count(&buttons([false, false, false, false])), 0);
    assert_eq!(get_enabled_buttons_count(&buttons([true, false, true, true])), 3);
}

#[test]
fn nearest_vertex_inside_radius() {
    let vs = vec![projected_vertex(100, 100), projected_vertex(300, 300)];
    assert_eq!(find_closest_vertice(110, 110, &vs), Some(0));
    assert_eq!(find_closest_vertice(295, 300, &vs), Some(1));
}

#[test]
fn nearest_vertex_at_radius_is_no_pick() {
    let vs = vec![projected_vertex(100, 100)];
    // 15 px away on both axes: squared distance 450 >= 400.
    assert_eq!(find_closest_vertice(115, 115, &vs), None);
    // Exactly 20 px away: not strictly inside the radius.
    assert_eq!(find_closest_vertice(120, 100, &vs), None);
    assert_eq!(find_closest_vertice(119, 100, &vs), Some(0));
}

#[test]
fn vertex_tie_goes_to_first() {
    let vs = vec![projected_vertex(100, 100), projected_vertex(120, 100)];
    assert_eq!(find_closest_vertice(110, 100, &vs), Some(0));
}

#[test]
fn unprojected_vertices_are_never_picked() {
    let vs = vec![Vec4f::new(0, 0, 0, 0), projected_vertex(100, 100)];
    assert_eq!(find_closest_vertice(100, 100, &vs), Some(1));
    let vs2 = vec![Vec4f::new(0, 0, 0, 0)];
    assert_eq!(find_closest_vertice(0, 0, &vs2), None);
}

fn horizontal_edge_object() -> Object {
    Object {
        vertices: vec![projected_vertex(100, 100), projected_vertex(200, 100)],
        edges: vec![(0, 1, false)],
    }
}

#[test]
fn edge_distance_perpendicular() {
    let obj = horizontal_edge_object();
    // 10 px above the middle of the segment: squared distance 100.
    assert_eq!(dist_to_edge(150, 110, &obj.edges[0], &obj.vertices), Some(100));
}

#[test]
fn edge_distance_foot_beyond_endpoint_is_none() {
    let obj = horizontal_edge_object();
    // Collinear with the edge but 10 px beyond its right endpoint.
    assert_eq!(dist_to_edge(210, 100, &obj.edges[0], &obj.vertices), None);
    // And beyond the left endpoint.
    assert_eq!(dist_to_edge(90, 100, &obj.edges[0], &obj.vertices), None);
}

#[test]
fn degenerate_edge_is_no_candidate() {
    let obj = Object {
        vertices: vec![projected_vertex(100, 100), projected_vertex(100, 100)],
        edges: vec![(0, 1, false)],
    };
    assert_eq!(dist_to_edge(100, 110, &obj.edges[0], &obj.vertices), None);
}

#[test]
fn nearest_edge_respects_radius() {
    let obj = horizontal_edge_object();
    assert_eq!(find_closest_edge(150, 110, &obj), Some(0));
    // 25 px away: squared distance 625 >= 400.
    assert_eq!(find_closest_edge(150, 125, &obj), None);
}

#[test]
fn clear_selection_keeps_only_index() {
    let mut vs = vec![projected_vertex(0, 0), projected_vertex(1, 1), projected_vertex(2, 2)];
    vs[0].selected = true;
    vs[2].selected = true;
    clear_selection_vertices(&mut vs, 1);
    assert_eq!(vs.iter().map(|v| v.selected).collect::<Vec<_>>(), vec![false, true, false]);
    let mut es = vec![(0usize, 1usize, true), (1, 2, false)];
    clear_selection_edges(&mut es, 0);
    assert_eq!(es, vec![(0, 1, true), (1, 2, false)]);
}

#[test]
fn shift_clicks_enable_then_plain_click_is_exclusive() {
    // Two modes enabled through modifier clicks, then a plain click on a
    // third leaves only the third enabled.
    let mut bs = buttons([true, false, false, false]);
    let mut objects: Vec<Object> = Vec::new();
    lmb_click_event(true, &mut bs, 1, &mut objects, (0, 0), true);
    assert_eq!(enabled_flags(&bs), [true, true, false, false]);
    lmb_click_event(true, &mut bs, 2, &mut objects, (0, 0), false);
    assert_eq!(enabled_flags(&bs), [false, false, true, false]);
}

#[test]
fn shift_click_cannot_disable_last_mode() {
    let mut bs = buttons([true, false, false, false]);
    let mut objects: Vec<Object> = Vec::new();
    lmb_click_event(true, &mut bs, 0, &mut objects, (0, 0), true);
    assert_eq!(enabled_flags(&bs), [true, false, false, false]);
}

#[test]
fn shift_click_toggles_when_several_enabled() {
    let mut bs = buttons([true, true, false, false]);
    let mut objects: Vec<Object> = Vec::new();
    lmb_click_event(true, &mut bs, 0, &mut objects, (0, 0), true);
    assert_eq!(enabled_flags(&bs), [false, true, false, false]);
}

#[test]
fn click_selects_nearest_vertex_exclusively() {
    let mut bs = buttons([true, false, false, false]);
    let mut obj = horizontal_edge_object();
    obj.vertices[1].selected = true;
    let mut objects = vec![obj];
    lmb_click_event(false, &mut bs, 0, &mut objects, (105, 105), false);
    assert!(objects[0].vertices[0].selected);
    assert!(!objects[0].vertices[1].selected);
    assert!(!objects[0].edges[0].2);
}

#[test]
fn shift_click_toggles_vertex_selection() {
    let mut bs = buttons([true, false, false, false]);
    let mut objects = vec![horizontal_edge_object()];
    lmb_click_event(false, &mut bs, 0, &mut objects, (105, 105), true);
    assert!(objects[0].vertices[0].selected);
    lmb_click_event(false, &mut bs, 0, &mut objects, (105, 105), true);
    assert!(!objects[0].vertices[0].selected);
}

#[test]
fn click_selects_edge_in_edge_mode() {
    let mut bs = buttons([false, true, false, false]);
    let mut objects = vec![horizontal_edge_object()];
    lmb_click_event(false, &mut bs, 0, &mut objects, (150, 110), false);
    assert!(objects[0].edges[0].2);
    assert!(!objects[0].vertices[0].selected);
}

#[test]
fn vertex_hit_stops_the_scan_before_edges() {
    // Both modes on: a cursor near a vertex selects it, and the edge scan
    // of the same click never fires.
    let mut bs = buttons([true, true, false, false]);
    let mut objects = vec![horizontal_edge_object()];
    lmb_click_event(false, &mut bs, 0, &mut objects, (102, 102), false);
    assert!(objects[0].vertices[0].selected);
    assert!(!objects[0].edges[0].2);
}

#[test]
fn far_click_changes_nothing() {
    let mut bs = buttons([true, true, false, false]);
    let mut objects = vec![horizontal_edge_object()];
    lmb_click_event(false, &mut bs, 0, &mut objects, (500, 500), false);
    assert!(!objects[0].vertices[0].selected);
    assert!(!objects[0].vertices[1].selected);
    assert!(!objects[0].edges[0].2);
}
