//! The interaction layer: pointer state to angle or selection mutation.
//!
//! The frame loop polls the pointer and clock and hands plain values in:
//! cursor pixel positions, a millisecond timestamp, the modifier-key state
//! and the wheel delta. A button press records its timestamp; a release
//! before [`CLICK_TIMEOUT`] milliseconds is a click, and from that timeout
//! onward a held button feeds frame-to-frame pointer deltas into the angle
//! state instead. A click over the button row edits the four selection
//! modes (exclusive without the modifier, toggling with it, never disabling
//! the last enabled mode); a click elsewhere is resolved against the scene:
//! the first object on which the active mode's picking succeeds has that
//! one element's selection updated, and the scan stops there for vertices
//! and edges alike (one consistent first-match policy, chosen and
//! documented here).
//!
//! Drag deltas are divided by [`DRAG_DIVISOR`] (the wheel by
//! [`SCROLL_DIVISOR`]). After every mutation `yz` and `yw` are clamped to
//! `[-pi/2, pi/2]`; the other angles are kept reduced modulo one full turn,
//! the fixed-point analogue of wrapping naturally through the trigonometry,
//! so they stay exact and never overflow.

use vstd::prelude::*;
use vstd::arithmetic::div_mod::lemma_fundamental_div_mod;
use vstd::arithmetic::div_mod::lemma_mod_division_less_than_divisor;
use crate::num::SCALE;
use crate::num::tdiv;
use crate::num::tdiv_i64;
use crate::num::clamped;
use crate::num::clamp_i64;
use crate::angle::Angle;
use crate::angle::angle_wf;
use crate::angle::HALF_PI;
use crate::objects::Object;
use crate::objects::object_wf;
use crate::picking::vertex_pick;
use crate::picking::edge_pick;
use crate::picking::find_closest_vertice;
use crate::picking::find_closest_edge;
use crate::picking::clear_selection_vertices;
use crate::picking::clear_selection_edges;
use crate::projection::SCREEN_LIM;
use crate::vector::Vec4f;
use crate::window::WindowGroup;
use crate::window::MainWindow;
use crate::window::MAX_WINDOW;
use crate::window::config_wf;

verus! {

/// A press shorter than this many milliseconds is a click; from this
/// elapsed time onward the held button drags instead.
pub const CLICK_TIMEOUT: u64 = 200;

/// Pixel deltas of a drag are divided by this to give radians.
pub const DRAG_DIVISOR: i64 = 200;

/// Wheel deltas are divided by this to give radians of `zw`.
pub const SCROLL_DIVISOR: i64 = 100;

/// `floor(2 * pi * SCALE)`: one full turn in fixed-point angle units.
pub const TWO_PI: i64 = 25735;

/// One selection-mode toggle button: its enabled and hover flags. (The
/// render layer keeps the matching texture.)
#[derive(Clone, Copy)]
pub struct ModeButton {
    pub enabled: bool,
    pub hovered: bool,
}

/// How many of the selection-mode buttons are enabled.
pub open spec fn count_enabled(s: Seq<ModeButton>) -> int
    decreases s.len(),
{
    if s.len() == 0 {
        0
    } else {
        count_enabled(s.drop_last()) + if s.last().enabled {
            1int
        } else {
            0int
        }
    }
}

/// Count the enabled selection-mode buttons.
pub fn get_enabled_buttons_count(buttons: &Vec<ModeButton>) -> (r: i32)
    requires
        buttons@.len() <= 0x7fffffff,
    ensures
        r == count_enabled(buttons@),
{
    let mut counter: i32 = 0;
    let n = buttons.len();
    let mut i: usize = 0;
    while i < n
        invariant
            n == buttons@.len(),
            n <= 0x7fffffff,
            i <= n,
            counter == count_enabled(buttons@.take(i as int)),
            0 <= counter <= i,
        decreases n - i,
    {
        proof {
            assert(buttons@.take(i as int + 1).drop_last() =~= buttons@.take(i as int));
            assert(buttons@.take(i as int + 1).last() == buttons@[i as int]);
        }
        if buttons[i].enabled {
            counter = counter + 1;
        }
        i = i + 1;
    }
    proof {
        assert(buttons@.take(n as int) =~= buttons@);
    }
    counter
}

/// Was the press-to-release span a click? Strictly shorter than the
/// timeout: a hold of exactly the timeout already drags.
pub fn is_click(pressed_at_ms: u64, now_ms: u64) -> (r: bool)
    requires
        pressed_at_ms <= now_ms,
    ensures
        r == (now_ms - pressed_at_ms < CLICK_TIMEOUT),
{
    now_ms - pressed_at_ms < CLICK_TIMEOUT
}

/// A button went down this frame: latch it and record the timestamp of the
/// first frame that saw it held.
pub fn mouse_down_event(is_down: &mut bool, click_timer: &mut u64, now_ms: u64)
    ensures
        *final(is_down),
        *final(click_timer) == if *old(is_down) {
            *old(click_timer)
        } else {
            now_ms
        },
{
    if !*is_down {
        *is_down = true;
        *click_timer = now_ms;
    }
}

/// A button came back up: unlatch it.
pub fn mouse_up_event(is_down: &mut bool)
    ensures
        !*final(is_down),
{
    *is_down = false;
}

/// `a` reduced modulo one full turn, keeping its sign.
pub open spec fn wrapped(a: int) -> int {
    a - TWO_PI * tdiv(a, TWO_PI as int)
}

/// Reduce an accumulated angle modulo one full turn.
fn wrap_angle(a: i64) -> (r: i64)
    requires
        -0x4000000000000 <= a <= 0x4000000000000,
    ensures
        r == wrapped(a as int),
        -TWO_PI < r < TWO_PI,
        a >= 0 ==> r >= 0,
        a <= 0 ==> r <= 0,
{
    let q = tdiv_i64(a, TWO_PI);
    proof {
        if a >= 0 {
            lemma_fundamental_div_mod(a as int, TWO_PI as int);
            lemma_mod_division_less_than_divisor(a as int, TWO_PI as int);
        } else {
            lemma_fundamental_div_mod(-(a as int), TWO_PI as int);
            lemma_mod_division_less_than_divisor(-(a as int), TWO_PI as int);
        }
    }
    a - TWO_PI * q
}

/// The angle-state invariant together with the wrap bounds this module
/// maintains on the unclamped angles.
pub open spec fn angle_bounds(a: Angle) -> bool {
    &&& angle_wf(a)
    &&& -TWO_PI < a.xy < TWO_PI
    &&& -TWO_PI < a.xz < TWO_PI
    &&& -TWO_PI < a.xw < TWO_PI
    &&& -TWO_PI < a.zw < TWO_PI
}

/// The angle state after one drag frame: pointer deltas scaled by
/// [`DRAG_DIVISOR`] land on `{yz, xz}` with the modifier held and on
/// `{yw, xw}` without it, the wheel lands on `zw` scaled by
/// [`SCROLL_DIVISOR`]; then `yz` and `yw` are clamped and the unclamped
/// angles reduced.
pub open spec fn drag_step(a: Angle, pos: (i64, i64), last: (i64, i64), scroll_delta: i64, shift: bool) -> Angle {
    let xd = tdiv((pos.0 - last.0) * SCALE, DRAG_DIVISOR as int);
    let yd = tdiv((pos.1 - last.1) * SCALE, DRAG_DIVISOR as int);
    let sd = tdiv(scroll_delta * SCALE, SCROLL_DIVISOR as int);
    Angle {
        xy: a.xy,
        xz: (if shift {
            wrapped(a.xz + xd)
        } else {
            a.xz as int
        }) as i64,
        xw: (if !shift {
            wrapped(a.xw + xd)
        } else {
            a.xw as int
        }) as i64,
        yz: clamped(
            if shift {
                a.yz + yd
            } else {
                a.yz as int
            },
            -HALF_PI as int,
            HALF_PI as int,
        ) as i64,
        yw: clamped(
            if !shift {
                a.yw + yd
            } else {
                a.yw as int
            },
            -HALF_PI as int,
            HALF_PI as int,
        ) as i64,
        zw: wrapped(a.zw + sd) as i64,
    }
}

/// One frame of a held right button. The first frame latches the button
/// and records the press time; once the hold has outlived the click
/// timeout, every frame maps the pointer and wheel deltas onto the angle
/// state as [`drag_step`] says. However the angles are driven, `yz` and
/// `yw` come out clamped to `[-pi/2, pi/2]`.
pub fn lmb_drag_event(
    is_lmb_down: &mut bool,
    click_timer: &mut u64,
    pos: (i64, i64),
    last: (i64, i64),
    angle: &mut Angle,
    scroll_delta: i64,
    shift: bool,
    now_ms: u64,
)
    requires
        angle_bounds(*old(angle)),
        -SCREEN_LIM <= pos.0 <= SCREEN_LIM,
        -SCREEN_LIM <= pos.1 <= SCREEN_LIM,
        -SCREEN_LIM <= last.0 <= SCREEN_LIM,
        -SCREEN_LIM <= last.1 <= SCREEN_LIM,
        -SCREEN_LIM <= scroll_delta <= SCREEN_LIM,
        *old(is_lmb_down) ==> *old(click_timer) <= now_ms,
    ensures
        *final(is_lmb_down),
        *final(click_timer) == if *old(is_lmb_down) {
            *old(click_timer)
        } else {
            now_ms
        },
        now_ms - *final(click_timer) >= CLICK_TIMEOUT ==> *final(angle) == drag_step(
            *old(angle),
            pos,
            last,
            scroll_delta,
            shift,
        ),
        now_ms - *final(click_timer) < CLICK_TIMEOUT ==> *final(angle) == *old(angle),
        angle_bounds(*final(angle)),
{
    if !*is_lmb_down {
        *is_lmb_down = true;
        *click_timer = now_ms;
    }
    if now_ms - *click_timer >= CLICK_TIMEOUT {
        let x_delta = tdiv_i64((pos.0 - last.0) * SCALE, DRAG_DIVISOR);
        let y_delta = tdiv_i64((pos.1 - last.1) * SCALE, DRAG_DIVISOR);
        let s_delta = tdiv_i64(scroll_delta * SCALE, SCROLL_DIVISOR);
        proof {
            crate::num::lemma_tdiv_bound((pos.0 - last.0) * SCALE, DRAG_DIVISOR as int,
                0x100001000000);
            crate::num::lemma_tdiv_bound((pos.1 - last.1) * SCALE, DRAG_DIVISOR as int,
                0x100001000000);
            crate::num::lemma_tdiv_bound(scroll_delta * SCALE as int, SCROLL_DIVISOR as int,
                0x100001000000);
        }
        if shift {
            angle.yz = clamp_i64(angle.yz + y_delta, -HALF_PI, HALF_PI);
            angle.xz = wrap_angle(angle.xz + x_delta);
        } else {
            angle.yw = clamp_i64(angle.yw + y_delta, -HALF_PI, HALF_PI);
            angle.xw = wrap_angle(angle.xw + x_delta);
        }
        angle.yz = clamp_i64(angle.yz, -HALF_PI, HALF_PI);
        angle.yw = clamp_i64(angle.yw, -HALF_PI, HALF_PI);
        angle.zw = wrap_angle(angle.zw + s_delta);
    }
}

/// Adopt the render layer's new main-window pixel size.
pub fn resize_event(windows: &mut WindowGroup, width: i64, height: i64)
    requires
        0 <= width <= MAX_WINDOW,
        0 <= height <= MAX_WINDOW,
    ensures
        final(windows).main.config.w == width,
        final(windows).main.config.h == height,
        final(windows).main.config.x == old(windows).main.config.x,
        final(windows).main.config.y == old(windows).main.config.y,
        final(windows).scene == old(windows).scene,
{
    windows.main.set_size(width, height);
}

/// The selection-mode row after a click on button `hover_i` (when one is
/// hovered at all). Without the modifier the click selects exclusively:
/// every button is disabled and `hover_i` enabled. With the modifier it
/// toggles membership, except that the last enabled mode can only be
/// joined, never left.
pub open spec fn buttons_after_click(
    bs: Seq<ModeButton>,
    hover: bool,
    hover_i: int,
    shift: bool,
) -> Seq<ModeButton> {
    if !hover {
        bs
    } else if shift {
        if count_enabled(bs) > 1 {
            bs.update(hover_i, ModeButton { enabled: !bs[hover_i].enabled, hovered: bs[hover_i].hovered })
        } else if !bs[hover_i].enabled {
            bs.update(hover_i, ModeButton { enabled: true, hovered: bs[hover_i].hovered })
        } else {
            bs
        }
    } else {
        Seq::new(bs.len(), |i: int| ModeButton { enabled: i == hover_i, hovered: bs[i].hovered })
    }
}

/// Enabled-count of an updated row: the one slot's flag is swapped out.
proof fn lemma_count_update(s: Seq<ModeButton>, i: int, v: ModeButton)
    requires
        0 <= i < s.len(),
    ensures
        count_enabled(s.update(i, v)) == count_enabled(s) - (if s[i].enabled {
            1int
        } else {
            0int
        }) + (if v.enabled {
            1int
        } else {
            0int
        }),
    decreases s.len(),
{
    let s2 = s.update(i, v);
    if i == s.len() - 1 {
        assert(s2.drop_last() =~= s.drop_last());
        assert(s2.last() == v);
    } else {
        lemma_count_update(s.drop_last(), i, v);
        assert(s2.drop_last() =~= s.drop_last().update(i, v));
        assert(s2.last() == s.last());
    }
}

/// Enabled-count of an exclusive row: one button on, the rest off.
proof fn lemma_count_exclusive(bs: Seq<ModeButton>, hover_i: int, n: int)
    requires
        0 <= n <= bs.len(),
        0 <= hover_i < bs.len(),
    ensures
        count_enabled(
            Seq::new(n as nat, |i: int| ModeButton { enabled: i == hover_i, hovered: bs[i].hovered }),
        ) == if n > hover_i {
            1int
        } else {
            0int
        },
    decreases n,
{
    let s = Seq::new(n as nat, |i: int| ModeButton { enabled: i == hover_i, hovered: bs[i].hovered });
    if n > 0 {
        lemma_count_exclusive(bs, hover_i, n - 1);
        assert(s.drop_last() =~= Seq::new(
            (n - 1) as nat,
            |i: int| ModeButton { enabled: i == hover_i, hovered: bs[i].hovered },
        ));
        assert(s.last() == (ModeButton { enabled: n - 1 == hover_i, hovered: bs[n - 1].hovered }));
    }
}

/// A click on the button row never disables the last enabled mode: however
/// it lands - exclusive, toggling, or joining - at least one selection mode
/// stays enabled.
pub proof fn lemma_click_keeps_a_mode(bs: Seq<ModeButton>, hover_i: int, shift: bool)
    requires
        0 <= hover_i < bs.len(),
        count_enabled(bs) >= 1,
    ensures
        count_enabled(buttons_after_click(bs, true, hover_i, shift)) >= 1,
{
    if shift {
        if count_enabled(bs) > 1 {
            lemma_count_update(
                bs,
                hover_i,
                ModeButton { enabled: !bs[hover_i].enabled, hovered: bs[hover_i].hovered },
            );
        } else if !bs[hover_i].enabled {
            lemma_count_update(
                bs,
                hover_i,
                ModeButton { enabled: true, hovered: bs[hover_i].hovered },
            );
        }
    } else {
        lemma_count_exclusive(bs, hover_i, bs.len() as int);
        assert(buttons_after_click(bs, true, hover_i, shift) =~= Seq::new(
            bs.len(),
            |i: int| ModeButton { enabled: i == hover_i, hovered: bs[i].hovered },
        ));
    }
}

/// What a click finds in one object: the picked vertex when vertex mode is
/// on and vertex picking succeeds, else the picked edge when edge mode is
/// on and edge picking succeeds. `true` marks a vertex.
pub open spec fn pick_of_object(o: Object, vmode: bool, emode: bool, x: int, y: int) -> Option<
    (bool, int),
> {
    if vmode && vertex_pick(o.vertices@, x, y) is Some {
        Some((true, vertex_pick(o.vertices@, x, y)->Some_0))
    } else if emode && edge_pick(o.vertices@, o.edges@, x, y) is Some {
        Some((false, edge_pick(o.vertices@, o.edges@, x, y)->Some_0))
    } else {
        None
    }
}

/// The first object among the first `n` whose active mode's picking
/// succeeds, with what it picked: the whole click affects that one
/// element, the scan stopping there for vertices and edges alike.
pub open spec fn first_pick_upto(
    objs: Seq<Object>,
    vmode: bool,
    emode: bool,
    x: int,
    y: int,
    n: int,
) -> Option<(int, bool, int)>
    decreases n,
{
    if n <= 0 {
        None
    } else {
        let prev = first_pick_upto(objs, vmode, emode, x, y, n - 1);
        if prev is Some {
            prev
        } else {
            match pick_of_object(objs[n - 1], vmode, emode, x, y) {
                None => None,
                Some(t) => Some((n - 1, t.0, t.1)),
            }
        }
    }
}

/// Once a prefix has a first pick, longer prefixes have the same one.
proof fn lemma_first_pick_extend(
    objs: Seq<Object>,
    vmode: bool,
    emode: bool,
    x: int,
    y: int,
    m: int,
    n: int,
)
    requires
        0 <= m <= n,
        first_pick_upto(objs, vmode, emode, x, y, m) is Some,
    ensures
        first_pick_upto(objs, vmode, emode, x, y, n) == first_pick_upto(objs, vmode, emode, x, y, m),
    decreases n - m,
{
    if n > m {
        lemma_first_pick_extend(objs, vmode, emode, x, y, m, n - 1);
    }
}

/// Neither the vertex list nor the edge list of the object changed.
pub open spec fn obj_unchanged(a: Object, b: Object) -> bool {
    &&& a.vertices@ == b.vertices@
    &&& a.edges@ == b.edges@
}

/// The vertex list after the click selected vertex `vi`: with the modifier
/// the one flag toggles, without it `vi` becomes the only selected vertex.
/// Positions and projections are untouched.
pub open spec fn vertices_after_select(vs: Seq<Vec4f>, vi: int, shift: bool) -> Seq<Vec4f> {
    Seq::new(
        vs.len(),
        |t: int|
            Vec4f {
                selected: if shift {
                    if t == vi {
                        !vs[t].selected
                    } else {
                        vs[t].selected
                    }
                } else {
                    t == vi
                },
                ..vs[t]
            },
    )
}

/// The edge list after the click selected edge `ei`, likewise.
pub open spec fn edges_after_select(es: Seq<(usize, usize, bool)>, ei: int, shift: bool) -> Seq<
    (usize, usize, bool),
> {
    Seq::new(
        es.len(),
        |t: int|
            (
                es[t].0,
                es[t].1,
                if shift {
                    if t == ei {
                        !es[t].2
                    } else {
                        es[t].2
                    }
                } else {
                    t == ei
                },
            ),
    )
}

/// The scene after the click: untouched when nothing was picked; else only
/// the picked object changed, and in it only the picked element's kind of
/// selection.
pub open spec fn click_applied(
    before: Seq<Object>,
    after: Seq<Object>,
    pick: Option<(int, bool, int)>,
    shift: bool,
) -> bool {
    &&& after.len() == before.len()
    &&& match pick {
        None => forall|m: int| 0 <= m < before.len() ==> obj_unchanged(before[m], #[trigger] after[m]),
        Some(t) => {
            let k = t.0;
            &&& 0 <= k < before.len()
            &&& forall|m: int| 0 <= m < before.len() && m != k ==> obj_unchanged(
                before[m],
                #[trigger] after[m],
            )
            &&& if t.1 {
                after[k].edges@ == before[k].edges@ && after[k].vertices@ == vertices_after_select(
                    before[k].vertices@,
                    t.2,
                    shift,
                )
            } else {
                after[k].vertices@ == before[k].vertices@ && after[k].edges@ == edges_after_select(
                    before[k].edges@,
                    t.2,
                    shift,
                )
            }
        },
    }
}

/// A short left click. A click over the button row edits the selection
/// modes as [`buttons_after_click`] says; then, under the updated modes,
/// the first object whose active picking succeeds has that element's
/// selection updated as [`click_applied`] says: toggled with the modifier
/// held, made the sole selection without it.
pub fn lmb_click_event(
    hover: bool,
    selection_type_buttons: &mut Vec<ModeButton>,
    hover_i: usize,
    objects: &mut Vec<Object>,
    xy: (i64, i64),
    shift: bool,
)
    requires
        old(selection_type_buttons)@.len() == 4,
        hover ==> hover_i < 4,
        -SCREEN_LIM <= xy.0 <= SCREEN_LIM,
        -SCREEN_LIM <= xy.1 <= SCREEN_LIM,
        forall|m: int| 0 <= m < old(objects)@.len() ==> object_wf(#[trigger] old(objects)@[m]),
    ensures
        final(selection_type_buttons)@ == buttons_after_click(
            old(selection_type_buttons)@,
            hover,
            hover_i as int,
            shift,
        ),
        click_applied(
            old(objects)@,
            final(objects)@,
            first_pick_upto(
                old(objects)@,
                final(selection_type_buttons)@[0].enabled,
                final(selection_type_buttons)@[1].enabled,
                xy.0 as int,
                xy.1 as int,
                old(objects)@.len() as int,
            ),
            shift,
        ),
{
    if hover {
        if shift {
            let cnt = get_enabled_buttons_count(selection_type_buttons);
            if cnt > 1 {
                let mut b = selection_type_buttons[hover_i];
                b.enabled = !b.enabled;
                selection_type_buttons[hover_i] = b;
            } else if !selection_type_buttons[hover_i].enabled {
                let mut b = selection_type_buttons[hover_i];
                b.enabled = true;
                selection_type_buttons[hover_i] = b;
            }
        } else {
            let mut t: usize = 0;
            while t < 4
                invariant
                    selection_type_buttons@.len() == 4,
                    t <= 4,
                    hover_i < 4,
                    forall|j: int| 0 <= j < t ==> #[trigger] selection_type_buttons@[j]
                        == (ModeButton {
                        enabled: j == hover_i,
                        hovered: old(selection_type_buttons)@[j].hovered,
                    }),
                    forall|j: int| t <= j < 4 ==> #[trigger] selection_type_buttons@[j] == old(
                        selection_type_buttons,
                    )@[j],
                decreases 4 - t,
            {
                let mut b = selection_type_buttons[t];
                b.enabled = t == hover_i;
                selection_type_buttons[t] = b;
                t = t + 1;
            }
        }
    }
    proof {
        assert(selection_type_buttons@ =~= buttons_after_click(
            old(selection_type_buttons)@,
            hover,
            hover_i as int,
            shift,
        ));
    }
    let vmode = selection_type_buttons[0].enabled;
    let emode = selection_type_buttons[1].enabled;
    let ghost xi = xy.0 as int;
    let ghost yi = xy.1 as int;
    let n = objects.len();
    let mut k: usize = 0;
    let mut done = false;
    while k < n && !done
        invariant
            n == objects@.len(),
            n == old(objects)@.len(),
            k <= n,
            -SCREEN_LIM <= xy.0 <= SCREEN_LIM,
            -SCREEN_LIM <= xy.1 <= SCREEN_LIM,
            xi == xy.0 as int,
            yi == xy.1 as int,
            forall|m: int| 0 <= m < n ==> object_wf(#[trigger] old(objects)@[m]),
            !done ==> first_pick_upto(old(objects)@, vmode, emode, xi, yi, k as int) is None,
            !done ==> forall|m: int| 0 <= m < n ==> obj_unchanged(
                old(objects)@[m],
                #[trigger] objects@[m],
            ),
            done ==> click_applied(
                old(objects)@,
                objects@,
                first_pick_upto(old(objects)@, vmode, emode, xi, yi, n as int),
                shift,
            ),
        decreases n - k,
    {
        let ghost pre = objects@;
        if vmode {
            if let Some(index) = find_closest_vertice(xy.0, xy.1, &objects[k].vertices) {
                proof {
                    assert(objects@[k as int].vertices@ == old(objects)@[k as int].vertices@);
                    assert(pick_of_object(old(objects)@[k as int], vmode, emode, xi, yi) == Some(
                        (true, index as int),
                    ));
                    assert(first_pick_upto(old(objects)@, vmode, emode, xi, yi, k as int + 1)
                        == Some((k as int, true, index as int)));
                    lemma_first_pick_extend(old(objects)@, vmode, emode, xi, yi, k as int + 1,
                        n as int);
                }
                if shift {
                    let obj = &mut objects[k];
                    let mut v = obj.vertices[index];
                    v.selected = !v.selected;
                    obj.vertices[index] = v;
                } else {
                    let obj = &mut objects[k];
                    clear_selection_vertices(&mut obj.vertices, index);
                }
                proof {
                    assert(objects@[k as int].vertices@ =~= vertices_after_select(
                        old(objects)@[k as int].vertices@,
                        index as int,
                        shift,
                    ));
                }
                done = true;
            }
        }
        if !done && emode {
            if let Some(index) = find_closest_edge(xy.0, xy.1, &objects[k]) {
                proof {
                    assert(objects@[k as int].vertices@ == old(objects)@[k as int].vertices@);
                    assert(objects@[k as int].edges@ == old(objects)@[k as int].edges@);
                    assert(pick_of_object(old(objects)@[k as int], vmode, emode, xi, yi) == Some(
                        (false, index as int),
                    ));
                    assert(first_pick_upto(old(objects)@, vmode, emode, xi, yi, k as int + 1)
                        == Some((k as int, false, index as int)));
                    lemma_first_pick_extend(old(objects)@, vmode, emode, xi, yi, k as int + 1,
                        n as int);
                }
                if shift {
                    let obj = &mut objects[k];
                    let e = obj.edges[index];
                    obj.edges[index] = (e.0, e.1, !e.2);
                } else {
                    let obj = &mut objects[k];
                    clear_selection_edges(&mut obj.edges, index);
                }
                proof {
                    assert(objects@[k as int].edges@ =~= edges_after_select(
                        old(objects)@[k as int].edges@,
                        index as int,
                        shift,
                    ));
                }
                done = true;
            }
        }
        if !done {
            proof {
                assert(pick_of_object(old(objects)@[k as int], vmode, emode, xi, yi) is None);
                assert(first_pick_upto(old(objects)@, vmode, emode, xi, yi, k as int + 1)
                    is None);
            }
        }
        k = k + 1;
    }
    proof {
        if !done {
            assert(first_pick_upto(old(objects)@, vmode, emode, xi, yi, n as int) is None);
        }
    }
}

/// Width in pixels of one button cell of the selection-mode row.
pub const BUTTON_STEP: i64 = 28;

/// Offset in pixels of the button row's left end from the window's right.
pub const BUTTON_ROW_OFFSET: i64 = 114;

/// Height in pixels of one button's hit box.
pub const BUTTON_HEIGHT: i64 = 30;

/// The left pixel edge of selection-mode button `i`.
pub open spec fn button_x(win: MainWindow, i: int) -> int {
    win.config.w - BUTTON_ROW_OFFSET + BUTTON_STEP * i
}

/// The cursor is over selection-mode button `i`'s hit box (half-open on
/// the right and bottom).
pub open spec fn button_hit(win: MainWindow, cx: int, cy: int, i: int) -> bool {
    &&& button_x(win, i) <= cx < button_x(win, i) + BUTTON_STEP
    &&& win.config.y <= cy < win.config.y + BUTTON_HEIGHT
}

/// The cursor is inside the half-open pixel box at `(x, y)` of size
/// `(w, h)`.
pub fn intersect_with_box(cx: i64, cy: i64, x: i64, y: i64, w: i64, h: i64) -> (r: bool)
    requires
        -SCREEN_LIM <= cx <= SCREEN_LIM,
        -SCREEN_LIM <= cy <= SCREEN_LIM,
        -SCREEN_LIM <= x <= SCREEN_LIM,
        -SCREEN_LIM <= y <= SCREEN_LIM,
        0 <= w <= MAX_WINDOW,
        0 <= h <= MAX_WINDOW,
    ensures
        r == (x <= cx < x + w && y <= cy < y + h),
{
    x <= cx && cx < x + w && y <= cy && cy < y + h
}

/// Which selection-mode button the cursor hovers, the leftmost hit
/// winning.
pub fn find_hovered_button(cx: i64, cy: i64, win: &MainWindow) -> (r: Option<usize>)
    requires
        -SCREEN_LIM <= cx <= SCREEN_LIM,
        -SCREEN_LIM <= cy <= SCREEN_LIM,
        config_wf(win.config),
    ensures
        r matches Some(i) ==> i < 4 && button_hit(*win, cx as int, cy as int, i as int)
            && forall|j: int| 0 <= j < i ==> !button_hit(*win, cx as int, cy as int, j),
        r is None ==> forall|j: int| 0 <= j < 4 ==> !button_hit(*win, cx as int, cy as int, j),
{
    let mut i: usize = 0;
    while i < 4
        invariant
            i <= 4,
            -SCREEN_LIM <= cx <= SCREEN_LIM,
            -SCREEN_LIM <= cy <= SCREEN_LIM,
            config_wf(win.config),
            forall|j: int| 0 <= j < i ==> !button_hit(*win, cx as int, cy as int, j),
        decreases 4 - i,
    {
        let xb = win.config.w - BUTTON_ROW_OFFSET + BUTTON_STEP * (i as i64);
        if intersect_with_box(cx, cy, xb, win.config.y, BUTTON_STEP, BUTTON_HEIGHT) {
            return Some(i);
        }
        i = i + 1;
    }
    None
}

} // verus!
