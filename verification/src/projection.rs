//! The dual perspective projection: 4D -> 3D -> 2D.
//!
//! A rotated point is projected in two nested stages. The outer stage folds
//! the `w` axis away by perspective division against the camera's distance
//! `d` along `w`; it is undefined ("behind the camera") when `w >= d`. The
//! inner stage is the standard perspective divide by depth `z` against the
//! same distance, undefined when `z >= d`. An undefined outer stage
//! short-circuits: the inner stage is never taken and the point has no
//! screen position. A defined result is scaled to pixels, translated to the
//! window centre (screen `y` grows downward), and saturated at
//! [`SCREEN_LIM`], a bound far outside any real window, so that every cached
//! projection fits the picking arithmetic.

use vstd::prelude::*;
use crate::num::SCALE;
use crate::num::tdiv;
use crate::num::tdiv_i128;
use crate::num::clamped;
use crate::num::lemma_tdiv_bound;
use crate::vector::MAX_WORLD;
use crate::window::MAX_WINDOW;

verus! {

/// Pixels per 1.0 of projected world space.
pub const PIXELS_PER_UNIT: i64 = 200;

/// Screen coordinates are saturated into `[-SCREEN_LIM, SCREEN_LIM]`.
pub const SCREEN_LIM: i64 = 524287;

/// The outer, 4D -> 3D stage: perspective division against the camera
/// distance `d` along `w`. `None` when the point is at or behind the camera
/// plane.
pub open spec fn project3(x: int, y: int, z: int, w: int, d: int) -> Option<(int, int, int)> {
    if w >= d {
        None
    } else {
        let t = d - w;
        Some((tdiv(x * d, t), tdiv(y * d, t), tdiv(z * d, t)))
    }
}

/// The inner, 3D -> 2D stage: perspective division by depth against the same
/// distance `d`, then scaling to pixels about the window centre `(cx, cy)`.
pub open spec fn project2(q: (int, int, int), d: int, cx: int, cy: int) -> Option<(int, int)> {
    if q.2 >= d {
        None
    } else {
        let u = d - q.2;
        let sx = tdiv(tdiv(q.0 * d, u) * PIXELS_PER_UNIT, SCALE as int);
        let sy = tdiv(tdiv(q.1 * d, u) * PIXELS_PER_UNIT, SCALE as int);
        Some(
            (
                clamped(cx + sx, -SCREEN_LIM as int, SCREEN_LIM as int),
                clamped(cy - sy, -SCREEN_LIM as int, SCREEN_LIM as int),
            ),
        )
    }
}

/// The composed projection of a rotated point into the window `(ww, wh)`:
/// the outer stage, then - only if it is defined - the inner stage.
pub open spec fn project_spec(x: int, y: int, z: int, w: int, d: int, ww: int, wh: int) -> Option<
    (int, int),
> {
    match project3(x, y, z, w, d) {
        None => None,
        Some(q) => project2(q, d, ww / 2, wh / 2),
    }
}

/// The projection short-circuits: a point the outer, 4D -> 3D stage rejects
/// has no screen position at all - the inner stage is never consulted.
pub proof fn lemma_projection_short_circuit(x: int, y: int, z: int, w: int, d: int, ww: int, wh: int)
    ensures
        project3(x, y, z, w, d) is None ==> project_spec(x, y, z, w, d, ww, wh) is None,
{
}

/// Project one rotated point into the window, exactly as [`project_spec`]
/// states.
pub fn project_point(x: i64, y: i64, z: i64, w: i64, d: i64, ww: i64, wh: i64) -> (r: Option<
    (i64, i64),
>)
    requires
        -MAX_WORLD <= x <= MAX_WORLD,
        -MAX_WORLD <= y <= MAX_WORLD,
        -MAX_WORLD <= z <= MAX_WORLD,
        -MAX_WORLD <= w <= MAX_WORLD,
        1 <= d <= MAX_WORLD,
        0 <= ww <= MAX_WINDOW,
        0 <= wh <= MAX_WINDOW,
    ensures
        (r is Some) == (project_spec(x as int, y as int, z as int, w as int, d as int, ww as int,
        wh as int) is Some),
        r matches Some(p) ==> project_spec(x as int, y as int, z as int, w as int, d as int,
        ww as int, wh as int) == Some((p.0 as int, p.1 as int)),
        r matches Some(p) ==> -SCREEN_LIM <= p.0 <= SCREEN_LIM && -SCREEN_LIM <= p.1 <= SCREEN_LIM,
{
    if w >= d {
        return None;
    }
    let t: i128 = d as i128 - w as i128;
    proof {
        assert(-0x1000000000000000 <= x as int * d as int <= 0x1000000000000000
            && -0x1000000000000000 <= y as int * d as int <= 0x1000000000000000
            && -0x1000000000000000 <= z as int * d as int <= 0x1000000000000000)
            by (nonlinear_arith)
            requires
                -0x40000000 <= x <= 0x40000000,
                -0x40000000 <= y <= 0x40000000,
                -0x40000000 <= z <= 0x40000000,
                1 <= d <= 0x40000000,
        ;
    }
    let xd: i128 = x as i128 * d as i128;
    let yd: i128 = y as i128 * d as i128;
    let zd: i128 = z as i128 * d as i128;
    proof {
        lemma_tdiv_bound(xd as int, t as int, 0x1000000000000000);
        lemma_tdiv_bound(yd as int, t as int, 0x1000000000000000);
        lemma_tdiv_bound(zd as int, t as int, 0x1000000000000000);
    }
    let x1: i128 = tdiv_i128(xd, t);
    let y1: i128 = tdiv_i128(yd, t);
    let z1: i128 = tdiv_i128(zd, t);
    if z1 >= d as i128 {
        return None;
    }
    let u: i128 = d as i128 - z1;
    proof {
        assert(-0x40000000000000000000000 <= x1 as int * d as int <= 0x40000000000000000000000
            && -0x40000000000000000000000 <= y1 as int * d as int <= 0x40000000000000000000000)
            by (nonlinear_arith)
            requires
                -0x1000000000000000 <= x1 <= 0x1000000000000000,
                -0x1000000000000000 <= y1 <= 0x1000000000000000,
                1 <= d <= 0x40000000,
        ;
    }
    let x1d: i128 = x1 * d as i128;
    let y1d: i128 = y1 * d as i128;
    proof {
        lemma_tdiv_bound(x1d as int, u as int, 0x40000000000000000000000);
        lemma_tdiv_bound(y1d as int, u as int, 0x40000000000000000000000);
    }
    let x2: i128 = tdiv_i128(x1d, u);
    let y2: i128 = tdiv_i128(y1d, u);
    proof {
        lemma_tdiv_bound(x2 as int * PIXELS_PER_UNIT as int, SCALE as int, 0x4000000000000000000000000);
        lemma_tdiv_bound(y2 as int * PIXELS_PER_UNIT as int, SCALE as int, 0x4000000000000000000000000);
    }
    let sx: i128 = tdiv_i128(x2 * PIXELS_PER_UNIT as i128, SCALE as i128);
    let sy: i128 = tdiv_i128(y2 * PIXELS_PER_UNIT as i128, SCALE as i128);
    let cx: i128 = (ww / 2) as i128;
    let cy: i128 = (wh / 2) as i128;
    let px_raw: i128 = cx + sx;
    let py_raw: i128 = cy - sy;
    let px: i64 = if px_raw < -SCREEN_LIM as i128 {
        -SCREEN_LIM
    } else if px_raw > SCREEN_LIM as i128 {
        SCREEN_LIM
    } else {
        px_raw as i64
    };
    let py: i64 = if py_raw < -SCREEN_LIM as i128 {
        -SCREEN_LIM
    } else if py_raw > SCREEN_LIM as i128 {
        SCREEN_LIM
    } else {
        py_raw as i64
    };
    Some((px, py))
}

} // verus!
