//! 4D points, fixed-point trigonometry and the six-plane rotation.
//!
//! A [`Vec4f`] is a 4D point together with its transient viewer state: a
//! selection flag and the cached screen projection of the current frame.
//! Rotation is applied as six elementary plane rotations in the fixed order
//! `xy`, `xz`, `xw`, `yz`, `yw`, `zw` (4D rotations do not commute, so the
//! order is part of the contract). The sine and cosine of each angle arrive
//! as fixed-point values in `[-SCALE, SCALE]`; every product is an exact
//! fixed-point multiply, `tdiv(a * b, SCALE)`.

use vstd::prelude::*;
use crate::num::SCALE;
use crate::num::tdiv;
use crate::num::tdiv_i64;
use crate::num::isqrt64;
use crate::num::lemma_tdiv_mul_exact;
use crate::num::lemma_tdiv_quotient_bound;
use vstd::arithmetic::div_mod::lemma_div_of0;

verus! {

/// Bound on the coordinates a model may store (`2^24` fixed-point units).
pub const MAX_MODEL: i64 = 16777216;

/// Bound on any coordinate after rotation (`2^30` fixed-point units): six
/// plane rotations can at most double a coordinate bound each.
pub const MAX_WORLD: i64 = 1073741824;

/// A 4D point with the viewer's per-vertex state: the selection flag and the
/// screen projection cached for the current frame (`None` when the rotated
/// point falls behind either camera plane).
#[derive(Clone, Copy)]
pub struct Vec4f {
    pub x: i64,
    pub y: i64,
    pub z: i64,
    pub w: i64,
    pub selected: bool,
    pub proj: Option<(i64, i64)>,
}

impl Vec4f {
    /// A fresh, unselected point with no cached projection.
    pub fn new(x: i64, y: i64, z: i64, w: i64) -> (v: Vec4f)
        ensures
            v.x == x && v.y == y && v.z == z && v.w == w,
            !v.selected,
            v.proj is None,
    {
        Vec4f { x, y, z, w, selected: false, proj: None }
    }

    /// The origin.
    pub fn new0() -> (v: Vec4f)
        ensures
            v.x == 0 && v.y == 0 && v.z == 0 && v.w == 0,
            !v.selected,
            v.proj is None,
    {
        Vec4f { x: 0, y: 0, z: 0, w: 0, selected: false, proj: None }
    }

    /// The cached screen projection of the current frame.
    pub fn get_proj(&self) -> (r: Option<(i64, i64)>)
        ensures
            r == self.proj,
    {
        self.proj
    }
}

/// Fixed-point sine and cosine of one plane's rotation angle.
#[derive(Clone, Copy)]
pub struct PlaneTrig {
    pub sin: i64,
    pub cos: i64,
}

/// Sine and cosine magnitudes never exceed 1.0 (`SCALE` in fixed point).
pub open spec fn trig_wf(t: PlaneTrig) -> bool {
    &&& -SCALE <= t.sin <= SCALE
    &&& -SCALE <= t.cos <= SCALE
}

/// The trigonometry of one full six-plane rotation.
#[derive(Clone, Copy)]
pub struct Rotation {
    pub xy: PlaneTrig,
    pub xz: PlaneTrig,
    pub xw: PlaneTrig,
    pub yz: PlaneTrig,
    pub yw: PlaneTrig,
    pub zw: PlaneTrig,
}

pub open spec fn rotation_wf(r: Rotation) -> bool {
    &&& trig_wf(r.xy)
    &&& trig_wf(r.xz)
    &&& trig_wf(r.xw)
    &&& trig_wf(r.yz)
    &&& trig_wf(r.yw)
    &&& trig_wf(r.zw)
}

/// The rotation whose six plane angles are all zero.
pub open spec fn is_identity(r: Rotation) -> bool {
    &&& r.xy.sin == 0 && r.xy.cos == SCALE
    &&& r.xz.sin == 0 && r.xz.cos == SCALE
    &&& r.xw.sin == 0 && r.xw.cos == SCALE
    &&& r.yz.sin == 0 && r.yz.cos == SCALE
    &&& r.yw.sin == 0 && r.yw.cos == SCALE
    &&& r.zw.sin == 0 && r.zw.cos == SCALE
}

impl Rotation {
    /// The identity rotation: sine 0 and cosine 1.0 in every plane.
    pub fn identity() -> (r: Rotation)
        ensures
            is_identity(r),
            rotation_wf(r),
    {
        let t = PlaneTrig { sin: 0, cos: SCALE };
        Rotation { xy: t, xz: t, xw: t, yz: t, yw: t, zw: t }
    }
}

/// Exact fixed-point product: `a * b / SCALE`, rounded toward zero.
pub open spec fn fpmul(a: int, b: int) -> int {
    tdiv(a * b, SCALE as int)
}

/// First output coordinate of a 2D rotation of `(a, b)` by `t`.
pub open spec fn rot_first(a: int, b: int, t: PlaneTrig) -> int {
    fpmul(a, t.cos as int) - fpmul(b, t.sin as int)
}

/// Second output coordinate of a 2D rotation of `(a, b)` by `t`.
pub open spec fn rot_second(a: int, b: int, t: PlaneTrig) -> int {
    fpmul(a, t.sin as int) + fpmul(b, t.cos as int)
}

/// The full rotation of `(x, y, z, w)`: the six plane rotations applied in
/// the fixed order `xy`, `xz`, `xw`, `yz`, `yw`, `zw`.
pub open spec fn rotate4(x: int, y: int, z: int, w: int, r: Rotation) -> (int, int, int, int) {
    let p1 = (rot_first(x, y, r.xy), rot_second(x, y, r.xy), z, w);
    let p2 = (rot_first(p1.0, p1.2, r.xz), p1.1, rot_second(p1.0, p1.2, r.xz), p1.3);
    let p3 = (rot_first(p2.0, p2.3, r.xw), p2.1, p2.2, rot_second(p2.0, p2.3, r.xw));
    let p4 = (p3.0, rot_first(p3.1, p3.2, r.yz), rot_second(p3.1, p3.2, r.yz), p3.3);
    let p5 = (p4.0, rot_first(p4.1, p4.3, r.yw), p4.2, rot_second(p4.1, p4.3, r.yw));
    (p5.0, p5.1, rot_first(p5.2, p5.3, r.zw), rot_second(p5.2, p5.3, r.zw))
}

/// A fixed-point product of `a` with a trig value is no larger than `a`'s own
/// bound: `|b| <= SCALE` means `|a * b / SCALE| <= |a|`.
pub proof fn lemma_fpmul_bound(a: int, b: int, m: int)
    requires
        -m <= a <= m,
        -(SCALE as int) <= b <= SCALE as int,
        0 <= m,
    ensures
        -m <= fpmul(a, b) <= m,
{
    assert(-(m * SCALE) <= a * b <= m * SCALE) by (nonlinear_arith)
        requires
            -m <= a <= m,
            -(SCALE as int) <= b <= SCALE as int,
            0 <= m,
    ;
    lemma_tdiv_quotient_bound(a * b, SCALE as int, m);
}

/// Multiplying by the fixed-point 1.0 is exact, and by 0 gives 0.
pub proof fn lemma_fpmul_identity(a: int)
    ensures
        fpmul(a, SCALE as int) == a,
        fpmul(a, 0) == 0,
{
    lemma_tdiv_mul_exact(a, SCALE as int);
    lemma_div_of0(SCALE as int);
    assert(a * 0 == 0);
}

/// The identity rotation moves no point: with sine 0 and cosine 1.0 in every
/// plane, the six stages each hand their input through unchanged.
pub proof fn lemma_identity_rotation(x: int, y: int, z: int, w: int, r: Rotation)
    requires
        is_identity(r),
    ensures
        rotate4(x, y, z, w, r) == (x, y, z, w),
{
    lemma_fpmul_identity(x);
    lemma_fpmul_identity(y);
    lemma_fpmul_identity(z);
    lemma_fpmul_identity(w);
}

/// One exact fixed-point multiply.
fn fp_mul(a: i64, b: i64) -> (r: i64)
    requires
        -MAX_WORLD <= a <= MAX_WORLD,
        -SCALE <= b <= SCALE,
    ensures
        r == fpmul(a as int, b as int),
{
    proof {
        assert(-(MAX_WORLD as int * SCALE as int) <= a as int * b as int <= MAX_WORLD as int
            * SCALE as int) by (nonlinear_arith)
            requires
                -MAX_WORLD <= a <= MAX_WORLD,
                -SCALE <= b <= SCALE,
        ;
        lemma_tdiv_quotient_bound(a as int * b as int, SCALE as int, MAX_WORLD as int * SCALE as int);
    }
    let p: i64 = a * b;
    tdiv_i64(p, SCALE)
}

/// One elementary 2D rotation of the pair `(a, b)`, with its coordinate bound
/// carried along: the output magnitudes at most double the input bound `m`.
fn rot2d(a: i64, b: i64, t: &PlaneTrig, Ghost(m): Ghost<int>) -> (r: (i64, i64))
    requires
        trig_wf(*t),
        0 <= m <= 536870912,
        -m <= a <= m,
        -m <= b <= m,
    ensures
        r.0 == rot_first(a as int, b as int, *t),
        r.1 == rot_second(a as int, b as int, *t),
        -2 * m <= r.0 <= 2 * m,
        -2 * m <= r.1 <= 2 * m,
{
    proof {
        lemma_fpmul_bound(a as int, t.cos as int, m);
        lemma_fpmul_bound(a as int, t.sin as int, m);
        lemma_fpmul_bound(b as int, t.cos as int, m);
        lemma_fpmul_bound(b as int, t.sin as int, m);
    }
    let ac = fp_mul(a, t.cos);
    let asn = fp_mul(a, t.sin);
    let bc = fp_mul(b, t.cos);
    let bsn = fp_mul(b, t.sin);
    (ac - bsn, asn + bc)
}

/// Rotate the point `(x, y, z, w)` by the six plane rotations of `r`, in the
/// fixed order `xy`, `xz`, `xw`, `yz`, `yw`, `zw`.
pub fn rotate_point(x: i64, y: i64, z: i64, w: i64, r: &Rotation) -> (q: (i64, i64, i64, i64))
    requires
        rotation_wf(*r),
        -MAX_MODEL <= x <= MAX_MODEL,
        -MAX_MODEL <= y <= MAX_MODEL,
        -MAX_MODEL <= z <= MAX_MODEL,
        -MAX_MODEL <= w <= MAX_MODEL,
    ensures
        (q.0 as int, q.1 as int, q.2 as int, q.3 as int) == rotate4(
            x as int,
            y as int,
            z as int,
            w as int,
            *r,
        ),
        -MAX_WORLD <= q.0 <= MAX_WORLD,
        -MAX_WORLD <= q.1 <= MAX_WORLD,
        -MAX_WORLD <= q.2 <= MAX_WORLD,
        -MAX_WORLD <= q.3 <= MAX_WORLD,
{
    let s1 = rot2d(x, y, &r.xy, Ghost(MAX_MODEL as int));
    let (x1, y1): (i64, i64) = s1;
    let s2 = rot2d(x1, z, &r.xz, Ghost(2 * MAX_MODEL as int));
    let (x2, z2): (i64, i64) = s2;
    let s3 = rot2d(x2, w, &r.xw, Ghost(4 * MAX_MODEL as int));
    let (x3, w3): (i64, i64) = s3;
    let s4 = rot2d(y1, z2, &r.yz, Ghost(8 * MAX_MODEL as int));
    let (y4, z4): (i64, i64) = s4;
    let s5 = rot2d(y4, w3, &r.yw, Ghost(16 * MAX_MODEL as int));
    let (y5, w5): (i64, i64) = s5;
    let s6 = rot2d(z4, w5, &r.zw, Ghost(32 * MAX_MODEL as int));
    let (z6, w6): (i64, i64) = s6;
    (x3, y5, z6, w6)
}

/// Squared Euclidean distance between two 4D points, exact.
pub open spec fn dist_sq4(a: Vec4f, b: Vec4f) -> int {
    let dx = a.x - b.x;
    let dy = a.y - b.y;
    let dz = a.z - b.z;
    let dw = a.w - b.w;
    dx * dx + dy * dy + dz * dz + dw * dw
}

/// Bound on the coordinates [`dist`] accepts (`2^28` fixed-point units).
pub const MAX_DIST_COORD: i64 = 268435456;

/// Euclidean distance between two 4D points, rounded down to whole
/// fixed-point units: the greatest `r` with `r^2 <= |a - b|^2`.
pub fn dist(a: &Vec4f, b: &Vec4f) -> (r: i64)
    requires
        -MAX_DIST_COORD <= a.x <= MAX_DIST_COORD,
        -MAX_DIST_COORD <= a.y <= MAX_DIST_COORD,
        -MAX_DIST_COORD <= a.z <= MAX_DIST_COORD,
        -MAX_DIST_COORD <= a.w <= MAX_DIST_COORD,
        -MAX_DIST_COORD <= b.x <= MAX_DIST_COORD,
        -MAX_DIST_COORD <= b.y <= MAX_DIST_COORD,
        -MAX_DIST_COORD <= b.z <= MAX_DIST_COORD,
        -MAX_DIST_COORD <= b.w <= MAX_DIST_COORD,
    ensures
        0 <= r,
        r * r <= dist_sq4(*a, *b) < (r + 1) * (r + 1),
{
    let dx = a.x - b.x;
    let dy = a.y - b.y;
    let dz = a.z - b.z;
    let dw = a.w - b.w;
    proof {
        assert(0 <= dx * dx <= 0x400000000000000 && 0 <= dy * dy <= 0x400000000000000 && 0 <= dz
            * dz <= 0x400000000000000 && 0 <= dw * dw <= 0x400000000000000) by (nonlinear_arith)
            requires
                -0x20000000 <= dx <= 0x20000000,
                -0x20000000 <= dy <= 0x20000000,
                -0x20000000 <= dz <= 0x20000000,
                -0x20000000 <= dw <= 0x20000000,
        ;
    }
    let s: i64 = dx * dx + dy * dy + dz * dz + dw * dw;
    let root: u64 = isqrt64(s as u64);
    proof {
        assert(root * root <= 0x1000000000000000);
        assert(root < 0x80000000) by (nonlinear_arith)
            requires
                root * root <= 0x1000000000000000,
        ;
    }
    root as i64
}

} // verus!
