//! The six-plane rotation state of the viewer.
//!
//! 4D space has six independent coordinate-plane rotations (`xy`, `xz`, `xw`,
//! `yz`, `yw`, `zw`). The viewer keeps one fixed-point angle per plane, in
//! units of `1 / SCALE` radians. The pitch-like angles `yz` and `yw` are
//! clamped to `[-pi/2, pi/2]` immediately after every mutation; the others
//! wrap naturally through the trigonometry and are unbounded.

use vstd::prelude::*;

verus! {

/// `floor((pi / 2) * SCALE)`: the clamp bound for the `yz` and `yw` angles.
pub const HALF_PI: i64 = 6433;

/// One fixed-point angle per rotation plane of 4D space.
#[derive(Clone, Copy)]
pub struct Angle {
    pub xy: i64,
    pub xz: i64,
    pub xw: i64,
    pub yz: i64,
    pub yw: i64,
    pub zw: i64,
}

/// The angle-state invariant: `yz` and `yw` lie in `[-pi/2, pi/2]`;
/// the other four angles are unconstrained.
pub open spec fn angle_wf(a: Angle) -> bool {
    &&& -HALF_PI <= a.yz <= HALF_PI
    &&& -HALF_PI <= a.yw <= HALF_PI
}

impl Angle {
    /// The initial state: every rotation angle zero.
    pub fn new() -> (a: Angle)
        ensures
            a.xy == 0 && a.xz == 0 && a.xw == 0 && a.yz == 0 && a.yw == 0 && a.zw == 0,
            angle_wf(a),
    {
        Angle { xy: 0, xz: 0, xw: 0, yz: 0, yw: 0, zw: 0 }
    }
}

} // verus!
