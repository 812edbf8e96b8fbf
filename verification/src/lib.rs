//! Interactive 4-dimensional polytope viewer core.
//!
//! The library holds the verified logic of the viewer: the six-plane rotation
//! state with its clamping rules, the 4D -> 3D -> 2D perspective projection
//! pipeline, the tesseract model with its per-frame projection refresh,
//! nearest-vertex and nearest-edge picking, and the interpretation of pointer
//! input (click against drag, selection-mode buttons, selection updates).
//!
//! All geometry is carried in exact fixed-point arithmetic: world coordinates
//! and angles are `i64` values scaled by [`num::SCALE`] units per 1.0, screen
//! coordinates are whole pixels. The windowing layer supplies pixel positions,
//! elapsed milliseconds and fixed-point sine/cosine pairs; everything computed
//! from them here is integer arithmetic with an exact contract.

pub mod angle;
pub mod events;
pub mod num;
pub mod objects;
pub mod picking;
pub mod projection;
pub mod vector;
pub mod window;
