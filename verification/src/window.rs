//! Window geometry handed in by the render layer.
//!
//! The render layer owns the real windows; the library only keeps their
//! pixel rectangles, which the projection (for the screen centre) and the
//! button row (for hit testing) read.

use vstd::prelude::*;

verus! {

/// Largest window dimension or offset the library accepts, in pixels.
pub const MAX_WINDOW: i64 = 16384;

/// A pixel rectangle: origin `(x, y)`, size `(w, h)`.
#[derive(Clone, Copy)]
pub struct WindowConfig {
    pub x: i64,
    pub y: i64,
    pub w: i64,
    pub h: i64,
}

pub open spec fn config_wf(c: WindowConfig) -> bool {
    &&& 0 <= c.x <= MAX_WINDOW
    &&& 0 <= c.y <= MAX_WINDOW
    &&& 0 <= c.w <= MAX_WINDOW
    &&& 0 <= c.h <= MAX_WINDOW
}

/// The main editing viewport.
#[derive(Clone, Copy)]
pub struct MainWindow {
    pub config: WindowConfig,
}

impl MainWindow {
    pub fn new(w: i64, h: i64) -> (win: MainWindow)
        requires
            0 <= w <= MAX_WINDOW,
            0 <= h <= MAX_WINDOW,
        ensures
            win.config == (WindowConfig { x: 0, y: 0, w, h }),
            config_wf(win.config),
    {
        MainWindow { config: WindowConfig { x: 0, y: 0, w, h } }
    }

    /// Adopt a new pixel size; the origin is unchanged.
    pub fn set_size(&mut self, w: i64, h: i64)
        requires
            0 <= w <= MAX_WINDOW,
            0 <= h <= MAX_WINDOW,
        ensures
            final(self).config.w == w,
            final(self).config.h == h,
            final(self).config.x == old(self).config.x,
            final(self).config.y == old(self).config.y,
    {
        self.config.w = w;
        self.config.h = h;
    }
}

/// The scene-overview viewport.
#[derive(Clone, Copy)]
pub struct SceneWindow {
    pub config: WindowConfig,
}

impl SceneWindow {
    pub fn new(w: i64, h: i64) -> (win: SceneWindow)
        requires
            0 <= w <= MAX_WINDOW,
            0 <= h <= MAX_WINDOW,
        ensures
            win.config == (WindowConfig { x: 0, y: 0, w, h }),
            config_wf(win.config),
    {
        SceneWindow { config: WindowConfig { x: 0, y: 0, w, h } }
    }
}

/// All the viewer's windows.
#[derive(Clone, Copy)]
pub struct WindowGroup {
    pub main: MainWindow,
    pub scene: SceneWindow,
}

} // verus!
