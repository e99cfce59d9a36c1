//! State of the magnetic window arrangement: whether the main window is
//! being dragged, so the secondary windows can follow it. Moving the
//! actual windows is the embedding application's part.

use vstd::prelude::*;

verus! {

/// Whether the main window is currently being moved.
pub struct MagneticWindowState {
    pub is_moving: bool,
}

impl MagneticWindowState {
    /// A fresh state: the window is at rest.
    pub fn new() -> (r: Self)
        ensures
            !r.is_moving,
    {
        MagneticWindowState { is_moving: false }
    }
}

/// A window's frame on the screen.
#[derive(Debug, Clone, Copy, PartialEq, Eq, Structural)]
pub struct WindowRect {
    pub x: i32,
    pub y: i32,
    pub width: u32,
    pub height: u32,
}

/// The gap kept between the main window and its satellites.
pub open spec fn spec_window_gap() -> int {
    10
}

/// Where the secondary windows stand relative to the main one: the
/// dashboard to its right, the settings below it, each a small gap away.
pub fn secondary_window_positions(main: &WindowRect) -> (r: ((i32, i32), (i32, i32)))
    requires
        main.width <= 0x7fff_ffff,
        main.height <= 0x7fff_ffff,
        main.x + main.width + spec_window_gap() <= i32::MAX,
        main.y + main.height + spec_window_gap() <= i32::MAX,
    ensures
        r.0.0 == main.x + main.width + spec_window_gap(),
        r.0.1 == main.y,
        r.1.0 == main.x,
        r.1.1 == main.y + main.height + spec_window_gap(),
{
    let dashboard = (main.x + main.width as i32 + 10, main.y);
    let settings = (main.x, main.y + main.height as i32 + 10);
    (dashboard, settings)
}

} // verus!
