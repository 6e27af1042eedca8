//! Extended window-style words for the host's window manager. The calls
//! that read and apply a style live outside the crate; computing the new
//! style word is verified here. The bit values are the platform's
//! documented extended-style constants.

use vstd::prelude::*;

verus! {

/// Extended style bit of a tool window, which the taskbar does not show.
pub const WS_EX_TOOLWINDOW: u32 = 0x80;

/// Extended style bit of an app window, which the taskbar shows.
pub const WS_EX_APPWINDOW: u32 = 0x40000;

/// Extended style bit of a layered window, which supports whole-window
/// opacity.
pub const WS_EX_LAYERED: u32 = 0x80000;

/// The extended style that hides a window from the taskbar, or shows it
/// again: skipping sets the tool-window bit and clears the app-window bit;
/// showing does the opposite.
pub fn set_skip_taskbar(ex_style: u32, skip: bool) -> (r: u32)
    ensures
        skip ==> r == (ex_style | WS_EX_TOOLWINDOW) & !WS_EX_APPWINDOW,
        !skip ==> r == (ex_style & !WS_EX_TOOLWINDOW) | WS_EX_APPWINDOW,
{
    if skip {
        (ex_style | WS_EX_TOOLWINDOW) & !WS_EX_APPWINDOW
    } else {
        (ex_style & !WS_EX_TOOLWINDOW) | WS_EX_APPWINDOW
    }
}

/// The extended style a window needs before a whole-window opacity can be
/// applied to it: the layered bit set, everything else untouched.
pub fn set_window_opacity(ex_style: u32) -> (r: u32)
    ensures
        r == ex_style | WS_EX_LAYERED,
{
    ex_style | WS_EX_LAYERED
}

} // verus!
