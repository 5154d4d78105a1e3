//! Which capture to make, given the mode, the geometry and the display server.

use vstd::prelude::*;
use crate::cli::Mode;
use crate::geometry::Rect;

verus! {

/// The capture to perform.
#[derive(Debug, Clone, Copy, PartialEq, Eq, Structural)]
pub enum CapturePlan {
    /// The whole output, through the wlr screen-copy protocol.
    WaylandFull,
    /// The whole X screen.
    X11Full,
    /// A window that the user clicks.
    X11Window,
    /// A fixed rectangle of the X screen.
    X11Rect(Rect),
    /// A rectangle that the user drags out.
    X11Region,
}

/// The plan, or the message of the error, for a capture in `mode` with the
/// optional fixed `geometry`, when a Wayland display (`wayland`) or an X
/// display (`x11`) is present. Wayland is preferred; there only full-screen
/// captures without a geometry are possible. On X a geometry makes the
/// capture non-interactive: that rectangle is taken whatever the mode.
pub open spec fn spec_plan_capture(mode: Mode, geometry: Option<Rect>, wayland: bool, x11: bool) -> Result<CapturePlan, Seq<char>> {
    if wayland {
        if mode != Mode::Full {
            Err("interactive modes not yet supported on Wayland"@)
        } else if geometry is Some {
            Err("geometry flag not yet supported on Wayland"@)
        } else {
            Ok(CapturePlan::WaylandFull)
        }
    } else if x11 {
        match geometry {
            Some(r) => Ok(CapturePlan::X11Rect(r)),
            None => match mode {
                Mode::Full => Ok(CapturePlan::X11Full),
                Mode::Window => Ok(CapturePlan::X11Window),
                Mode::Region => Ok(CapturePlan::X11Region),
            },
        }
    } else {
        Err("no display found (set DISPLAY or WAYLAND_DISPLAY)"@)
    }
}

/// Decides the capture; see `spec_plan_capture`.
pub fn plan_capture(mode: Mode, geometry: Option<Rect>, wayland: bool, x11: bool) -> (r: Result<CapturePlan, String>)
    ensures
        match (r, spec_plan_capture(mode, geometry, wayland, x11)) {
            (Ok(a), Ok(b)) => a == b,
            (Err(e), Err(m)) => e@ == m,
            _ => false,
        },
{
    if wayland {
        if mode != Mode::Full {
            Err(String::from_str("interactive modes not yet supported on Wayland"))
        } else if geometry.is_some() {
            Err(String::from_str("geometry flag not yet supported on Wayland"))
        } else {
            Ok(CapturePlan::WaylandFull)
        }
    } else if x11 {
        match geometry {
            Some(r) => Ok(CapturePlan::X11Rect(r)),
            None => match mode {
                Mode::Full => Ok(CapturePlan::X11Full),
                Mode::Window => Ok(CapturePlan::X11Window),
                Mode::Region => Ok(CapturePlan::X11Region),
            },
        }
    } else {
        Err(String::from_str("no display found (set DISPLAY or WAYLAND_DISPLAY)"))
    }
}

} // verus!

verus! {

/// On Wayland only full-screen captures are made: any other mode is refused,
/// and a Wayland capture is planned only for the full mode on a Wayland display.
pub proof fn lemma_wayland_only_full(mode: Mode, geometry: Option<Rect>, wayland: bool, x11: bool)
    ensures
        wayland && mode != Mode::Full ==> spec_plan_capture(mode, geometry, wayland, x11) is Err,
        spec_plan_capture(mode, geometry, wayland, x11) == Ok::<CapturePlan, Seq<char>>(
            CapturePlan::WaylandFull,
        ) ==> wayland && mode == Mode::Full && geometry is None,
        !wayland ==> !(spec_plan_capture(mode, geometry, wayland, x11) == Ok::<CapturePlan, Seq<char>>(
            CapturePlan::WaylandFull,
        )),
{
}

} // verus!
