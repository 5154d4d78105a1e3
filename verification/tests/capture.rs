use tilecap::capture::{plan_capture, CapturePlan};
use tilecap::cli::Mode;
use tilecap::geometry::Rect;

#[test]
fn plans_on_x11() {
    let r = Rect { x: 1, y: 2, w: 3, h: 4 };
    assert_eq!(plan_capture(Mode::Full, None, false, true).unwrap(), CapturePlan::X11Full);
    assert_eq!(plan_capture(Mode::Window, None, false, true).unwrap(), CapturePlan::X11Window);
    assert_eq!(plan_capture(Mode::Region, None, false, true).unwrap(), CapturePlan::X11Region);
    assert_eq!(plan_capture(Mode::Region, Some(r), false, true).unwrap(), CapturePlan::X11Rect(r));
    assert_eq!(plan_capture(Mode::Full, Some(r), false, true).unwrap(), CapturePlan::X11Rect(r));
}

#[test]
fn plans_on_wayland() {
    let r = Rect { x: 1, y: 2, w: 3, h: 4 };
    assert_eq!(plan_capture(Mode::Full, None, true, true).unwrap(), CapturePlan::WaylandFull);
    assert_eq!(
        plan_capture(Mode::Window, None, true, false).unwrap_err(),
        "interactive modes not yet supported on Wayland"
    );
    assert_eq!(
        plan_capture(Mode::Full, Some(r), true, false).unwrap_err(),
        "geometry flag not yet supported on Wayland"
    );
}

#[test]
fn no_display() {
    let e = plan_capture(Mode::Full, None, false, false).unwrap_err();
    assert!(e.contains("no display found"));
}
