use tilecap::image::PixelFormat;
use tilecap::wayland::{check_globals, registry_binding, FrameEvent, FrameInfo, Global};

#[test]
fn registry_globals() {
    assert_eq!(registry_binding("wl_shm", 2), Some((Global::Shm, 1)));
    assert_eq!(registry_binding("wl_output", 4), Some((Global::Output, 1)));
    assert_eq!(registry_binding("zwlr_screencopy_manager_v1", 3), Some((Global::ScreencopyManager, 1)));
    assert_eq!(registry_binding("wl_output", 0), Some((Global::Output, 0)));
    assert_eq!(registry_binding("wl_seat", 7), None);
}

#[test]
fn global_checks() {
    assert_eq!(check_globals(false, false, false).unwrap_err(), "compositor does not support wlr-screencopy");
    assert_eq!(check_globals(true, false, false).unwrap_err(), "no outputs found");
    assert_eq!(check_globals(true, true, false).unwrap_err(), "no wl_shm available");
    assert!(check_globals(true, true, true).is_ok());
}

#[test]
fn frame_events() {
    let mut f = FrameInfo::new();
    assert!(f.pending());
    assert_eq!(f.outcome().unwrap_err(), "screencopy timed out");
    f.apply(FrameEvent::Buffer { format: PixelFormat::Rgb888, width: 3, height: 2, stride: 12 });
    assert_eq!((f.width, f.height, f.stride, f.format), (3, 2, 12, PixelFormat::Rgb888));
    f.apply(FrameEvent::Other);
    assert!(f.pending());
    f.apply(FrameEvent::Ready);
    assert!(!f.pending());
    assert!(f.outcome().is_ok());
    f.apply(FrameEvent::Failed);
    assert_eq!(f.outcome().unwrap_err(), "screencopy failed");
}
