use tilecap::geometry::Rect;
use tilecap::x11::{find_keycode, RegionError, RegionSelect, SelectAction, SelectEvent, ToplevelSearch};

#[test]
fn drag_selects_a_region() {
    let mut s = RegionSelect::new();
    assert!(matches!(s.step(SelectEvent::Motion { x: 5, y: 5 }, Some(9)), SelectAction::Continue { erase: None, draw: None }));
    s.step(SelectEvent::ButtonPress { x: 100, y: 50 }, Some(9));
    let first = Rect { x: 40, y: 20, w: 60, h: 30 };
    match s.step(SelectEvent::Motion { x: 40, y: 20 }, Some(9)) {
        SelectAction::Continue { erase: None, draw: Some(r) } => assert_eq!(r, first),
        other => panic!("unexpected {:?}", other),
    }
    let second = Rect { x: 100, y: 50, w: 1, h: 10 };
    match s.step(SelectEvent::Motion { x: 100, y: 60 }, Some(9)) {
        SelectAction::Continue { erase: Some(e), draw: Some(r) } => {
            assert_eq!(e, first);
            assert_eq!(r, second);
        },
        other => panic!("unexpected {:?}", other),
    }
    s.step(SelectEvent::Motion { x: 110, y: 70 }, Some(9));
    match s.step(SelectEvent::ButtonRelease, Some(9)) {
        SelectAction::Finish { erase, release, result } => {
            let r = Rect { x: 100, y: 50, w: 10, h: 20 };
            assert_eq!(erase, Some(r));
            assert!(release);
            assert_eq!(result, Ok(r));
        },
        other => panic!("unexpected {:?}", other),
    }
}

#[test]
fn selection_errors() {
    let mut s = RegionSelect::new();
    match s.step(SelectEvent::ButtonRelease, None) {
        SelectAction::Finish { release, result, .. } => {
            assert!(!release);
            assert_eq!(result, Err(RegionError::NoSelection));
        },
        other => panic!("unexpected {:?}", other),
    }
    let mut s = RegionSelect::new();
    s.step(SelectEvent::ButtonPress { x: 0, y: 0 }, None);
    s.step(SelectEvent::Motion { x: 2, y: 10 }, None);
    match s.step(SelectEvent::ButtonRelease, None) {
        SelectAction::Finish { result, .. } => assert_eq!(result, Err(RegionError::TooSmall)),
        other => panic!("unexpected {:?}", other),
    }
    let mut s = RegionSelect::new();
    assert!(matches!(s.step(SelectEvent::KeyPress { keycode: 8 }, Some(9)), SelectAction::Continue { .. }));
    match s.step(SelectEvent::KeyPress { keycode: 9 }, Some(9)) {
        SelectAction::Finish { result, release, .. } => {
            assert!(release);
            assert_eq!(result, Err(RegionError::Cancelled));
            assert_eq!(RegionError::Cancelled.message(), "cancelled");
        },
        other => panic!("unexpected {:?}", other),
    }
}

#[test]
fn extreme_drag_spans_the_full_range() {
    let mut s = RegionSelect::new();
    s.step(SelectEvent::ButtonPress { x: 32767, y: 0 }, None);
    match s.step(SelectEvent::Motion { x: -32768, y: 0 }, None) {
        SelectAction::Continue { draw: Some(r), .. } => assert_eq!(r, Rect { x: -32768, y: 0, w: 65535, h: 1 }),
        other => panic!("unexpected {:?}", other),
    }
}

#[test]
fn escape_keycode_lookup() {
    let esc = 0xFF1B;
    // Keycodes 8..=10, two keysyms each; Escape is the second keysym of 9.
    let table = [1, 2, 3, esc, esc, 5];
    assert_eq!(find_keycode(8, 10, 2, &table, esc), Some(9));
    assert_eq!(find_keycode(8, 10, 2, &table[..3], esc), None);
    assert_eq!(find_keycode(8, 10, 0, &table, esc), None);
    assert_eq!(find_keycode(10, 8, 2, &table, esc), None);
    assert_eq!(find_keycode(250, 255, 1, &[0, 0, 0, 0, 0, esc], esc), Some(255));
}

#[test]
fn toplevel_walk() {
    assert_eq!(ToplevelSearch::start(0).unwrap_err(), "no window under pointer");
    let mut w = ToplevelSearch::start(7).unwrap();
    assert_eq!(w.on_properties(false), None);
    assert_eq!(w.on_parent(20, 1, 1), None);
    assert_eq!(w.current, 20);
    assert_eq!(w.on_properties(true), Some(20));
    let mut w = ToplevelSearch::start(7).unwrap();
    assert_eq!(w.on_parent(1, 1, 99), Some(7));
}
