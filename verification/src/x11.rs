//! The decisions of the X11 capture: the rubber-band region selection, the
//! escape key's keycode, and the walk up to a window's top-level frame.

use vstd::prelude::*;
use crate::geometry::Rect;

verus! {

/// An input event delivered to the selection overlay.
#[derive(Debug, Clone, Copy, PartialEq, Eq, Structural)]
pub enum SelectEvent {
    /// A pointer button went down at `(x, y)`.
    ButtonPress { x: i16, y: i16 },
    /// The pointer moved to `(x, y)`.
    Motion { x: i16, y: i16 },
    /// A pointer button went up.
    ButtonRelease,
    /// A key went down.
    KeyPress { keycode: u8 },
    /// Anything else.
    Other,
}

/// Why a region selection ended without a region.
#[derive(Debug, Clone, Copy, PartialEq, Eq, Structural)]
pub enum RegionError {
    /// The button was released before the pointer moved with it held.
    NoSelection,
    /// The region is narrower or lower than 3 pixels.
    TooSmall,
    /// Escape was pressed.
    Cancelled,
}

impl RegionError {
    pub open spec fn spec_message(self) -> Seq<char> {
        match self {
            RegionError::NoSelection => "no selection"@,
            RegionError::TooSmall => "selection too small"@,
            RegionError::Cancelled => "cancelled"@,
        }
    }

    /// The error's text.
    pub fn message(&self) -> (r: String)
        ensures
            r@ == self.spec_message(),
    {
        match self {
            RegionError::NoSelection => String::from_str("no selection"),
            RegionError::TooSmall => String::from_str("selection too small"),
            RegionError::Cancelled => String::from_str("cancelled"),
        }
    }
}

/// What the overlay must do after an event.
#[derive(Debug, Clone, Copy)]
pub enum SelectAction {
    /// Keep selecting: first invert the outline `erase` (removing it), then
    /// invert the outline `draw`.
    Continue { erase: Option<Rect>, draw: Option<Rect> },
    /// Stop: invert `erase` first, release the grabs and the overlay when
    /// `release` holds, and report `result`.
    Finish { erase: Option<Rect>, release: bool, result: Result<Rect, RegionError> },
}

/// The state of a rubber-band selection.
#[derive(Debug, Clone, Copy)]
pub struct RegionSelect {
    /// Where the button went down.
    pub start: Option<(i16, i16)>,
    /// The outline currently drawn on the overlay.
    pub rubber: Option<Rect>,
    /// The last rectangle dragged out.
    pub last: Option<Rect>,
}

pub open spec fn spec_min(a: i16, b: i16) -> i16 {
    if a <= b {
        a
    } else {
        b
    }
}

/// `|a - b|`, at least 1.
pub open spec fn span(a: i16, b: i16) -> u16 {
    let d = if a >= b {
        a - b
    } else {
        b - a
    };
    if d < 1 {
        1
    } else {
        d as u16
    }
}

/// The rectangle between the press point `p` and the pointer at `(x, y)`,
/// at least one pixel wide and high.
pub open spec fn drag_rect(p: (i16, i16), x: i16, y: i16) -> Rect {
    Rect { x: spec_min(p.0, x), y: spec_min(p.1, y), w: span(p.0, x), h: span(p.1, y) }
}

/// The next state and action of a selection on an event; `escape` is the
/// keycode of the Escape key, if the keyboard has one.
pub open spec fn spec_select_step(s: RegionSelect, ev: SelectEvent, escape: Option<u8>) -> (RegionSelect, SelectAction) {
    let cont = SelectAction::Continue { erase: None, draw: None };
    match ev {
        SelectEvent::ButtonPress { x, y } => (RegionSelect { start: Some((x, y)), rubber: None, last: s.last }, cont),
        SelectEvent::Motion { x, y } => match s.start {
            Some(p) => {
                let r = drag_rect(p, x, y);
                (
                    RegionSelect { start: s.start, rubber: Some(r), last: Some(r) },
                    SelectAction::Continue { erase: s.rubber, draw: Some(r) },
                )
            },
            None => (s, cont),
        },
        SelectEvent::ButtonRelease => match s.last {
            None => (s, SelectAction::Finish { erase: s.rubber, release: false, result: Err(RegionError::NoSelection) }),
            Some(r) => if r.w < 3 || r.h < 3 {
                (s, SelectAction::Finish { erase: s.rubber, release: true, result: Err(RegionError::TooSmall) })
            } else {
                (s, SelectAction::Finish { erase: s.rubber, release: true, result: Ok(r) })
            },
        },
        SelectEvent::KeyPress { keycode } => if escape == Some(keycode) {
            (s, SelectAction::Finish { erase: None, release: true, result: Err(RegionError::Cancelled) })
        } else {
            (s, cont)
        },
        SelectEvent::Other => (s, cont),
    }
}

fn min_i16(a: i16, b: i16) -> (r: i16)
    ensures
        r == spec_min(a, b),
{
    if a <= b {
        a
    } else {
        b
    }
}

fn span_exec(a: i16, b: i16) -> (r: u16)
    ensures
        r == span(a, b),
{
    let d: i32 = if a >= b {
        a as i32 - b as i32
    } else {
        b as i32 - a as i32
    };
    if d < 1 {
        1
    } else {
        d as u16
    }
}

impl RegionSelect {
    /// A selection that has not started.
    pub fn new() -> (r: RegionSelect)
        ensures
            r == (RegionSelect { start: None, rubber: None, last: None }),
    {
        RegionSelect { start: None, rubber: None, last: None }
    }

    /// Handles one event; see `spec_select_step`.
    pub fn step(&mut self, ev: SelectEvent, escape: Option<u8>) -> (a: SelectAction)
        ensures
            (*final(self), a) == spec_select_step(*old(self), ev, escape),
    {
        let cont = SelectAction::Continue { erase: None, draw: None };
        match ev {
            SelectEvent::ButtonPress { x, y } => {
                self.start = Some((x, y));
                self.rubber = None;
                cont
            },
            SelectEvent::Motion { x, y } => match self.start {
                Some(p) => {
                    let r = Rect { x: min_i16(p.0, x), y: min_i16(p.1, y), w: span_exec(p.0, x), h: span_exec(p.1, y) };
                    let erase = self.rubber;
                    self.rubber = Some(r);
                    self.last = Some(r);
                    SelectAction::Continue { erase, draw: Some(r) }
                },
                None => cont,
            },
            SelectEvent::ButtonRelease => match self.last {
                None => SelectAction::Finish { erase: self.rubber, release: false, result: Err(RegionError::NoSelection) },
                Some(r) => {
                    if r.w < 3 || r.h < 3 {
                        SelectAction::Finish { erase: self.rubber, release: true, result: Err(RegionError::TooSmall) }
                    } else {
                        SelectAction::Finish { erase: self.rubber, release: true, result: Ok(r) }
                    }
                },
            },
            SelectEvent::KeyPress { keycode } => {
                let is_escape = match escape {
                    Some(k) => k == keycode,
                    None => false,
                };
                if is_escape {
                    SelectAction::Finish { erase: None, release: true, result: Err(RegionError::Cancelled) }
                } else {
                    cont
                }
            },
            SelectEvent::Other => cont,
        }
    }
}

/// Keycode number `i` (counted from the first) has `target` among its
/// `per` keysyms in the table.
pub open spec fn keycode_has(keysyms: Seq<u32>, per: nat, i: int, target: u32) -> bool {
    exists|j: int| 0 <= j < per && #[trigger] slot_holds(keysyms, per, i, j, target)
}

/// Slot `j` of keycode number `i` lies in the table and holds `target`.
pub open spec fn slot_holds(keysyms: Seq<u32>, per: nat, i: int, j: int, target: u32) -> bool {
    0 <= i * per + j < keysyms.len() && keysyms[i * per + j] == target
}

/// The first keycode in `first..=last` whose row of `per` keysyms in the
/// keyboard mapping `keysyms` holds `target`.
pub fn find_keycode(first: u8, last: u8, per: u8, keysyms: &[u32], target: u32) -> (r: Option<u8>)
    ensures
        match r {
            Some(kc) => first <= kc <= last && keycode_has(keysyms@, per as nat, kc - first, target)
                && forall|i: int| 0 <= i < kc - first ==> !keycode_has(keysyms@, per as nat, i, target),
            None => forall|i: int|
                0 <= i <= last - first ==> !keycode_has(keysyms@, per as nat, i, target),
        },
{
    if first > last {
        return None;
    }
    let n = keysyms.len();
    let count: u16 = last as u16 - first as u16 + 1;
    let mut i: u16 = 0;
    while i < count
        invariant
            first <= last,
            count == last - first + 1,
            i <= count,
            n == keysyms@.len(),
            forall|k: int| 0 <= k < i ==> !keycode_has(keysyms@, per as nat, k, target),
        decreases count - i,
    {
        assert((i as int) * (per as int) <= 255 * 255) by (nonlinear_arith)
            requires
                i < 256,
                per < 256,
        ;
        let base: usize = (i as usize) * (per as usize);
        let mut j: u8 = 0;
        while j < per
            invariant
                base == i * per,
                base <= 255 * 255,
                first <= last,
                count == last - first + 1,
                i < count,
                n == keysyms@.len(),
                forall|k: int| 0 <= k < i ==> !keycode_has(keysyms@, per as nat, k, target),
                j <= per,
                forall|q: int| 0 <= q < j ==> !slot_holds(keysyms@, per as nat, i as int, q, target),
            decreases per - j,
        {
            if base + (j as usize) < n && keysyms[base + j as usize] == target {
                assert(slot_holds(keysyms@, per as nat, i as int, j as int, target));
                return Some(first + i as u8);
            }
            j = j + 1;
        }
        assert(!keycode_has(keysyms@, per as nat, i as int, target));
        i = i + 1;
    }
    None
}

/// The walk from a clicked window up to the top-level window that holds it:
/// the first window on the way up that carries `WM_STATE` or
/// `_NET_WM_WINDOW_TYPE`, else the clicked window itself once the parent is a
/// root window.
#[derive(Debug, Clone, Copy, PartialEq, Eq, Structural)]
pub struct ToplevelSearch {
    /// The window that was clicked.
    pub clicked: u32,
    /// The window being examined.
    pub current: u32,
}

impl ToplevelSearch {
    /// Starts the walk at the clicked child window; `0` means no window was
    /// under the pointer.
    pub fn start(child: u32) -> (r: Result<ToplevelSearch, String>)
        ensures
            child == 0 ==> (r matches Err(e) && e@ == "no window under pointer"@),
            child != 0 ==> r == Ok::<ToplevelSearch, String>(ToplevelSearch { clicked: child, current: child }),
    {
        if child == 0 {
            Err(String::from_str("no window under pointer"))
        } else {
            Ok(ToplevelSearch { clicked: child, current: child })
        }
    }

    /// The current window's properties are known: `managed` when it carries
    /// `WM_STATE` or `_NET_WM_WINDOW_TYPE`. `Some` is the answer.
    pub fn on_properties(&self, managed: bool) -> (r: Option<u32>)
        ensures
            r == (if managed {
                Some(self.current)
            } else {
                None::<u32>
            }),
    {
        if managed {
            Some(self.current)
        } else {
            None
        }
    }

    /// The current window's parent is known, with the root of its tree and
    /// the root of the first screen. `Some` is the answer; otherwise the walk
    /// moves on to the parent.
    pub fn on_parent(&mut self, parent: u32, tree_root: u32, screen_root: u32) -> (r: Option<u32>)
        ensures
            parent == screen_root || parent == tree_root ==> r == Some(old(self).clicked)
                && *final(self) == *old(self),
            !(parent == screen_root || parent == tree_root) ==> r is None && *final(self) == (
            ToplevelSearch { clicked: old(self).clicked, current: parent }),
    {
        if parent == screen_root || parent == tree_root {
            Some(self.clicked)
        } else {
            self.current = parent;
            None
        }
    }
}

} // verus!

verus! {

/// While a button is held, moving the pointer outlines the bounding box of
/// the press point and the pointer: on each axis it starts at the smaller
/// coordinate and spans the distance between them (at least one pixel), so
/// both points lie inside it; that box becomes the selection.
pub proof fn lemma_drag_is_bounding_box(s: RegionSelect, p: (i16, i16), x: i16, y: i16, escape: Option<u8>)
    requires
        s.start == Some(p),
    ensures
        ({
            let (next, action) = spec_select_step(s, SelectEvent::Motion { x, y }, escape);
            &&& action matches SelectAction::Continue { erase, draw: Some(r) }
            &&& erase == s.rubber
            &&& next.last == Some(r)
            &&& next.rubber == Some(r)
            &&& r.x <= p.0 && r.x <= x && (r.x == p.0 || r.x == x)
            &&& r.y <= p.1 && r.y <= y && (r.y == p.1 || r.y == y)
            &&& r.w >= 1 && r.h >= 1
            &&& (p.0 - x <= r.w && x - p.0 <= r.w) && (r.w == 1 || r.w == p.0 - x || r.w == x - p.0)
            &&& (p.1 - y <= r.h && y - p.1 <= r.h) && (r.h == 1 || r.h == p.1 - y || r.h == y - p.1)
            &&& r.x <= p.0 <= r.x + r.w && r.x <= x <= r.x + r.w
            &&& r.y <= p.1 <= r.y + r.h && r.y <= y <= r.y + r.h
        }),
{
}

} // verus!
