//! The decisions of the Wayland capture: which globals to bind, the frame
//! events of a screen copy, and its outcome.

use vstd::prelude::*;
use crate::image::PixelFormat;
use crate::text::{chars_eq, to_chars};

verus! {

/// A global that the capture binds.
#[derive(Debug, Clone, Copy, PartialEq, Eq, Structural)]
pub enum Global {
    Shm,
    Output,
    ScreencopyManager,
}

pub open spec fn spec_global_of(interface: Seq<char>) -> Option<Global> {
    if interface == "wl_shm"@ {
        Some(Global::Shm)
    } else if interface == "wl_output"@ {
        Some(Global::Output)
    } else if interface == "zwlr_screencopy_manager_v1"@ {
        Some(Global::ScreencopyManager)
    } else {
        None
    }
}

/// For a global advertised by the registry under `interface` at `version`:
/// which of the needed globals it is, and the version to bind (at most 1).
pub fn registry_binding(interface: &str, version: u32) -> (r: Option<(Global, u32)>)
    ensures
        match spec_global_of(interface@) {
            Some(g) => r == Some((g, if version < 1 {
                version
            } else {
                1u32
            })),
            None => r is None,
        },
{
    let cs = to_chars(interface);
    let n = cs.len();
    let g = if chars_eq(&cs, 0, n, "wl_shm") {
        Global::Shm
    } else if chars_eq(&cs, 0, n, "wl_output") {
        Global::Output
    } else if chars_eq(&cs, 0, n, "zwlr_screencopy_manager_v1") {
        Global::ScreencopyManager
    } else {
        assert(cs@.subrange(0, n as int) =~= interface@);
        return None;
    };
    assert(cs@.subrange(0, n as int) =~= interface@);
    let v = if version < 1 {
        version
    } else {
        1
    };
    Some((g, v))
}

/// The globals found after the first registry round trip: the screen-copy
/// manager, an output and shared memory are all needed, checked in that order.
pub fn check_globals(has_manager: bool, has_output: bool, has_shm: bool) -> (r: Result<(), String>)
    ensures
        !has_manager ==> (r matches Err(e) && e@ == "compositor does not support wlr-screencopy"@),
        has_manager && !has_output ==> (r matches Err(e) && e@ == "no outputs found"@),
        has_manager && has_output && !has_shm ==> (r matches Err(e) && e@ == "no wl_shm available"@),
        has_manager && has_output && has_shm ==> r is Ok,
{
    if !has_manager {
        return Err(String::from_str("compositor does not support wlr-screencopy"));
    }
    if !has_output {
        return Err(String::from_str("no outputs found"));
    }
    if !has_shm {
        return Err(String::from_str("no wl_shm available"));
    }
    Ok(())
}

/// An event of a screen-copy frame.
#[derive(Debug, Clone, Copy, PartialEq, Eq, Structural)]
pub enum FrameEvent {
    /// The compositor's buffer parameters.
    Buffer { format: PixelFormat, width: u32, height: u32, stride: u32 },
    /// The copy is complete.
    Ready,
    /// The copy failed.
    Failed,
    /// Anything else.
    Other,
}

/// What is known of a screen-copy frame.
#[derive(Debug, Clone, Copy, PartialEq, Eq, Structural)]
pub struct FrameInfo {
    pub width: u32,
    pub height: u32,
    pub stride: u32,
    pub format: PixelFormat,
    pub ready: bool,
    pub failed: bool,
}

impl FrameInfo {
    /// Nothing known yet: zero size, `Xrgb8888`, neither ready nor failed.
    pub fn new() -> (r: FrameInfo)
        ensures
            r == (FrameInfo {
                width: 0,
                height: 0,
                stride: 0,
                format: PixelFormat::Xrgb8888,
                ready: false,
                failed: false,
            }),
    {
        FrameInfo { width: 0, height: 0, stride: 0, format: PixelFormat::Xrgb8888, ready: false, failed: false }
    }

    /// Records a frame event.
    pub fn apply(&mut self, ev: FrameEvent)
        ensures
            match ev {
                FrameEvent::Buffer { format, width, height, stride } => *final(self) == FrameInfo {
                    width,
                    height,
                    stride,
                    format,
                    ..*old(self)
                },
                FrameEvent::Ready => *final(self) == FrameInfo { ready: true, ..*old(self) },
                FrameEvent::Failed => *final(self) == FrameInfo { failed: true, ..*old(self) },
                FrameEvent::Other => *final(self) == *old(self),
            },
    {
        match ev {
            FrameEvent::Buffer { format, width, height, stride } => {
                self.width = width;
                self.height = height;
                self.stride = stride;
                self.format = format;
            },
            FrameEvent::Ready => {
                self.ready = true;
            },
            FrameEvent::Failed => {
                self.failed = true;
            },
            FrameEvent::Other => {},
        }
    }

    /// Whether to keep waiting for the copy: neither ready nor failed.
    pub fn pending(&self) -> (r: bool)
        ensures
            r == (!self.ready && !self.failed),
    {
        !self.ready && !self.failed
    }

    /// The outcome once waiting stops: a failure wins over readiness, and a
    /// frame that is neither has timed out.
    pub fn outcome(&self) -> (r: Result<(), String>)
        ensures
            self.failed ==> (r matches Err(e) && e@ == "screencopy failed"@),
            !self.failed && !self.ready ==> (r matches Err(e) && e@ == "screencopy timed out"@),
            !self.failed && self.ready ==> r is Ok,
    {
        if self.failed {
            return Err(String::from_str("screencopy failed"));
        }
        if !self.ready {
            return Err(String::from_str("screencopy timed out"));
        }
        Ok(())
    }
}

/// How many round trips to wait for a frame.
pub const MAX_FRAME_TRIES: u32 = 50;

} // verus!
