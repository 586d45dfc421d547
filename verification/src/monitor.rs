//! The geometry of the monitors that the legacy backend enumerates, and what
//! it asks the system for when it reads one monitor's pixels back.

use vstd::prelude::*;
use crate::error::CaptureError;

verus! {

/// A monitor's place and size in virtual-desktop coordinates.
#[derive(Clone, Copy, Debug, PartialEq, Eq, Structural)]
pub struct Monitor {
    pub left: i32,
    pub top: i32,
    pub height: i32,
    pub width: i32,
}

/// The description of the bitmap that the legacy backend reads back: a
/// bottom-up surface of one plane and 32 bits per pixel, without compression.
#[derive(Clone, Copy, Debug, PartialEq, Eq, Structural)]
pub struct Readback {
    /// Width of the surface in pixels.
    pub width: i32,
    /// Height of the surface in pixels; positive, so the scanlines run from the bottom.
    pub height: i32,
    /// Number of colour planes.
    pub planes: u16,
    /// Bits per pixel.
    pub bit_count: u16,
    /// Bytes of the whole surface, which is the length of the buffer to read into.
    pub size_image: u32,
}

/// The index of the requested screen among `count` displays: the index
/// itself where a display stands behind it.
pub fn screen_index(count: usize, screen: usize) -> (found: Result<usize, CaptureError>)
    ensures
        found == if screen < count {
            Ok::<usize, CaptureError>(screen)
        } else {
            Err::<usize, CaptureError>(CaptureError::ScreenNotFound)
        },
{
    if screen < count {
        Ok(screen)
    } else {
        Err(CaptureError::ScreenNotFound)
    }
}

/// The monitor at index `screen` of the enumeration, where there is one.
pub fn select_monitor(monitors: &Vec<Monitor>, screen: usize) -> (found: Result<
    Monitor,
    CaptureError,
>)
    ensures
        found == if screen < monitors@.len() {
            Ok::<Monitor, CaptureError>(monitors@[screen as int])
        } else {
            Err::<Monitor, CaptureError>(CaptureError::ScreenNotFound)
        },
{
    match screen_index(monitors.len(), screen) {
        Ok(at) => Ok(monitors[at]),
        Err(error) => Err(error),
    }
}

impl Monitor {
    /// The monitor that covers the rectangle from `(left, top)` to
    /// `(right, bottom)`, where its extent can be held in 32 bits.
    pub fn from_rect(left: i32, top: i32, right: i32, bottom: i32) -> (monitor: Option<Monitor>)
        ensures
            monitor is Some <==> i32::MIN <= bottom - top <= i32::MAX && i32::MIN <= right - left
                <= i32::MAX,
            monitor matches Some(m) ==> m.left == left && m.top == top && m.height == bottom - top
                && m.width == right - left,
    {
        match (bottom.checked_sub(top), right.checked_sub(left)) {
            (Some(height), Some(width)) => Some(Monitor { left, top, height, width }),
            _ => None,
        }
    }

    /// Bytes of this monitor's frame at four bytes per pixel.
    pub open spec fn frame_len(self) -> int {
        self.width * self.height * 4
    }

    /// The monitor has a frame that can be read back: its extent is not
    /// negative, and the frame's length can be held in 32 bits with a sign.
    pub open spec fn readable(self) -> bool {
        0 <= self.width && 0 <= self.height && self.frame_len() <= i32::MAX
    }

    /// What to read back for this monitor, where it has a frame.
    pub fn readback(&self) -> (plan: Option<Readback>)
        ensures
            plan is Some <==> self.readable(),
            plan matches Some(p) ==> p == (Readback {
                width: self.width,
                height: self.height,
                planes: 1,
                bit_count: 32,
                size_image: self.frame_len() as u32,
            }),
    {
        if self.width < 0 || self.height < 0 {
            return None;
        }
        proof {
            let (w, h) = (self.width as int, self.height as int);
            assert(0 <= w * h && (w * h > i32::MAX ==> w * h * 4 > i32::MAX)) by (nonlinear_arith)
                requires
                    0 <= w,
                    0 <= h,
            ;
        }
        match self.width.checked_mul(self.height) {
            Some(pixels) => match pixels.checked_mul(4) {
                Some(bytes) => Some(
                    Readback {
                        width: self.width,
                        height: self.height,
                        planes: 1,
                        bit_count: 32,
                        size_image: bytes as u32,
                    },
                ),
                None => None,
            },
            None => None,
        }
    }
}

} // verus!
