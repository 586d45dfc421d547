//! Capture of a single still frame of a display, held as an in-memory bitmap
//! with one pixel layout whatever capture mechanism produced the raw frame.
//!
//! The crate holds the part that computes: the bitmap and its bounds-checked
//! pixel access, the transforms that bring a backend's raw bytes into the
//! canonical layout, the monitor geometry of the legacy backend, and the
//! decisions of a capture request (which backend to try, when to poll again,
//! when to fall back, when to give up). Talking to the operating system is
//! left to the caller, who hands in what a backend delivered.

pub mod capture;
pub mod error;
pub mod monitor;
pub mod normalize;
pub mod screenshot;

pub use crate::error::{CaptureError, ErrorKind};
pub use crate::screenshot::{Bitmap, Pixel, Screenshot};
