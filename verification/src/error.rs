//! Why a capture failed: the cause a backend reports, and the kind it falls under.

use vstd::prelude::*;

verus! {

/// The kinds of failure a capture request can end with.
#[derive(Clone, Copy, Debug, PartialEq, Eq, Structural)]
pub enum ErrorKind {
    /// The requested index has no display or monitor behind it.
    DisplayNotFound,
    /// A capture session could not be opened or initialised.
    BackendUnavailable,
    /// Creating the surface, copying the screen or reading the pixels back failed.
    AcquisitionFailed,
    /// The platform has no capture backend.
    Unsupported,
}

/// What went wrong, as a backend or the library itself reports it.
#[derive(Clone, Copy, Debug, PartialEq, Eq, Structural)]
pub enum CaptureError {
    /// The display server names no primary display.
    NoPrimaryDisplay,
    /// The display refused to start a capture session.
    CaptureNotStarted,
    /// The requested screen index is past the last monitor.
    ScreenNotFound,
    /// No memory device context could be created for the screen.
    NoDeviceContext,
    /// No bitmap compatible with the screen could be created.
    NoBitmap,
    /// The bitmap could not be selected into the device context.
    BitmapNotSelected,
    /// Copying the screen into the bitmap failed.
    CopyFailed,
    /// The bytes that were read back do not agree with the frame's geometry.
    FrameMismatch,
    /// A single-shot backend delivered no frame.
    FrameNotReady,
    /// The platform has no capture backend.
    NoBackend,
}

impl CaptureError {
    /// The kind each cause falls under.
    pub open spec fn spec_kind(self) -> ErrorKind {
        match self {
            CaptureError::NoPrimaryDisplay => ErrorKind::DisplayNotFound,
            CaptureError::CaptureNotStarted => ErrorKind::BackendUnavailable,
            CaptureError::ScreenNotFound => ErrorKind::DisplayNotFound,
            CaptureError::NoDeviceContext => ErrorKind::BackendUnavailable,
            CaptureError::NoBitmap => ErrorKind::AcquisitionFailed,
            CaptureError::BitmapNotSelected => ErrorKind::AcquisitionFailed,
            CaptureError::CopyFailed => ErrorKind::AcquisitionFailed,
            CaptureError::FrameMismatch => ErrorKind::AcquisitionFailed,
            CaptureError::FrameNotReady => ErrorKind::AcquisitionFailed,
            CaptureError::NoBackend => ErrorKind::Unsupported,
        }
    }

    /// The short text shown to the user for each cause.
    pub open spec fn spec_message(self) -> Seq<char> {
        match self {
            CaptureError::NoPrimaryDisplay => "Couldn't find primary display."@,
            CaptureError::CaptureNotStarted => "Couldn't begin capture."@,
            CaptureError::ScreenNotFound => "failed to get specified screen"@,
            CaptureError::NoDeviceContext => "Can't get a Windows display."@,
            CaptureError::NoBitmap => "Can't create a Windows buffer"@,
            CaptureError::BitmapNotSelected => "Can't select Windows buffer."@,
            CaptureError::CopyFailed => "Failed to copy screen to Windows buffer"@,
            CaptureError::FrameMismatch => "Frame does not match its geometry"@,
            CaptureError::FrameNotReady => "No frame was delivered"@,
            CaptureError::NoBackend => "No capture backend for this platform"@,
        }
    }

    /// The kind of this failure.
    #[verifier::when_used_as_spec(spec_kind)]
    pub fn kind(self) -> (kind: ErrorKind)
        ensures
            kind == self.spec_kind(),
    {
        match self {
            CaptureError::NoPrimaryDisplay => ErrorKind::DisplayNotFound,
            CaptureError::CaptureNotStarted => ErrorKind::BackendUnavailable,
            CaptureError::ScreenNotFound => ErrorKind::DisplayNotFound,
            CaptureError::NoDeviceContext => ErrorKind::BackendUnavailable,
            CaptureError::NoBitmap => ErrorKind::AcquisitionFailed,
            CaptureError::BitmapNotSelected => ErrorKind::AcquisitionFailed,
            CaptureError::CopyFailed => ErrorKind::AcquisitionFailed,
            CaptureError::FrameMismatch => ErrorKind::AcquisitionFailed,
            CaptureError::FrameNotReady => ErrorKind::AcquisitionFailed,
            CaptureError::NoBackend => ErrorKind::Unsupported,
        }
    }

    /// The short human-readable text of this failure.
    pub fn message(self) -> (text: &'static str)
        ensures
            text@ == self.spec_message(),
    {
        match self {
            CaptureError::NoPrimaryDisplay => "Couldn't find primary display.",
            CaptureError::CaptureNotStarted => "Couldn't begin capture.",
            CaptureError::ScreenNotFound => "failed to get specified screen",
            CaptureError::NoDeviceContext => "Can't get a Windows display.",
            CaptureError::NoBitmap => "Can't create a Windows buffer",
            CaptureError::BitmapNotSelected => "Can't select Windows buffer.",
            CaptureError::CopyFailed => "Failed to copy screen to Windows buffer",
            CaptureError::FrameMismatch => "Frame does not match its geometry",
            CaptureError::FrameNotReady => "No frame was delivered",
            CaptureError::NoBackend => "No capture backend for this platform",
        }
    }
}

} // verus!
