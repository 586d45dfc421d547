use snip::{CaptureError, ErrorKind};

#[test]
fn every_cause_has_its_kind() {
    assert_eq!(CaptureError::NoPrimaryDisplay.kind(), ErrorKind::DisplayNotFound);
    assert_eq!(CaptureError::ScreenNotFound.kind(), ErrorKind::DisplayNotFound);
    assert_eq!(CaptureError::CaptureNotStarted.kind(), ErrorKind::BackendUnavailable);
    assert_eq!(CaptureError::NoDeviceContext.kind(), ErrorKind::BackendUnavailable);
    assert_eq!(CaptureError::NoBitmap.kind(), ErrorKind::AcquisitionFailed);
    assert_eq!(CaptureError::BitmapNotSelected.kind(), ErrorKind::AcquisitionFailed);
    assert_eq!(CaptureError::CopyFailed.kind(), ErrorKind::AcquisitionFailed);
    assert_eq!(CaptureError::FrameMismatch.kind(), ErrorKind::AcquisitionFailed);
    assert_eq!(CaptureError::FrameNotReady.kind(), ErrorKind::AcquisitionFailed);
    assert_eq!(CaptureError::NoBackend.kind(), ErrorKind::Unsupported);
}

#[test]
fn every_cause_has_its_message() {
    assert_eq!(CaptureError::NoPrimaryDisplay.message(), "Couldn't find primary display.");
    assert_eq!(CaptureError::CaptureNotStarted.message(), "Couldn't begin capture.");
    assert_eq!(CaptureError::ScreenNotFound.message(), "failed to get specified screen");
    assert_eq!(CaptureError::NoDeviceContext.message(), "Can't get a Windows display.");
    assert_eq!(CaptureError::NoBitmap.message(), "Can't create a Windows buffer");
    assert_eq!(CaptureError::BitmapNotSelected.message(), "Can't select Windows buffer.");
    assert_eq!(CaptureError::CopyFailed.message(), "Failed to copy screen to Windows buffer");
    assert_eq!(CaptureError::FrameMismatch.message(), "Frame does not match its geometry");
    assert_eq!(CaptureError::FrameNotReady.message(), "No frame was delivered");
    assert_eq!(CaptureError::NoBackend.message(), "No capture backend for this platform");
}
