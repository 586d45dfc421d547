use snip::capture::{Backend, Capture, Event, Platform, RawFrame, Step, POLL_INTERVAL_NANOS};
use snip::{CaptureError, ErrorKind, Pixel, Screenshot};

fn packed_frame() -> RawFrame {
    RawFrame { data: vec![10, 20, 30, 40, 50, 60, 70, 80], width: 2, height: 1 }
}

fn done(step: Step) -> Screenshot {
    match step {
        Step::Done(shot) => shot,
        Step::Again(_) => panic!("asked to poll again"),
        Step::FallBack(_, error) => panic!("fell back after {}", error.message()),
        Step::Failed(error) => panic!("failed with {}", error.message()),
    }
}

fn failed(step: Step) -> CaptureError {
    match step {
        Step::Failed(error) => error,
        _ => panic!("the request did not fail"),
    }
}

#[test]
fn poll_interval_is_a_sixtieth_of_a_second() {
    assert_eq!(POLL_INTERVAL_NANOS, 16_666_666);
}

#[test]
fn windows_tries_the_compositor_and_falls_back_to_legacy() {
    assert_eq!(
        Platform::Windows.begin(1),
        Ok(Capture { screen: 1, backend: Backend::Compositor, fallback: Some(Backend::Legacy) })
    );
}

#[test]
fn linux_has_the_generic_backend_alone() {
    assert_eq!(
        Platform::Linux.begin(0),
        Ok(Capture { screen: 0, backend: Backend::Generic, fallback: None })
    );
}

#[test]
fn other_platforms_are_unsupported() {
    assert_eq!(Platform::Other.begin(0), Err(CaptureError::NoBackend));
    assert_eq!(Platform::Other.begin(0).unwrap_err().kind(), ErrorKind::Unsupported);
}

#[test]
fn only_the_generic_backend_is_polled() {
    assert!(Backend::Generic.polls());
    assert!(!Backend::Compositor.polls());
    assert!(!Backend::Legacy.polls());
}

#[test]
fn would_block_three_times_then_success() {
    let mut capture = Platform::Linux.begin(0).unwrap();
    for _ in 0..3 {
        match capture.step(Event::WouldBlock) {
            Step::Again(next) => {
                assert_eq!(next, capture);
                capture = next;
            }
            _ => panic!("a polled backend without a frame must be asked again"),
        }
    }
    let shot = done(capture.step(Event::Frame(packed_frame())));
    assert_eq!(shot.width(), 2);
    assert_eq!(shot.height(), 1);
    assert_eq!(shot.get_pixel(0, 0), Pixel { a: 255, r: 30, g: 20, b: 10 });
}

#[test]
fn a_frame_ends_the_request_at_once() {
    let capture = Platform::Windows.begin(0).unwrap();
    let shot = done(capture.step(Event::Frame(packed_frame())));
    assert_eq!(shot.get_data(), vec![10, 20, 30, 255, 50, 60, 70, 255]);
}

#[test]
fn a_failure_without_fallback_ends_the_request() {
    let capture = Platform::Linux.begin(0).unwrap();
    assert_eq!(
        failed(capture.step(Event::Failed(CaptureError::NoPrimaryDisplay))),
        CaptureError::NoPrimaryDisplay
    );
    assert_eq!(
        failed(capture.step(Event::Failed(CaptureError::CaptureNotStarted))),
        CaptureError::CaptureNotStarted
    );
}

#[test]
fn a_failure_of_the_first_backend_falls_back() {
    let capture = Platform::Windows.begin(3).unwrap();
    match capture.step(Event::Failed(CaptureError::CaptureNotStarted)) {
        Step::FallBack(next, reported) => {
            assert_eq!(reported, CaptureError::CaptureNotStarted);
            assert_eq!(next, Capture { screen: 3, backend: Backend::Legacy, fallback: None });
        }
        _ => panic!("the request must go on with the legacy backend"),
    }
}

#[test]
fn the_fallback_normalizes_bottom_up() {
    let capture = Capture { screen: 0, backend: Backend::Legacy, fallback: None };
    let frame = RawFrame { data: vec![1, 2, 3, 4, 5, 6, 7, 8], width: 1, height: 2 };
    let shot = done(capture.step(Event::Frame(frame)));
    assert_eq!(shot.get_data(), vec![7, 6, 5, 8, 3, 2, 1, 4]);
}

#[test]
fn a_display_past_the_last_fails_with_display_not_found() {
    let capture = Platform::Windows.begin(7).unwrap();
    let next = match capture.step(Event::Failed(CaptureError::ScreenNotFound)) {
        Step::FallBack(next, _) => next,
        _ => panic!("the request must go on with the legacy backend"),
    };
    assert_eq!(next.screen, 7);
    let error = failed(next.step(Event::Failed(CaptureError::ScreenNotFound)));
    assert_eq!(error, CaptureError::ScreenNotFound);
    assert_eq!(error.kind(), ErrorKind::DisplayNotFound);
}

#[test]
fn no_frame_from_a_single_shot_backend_is_a_failure() {
    let capture = Platform::Windows.begin(0).unwrap();
    let next = match capture.step(Event::WouldBlock) {
        Step::FallBack(next, reported) => {
            assert_eq!(reported, CaptureError::FrameNotReady);
            next
        }
        _ => panic!("the request must go on with the legacy backend"),
    };
    assert_eq!(failed(next.step(Event::WouldBlock)), CaptureError::FrameNotReady);
}

#[test]
fn a_frame_that_does_not_match_its_size_is_a_failure() {
    let short = RawFrame { data: vec![10, 20, 30, 40], width: 2, height: 1 };
    let capture = Platform::Linux.begin(0).unwrap();
    assert_eq!(failed(capture.step(Event::Frame(short))), CaptureError::FrameMismatch);
    let long = RawFrame { data: vec![0; 9], width: 1, height: 2 };
    let legacy = Capture { screen: 0, backend: Backend::Legacy, fallback: None };
    assert_eq!(failed(legacy.step(Event::Frame(long))), CaptureError::FrameMismatch);
}

#[test]
fn backends_normalize_their_own_layout() {
    let frame = || RawFrame { data: vec![1, 2, 3, 4, 5, 6, 7, 8], width: 1, height: 2 };
    let top_down = vec![1, 2, 3, 255, 5, 6, 7, 255];
    assert_eq!(Backend::Generic.normalize(frame()).ok().unwrap().get_data(), top_down);
    assert_eq!(Backend::Compositor.normalize(frame()).ok().unwrap().get_data(), top_down);
    assert_eq!(
        Backend::Legacy.normalize(frame()).ok().unwrap().get_data(),
        vec![7, 6, 5, 8, 3, 2, 1, 4]
    );
}
