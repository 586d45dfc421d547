use snip::monitor::{screen_index, select_monitor, Monitor, Readback};
use snip::{CaptureError, ErrorKind};

fn two_monitors() -> Vec<Monitor> {
    vec![
        Monitor { left: 0, top: 0, height: 1080, width: 1920 },
        Monitor { left: 1920, top: -120, height: 1200, width: 1600 },
    ]
}

#[test]
fn from_rect_takes_the_extent_of_the_rectangle() {
    assert_eq!(
        Monitor::from_rect(1920, -120, 3520, 1080),
        Some(Monitor { left: 1920, top: -120, height: 1200, width: 1600 })
    );
    assert_eq!(
        Monitor::from_rect(0, 0, 0, 0),
        Some(Monitor { left: 0, top: 0, height: 0, width: 0 })
    );
    assert_eq!(
        Monitor::from_rect(10, 20, 5, 8),
        Some(Monitor { left: 10, top: 20, height: -12, width: -5 })
    );
}

#[test]
fn from_rect_refuses_an_extent_past_32_bits() {
    assert_eq!(Monitor::from_rect(i32::MIN, 0, 1, 10), None);
    assert_eq!(Monitor::from_rect(0, i32::MIN, 10, 1), None);
    assert_eq!(Monitor::from_rect(1, 0, i32::MIN, 10), None);
    assert_eq!(
        Monitor::from_rect(i32::MIN, 0, 0, 1).map(|m| m.width),
        None
    );
    assert_eq!(
        Monitor::from_rect(-1, 0, i32::MAX - 1, 1).map(|m| m.width),
        Some(i32::MAX)
    );
}

#[test]
fn select_monitor_takes_the_one_at_the_index() {
    let monitors = two_monitors();
    assert_eq!(select_monitor(&monitors, 0), Ok(monitors[0]));
    assert_eq!(select_monitor(&monitors, 1), Ok(monitors[1]));
}

#[test]
fn select_monitor_past_the_last_is_display_not_found() {
    let monitors = two_monitors();
    assert_eq!(select_monitor(&monitors, 2), Err(CaptureError::ScreenNotFound));
    assert_eq!(select_monitor(&monitors, usize::MAX), Err(CaptureError::ScreenNotFound));
    assert_eq!(select_monitor(&Vec::new(), 0), Err(CaptureError::ScreenNotFound));
    assert_eq!(
        select_monitor(&monitors, 2).unwrap_err().kind(),
        ErrorKind::DisplayNotFound
    );
}

#[test]
fn screen_index_is_the_index_below_the_count() {
    assert_eq!(screen_index(3, 0), Ok(0));
    assert_eq!(screen_index(3, 2), Ok(2));
    assert_eq!(screen_index(3, 3), Err(CaptureError::ScreenNotFound));
    assert_eq!(screen_index(0, 0), Err(CaptureError::ScreenNotFound));
}

#[test]
fn readback_describes_a_32_bit_surface() {
    let monitor = Monitor { left: 0, top: 0, height: 1080, width: 1920 };
    assert_eq!(
        monitor.readback(),
        Some(Readback { width: 1920, height: 1080, planes: 1, bit_count: 32, size_image: 8_294_400 })
    );
}

#[test]
fn readback_of_an_empty_monitor_has_no_bytes() {
    let monitor = Monitor { left: 5, top: 5, height: 0, width: 800 };
    assert_eq!(
        monitor.readback(),
        Some(Readback { width: 800, height: 0, planes: 1, bit_count: 32, size_image: 0 })
    );
}

#[test]
fn readback_refuses_negative_and_oversized_monitors() {
    assert_eq!(Monitor { left: 0, top: 0, height: 10, width: -1 }.readback(), None);
    assert_eq!(Monitor { left: 0, top: 0, height: -10, width: 1 }.readback(), None);
    assert_eq!(Monitor { left: 0, top: 0, height: -10, width: -10 }.readback(), None);
    assert_eq!(Monitor { left: 0, top: 0, height: 65536, width: 65536 }.readback(), None);
    // 536870912 pixels of four bytes are one byte more than 32 bits with a sign hold.
    assert_eq!(Monitor { left: 0, top: 0, height: 16384, width: 32768 }.readback(), None);
    assert_eq!(
        Monitor { left: 0, top: 0, height: 16383, width: 32768 }.readback().map(|p| p.size_image),
        Some(2_147_352_576)
    );
}
