use tandem_client::frame_server::FrameSlot;
use tandem_client::pixels::{frame_to_rgba, rgba_to_rgb, try_extract_rgba8_pixels, PixelFormat};
use tandem_client::sources::CaptureError;
use tandem_client::text::{parse_unsigned, str_less, to_ascii_uppercase, trim, IntParseError};
use tandem_client::types::{CaptureSource, CaptureSourceKind};
use tandem_client::utf8_text::trim_str;
use tandem_client::windows_capture::{deliver_mapped_frame, frame_arrival, monitor_index, staging_reusable, FrameArrival};

#[test]
fn padded_rows_are_packed() {
    let raw = [1, 2, 3, 4, 0, 0, 5, 6, 7, 8, 0, 0];
    let mut scratch = vec![9];
    assert_eq!(try_extract_rgba8_pixels(&raw, 1, 2, 6, &mut scratch), Some(()));
    assert_eq!(scratch, vec![1, 2, 3, 4, 5, 6, 7, 8]);
}

#[test]
fn inconsistent_buffers_are_skipped() {
    let mut scratch = vec![9];
    assert_eq!(try_extract_rgba8_pixels(&[1, 2, 3], 1, 1, 4, &mut scratch), None);
    assert_eq!(try_extract_rgba8_pixels(&[1, 2, 3, 4], 1, 1, 2, &mut scratch), None);
    assert_eq!(try_extract_rgba8_pixels(&[1, 2, 3, 4], 0, 1, 4, &mut scratch), None);
    assert_eq!(scratch, vec![9]);
}

#[test]
fn pixel_formats_become_rgba() {
    assert_eq!(frame_to_rgba(&[1, 2, 3, 4], 4, 1, 1, PixelFormat::Rgba), Some(vec![1, 2, 3, 4]));
    assert_eq!(frame_to_rgba(&[1, 2, 3, 4], 4, 1, 1, PixelFormat::Rgbx), Some(vec![1, 2, 3, 255]));
    assert_eq!(frame_to_rgba(&[1, 2, 3, 4], 4, 1, 1, PixelFormat::Bgrx), Some(vec![3, 2, 1, 255]));
    assert_eq!(frame_to_rgba(&[1, 2, 3, 7, 4, 5, 6, 7], 4, 1, 2, PixelFormat::Rgb), Some(vec![1, 2, 3, 255, 4, 5, 6, 255]));
    assert_eq!(frame_to_rgba(&[1, 2, 3, 4], 4, 1, 1, PixelFormat::Other), None);
    assert_eq!(frame_to_rgba(&[1, 2, 3], 4, 1, 1, PixelFormat::Rgba), None);
    assert_eq!(frame_to_rgba(&[1, 2, 3, 4], 4, 0, 1, PixelFormat::Rgba), None);
}

#[test]
fn alpha_is_dropped_for_jpeg() {
    assert_eq!(rgba_to_rgb(&[1, 2, 3, 4, 5, 6, 7, 8]), vec![1, 2, 3, 5, 6, 7]);
}

#[test]
fn windows_frames_are_delivered() {
    let mut slot = FrameSlot::new();
    let mut scratch = Vec::new();
    assert!(deliver_mapped_frame(&mut slot, &mut scratch, &[1, 2, 3, 4, 9, 9], 1, 1, 6));
    assert!(scratch.is_empty());
    assert_eq!(slot.latest_frame().expect("frame").pixels.as_slice(), &[1, 2, 3, 4]);
    let mut other = FrameSlot::new();
    assert!(!deliver_mapped_frame(&mut other, &mut scratch, &[1, 2], 1, 1, 4));
    assert!(!other.has_frame());
    assert_eq!(frame_arrival(true, 1, 1), FrameArrival::StopCapture);
    assert_eq!(frame_arrival(false, 0, 1), FrameArrival::Skip);
    assert_eq!(frame_arrival(false, 1, 1), FrameArrival::Process);
    assert!(staging_reusable(Some((10, 10, 28)), 10, 10, 28));
    assert!(!staging_reusable(Some((10, 10, 28)), 10, 11, 28));
    assert!(!staging_reusable(None, 10, 10, 28));
}

#[test]
fn windows_capture_takes_screens_only() {
    let screen = CaptureSource { id: "screen:2".into(), kind: CaptureSourceKind::Screen, label: "x".into() };
    assert_eq!(monitor_index(&screen).ok(), Some(2));
    let cam = CaptureSource { id: "webcam:0".into(), kind: CaptureSourceKind::Webcam, label: "x".into() };
    assert!(matches!(monitor_index(&cam), Err(CaptureError::Unsupported(m)) if m == "windows capture only supports screen sources"));
}

#[test]
fn text_helpers_match_std() {
    assert_eq!(trim("\u{3000} a b\u{85}"), "a b");
    assert_eq!(trim_str("\u{a0}x\t"), "x");
    assert_eq!(parse_unsigned("+17", 10, u32::MAX), Ok(17));
    assert_eq!(parse_unsigned("-1", 10, u32::MAX), Err(IntParseError::InvalidDigit));
    assert_eq!(parse_unsigned("ff", 16, 255), Ok(255));
    assert_eq!(parse_unsigned("100", 16, 255), Err(IntParseError::PosOverflow));
    assert_eq!(to_ascii_uppercase("Gnome-é"), "GNOME-é");
    assert!(str_less("abc", "abd"));
    assert!(str_less("ab", "abc"));
    assert!(!str_less("b", "abc"));
    assert!(!str_less("same", "same"));
}
