use tandem_client::ndi::{
    capture_ndi_preview, capture_source_ndi_loop, decode_ndi_source_id, is_available, list_ndi_sources, ndi_source_id,
    ndi_sources_from_names,
};
use tandem_client::sources::{
    capture_preview, encode_preview, encode_preview_jpeg_bytes, find_source, frame_from_grab, list_all_sources,
    parse_id_suffix, preview_request, screen_source, webcam_source, CaptureError, PreviewRequest, RgbaFrame,
};
use tandem_client::types::{CaptureSource, CaptureSourceKind};

fn source(id: &str, kind: CaptureSourceKind, label: &str) -> CaptureSource {
    CaptureSource { id: id.to_string(), kind, label: label.to_string() }
}

#[test]
fn error_messages_name_the_failure() {
    assert_eq!(CaptureError::ListFailed("x".into()).message(), "Failed to list sources: x");
    assert_eq!(CaptureError::CaptureFailed("y".into()).message(), "Failed to capture preview: y");
    assert_eq!(CaptureError::SourceNotFound("z".into()).message(), "Source not found: z");
    assert_eq!(CaptureError::Unsupported("w".into()).message(), "w");
}

#[test]
fn sources_are_listed_screens_webcams_then_ndi() {
    let screens = Ok(vec![screen_source(1, "DP-1", 1920, 1080)]);
    let webcams = Ok(vec![webcam_source(0, "Cam")]);
    let ndi = Err(CaptureError::ListFailed("no ndi".into()));
    let all = list_all_sources(screens, webcams, ndi).expect("listed");
    let ids: Vec<&str> = all.iter().map(|s| s.id.as_str()).collect();
    assert_eq!(ids, vec!["screen:1", "webcam:0"]);
    assert_eq!(all[0].label, "DP-1 (1920\u{d7}1080)");
    assert_eq!(all[0].kind, CaptureSourceKind::Screen);
    assert_eq!(all[1].kind, CaptureSourceKind::Webcam);
}

#[test]
fn a_listing_failure_is_the_result() {
    let r = list_all_sources(Err(CaptureError::ListFailed("xcap".into())), Ok(vec![]), Ok(vec![]));
    assert!(matches!(r, Err(CaptureError::ListFailed(m)) if m == "xcap"));
    let r = list_all_sources(Ok(vec![]), Err(CaptureError::ListFailed("nokhwa".into())), Ok(vec![]));
    assert!(matches!(r, Err(CaptureError::ListFailed(m)) if m == "nokhwa"));
}

#[test]
fn sources_are_found_by_id() {
    let all = vec![source("screen:1", CaptureSourceKind::Screen, "A"), source("webcam:0", CaptureSourceKind::Webcam, "B")];
    assert_eq!(find_source(&all, "webcam:0").expect("found").label, "B");
    assert!(matches!(find_source(&all, "webcam:9"), Err(CaptureError::SourceNotFound(m)) if m == "webcam:9"));
}

#[test]
fn id_suffixes_are_parsed() {
    assert_eq!(parse_id_suffix("screen:42", "screen:").ok(), Some(42));
    assert!(matches!(parse_id_suffix("window:1", "screen:"), Err(CaptureError::SourceNotFound(m)) if m == "window:1"));
    assert!(matches!(parse_id_suffix("screen:x", "screen:"),
        Err(CaptureError::SourceNotFound(m)) if m == "invalid digit found in string"));
    assert!(matches!(parse_id_suffix("screen:", "screen:"),
        Err(CaptureError::SourceNotFound(m)) if m == "cannot parse integer from empty string"));
    assert!(matches!(parse_id_suffix("screen:4294967296", "screen:"),
        Err(CaptureError::SourceNotFound(m)) if m == "number too large to fit in target type"));
}

#[test]
fn preview_requests_follow_the_source_kind() {
    let all = vec![
        source("screen:3", CaptureSourceKind::Screen, "A"),
        source("webcam:1", CaptureSourceKind::Webcam, "B"),
        source("ndi:QQ", CaptureSourceKind::Ndi, "C"),
    ];
    assert!(matches!(preview_request(&all, "screen:3"), Ok(PreviewRequest::Screen { monitor_id: 3 })));
    assert!(matches!(preview_request(&all, "webcam:1"), Ok(PreviewRequest::Webcam { index: 1 })));
    assert!(matches!(preview_request(&all, "ndi:QQ"), Ok(PreviewRequest::Ndi { source_id }) if source_id == "ndi:QQ"));
    assert!(matches!(preview_request(&all, "screen:4"), Err(CaptureError::SourceNotFound(m)) if m == "screen:4"));
}

#[test]
fn frames_must_hold_all_pixels() {
    assert!(frame_from_grab(2, 2, vec![0; 16]).is_ok());
    assert!(matches!(frame_from_grab(2, 2, vec![0; 15]), Err(CaptureError::CaptureFailed(_))));
    assert!(RgbaFrame::from_raw(1, 1, vec![1, 2, 3, 4]).is_some());
    assert!(RgbaFrame::from_raw(1, 1, vec![1, 2, 3]).is_none());
}

#[test]
fn previews_are_jpeg_data_urls() {
    let frame = RgbaFrame::from_raw(2, 2, vec![200; 16]).expect("frame");
    let jpeg = encode_preview_jpeg_bytes(frame).expect("jpeg");
    assert_eq!(&jpeg[..2], &[0xff, 0xd8]);
    let frame = RgbaFrame::from_raw(2, 2, vec![200; 16]).expect("frame");
    let url = encode_preview(frame).expect("url");
    assert!(url.starts_with("data:image/jpeg;base64,/9j/"));
}

#[test]
fn large_frames_are_scaled_to_the_preview_size() {
    let frame = RgbaFrame::from_raw(2560, 1440, vec![90; 2560 * 1440 * 4]).expect("frame");
    let jpeg = encode_preview_jpeg_bytes(frame).expect("jpeg");
    let decoded = image::load_from_memory(&jpeg).expect("decodes");
    assert_eq!((decoded.width(), decoded.height()), (1280, 720));
}

#[test]
fn empty_frames_have_no_preview() {
    let frame = RgbaFrame::from_raw(0, 5, vec![]).expect("frame");
    assert!(matches!(encode_preview(frame), Err(CaptureError::CaptureFailed(_))));
}

#[test]
fn capture_preview_passes_grab_errors_and_refuses_ndi() {
    let r = capture_preview(PreviewRequest::Screen { monitor_id: 1 }, Err(CaptureError::CaptureFailed("gone".into())));
    assert!(matches!(r, Err(CaptureError::CaptureFailed(m)) if m == "gone"));
    let r = capture_preview(PreviewRequest::Ndi { source_id: "ndi:QQ".into() }, Err(CaptureError::CaptureFailed("x".into())));
    assert!(matches!(r, Err(CaptureError::Unsupported(m)) if m == "NDI support was not compiled into this build"));
    let frame = RgbaFrame::from_raw(1, 1, vec![1, 2, 3, 255]).expect("frame");
    assert!(capture_preview(PreviewRequest::Webcam { index: 0 }, Ok(frame)).expect("url").starts_with("data:image/jpeg;base64,"));
}

#[test]
fn ndi_is_not_built_in() {
    assert!(!is_available());
    assert!(list_ndi_sources().expect("ok").is_empty());
    assert!(matches!(capture_ndi_preview("ndi:x"), Err(CaptureError::Unsupported(_))));
    let s = source("ndi:x", CaptureSourceKind::Ndi, "x");
    assert!(matches!(capture_source_ndi_loop(&s), Err(CaptureError::Unsupported(_))));
}

#[test]
fn ndi_ids_round_trip() {
    let id = ndi_source_id("STUDIO (Camera 1)");
    assert_eq!(id, "ndi:U1RVRElPIChDYW1lcmEgMSk");
    assert_eq!(decode_ndi_source_id(&id).expect("decodes"), "STUDIO (Camera 1)");
    assert!(matches!(decode_ndi_source_id("screen:1"), Err(CaptureError::SourceNotFound(m)) if m == "screen:1"));
    assert!(matches!(decode_ndi_source_id("ndi:%%"), Err(CaptureError::SourceNotFound(_))));
    let sources = ndi_sources_from_names(&vec!["A".to_string()]);
    assert_eq!(sources[0].id, "ndi:QQ");
    assert_eq!(sources[0].kind, CaptureSourceKind::Ndi);
}

#[test]
fn listed_ids_name_their_device_again() {
    let screen = screen_source(7, "HDMI-1", 800, 600);
    assert_eq!(parse_id_suffix(&screen.id, "screen:").ok(), Some(7));
    let cam = webcam_source(12, "Cam");
    assert_eq!(parse_id_suffix(&cam.id, "webcam:").ok(), Some(12));
}

#[test]
fn small_frames_keep_their_size() {
    let frame = RgbaFrame::from_raw(3, 2, vec![10; 24]).expect("frame");
    let jpeg = encode_preview_jpeg_bytes(frame).expect("jpeg");
    let decoded = image::load_from_memory(&jpeg).expect("decodes");
    assert_eq!((decoded.width(), decoded.height()), (3, 2));
    assert!(matches!(frame_from_grab(1, 1, vec![]), Err(CaptureError::CaptureFailed(m)) if m == "invalid frame dimensions"));
}
