use tandem_client::commands::{get_slot_states, refresh_slot_preview, resolve_source, set_slot_source, start_slot_video_source};
use tandem_client::sources::{screen_source, webcam_source, CaptureError};
use tandem_client::types::{build_slot_state, is_stream_slot, slot_label, CaptureManager, CaptureSource, CaptureSourceKind};
use tandem_client::workers::{
    check_video_source, first_frame_step, no_frames_message, preview_event, preview_start_needed, sync_slot_action,
    FirstFrameWait, PreviewSync,
};
use tandem_client::slot_map::SlotMap;

fn listed() -> Result<Vec<CaptureSource>, CaptureError> {
    Ok(vec![screen_source(1, "DP-1", 1920, 1080), webcam_source(0, "Cam")])
}

#[test]
fn slots_have_labels() {
    assert_eq!(slot_label("main"), "Main presentation");
    assert_eq!(slot_label("notes"), "Presenter notes");
    assert_eq!(slot_label("aux1"), "Auxiliary 1");
    assert_eq!(slot_label("aux2"), "Auxiliary 2");
    assert_eq!(slot_label("other"), "Capture");
    assert!(is_stream_slot("aux2"));
    assert!(!is_stream_slot("aux3"));
}

#[test]
fn assignments_are_read_back() {
    let mut manager = CaptureManager::new();
    assert_eq!(manager.get_assignment("main"), None);
    manager.set_assignment("main", Some("screen:1".to_string()));
    manager.set_assignment("notes", None);
    assert_eq!(manager.get_assignment("main"), Some(&Some("screen:1".to_string())));
    assert_eq!(manager.get_assignment("notes"), Some(&None));
    manager.set_assignment("main", Some("webcam:0".to_string()));
    assert_eq!(manager.get_assignment("main"), Some(&Some("webcam:0".to_string())));
}

#[test]
fn slot_state_reports_the_source() {
    let manager = CaptureManager::new();
    let source = screen_source(1, "DP-1", 10, 10);
    let state = build_slot_state("main", &manager, Some(&source)).expect("state");
    assert_eq!(state.slot, "main");
    assert_eq!(state.label, "Main presentation");
    assert!(state.active);
    assert!(state.preview.is_none());
    assert_eq!(state.source.expect("source").id, "screen:1");
    let empty = build_slot_state("aux1", &manager, None).expect("state");
    assert!(!empty.active);
}

#[test]
fn setting_a_source_assigns_it_and_stops_changed_video() {
    let mut manager = CaptureManager::new();
    let (state, stop) = set_slot_source(&mut manager, &listed(), "main", Some("screen:1".into())).expect("set");
    assert!(state.active);
    assert!(stop);
    let (_, stop_again) = set_slot_source(&mut manager, &listed(), "main", Some("screen:1".into())).expect("set");
    assert!(!stop_again);
    let (state, stop_cleared) = set_slot_source(&mut manager, &listed(), "main", None).expect("set");
    assert!(!state.active);
    assert!(stop_cleared);
    assert_eq!(manager.get_assignment("main"), Some(&None));
}

#[test]
fn refused_assignments_change_nothing() {
    let mut manager = CaptureManager::new();
    let err = set_slot_source(&mut manager, &listed(), "stage", Some("screen:1".into())).unwrap_err();
    assert_eq!(err, "Unknown slot: stage");
    let err = set_slot_source(&mut manager, &listed(), "main", Some("screen:9".into())).unwrap_err();
    assert_eq!(err, "Source not found: screen:9");
    assert_eq!(manager.get_assignment("main"), None);
    let failed: Result<Vec<CaptureSource>, CaptureError> = Err(CaptureError::ListFailed("boom".into()));
    let err = set_slot_source(&mut manager, &failed, "main", Some("screen:1".into())).unwrap_err();
    assert_eq!(err, "Failed to list sources: boom");
}

#[test]
fn slot_states_cover_every_slot_in_order() {
    let mut manager = CaptureManager::new();
    manager.set_assignment("notes", Some("webcam:0".to_string()));
    let states = get_slot_states(&manager, &listed()).expect("states");
    let slots: Vec<&str> = states.iter().map(|s| s.slot.as_str()).collect();
    assert_eq!(slots, vec!["main", "notes", "aux1", "aux2"]);
    assert!(states[1].active);
    assert!(!states[0].active);
    manager.set_assignment("aux2", Some("gone".to_string()));
    assert_eq!(get_slot_states(&manager, &listed()).unwrap_err(), "Source not found: gone");
}

#[test]
fn refresh_and_video_start_check_the_slot() {
    let manager = CaptureManager::new();
    assert_eq!(refresh_slot_preview(&manager, &listed(), "x").unwrap_err(), "Unknown slot: x");
    assert!(!refresh_slot_preview(&manager, &listed(), "main").expect("state").active);
    assert_eq!(start_slot_video_source(&listed(), "x", "screen:1").unwrap_err(), "Unknown slot: x");
    assert_eq!(start_slot_video_source(&listed(), "main", "screen:1").expect("source").kind, CaptureSourceKind::Screen);
    assert_eq!(resolve_source(&listed(), "webcam:0").expect("source").label, "Cam");
}

#[test]
fn webcams_are_not_streamed_as_video() {
    assert_eq!(check_video_source("main", CaptureSourceKind::Webcam).unwrap_err(), "Slot \"main\" uses browser webcam capture");
    assert!(check_video_source("main", CaptureSourceKind::Screen).is_ok());
    assert!(check_video_source("main", CaptureSourceKind::Ndi).is_ok());
}

#[test]
fn first_frame_wait_checks_the_deadline_first() {
    assert_eq!(first_frame_step(false, true), FirstFrameWait::GiveUp);
    assert_eq!(first_frame_step(true, true), FirstFrameWait::Ready);
    assert_eq!(first_frame_step(true, false), FirstFrameWait::KeepWaiting);
    assert_eq!(
        no_frames_message("main"),
        "Capture for slot \"main\" produced no frames. Check that the source is available."
    );
}

#[test]
fn preview_workers_restart_only_for_another_source() {
    let mut workers: SlotMap<(String, u8)> = SlotMap::new();
    assert!(preview_start_needed(&workers, "main", "screen:1"));
    workers.insert("main", ("screen:1".to_string(), 0));
    assert!(!preview_start_needed(&workers, "main", "screen:1"));
    assert!(preview_start_needed(&workers, "main", "webcam:0"));
    workers.remove("main");
    assert!(preview_start_needed(&workers, "main", "screen:1"));
    assert_eq!(sync_slot_action(Some("screen:1"), true), PreviewSync::Start);
    assert_eq!(sync_slot_action(Some("screen:1"), false), PreviewSync::Stop);
    assert_eq!(sync_slot_action(None, true), PreviewSync::Stop);
}

#[test]
fn encoded_previews_become_events() {
    let event = preview_event("notes", Ok("data:x".to_string())).expect("event");
    assert_eq!((event.slot.as_str(), event.preview.as_str()), ("notes", "data:x"));
    assert!(preview_event("notes", Err(CaptureError::CaptureFailed("x".into()))).is_none());
}
