use tandem_client::presentation::{parse_window_id, KeyboardPresentationController, PresentationError};

#[test]
fn window_ids_are_parsed() {
    assert_eq!(parse_window_id("window:4242").ok(), Some(4242));
    assert_eq!(parse_window_id("screen:1").unwrap_err().message(), "Expected a window source id");
    assert_eq!(parse_window_id("window:abc").unwrap_err().message(), "Invalid window id: window:abc");
    assert_eq!(parse_window_id("window:").unwrap_err().message(), "Invalid window id: window:");
}

#[test]
fn the_target_is_read_back() {
    let mut controller = KeyboardPresentationController::new();
    assert_eq!(controller.get_target().ok(), Some(None));
    controller.set_target(Some("window:77")).expect("set");
    assert_eq!(controller.get_target().ok(), Some(Some("window:77".to_string())));
    assert_eq!(controller.activation_target(true), Some(77));
    assert_eq!(controller.activation_target(false), None);
}

#[test]
fn a_refused_target_keeps_the_old_one() {
    let mut controller = KeyboardPresentationController::new();
    controller.set_target(Some("window:5")).expect("set");
    let err = controller.set_target(Some("monitor:1")).unwrap_err();
    assert!(matches!(err, PresentationError::Input(m) if m == "Expected a window source id"));
    assert_eq!(controller.get_target().ok(), Some(Some("window:5".to_string())));
}

#[test]
fn empty_or_missing_ids_clear_the_target() {
    let mut controller = KeyboardPresentationController::new();
    controller.set_target(Some("window:5")).expect("set");
    controller.set_target(Some("")).expect("cleared");
    assert_eq!(controller.get_target().ok(), Some(None));
    controller.set_target(Some("window:6")).expect("set");
    controller.set_target(None).expect("cleared");
    assert_eq!(controller.get_target().ok(), Some(None));
}
