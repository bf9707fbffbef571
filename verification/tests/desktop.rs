use tandem_client::gnome_extension::{
    activate_window, dbus_ping, enable_extension, extension_enabled, extension_status, gnome_extensions_bin,
    is_applicable, is_gnome_desktop, windows_from_entries, ExtensionWindow, EXTENSION_UUID,
};
use tandem_client::session_env::{bundled_gio_module_path, join_relative, pick_xwayland_auth, prepend_path_var};
use tandem_client::screen_capture::{
    capture_target, first_stream_node, find_monitor, is_wayland_session, portal_first_frame_outcome, portal_reply,
    session_start_outcome, ChannelWait, PipewireFrameGate, ScreenCaptureTarget,
};
use tandem_client::frame_server::FrameSlot;
use tandem_client::pixels::PixelFormat;
use tandem_client::sources::CaptureError;

#[test]
fn extension_status_explains_what_to_do() {
    let off = extension_status(false, true, true, true);
    assert!(!off.applicable && !off.installed && !off.enabled && !off.active && !off.needs_logout);
    assert!(off.message.is_none());
    let waiting = extension_status(true, true, true, false);
    assert!(waiting.needs_logout);
    assert_eq!(
        waiting.message.as_deref(),
        Some("Log out and sign back in once so Tandem can find browser and app windows for the remote clicker.")
    );
    let missing = extension_status(true, false, false, false);
    assert!(!missing.needs_logout);
    assert_eq!(missing.message.as_deref(), Some("Tandem could not finish setting up the remote clicker."));
    let ready = extension_status(true, true, true, true);
    assert!(ready.message.is_none());
}

#[test]
fn extension_calls_are_interpreted() {
    assert!(dbus_ping(Ok(true)));
    assert!(!dbus_ping(Ok(false)));
    assert!(!dbus_ping(Err("no bus".into())));
    assert!(activate_window(12, Ok(true)).is_ok());
    assert_eq!(activate_window(12, Ok(false)).unwrap_err(), "Window 12 was not found");
    assert_eq!(activate_window(12, Err("bus down".into())).unwrap_err(), "bus down");
    assert!(enable_extension(true).is_ok());
    assert_eq!(
        enable_extension(false).unwrap_err(),
        "Could not enable GNOME Shell extension \u{2014} log out and back in, then reopen Tandem"
    );
    assert_eq!(gnome_extensions_bin(true), "/usr/bin/gnome-extensions");
    assert_eq!(gnome_extensions_bin(false), "gnome-extensions");
}

#[test]
fn the_extension_applies_to_gnome_on_wayland() {
    let desktops = vec!["ubuntu:GNOME".to_string(), String::new(), String::new()];
    assert!(is_gnome_desktop(&desktops, false));
    assert!(is_gnome_desktop(&vec!["KDE".to_string()], true));
    assert!(!is_gnome_desktop(&vec!["KDE".to_string()], false));
    assert!(is_applicable("Wayland", &desktops, false));
    assert!(!is_applicable("x11", &desktops, true));
    assert!(!is_applicable("", &desktops, true));
}

#[test]
fn enabled_extensions_are_found_in_the_listing() {
    let listing = format!("other@example.com\n  {EXTENSION_UUID}  \r\n");
    assert!(extension_enabled(true, &listing));
    assert!(!extension_enabled(false, &listing));
    assert!(!extension_enabled(true, "other@example.com\n"));
    assert!(!extension_enabled(true, ""));
}

fn entry(id: &str, title: &str, app: &str) -> ExtensionWindow {
    ExtensionWindow { id: id.to_string(), title: title.to_string(), app: app.to_string() }
}

#[test]
fn windows_are_labelled_and_sorted() {
    let windows = windows_from_entries(&vec![
        entry("3", "slides", "Impress"),
        entry("1", "Browser", "  "),
        entry("2", "browser", "Firefox"),
        entry("4", "Browser", ""),
    ]);
    let listed: Vec<(&str, &str)> = windows.iter().map(|w| (w.id.as_str(), w.label.as_str())).collect();
    assert_eq!(
        listed,
        vec![
            ("window:1", "Browser"),
            ("window:4", "Browser"),
            ("window:2", "browser \u{2014} Firefox"),
            ("window:3", "slides \u{2014} Impress"),
        ]
    );
}

#[test]
fn environment_values_are_built() {
    assert_eq!(prepend_path_var("/app", Some("/usr/lib")), "/app:/usr/lib");
    assert_eq!(prepend_path_var("/app", None), "/app");
    assert_eq!(join_relative("/tmp/app", "usr/lib"), "/tmp/app/usr/lib");
    assert_eq!(join_relative("/tmp/app/", "usr/lib"), "/tmp/app/usr/lib");
    assert_eq!(bundled_gio_module_path("/appdir"), "/appdir/usr/lib/x86_64-linux-gnu/gio/modules");
}

#[test]
fn the_first_xwayland_auth_file_is_picked() {
    let names = vec![
        "pulse".to_string(),
        ".mutter-Xwaylandauth.ZZZ".to_string(),
        ".mutter-Xwaylandauth.AB1".to_string(),
        "bus".to_string(),
    ];
    assert_eq!(pick_xwayland_auth(&names), Some(2));
    assert_eq!(pick_xwayland_auth(&vec!["bus".to_string()]), None);
}

#[test]
fn screen_sources_choose_portal_or_monitor() {
    assert_eq!(capture_target("screen:portal").ok(), Some(ScreenCaptureTarget::Portal));
    assert_eq!(capture_target("screen:7").ok(), Some(ScreenCaptureTarget::Monitor(7)));
    assert!(matches!(capture_target("webcam:1"), Err(CaptureError::SourceNotFound(m)) if m == "webcam:1"));
    assert!(is_wayland_session(Some("WAYLAND"), None));
    assert!(is_wayland_session(Some("x11"), Some("wayland-0")));
    assert!(!is_wayland_session(Some("x11"), Some("")));
    assert!(!is_wayland_session(None, None));
}

#[test]
fn session_start_outcomes() {
    let ok = session_start_outcome(ChannelWait::Received(Ok(())));
    assert!(ok.result.is_ok() && !ok.stop_worker && !ok.join_worker);
    let failed = session_start_outcome(ChannelWait::Received(Err("denied".into())));
    assert!(matches!(failed.result, Err(CaptureError::CaptureFailed(ref m)) if m == "denied"));
    assert!(failed.stop_worker && failed.join_worker);
    let timeout = session_start_outcome(ChannelWait::TimedOut);
    assert!(matches!(timeout.result, Err(CaptureError::CaptureFailed(ref m)) if m.starts_with("Timed out waiting for screen capture permission.")));
    assert!(timeout.stop_worker && !timeout.join_worker);
    let gone = session_start_outcome(ChannelWait::Disconnected);
    assert!(matches!(gone.result, Err(CaptureError::CaptureFailed(ref m)) if m == "Screen capture setup failed before producing frames"));
    assert!(!gone.stop_worker && gone.join_worker);
}

#[test]
fn portal_outcomes() {
    assert_eq!(portal_first_frame_outcome(ChannelWait::Received(Ok(()))), (Ok(()), false));
    assert_eq!(
        portal_first_frame_outcome(ChannelWait::TimedOut),
        (Err("PipeWire stream produced no frames after portal approval".to_string()), true)
    );
    assert_eq!(
        portal_first_frame_outcome(ChannelWait::Disconnected),
        (Err("PipeWire capture thread exited early".to_string()), true)
    );
    let reply: Result<u32, CaptureError> = portal_reply(ChannelWait::TimedOut);
    assert!(matches!(reply, Err(CaptureError::CaptureFailed(m)) if m == "Timed out waiting for the screen selection dialog"));
    assert_eq!(portal_reply::<u32>(ChannelWait::Received(Ok(5))).ok(), Some(5));
    assert_eq!(first_stream_node(&vec![42, 43]).ok(), Some(42));
    assert!(matches!(first_stream_node(&vec![]), Err(CaptureError::CaptureFailed(m)) if m == "portal returned no capture streams"));
}

#[test]
fn monitors_are_found_by_id() {
    assert_eq!(find_monitor(&vec![None, Some(3), Some(3)], 3).ok(), Some(1));
    assert!(matches!(find_monitor(&vec![Some(1)], 9), Err(CaptureError::SourceNotFound(m)) if m == "screen:9"));
}

#[test]
fn pipewire_buffers_wait_for_a_format() {
    let mut gate = PipewireFrameGate::new();
    assert!(!gate.wants_buffer(false));
    gate.on_param_changed(true, false, true);
    assert!(!gate.wants_buffer(false));
    gate.on_param_changed(true, true, true);
    assert!(gate.wants_buffer(false));
    assert!(!gate.wants_buffer(true));
    let mut slot = FrameSlot::new();
    let data = [1u8, 2, 3, 9, 4, 5, 6, 9];
    assert!(!gate.take_buffer(&mut slot, 2, 1, 8, PixelFormat::Bgrx, None));
    assert!(!slot.has_frame());
    assert!(gate.take_buffer(&mut slot, 2, 1, 8, PixelFormat::Bgrx, Some(&data)));
    let frame = slot.latest_frame().expect("frame");
    assert_eq!(frame.pixels.as_slice(), &[3, 2, 1, 255, 6, 5, 4, 255]);
    slot.clear();
    assert!(!gate.take_buffer(&mut slot, 2, 1, 8, PixelFormat::Bgrx, Some(&data)));
    assert!(slot.has_frame());
}
