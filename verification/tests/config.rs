use tandem_client::capture_sessions::{streaming_execution_flags, ActiveCaptureGuard, ActiveCaptureSessions};
use tandem_client::livekit::{find_node_executable, resolve_script_path, start_message, sync_message, sync_target, LiveKitSlotConfig};
use tandem_client::ndi_config::{
    apply_from_app_config, apply_ndi_config, get_discovery_server, normalize, set_discovery_server, NdiConfigAction,
    SettingsFileAction,
};
use tandem_client::screen_permission::{access_required, ensure_access, has_access, request_access};

const CONFIG_FOR_HOST: &str =
    "{\n  \"ndi\": {\n    \"networks\": {\n      \"discovery\": \"10.0.0.5\",\n      \"ips\": \"\"\n    }\n  }\n}";

#[test]
fn discovery_server_is_trimmed_and_blank_is_none() {
    assert_eq!(get_discovery_server(Some("  10.0.0.5\n".to_string())).as_deref(), Some("10.0.0.5"));
    assert_eq!(get_discovery_server(Some(" \n".to_string())), None);
    assert_eq!(get_discovery_server(None), None);
    assert_eq!(normalize(Some(" a b ")).as_deref(), Some("a b"));
}

#[test]
fn the_ndi_config_names_the_server() {
    match apply_ndi_config(Some("10.0.0.5")) {
        NdiConfigAction::Write { text } => {
            assert_eq!(text, CONFIG_FOR_HOST);
            let parsed: serde_json::Value = serde_json::from_str(&text).expect("json");
            assert_eq!(parsed["ndi"]["networks"]["discovery"], "10.0.0.5");
            assert_eq!(parsed["ndi"]["networks"]["ips"], "");
        }
        NdiConfigAction::Remove => panic!("expected a config"),
    }
    assert!(matches!(apply_ndi_config(None), NdiConfigAction::Remove));
}

#[test]
fn quotes_in_the_server_are_escaped() {
    match apply_ndi_config(Some("a\"b\\c")) {
        NdiConfigAction::Write { text } => {
            let parsed: serde_json::Value = serde_json::from_str(&text).expect("json");
            assert_eq!(parsed["ndi"]["networks"]["discovery"], "a\"b\\c");
        }
        NdiConfigAction::Remove => panic!("expected a config"),
    }
}

#[test]
fn startup_applies_the_stored_server() {
    assert!(matches!(apply_from_app_config(Some(" 10.0.0.5 ".to_string())), NdiConfigAction::Write { text } if text == CONFIG_FOR_HOST));
    assert!(matches!(apply_from_app_config(None), NdiConfigAction::Remove));
    assert!(matches!(apply_from_app_config(Some("   ".to_string())), NdiConfigAction::Remove));
}

#[test]
fn setting_the_server_stores_what_is_read_back() {
    let (file, config) = set_discovery_server(Some("  10.0.0.5 ".to_string()));
    let stored = match file {
        SettingsFileAction::Write { value } => value,
        SettingsFileAction::Remove => panic!("expected a value"),
    };
    assert_eq!(stored, "10.0.0.5");
    assert_eq!(get_discovery_server(Some(stored)).as_deref(), Some("10.0.0.5"));
    assert!(matches!(config, NdiConfigAction::Write { text } if text == CONFIG_FOR_HOST));
    let (file, config) = set_discovery_server(Some(" ".to_string()));
    assert!(matches!(file, SettingsFileAction::Remove));
    assert!(matches!(config, NdiConfigAction::Remove));
}

#[test]
fn sidecar_messages_are_json_lines() {
    assert_eq!(
        start_message("wss://lk.example", "tok\"en"),
        "{\"type\":\"start\",\"url\":\"wss://lk.example\",\"token\":\"tok\\\"en\"}\n"
    );
    let slots = vec![
        LiveKitSlotConfig { slot: "main".into(), ws_url: "ws://127.0.0.1:1/ws/main".into() },
        LiveKitSlotConfig { slot: "notes".into(), ws_url: "ws://127.0.0.1:1/ws/notes".into() },
    ];
    let line = sync_message(&slots);
    assert_eq!(
        line,
        "{\"type\":\"sync\",\"slots\":[{\"slot\":\"main\",\"wsUrl\":\"ws://127.0.0.1:1/ws/main\"},{\"slot\":\"notes\",\"wsUrl\":\"ws://127.0.0.1:1/ws/notes\"}]}\n"
    );
    assert_eq!(sync_message(&[]), "{\"type\":\"sync\",\"slots\":[]}\n");
    let parsed: serde_json::Value = serde_json::from_str(line.trim_end()).expect("json");
    assert_eq!(parsed["slots"][1]["wsUrl"], "ws://127.0.0.1:1/ws/notes");
}

#[test]
fn control_characters_are_escaped_in_messages() {
    let line = start_message("a\nb\u{1}", "t");
    assert_eq!(line, "{\"type\":\"start\",\"url\":\"a\\nb\\u0001\",\"token\":\"t\"}\n");
}

#[test]
fn node_and_script_are_found() {
    assert_eq!(find_node_executable(Some(" /opt/node/bin/node\n"), true, true).ok().as_deref(), Some("/opt/node/bin/node"));
    assert_eq!(find_node_executable(Some("  "), false, true).ok().as_deref(), Some("/usr/local/bin/node"));
    assert_eq!(find_node_executable(None, true, true).ok().as_deref(), Some("/usr/bin/node"));
    assert_eq!(find_node_executable(None, false, false).unwrap_err(), "Node.js executable not found (install node 18+)");
    assert_eq!(resolve_script_path("/x.mjs", true, Ok("/real/x.mjs".into())).ok().as_deref(), Some("/real/x.mjs"));
    assert_eq!(
        resolve_script_path("/x.mjs", true, Err("denied".into())).unwrap_err(),
        "Failed to resolve LiveKit sidecar script: denied"
    );
    assert_eq!(resolve_script_path("/x.mjs", false, Ok("/x".into())).unwrap_err(), "LiveKit sidecar script not found at /x.mjs");
    assert_eq!(sync_target(false).unwrap_err(), "LiveKit sidecar is not running");
    assert!(sync_target(true).is_ok());
}

#[test]
fn streaming_is_on_while_sessions_run() {
    let mut sessions = ActiveCaptureSessions::new();
    let (first, on) = ActiveCaptureGuard::acquire(&mut sessions);
    assert!(on);
    let (second, on_again) = ActiveCaptureGuard::acquire(&mut sessions);
    assert!(!on_again);
    assert!(!second.release(&mut sessions));
    assert!(first.release(&mut sessions));
    assert_eq!(streaming_execution_flags(true), 0x8000_0001);
    assert_eq!(streaming_execution_flags(false), 0x8000_0000);
}

#[test]
fn screen_access_is_granted_outside_macos() {
    assert!(has_access());
    assert!(request_access());
    assert!(!access_required());
    let mut prompted = false;
    assert!(!ensure_access(&mut prompted));
    assert!(!prompted);
}
