pub mod text;
pub mod utf8_text;
pub mod webcam_labels;
pub mod pixels;
pub mod frame_server;
pub mod types;
pub mod ndi;
pub mod sources;
pub mod slot_map;
pub mod workers;
pub mod commands;
pub mod presentation;
pub mod gnome_extension;
pub mod json_text;
pub mod ndi_config;
pub mod livekit;
pub mod screen_permission;
pub mod capture_sessions;
pub mod screen_capture;
pub mod session_env;
pub mod windows_capture;
