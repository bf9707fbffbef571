//! The NDI discovery-server setting: how the stored value is read back and
//! normalised, and the NDI configuration file written from it.
use vstd::prelude::*;

use crate::json_text::{json_quote, push_json_string};
use crate::text::{lemma_trim_idempotent, trim, trim_seq};

verus! {

/// The file (in the app's config directory) that stores the discovery server.
pub const SETTINGS_FILE: &'static str = "ndi-discovery-server.txt";

/// The NDI configuration file, written under `ndi/` in the config directory.
pub const NDI_CONFIG_FILE: &'static str = "ndi-config.v1.json";

/// A setting value with surrounding whitespace removed, or nothing when
/// only whitespace is left.
pub open spec fn normalized(value: Option<Seq<char>>) -> Option<Seq<char>> {
    match value {
        Some(v) => if trim_seq(v).len() == 0 {
            None
        } else {
            Some(trim_seq(v))
        },
        None => None,
    }
}

/// The character view of an optional string.
pub open spec fn opt_chars(s: &Option<String>) -> Option<Seq<char>> {
    match s {
        Some(t) => Some(t@),
        None => None,
    }
}

/// Trims a value and drops it when nothing is left.
pub fn normalize(value: Option<&str>) -> (r: Option<String>)
    ensures
        opt_chars(&r) == normalized(
            match value {
                Some(v) => Some(v@),
                None => None,
            },
        ),
{
    match value {
        Some(v) => {
            let t = trim(v);
            if t.unicode_len() == 0 {
                None
            } else {
                Some(String::from_str(t))
            }
        },
        None => None,
    }
}

/// `read_discovery_server`: the stored discovery server, given the settings
/// file's contents (`None` when it could not be read).
pub fn read_discovery_server(content: Option<String>) -> (r: Option<String>)
    ensures
        opt_chars(&r) == normalized(opt_chars(&content)),
{
    match &content {
        Some(c) => normalize(Some(c.as_str())),
        None => normalize(None),
    }
}

/// `get_discovery_server`: the discovery server the user set, if any.
pub fn get_discovery_server(content: Option<String>) -> (r: Option<String>)
    ensures
        opt_chars(&r) == normalized(opt_chars(&content)),
{
    read_discovery_server(content)
}

/// The NDI configuration pointing at `server`, as `serde_json`'s pretty
/// printer writes it (keys of an object in sorted order).
pub open spec fn ndi_config_text(server: Seq<char>) -> Seq<char> {
    "{\n  \"ndi\": {\n    \"networks\": {\n      \"discovery\": "@ + json_quote(server)
        + ",\n      \"ips\": \"\"\n    }\n  }\n}"@
}

/// What is done with the NDI configuration file.
pub enum NdiConfigAction {
    /// Write this text to the file and point `NDI_CONFIG_DIR` at its directory.
    Write { text: String },
    /// Remove the file and unset `NDI_CONFIG_DIR`.
    Remove,
}

/// `apply_ndi_config`: a configuration naming the discovery server, or none.
pub fn apply_ndi_config(discovery_server: Option<&str>) -> (r: NdiConfigAction)
    ensures
        match discovery_server {
            Some(server) => r matches NdiConfigAction::Write { text } && text@ == ndi_config_text(server@),
            None => r is Remove,
        },
{
    match discovery_server {
        Some(server) => {
            let mut text = String::from_str("{\n  \"ndi\": {\n    \"networks\": {\n      \"discovery\": ");
            push_json_string(&mut text, server);
            text.append(",\n      \"ips\": \"\"\n    }\n  }\n}");
            NdiConfigAction::Write { text }
        },
        None => NdiConfigAction::Remove,
    }
}

/// The action for an optional normalised server.
pub open spec fn config_action_for(server: Option<Seq<char>>, r: &NdiConfigAction) -> bool {
    match server {
        Some(s) => r matches NdiConfigAction::Write { text } && text@ == ndi_config_text(s),
        None => r is Remove,
    }
}

/// `apply_from_app_config`: at start-up, the configuration for the stored
/// discovery server (given the settings file's contents).
pub fn apply_from_app_config(stored: Option<String>) -> (r: NdiConfigAction)
    ensures
        config_action_for(normalized(opt_chars(&stored)), &r),
{
    let ghost content = opt_chars(&stored);
    let discovery = read_discovery_server(stored);
    match &discovery {
        Some(d) => {
            let t = trim(d.as_str());
            proof {
                lemma_trim_idempotent(content->0);
            }
            if t.unicode_len() == 0 {
                apply_ndi_config(None)
            } else {
                apply_ndi_config(Some(t))
            }
        },
        None => apply_ndi_config(None),
    }
}

/// What is done with the settings file.
pub enum SettingsFileAction {
    /// Write this value to the file.
    Write { value: String },
    /// Remove the file.
    Remove,
}

/// `set_discovery_server`: the normalised value is stored (or the file
/// removed when there is none), and the NDI configuration follows it.
pub fn set_discovery_server(discovery_server: Option<String>) -> (r: (SettingsFileAction, NdiConfigAction))
    ensures
        match normalized(opt_chars(&discovery_server)) {
            Some(v) => r.0 matches SettingsFileAction::Write { value } && value@ == v,
            None => r.0 is Remove,
        },
        config_action_for(normalized(opt_chars(&discovery_server)), &r.1),
{
    let value = match &discovery_server {
        Some(s) => normalize(Some(s.as_str())),
        None => normalize(None),
    };
    match value {
        Some(v) => {
            let config = apply_ndi_config(Some(v.as_str()));
            (SettingsFileAction::Write { value: v }, config)
        },
        None => (SettingsFileAction::Remove, apply_ndi_config(None)),
    }
}

/// Reading back a stored value gives the value that was set: what
/// `set_discovery_server` writes to the settings file is what
/// `get_discovery_server` then reports.
pub proof fn lemma_discovery_server_round_trip(value: Option<Seq<char>>)
    ensures
        normalized(normalized(value)) == normalized(value),
{
    if let Some(v) = value {
        lemma_trim_idempotent(v);
    }
}

} // verus!
