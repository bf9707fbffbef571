//! The LiveKit publisher sidecar on Linux: the JSON lines it is sent on its
//! standard input, and how its Node.js interpreter and script are found.
use vstd::prelude::*;

use crate::json_text::{json_quote, push_json_string};
use crate::text::{trim, trim_seq};

verus! {

/// A slot the sidecar publishes, and the local websocket its frames come from.
#[derive(Debug, Clone)]
pub struct LiveKitSlotConfig {
    pub slot: String,
    pub ws_url: String,
}

/// `{"type":"start","url":<url>,"token":<token>}` and a line feed.
pub open spec fn start_message_spec(url: Seq<char>, token: Seq<char>) -> Seq<char> {
    "{\"type\":\"start\",\"url\":"@ + json_quote(url) + ",\"token\":"@ + json_quote(token) + "}\n"@
}

/// The line that starts publishing to the LiveKit room at `url`.
pub fn start_message(url: &str, token: &str) -> (line: String)
    ensures
        line@ == start_message_spec(url@, token@),
{
    let mut line = String::from_str("{\"type\":\"start\",\"url\":");
    push_json_string(&mut line, url);
    line.append(",\"token\":");
    push_json_string(&mut line, token);
    line.append("}\n");
    line
}

/// `{"slot":<slot>,"wsUrl":<ws_url>}`.
pub open spec fn slot_json(slot: Seq<char>, ws_url: Seq<char>) -> Seq<char> {
    "{\"slot\":"@ + json_quote(slot) + ",\"wsUrl\":"@ + json_quote(ws_url) + "}"@
}

/// The slots as the elements of a JSON array, separated by commas.
pub open spec fn slots_json(slots: Seq<LiveKitSlotConfig>) -> Seq<char>
    decreases slots.len(),
{
    if slots.len() == 0 {
        Seq::empty()
    } else if slots.len() == 1 {
        slot_json(slots[0].slot@, slots[0].ws_url@)
    } else {
        slots_json(slots.drop_last()) + ","@ + slot_json(slots.last().slot@, slots.last().ws_url@)
    }
}

/// `{"type":"sync","slots":[...]}` and a line feed.
pub open spec fn sync_message_spec(slots: Seq<LiveKitSlotConfig>) -> Seq<char> {
    "{\"type\":\"sync\",\"slots\":["@ + slots_json(slots) + "]}\n"@
}

/// The line that tells the sidecar which slots to publish.
pub fn sync_message(slots: &[LiveKitSlotConfig]) -> (line: String)
    ensures
        line@ == sync_message_spec(slots@),
{
    let mut line = String::from_str("{\"type\":\"sync\",\"slots\":[");
    let ghost head = line@;
    let mut i: usize = 0;
    while i < slots.len()
        invariant
            i <= slots@.len(),
            head == "{\"type\":\"sync\",\"slots\":["@,
            line@ == head + slots_json(slots@.take(i as int)),
        decreases slots.len() - i,
    {
        if i > 0 {
            line.append(",");
        }
        line.append("{\"slot\":");
        push_json_string(&mut line, slots[i].slot.as_str());
        line.append(",\"wsUrl\":");
        push_json_string(&mut line, slots[i].ws_url.as_str());
        line.append("}");
        proof {
            let t = slots@.take(i + 1);
            assert(t.drop_last() == slots@.take(i as int));
            assert(t.last() == slots@[i as int]);
            if i == 0 {
                assert(slots_json(slots@.take(0)) == Seq::<char>::empty());
            }
        }
        i = i + 1;
    }
    line.append("]}\n");
    proof {
        assert(slots@.take(slots@.len() as int) == slots@);
    }
    line
}

/// `Node.js executable not found (install node 18+)`.
pub open spec fn node_missing_message() -> Seq<char> {
    "Node.js executable not found (install node 18+)"@
}

/// `find_node_executable`: the path `which node` printed (trimmed) when it
/// succeeded with a non-empty answer, else the first of `/usr/bin/node` and
/// `/usr/local/bin/node` that is a file.
pub fn find_node_executable(which_stdout: Option<&str>, usr_bin_node: bool, usr_local_bin_node: bool) -> (r: Result<
    String,
    String,
>)
    ensures
        match which_stdout {
            Some(out) if trim_seq(out@).len() > 0 => r matches Ok(p) && p@ == trim_seq(out@),
            _ => if usr_bin_node {
                r matches Ok(p) && p@ == "/usr/bin/node"@
            } else if usr_local_bin_node {
                r matches Ok(p) && p@ == "/usr/local/bin/node"@
            } else {
                r matches Err(m) && m@ == node_missing_message()
            },
        },
{
    if let Some(out) = which_stdout {
        let path = trim(out);
        if path.unicode_len() > 0 {
            return Ok(String::from_str(path));
        }
    }
    if usr_bin_node {
        Ok(String::from_str("/usr/bin/node"))
    } else if usr_local_bin_node {
        Ok(String::from_str("/usr/local/bin/node"))
    } else {
        Err(String::from_str("Node.js executable not found (install node 18+)"))
    }
}

/// `resolve_script_path`: the sidecar script must be a file; its path is
/// then the canonical one (or the reason that could not be found).
pub fn resolve_script_path(dev_path: &str, is_file: bool, canonical: Result<String, String>) -> (r: Result<String, String>)
    ensures
        is_file ==> match canonical {
            Ok(p) => r matches Ok(q) && q@ == p@,
            Err(e) => r matches Err(m) && m@ == "Failed to resolve LiveKit sidecar script: "@ + e@,
        },
        !is_file ==> (r matches Err(m) && m@ == "LiveKit sidecar script not found at "@ + dev_path@),
{
    if is_file {
        match canonical {
            Ok(p) => Ok(p),
            Err(e) => {
                let mut m = String::from_str("Failed to resolve LiveKit sidecar script: ");
                m.append(e.as_str());
                Err(m)
            },
        }
    } else {
        let mut m = String::from_str("LiveKit sidecar script not found at ");
        m.append(dev_path);
        Err(m)
    }
}

/// `LiveKit sidecar is not running` when slots are synced before a start.
pub fn sync_target(running: bool) -> (r: Result<(), String>)
    ensures
        running ==> r is Ok,
        !running ==> (r matches Err(m) && m@ == "LiveKit sidecar is not running"@),
{
    if running {
        Ok(())
    } else {
        Err(String::from_str("LiveKit sidecar is not running"))
    }
}

} // verus!
