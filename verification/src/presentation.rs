//! The remote clicker: which window presentation keys go to, and the errors
//! of sending them.
use vstd::prelude::*;

use crate::text::{
    decimal, lemma_parse_decimal, parse_unsigned, parse_unsigned_seq, push_decimal, strip_prefix, strip_prefix_seq,
};

verus! {

/// Why a presentation key could not be sent.
#[derive(Debug)]
pub enum PresentationError {
    Input(String),
}

impl PresentationError {
    /// The text shown to the user (its `Display`): the message itself.
    pub open spec fn spec_message(&self) -> Seq<char> {
        match self {
            PresentationError::Input(m) => m@,
        }
    }

    /// The text shown to the user for this error.
    pub fn message(&self) -> (s: String)
        ensures
            s@ == self.spec_message(),
    {
        match self {
            PresentationError::Input(m) => m.clone(),
        }
    }
}

/// `parse_window_id`: the window id in a `window:<id>` source id, or the
/// message of why there is none.
pub open spec fn window_id_spec(source_id: Seq<char>) -> Result<u32, Seq<char>> {
    match strip_prefix_seq(source_id, "window:"@) {
        None => Err("Expected a window source id"@),
        Some(rest) => match parse_unsigned_seq(rest, 10, u32::MAX as nat) {
            Ok(n) => Ok(n as u32),
            Err(_) => Err("Invalid window id: "@ + source_id),
        },
    }
}

/// The window id in a source id such as `window:4242`.
pub fn parse_window_id(source_id: &str) -> (r: Result<u32, PresentationError>)
    ensures
        match r {
            Ok(n) => window_id_spec(source_id@) == Ok::<u32, Seq<char>>(n),
            Err(e) => window_id_spec(source_id@) == Err::<u32, Seq<char>>(e.spec_message()),
        },
{
    let raw = match strip_prefix(source_id, "window:") {
        Some(raw) => raw,
        None => return Err(PresentationError::Input(String::from_str("Expected a window source id"))),
    };
    match parse_unsigned(raw, 10, u32::MAX) {
        Ok(n) => Ok(n),
        Err(_) => {
            let mut m = String::from_str("Invalid window id: ");
            m.append(source_id);
            Err(PresentationError::Input(m))
        },
    }
}

/// `window:<id>`, the source id of a window.
pub open spec fn window_source_id(id: u32) -> Seq<char> {
    "window:"@ + decimal(id as nat)
}

/// The window that presentation keys are sent to.
pub struct KeyboardPresentationController {
    target_window_id: Option<u32>,
}

/// `set_target`: the target after selecting `source_id`, or the error. No id
/// or an empty one clears the target.
pub open spec fn select_target(source_id: Option<Seq<char>>) -> Result<Option<u32>, Seq<char>> {
    match source_id {
        None => Ok(None),
        Some(id) => if id.len() == 0 {
            Ok(None)
        } else {
            match window_id_spec(id) {
                Ok(n) => Ok(Some(n)),
                Err(m) => Err(m),
            }
        },
    }
}

/// The character view of an optional string slice.
pub open spec fn opt_str_view(s: Option<&str>) -> Option<Seq<char>> {
    match s {
        Some(t) => Some(t@),
        None => None,
    }
}

impl KeyboardPresentationController {
    /// The window keys are sent to, if one is selected.
    pub closed spec fn target(&self) -> Option<u32> {
        self.target_window_id
    }

    /// A controller with no target window.
    pub fn new() -> (c: Self)
        ensures
            c.target() is None,
    {
        KeyboardPresentationController { target_window_id: None }
    }

    /// Selects the window keys are sent to; a source id that is not a window
    /// is refused and leaves the target as it was.
    pub fn set_target(&mut self, source_id: Option<&str>) -> (r: Result<(), PresentationError>)
        ensures
            match select_target(opt_str_view(source_id)) {
                Ok(t) => r is Ok && final(self).target() == t,
                Err(m) => (r matches Err(e) && e.spec_message() == m) && final(self).target() == old(self).target(),
            },
    {
        let window_id = match source_id {
            None => None,
            Some(id) => {
                if id.unicode_len() == 0 {
                    None
                } else {
                    match parse_window_id(id) {
                        Ok(n) => Some(n),
                        Err(e) => return Err(e),
                    }
                }
            },
        };
        self.target_window_id = window_id;
        Ok(())
    }

    /// The source id of the target window (`window:<id>`), if one is selected.
    pub fn get_target(&self) -> (r: Result<Option<String>, PresentationError>)
        ensures
            match self.target() {
                Some(id) => r matches Ok(Some(s)) && s@ == window_source_id(id),
                None => r matches Ok(None),
            },
    {
        match self.target_window_id {
            Some(id) => {
                let mut s = String::from_str("window:");
                push_decimal(&mut s, id as u64);
                Ok(Some(s))
            },
            None => Ok(None),
        }
    }

    /// The window to raise before a key is sent: the target, when the desktop
    /// extension that can raise it answers.
    pub fn activation_target(&self, extension_responds: bool) -> (r: Option<u32>)
        ensures
            r == (if extension_responds {
                self.target()
            } else {
                None
            }),
    {
        if extension_responds {
            self.target_window_id
        } else {
            None
        }
    }
}

/// Selecting a window by the source id that `get_target` reports for it
/// selects that window again: the target survives a round trip through its
/// source id.
pub proof fn lemma_target_round_trip(id: u32)
    ensures
        select_target(Some(window_source_id(id))) == Ok::<Option<u32>, Seq<char>>(Some(id)),
{
    lemma_parse_decimal(id as nat, u32::MAX as nat);
    reveal_strlit("window:");
    let s = window_source_id(id);
    assert(s.subrange(0, 7) == "window:"@);
    assert(s.subrange(7, s.len() as int) == decimal(id as nat));
}

} // verus!
