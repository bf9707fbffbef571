//! Screen capture on Linux: the choice between the desktop portal (Wayland)
//! and a monitor captured directly (X11), the outcome of starting a capture
//! session, and which PipeWire buffers become frames.
use vstd::prelude::*;

use crate::frame_server::{next_generation, FrameSlot};
use crate::pixels::{frame_to_rgba, frame_to_rgba_spec, PixelFormat};
use crate::sources::{id_suffix_spec, parse_id_suffix, CaptureError};
use crate::text::{decimal, eq_ignore_ascii_case, eq_ignore_ascii_case_seq, push_decimal, str_eq, IntParseError};

verus! {

/// The source id offered on Wayland: the screen is picked in the system's
/// portal dialog each time capture starts.
pub const PORTAL_SOURCE_ID: &'static str = "screen:portal";

/// What a screen source is captured through.
#[derive(Debug, Clone, Copy, PartialEq, Eq, Structural)]
pub enum ScreenCaptureTarget {
    /// The desktop portal and PipeWire, with the user picking the screen.
    Portal,
    /// The monitor with this id, captured directly.
    Monitor(u32),
}

/// `LinuxScreenCaptureSession::start`: the portal for `screen:portal`, else
/// the monitor whose id follows `screen:`.
pub fn capture_target(source_id: &str) -> (r: Result<ScreenCaptureTarget, CaptureError>)
    ensures
        source_id@ == PORTAL_SOURCE_ID@ ==> r == Ok::<ScreenCaptureTarget, CaptureError>(ScreenCaptureTarget::Portal),
        source_id@ != PORTAL_SOURCE_ID@ ==> match r {
            Ok(t) => id_suffix_spec(source_id@, "screen:"@) matches Ok(n) && t == ScreenCaptureTarget::Monitor(n),
            Err(e) => match id_suffix_spec(source_id@, "screen:"@) {
                Ok(_) => false,
                Err(None) => e matches CaptureError::SourceNotFound(m) && m@ == source_id@,
                Err(Some(k)) => e matches CaptureError::SourceNotFound(m) && m@ == k.spec_message(),
            },
        },
{
    if str_eq(source_id, PORTAL_SOURCE_ID) {
        return Ok(ScreenCaptureTarget::Portal);
    }
    match parse_id_suffix(source_id, "screen:") {
        Ok(n) => Ok(ScreenCaptureTarget::Monitor(n)),
        Err(e) => Err(e),
    }
}

/// What waiting on a channel with a timeout gave (`recv_timeout`).
pub enum ChannelWait<T> {
    Received(T),
    TimedOut,
    Disconnected,
}

/// `Timed out waiting for screen capture permission. Approve the system screen-share dialog, then try again.`
pub open spec fn permission_timeout_message() -> Seq<char> {
    "Timed out waiting for screen capture permission. Approve the system screen-share dialog, then try again."@
}

/// `Screen capture setup failed before producing frames`.
pub open spec fn setup_failed_message() -> Seq<char> {
    "Screen capture setup failed before producing frames"@
}

/// What starting a capture session does once its worker reported (or did
/// not): the result, whether the worker is told to stop, and whether it is
/// joined.
pub struct SessionStart {
    pub result: Result<(), CaptureError>,
    pub stop_worker: bool,
    pub join_worker: bool,
}

/// `LinuxScreenCaptureSession::start` after waiting for the worker's first
/// report: a report of success keeps the session; a reported error stops and
/// joins the worker; a timeout stops it without waiting; a worker that went
/// away is joined.
pub fn session_start_outcome(report: ChannelWait<Result<(), String>>) -> (r: SessionStart)
    ensures
        match report {
            ChannelWait::Received(Ok(())) => r.result is Ok && !r.stop_worker && !r.join_worker,
            ChannelWait::Received(Err(m)) => (r.result matches Err(CaptureError::CaptureFailed(x)) && x@ == m@)
                && r.stop_worker && r.join_worker,
            ChannelWait::TimedOut => (r.result matches Err(CaptureError::CaptureFailed(x)) && x@
                == permission_timeout_message()) && r.stop_worker && !r.join_worker,
            ChannelWait::Disconnected => (r.result matches Err(CaptureError::CaptureFailed(x)) && x@
                == setup_failed_message()) && !r.stop_worker && r.join_worker,
        },
{
    match report {
        ChannelWait::Received(Ok(())) => SessionStart { result: Ok(()), stop_worker: false, join_worker: false },
        ChannelWait::Received(Err(m)) => SessionStart {
            result: Err(CaptureError::CaptureFailed(m)),
            stop_worker: true,
            join_worker: true,
        },
        ChannelWait::TimedOut => SessionStart {
            result: Err(
                CaptureError::CaptureFailed(
                    String::from_str(
                        "Timed out waiting for screen capture permission. Approve the system screen-share dialog, then try again.",
                    ),
                ),
            ),
            stop_worker: true,
            join_worker: false,
        },
        ChannelWait::Disconnected => SessionStart {
            result: Err(CaptureError::CaptureFailed(String::from_str("Screen capture setup failed before producing frames"))),
            stop_worker: false,
            join_worker: true,
        },
    }
}

/// `PipeWire stream produced no frames after portal approval`.
pub open spec fn no_portal_frames_message() -> Seq<char> {
    "PipeWire stream produced no frames after portal approval"@
}

/// `PipeWire capture thread exited early`.
pub open spec fn pipewire_exited_message() -> Seq<char> {
    "PipeWire capture thread exited early"@
}

/// `run_portal_capture` after waiting for the PipeWire loop's first frame:
/// what is reported to the session, and whether the loop is told to stop
/// (it is stopped on every outcome but a first frame).
pub fn portal_first_frame_outcome(first_frame: ChannelWait<Result<(), String>>) -> (r: (Result<(), String>, bool))
    ensures
        match first_frame {
            ChannelWait::Received(Ok(())) => r.0 is Ok && !r.1,
            ChannelWait::Received(Err(m)) => (r.0 matches Err(x) && x@ == m@) && r.1,
            ChannelWait::TimedOut => (r.0 matches Err(x) && x@ == no_portal_frames_message()) && r.1,
            ChannelWait::Disconnected => (r.0 matches Err(x) && x@ == pipewire_exited_message()) && r.1,
        },
{
    match first_frame {
        ChannelWait::Received(Ok(())) => (Ok(()), false),
        ChannelWait::Received(Err(m)) => (Err(m), true),
        ChannelWait::TimedOut => (Err(String::from_str("PipeWire stream produced no frames after portal approval")), true),
        ChannelWait::Disconnected => (Err(String::from_str("PipeWire capture thread exited early")), true),
    }
}

/// `Timed out waiting for the screen selection dialog`.
pub open spec fn dialog_timeout_message() -> Seq<char> {
    "Timed out waiting for the screen selection dialog"@
}

/// `open_portal_stream`: the portal worker's reply, or a timeout error when
/// none came.
pub fn portal_reply<T>(reply: ChannelWait<Result<T, CaptureError>>) -> (r: Result<T, CaptureError>)
    ensures
        match reply {
            ChannelWait::Received(x) => r == x,
            _ => r matches Err(CaptureError::CaptureFailed(m)) && m@ == dialog_timeout_message(),
        },
{
    match reply {
        ChannelWait::Received(x) => x,
        _ => Err(CaptureError::CaptureFailed(String::from_str("Timed out waiting for the screen selection dialog"))),
    }
}

/// The PipeWire node of the first stream the portal started.
pub fn first_stream_node(node_ids: &Vec<u32>) -> (r: Result<u32, CaptureError>)
    ensures
        node_ids@.len() > 0 ==> r == Ok::<u32, CaptureError>(node_ids@[0]),
        node_ids@.len() == 0 ==> (r matches Err(CaptureError::CaptureFailed(m)) && m@ == "portal returned no capture streams"@),
{
    if node_ids.len() > 0 {
        Ok(node_ids[0])
    } else {
        Err(CaptureError::CaptureFailed(String::from_str("portal returned no capture streams")))
    }
}

/// `is_wayland_session`: `XDG_SESSION_TYPE` is `wayland` in any case, or
/// `WAYLAND_DISPLAY` is set and not empty (`None` for an unset variable).
pub fn is_wayland_session(session_type: Option<&str>, wayland_display: Option<&str>) -> (b: bool)
    ensures
        b == ((session_type matches Some(t) && eq_ignore_ascii_case_seq(t@, "wayland"@)) || (wayland_display matches Some(
            d,
        ) && d@.len() > 0)),
{
    let by_type = match session_type {
        Some(t) => eq_ignore_ascii_case(t, "wayland"),
        None => false,
    };
    let by_display = match wayland_display {
        Some(d) => d.unicode_len() > 0,
        None => false,
    };
    by_type || by_display
}

/// `find_monitor`: the position of the first monitor whose id (when it
/// could be read) is `monitor_id`, else `Source not found: screen:<id>`.
pub fn find_monitor(monitor_ids: &Vec<Option<u32>>, monitor_id: u32) -> (r: Result<usize, CaptureError>)
    ensures
        match r {
            Ok(i) => i < monitor_ids@.len() && monitor_ids@[i as int] == Some(monitor_id) && forall|j: int|
                0 <= j < i ==> #[trigger] monitor_ids@[j] != Some(monitor_id),
            Err(e) => (forall|j: int| 0 <= j < monitor_ids@.len() ==> #[trigger] monitor_ids@[j] != Some(monitor_id))
                && (e matches CaptureError::SourceNotFound(m) && m@ == "screen:"@ + decimal(monitor_id as nat)),
        },
{
    let mut i: usize = 0;
    while i < monitor_ids.len()
        invariant
            i <= monitor_ids@.len(),
            forall|j: int| 0 <= j < i ==> #[trigger] monitor_ids@[j] != Some(monitor_id),
        decreases monitor_ids.len() - i,
    {
        match monitor_ids[i] {
            Some(id) => {
                if id == monitor_id {
                    return Ok(i);
                }
            },
            None => {},
        }
        i = i + 1;
    }
    let mut m = String::from_str("screen:");
    push_decimal(&mut m, monitor_id as u64);
    Err(CaptureError::SourceNotFound(m))
}

/// Which PipeWire buffers become frames: none before a raw video format has
/// been negotiated or after capture was stopped; the first published frame
/// is announced once.
pub struct PipewireFrameGate {
    format_ready: bool,
    first_frame_sent: bool,
}

impl PipewireFrameGate {
    /// Whether a raw video format was negotiated.
    pub closed spec fn format_ready(&self) -> bool {
        self.format_ready
    }

    /// Whether the first frame was announced.
    pub closed spec fn first_frame_sent(&self) -> bool {
        self.first_frame_sent
    }

    /// Nothing negotiated, nothing announced.
    pub fn new() -> (g: Self)
        ensures
            !g.format_ready(),
            !g.first_frame_sent(),
    {
        PipewireFrameGate { format_ready: false, first_frame_sent: false }
    }

    /// A stream parameter changed: a `Format` parameter for raw video that
    /// parsed makes the format ready; anything else changes nothing.
    pub fn on_param_changed(&mut self, is_format_param: bool, is_raw_video: bool, parsed: bool)
        ensures
            final(self).format_ready() == (old(self).format_ready() || (is_format_param && is_raw_video && parsed)),
            final(self).first_frame_sent() == old(self).first_frame_sent(),
    {
        if is_format_param && is_raw_video && parsed {
            self.format_ready = true;
        }
    }

    /// Whether a buffer is taken from the stream at all.
    pub fn wants_buffer(&self, stopped: bool) -> (b: bool)
        ensures
            b == (!stopped && self.format_ready()),
    {
        !stopped && self.format_ready
    }

    /// A dequeued buffer: a frame of the negotiated size and format whose
    /// first plane holds `data` (`None` when it has no mapped data), rows
    /// `stride` bytes apart. A convertible frame is published to `slot`.
    /// Returns whether this is the first frame, to be announced.
    pub fn take_buffer(
        &mut self,
        slot: &mut FrameSlot,
        width: u32,
        height: u32,
        stride: usize,
        format: PixelFormat,
        data: Option<&[u8]>,
    ) -> (first: bool)
        requires
            old(slot).wf(),
        ensures
            final(slot).wf(),
            final(self).format_ready() == old(self).format_ready(),
            ({
                let converted = match data {
                    Some(d) => if width == 0 || height == 0 {
                        None
                    } else {
                        frame_to_rgba_spec(d@, stride, width, height, format)
                    },
                    None => None,
                };
                match converted {
                    None => {
                        &&& !first
                        &&& final(self).first_frame_sent() == old(self).first_frame_sent()
                        &&& final(slot).latest_view() == old(slot).latest_view()
                        &&& final(slot).generation_view() == old(slot).generation_view()
                        &&& final(slot).has_last_publish() == old(slot).has_last_publish()
                    },
                    Some(px) => {
                        &&& first == !old(self).first_frame_sent()
                        &&& final(self).first_frame_sent()
                        &&& (!old(slot).has_last_publish() ==> final(slot).latest_view() == Some(
                            (width, height, px, next_generation(old(slot).generation_view())),
                        ))
                        &&& ({
                            ||| final(slot).generation_view() == next_generation(old(slot).generation_view())
                                && final(slot).latest_view() == Some(
                                (width, height, px, next_generation(old(slot).generation_view())),
                            ) && final(slot).has_last_publish()
                            ||| final(slot).generation_view() == old(slot).generation_view()
                                && final(slot).latest_view() == old(slot).latest_view()
                                && final(slot).has_last_publish() == old(slot).has_last_publish()
                        })
                    },
                }
            }),
    {
        let d = match data {
            Some(d) => d,
            None => return false,
        };
        if width == 0 || height == 0 {
            return false;
        }
        let raw = match frame_to_rgba(d, stride, width, height, format) {
            Some(raw) => raw,
            None => return false,
        };
        slot.publish(width, height, raw);
        let first = !self.first_frame_sent;
        self.first_frame_sent = true;
        first
    }
}

} // verus!
