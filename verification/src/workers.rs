//! The decisions of the per-slot capture workers: when a preview worker is
//! started or kept, which sources may stream video, and how long a new video
//! stream is given to produce its first frame.
use vstd::prelude::*;

use crate::slot_map::SlotMap;
use crate::sources::CaptureError;
use crate::types::CaptureSourceKind;

verus! {

/// What `PreviewManager::sync_slot` does with a slot.
#[derive(Debug, Clone, Copy, PartialEq, Eq, Structural)]
pub enum PreviewSync {
    /// Start (or keep) the preview of the assigned source.
    Start,
    /// Stop the slot's preview.
    Stop,
}

/// A slot's preview runs exactly when it has a source id that resolved to a source.
pub fn sync_slot_action(source_id: Option<&str>, has_source: bool) -> (r: PreviewSync)
    ensures
        r == (if source_id is Some && has_source {
            PreviewSync::Start
        } else {
            PreviewSync::Stop
        }),
{
    match source_id {
        Some(_) if has_source => PreviewSync::Start,
        _ => PreviewSync::Stop,
    }
}

/// Whether the preview worker of `slot` already shows `source_id`.
pub open spec fn preview_running<W>(workers: Map<Seq<char>, (String, W)>, slot: Seq<char>, source_id: Seq<char>) -> bool {
    workers.contains_key(slot) && workers[slot].0@ == source_id
}

/// Whether `start_slot` must start a worker for `slot`: not when one already
/// shows the same source; otherwise the old worker (if any) is stopped first.
pub fn preview_start_needed<W>(workers: &SlotMap<(String, W)>, slot: &str, source_id: &str) -> (b: bool)
    ensures
        b == !preview_running(workers.view(), slot@, source_id@),
{
    match workers.get(slot) {
        Some(worker) => !crate::text::str_eq(worker.0.as_str(), source_id),
        None => true,
    }
}

/// A preview worker that was just recorded for `slot` with `source_id` is
/// kept by the next start for the same source: starting twice starts once.
pub proof fn lemma_started_preview_is_kept<W>(
    before: Map<Seq<char>, (String, W)>,
    after: Map<Seq<char>, (String, W)>,
    slot: Seq<char>,
    worker: (String, W),
)
    requires
        after == before.insert(slot, worker),
    ensures
        preview_running(after, slot, worker.0@),
{
}

/// A stopped slot has no preview worker, so the next start starts one.
pub proof fn lemma_stopped_preview_restarts<W>(
    before: Map<Seq<char>, (String, W)>,
    after: Map<Seq<char>, (String, W)>,
    slot: Seq<char>,
    source_id: Seq<char>,
)
    requires
        after == before.remove(slot),
    ensures
        !preview_running(after, slot, source_id),
{
}

/// A preview image of a slot, as sent to the user interface.
#[derive(Debug, Clone)]
pub struct SlotPreviewFrame {
    pub slot: String,
    pub preview: String,
}

/// The preview event for an encoded frame; a frame that failed to encode
/// sends nothing.
pub fn preview_event(slot: &str, encoded: Result<String, CaptureError>) -> (r: Option<SlotPreviewFrame>)
    ensures
        match encoded {
            Ok(p) => r matches Some(f) && f.slot@ == slot@ && f.preview@ == p@,
            Err(_) => r is None,
        },
{
    match encoded {
        Ok(preview) => Some(SlotPreviewFrame { slot: String::from_str(slot), preview }),
        Err(_) => None,
    }
}

/// `Slot "<slot>" uses browser webcam capture`.
pub open spec fn webcam_refusal_spec(slot: Seq<char>) -> Seq<char> {
    "Slot \""@ + slot + "\" uses browser webcam capture"@
}

/// Video streams are served for screens and NDI sources; webcams are captured
/// by the browser, so a webcam source is refused.
pub fn check_video_source(slot: &str, kind: CaptureSourceKind) -> (r: Result<(), String>)
    ensures
        match r {
            Ok(()) => kind != CaptureSourceKind::Webcam,
            Err(m) => kind == CaptureSourceKind::Webcam && m@ == webcam_refusal_spec(slot@),
        },
{
    match kind {
        CaptureSourceKind::Webcam => {
            let mut m = String::from_str("Slot \"");
            m.append(slot);
            m.append("\" uses browser webcam capture");
            Err(m)
        },
        _ => Ok(()),
    }
}

/// How long a new video stream has to produce its first frame, in milliseconds.
pub const FIRST_FRAME_TIMEOUT_MILLIS: u64 = 5000;

/// How often the first frame is looked for, in milliseconds.
pub const FIRST_FRAME_POLL_MILLIS: u64 = 16;

/// One look at a new video stream while waiting for its first frame.
#[derive(Debug, Clone, Copy, PartialEq, Eq, Structural)]
pub enum FirstFrameWait {
    /// A frame arrived: the stream's URL is handed out.
    Ready,
    /// No frame yet: look again after the poll interval.
    KeepWaiting,
    /// The deadline passed: the worker is stopped and the start fails.
    GiveUp,
}

/// The deadline is checked before the frame, as `start_slot` does.
pub fn first_frame_step(before_deadline: bool, has_frame: bool) -> (r: FirstFrameWait)
    ensures
        r == (if !before_deadline {
            FirstFrameWait::GiveUp
        } else if has_frame {
            FirstFrameWait::Ready
        } else {
            FirstFrameWait::KeepWaiting
        }),
{
    if !before_deadline {
        FirstFrameWait::GiveUp
    } else if has_frame {
        FirstFrameWait::Ready
    } else {
        FirstFrameWait::KeepWaiting
    }
}

/// `Capture for slot "<slot>" produced no frames. Check that the source is available.`
pub open spec fn no_frames_spec(slot: Seq<char>) -> Seq<char> {
    "Capture for slot \""@ + slot + "\" produced no frames. Check that the source is available."@
}

/// The error of a video start whose stream produced no frame in time.
pub fn no_frames_message(slot: &str) -> (m: String)
    ensures
        m@ == no_frames_spec(slot@),
{
    let mut m = String::from_str("Capture for slot \"");
    m.append(slot);
    m.append("\" produced no frames. Check that the source is available.");
    m
}

} // verus!
