//! Screen capture through Windows Graphics Capture: which sources it takes,
//! and what happens to each frame that arrives.
use vstd::prelude::*;

use crate::frame_server::{next_generation, FrameSlot};
use crate::pixels::{packed_rows, rgba8_extract_ok, try_extract_rgba8_pixels};
use crate::sources::{id_suffix_spec, parse_id_suffix, CaptureError};
use crate::text::IntParseError;
use crate::types::{CaptureSource, CaptureSourceKind};

verus! {

/// `windows capture only supports screen sources`.
pub open spec fn screens_only_message() -> Seq<char> {
    "windows capture only supports screen sources"@
}

/// `WindowsCaptureSession::start`: the monitor index of a screen source
/// (the number after `screen:`); other kinds of source are not supported.
pub fn monitor_index(source: &CaptureSource) -> (r: Result<usize, CaptureError>)
    ensures
        source.kind != CaptureSourceKind::Screen ==> (r matches Err(CaptureError::Unsupported(m)) && m@
            == screens_only_message()),
        source.kind == CaptureSourceKind::Screen ==> match r {
            Ok(i) => id_suffix_spec(source.id@, "screen:"@) == Ok::<u32, Option<IntParseError>>(i as u32),
            Err(e) => match id_suffix_spec(source.id@, "screen:"@) {
                Ok(_) => false,
                Err(None) => e matches CaptureError::SourceNotFound(m) && m@ == source.id@,
                Err(Some(k)) => e matches CaptureError::SourceNotFound(m) && m@ == k.spec_message(),
            },
        },
{
    match source.kind {
        CaptureSourceKind::Screen => match parse_id_suffix(source.id.as_str(), "screen:") {
            Ok(n) => Ok(n as usize),
            Err(e) => Err(e),
        },
        _ => Err(CaptureError::Unsupported(String::from_str("windows capture only supports screen sources"))),
    }
}

/// What is done with a frame that arrived.
#[derive(Debug, Clone, Copy, PartialEq, Eq, Structural)]
pub enum FrameArrival {
    /// The session was stopped: stop the capture.
    StopCapture,
    /// An empty frame: ignore it.
    Skip,
    /// Copy the frame out and publish it.
    Process,
}

/// `on_frame_arrived`: a stopped session stops the capture; an empty frame is
/// skipped; any other frame is processed.
pub fn frame_arrival(stopped: bool, width: u32, height: u32) -> (r: FrameArrival)
    ensures
        r == (if stopped {
            FrameArrival::StopCapture
        } else if width == 0 || height == 0 {
            FrameArrival::Skip
        } else {
            FrameArrival::Process
        }),
{
    if stopped {
        FrameArrival::StopCapture
    } else if width == 0 || height == 0 {
        FrameArrival::Skip
    } else {
        FrameArrival::Process
    }
}

/// Whether the staging texture kept from an earlier frame (its width,
/// height and pixel format) can take this frame; otherwise a new one is made.
pub fn staging_reusable(staging: Option<(u32, u32, i32)>, width: u32, height: u32, format: i32) -> (b: bool)
    ensures
        b == (staging == Some((width, height, format))),
{
    match staging {
        Some((w, h, f)) => w == width && h == height && f == format,
        None => false,
    }
}

/// Copies the mapped frame (rows `row_pitch` bytes apart) out through
/// `scratch` and publishes it. A buffer that does not match its metadata
/// (while a window is resizing) is skipped, leaving the slot and `scratch`
/// as they were. Returns whether the frame was published.
pub fn deliver_mapped_frame(
    slot: &mut FrameSlot,
    scratch: &mut Vec<u8>,
    raw: &[u8],
    width: u32,
    height: u32,
    row_pitch: usize,
) -> (published: bool)
    requires
        old(slot).wf(),
    ensures
        final(slot).wf(),
        published == rgba8_extract_ok(raw@.len(), width, height, row_pitch),
        !published ==> {
            &&& final(scratch)@ == old(scratch)@
            &&& final(slot).latest_view() == old(slot).latest_view()
            &&& final(slot).generation_view() == old(slot).generation_view()
            &&& final(slot).has_last_publish() == old(slot).has_last_publish()
        },
        published ==> {
            let px = packed_rows(raw@, 0, row_pitch as int, width * 4, height as nat);
            &&& final(scratch)@.len() == 0
            &&& (!old(slot).has_last_publish() ==> final(slot).latest_view() == Some(
                (width, height, px, next_generation(old(slot).generation_view())),
            ))
            &&& ({
                ||| final(slot).generation_view() == next_generation(old(slot).generation_view())
                    && final(slot).latest_view() == Some((width, height, px, next_generation(old(slot).generation_view())))
                    && final(slot).has_last_publish()
                ||| final(slot).generation_view() == old(slot).generation_view()
                    && final(slot).latest_view() == old(slot).latest_view()
                    && final(slot).has_last_publish() == old(slot).has_last_publish()
            })
        },
{
    match try_extract_rgba8_pixels(raw, width, height, row_pitch, scratch) {
        None => false,
        Some(()) => {
            let mut pixels: Vec<u8> = Vec::new();
            std::mem::swap(&mut pixels, scratch);
            slot.publish(width, height, pixels);
            true
        },
    }
}

} // verus!
