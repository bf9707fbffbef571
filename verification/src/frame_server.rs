//! The latest-frame slot that capture workers publish into and that local
//! websocket clients read from, and the framing of frames sent to them.
use std::sync::Arc;
use std::time::Instant;
use vstd::prelude::*;

use crate::slot_map::SlotMap;
use crate::text::{decimal, push_decimal, strip_prefix, strip_prefix_seq};

verus! {

#[verifier::external_type_specification]
#[verifier::external_body]
pub struct ExInstant(Instant);

/// Frames closer together than this (in microseconds) are dropped: fan-out to
/// the local websocket consumers is capped near 30 fps to limit memory churn.
pub const MIN_PUBLISH_INTERVAL_MICROS: u128 = 33_000;

/// `Instant::now`: a reading of the monotonic clock. Nothing is promised of
/// the value; it depends on when it is taken.
#[verifier::external_body]
fn instant_now() -> Instant {
    Instant::now()
}

/// `Instant::checked_duration_since`, in microseconds: the time from `earlier`
/// to `later`, or `None` when `earlier` is the later one. No clause is given:
/// the value depends on when the two readings were taken.
#[verifier::external_body]
fn micros_between(earlier: &Instant, later: &Instant) -> Option<u128> {
    match later.checked_duration_since(*earlier) {
        Some(elapsed) => Some(elapsed.as_micros()),
        None => None,
    }
}

/// `Arc::clone`: another handle to the same pixel buffer (std documents that
/// it points to the same allocation, so the contents are the same).
#[verifier::external_body]
fn share_pixels(pixels: &Arc<Vec<u8>>) -> (r: Arc<Vec<u8>>)
    ensures
        r@ == pixels@,
{
    Arc::clone(pixels)
}

/// A frame as published: its size, RGBA pixels and generation number.
pub struct CapturedFrame {
    pub width: u32,
    pub height: u32,
    pub pixels: Arc<Vec<u8>>,
    pub generation: u64,
}

/// The generation that follows `g` (the counter wraps like an atomic `fetch_add`).
pub open spec fn next_generation(g: u64) -> u64 {
    if g == u64::MAX {
        0
    } else {
        (g + 1) as u64
    }
}

/// Whether a frame is dropped: a frame was accepted since the slot was last
/// cleared, and less than the minimum interval has passed since then.
pub open spec fn throttled(has_last: bool, elapsed_micros: Option<u128>) -> bool {
    has_last && (elapsed_micros matches Some(e) && e < MIN_PUBLISH_INTERVAL_MICROS)
}

/// The slot holding the latest frame of one stream.
pub struct FrameSlot {
    latest: Option<CapturedFrame>,
    generation: u64,
    last_publish: Option<Instant>,
}

/// The abstract contents of a frame: width, height, pixels, generation.
pub open spec fn frame_view(f: &CapturedFrame) -> (u32, u32, Seq<u8>, u64) {
    (f.width, f.height, f.pixels@, f.generation)
}

impl FrameSlot {
    /// The latest frame, if any.
    pub closed spec fn latest_view(&self) -> Option<(u32, u32, Seq<u8>, u64)> {
        match &self.latest {
            Some(f) => Some(frame_view(f)),
            None => None,
        }
    }

    /// The generation counter: the number of accepted frames, wrapping.
    pub closed spec fn generation_view(&self) -> u64 {
        self.generation
    }

    /// Whether a frame was accepted since the slot was created or cleared.
    pub closed spec fn has_last_publish(&self) -> bool {
        self.last_publish is Some
    }

    /// The latest frame always carries the current generation.
    pub closed spec fn wf(&self) -> bool {
        &&& (self.latest matches Some(f) ==> f.generation == self.generation)
        &&& (self.latest is Some ==> self.last_publish is Some)
    }

    /// An empty slot (`FrameSlot::default`).
    pub fn new() -> (s: Self)
        ensures
            s.wf(),
            s.latest_view() is None,
            s.generation_view() == 0,
            !s.has_last_publish(),
    {
        FrameSlot { latest: None, generation: 0, last_publish: None }
    }

    /// Publishes a frame that arrived at `now`, `elapsed_micros` after the last
    /// accepted frame (as measured by the caller). A frame within the minimum
    /// interval of the last accepted one is dropped; otherwise it becomes the
    /// latest frame with the next generation. Returns whether it was accepted.
    pub fn publish_at(&mut self, now: Instant, elapsed_micros: Option<u128>, width: u32, height: u32, pixels: Vec<u8>) -> (accepted: bool)
        requires
            old(self).wf(),
        ensures
            final(self).wf(),
            accepted == !throttled(old(self).has_last_publish(), elapsed_micros),
            accepted ==> {
                &&& final(self).generation_view() == next_generation(old(self).generation_view())
                &&& final(self).latest_view() == Some((width, height, pixels@, next_generation(old(self).generation_view())))
                &&& final(self).has_last_publish()
            },
            !accepted ==> {
                &&& final(self).generation_view() == old(self).generation_view()
                &&& final(self).latest_view() == old(self).latest_view()
                &&& final(self).has_last_publish() == old(self).has_last_publish()
            },
    {
        let is_throttled = match (&self.last_publish, elapsed_micros) {
            (Some(_), Some(e)) => e < MIN_PUBLISH_INTERVAL_MICROS,
            _ => false,
        };
        if is_throttled {
            return false;
        }
        self.last_publish = Some(now);
        let generation = self.generation.wrapping_add(1);
        self.generation = generation;
        self.latest = Some(CapturedFrame { width, height, pixels: Arc::new(pixels), generation });
        true
    }

    /// Publishes a frame, reading the clock: see [`FrameSlot::publish_at`].
    pub fn publish(&mut self, width: u32, height: u32, pixels: Vec<u8>)
        requires
            old(self).wf(),
        ensures
            final(self).wf(),
            !old(self).has_last_publish() ==> final(self).latest_view() == Some(
                (width, height, pixels@, next_generation(old(self).generation_view())),
            ),
            ({
                ||| final(self).generation_view() == next_generation(old(self).generation_view())
                    && final(self).latest_view() == Some((width, height, pixels@, next_generation(old(self).generation_view())))
                    && final(self).has_last_publish()
                ||| final(self).generation_view() == old(self).generation_view()
                    && final(self).latest_view() == old(self).latest_view()
                    && final(self).has_last_publish() == old(self).has_last_publish()
            }),
    {
        let now = instant_now();
        let elapsed = match &self.last_publish {
            Some(previous) => micros_between(previous, &now),
            None => None,
        };
        self.publish_at(now, elapsed, width, height, pixels);
    }

    /// Whether a frame is available.
    pub fn has_frame(&self) -> (b: bool)
        ensures
            b == self.latest_view() is Some,
    {
        self.latest.is_some()
    }

    /// The latest frame, sharing its pixel buffer.
    pub fn latest_frame(&self) -> (r: Option<CapturedFrame>)
        ensures
            match r {
                Some(f) => self.latest_view() == Some(frame_view(&f)),
                None => self.latest_view() is None,
            },
    {
        match &self.latest {
            Some(f) => Some(CapturedFrame {
                width: f.width,
                height: f.height,
                pixels: share_pixels(&f.pixels),
                generation: f.generation,
            }),
            None => None,
        }
    }

    /// Drops the latest frame and forgets when the last one was accepted, so
    /// the next frame is accepted at once. The generation counter continues.
    pub fn clear(&mut self)
        requires
            old(self).wf(),
        ensures
            final(self).wf(),
            final(self).latest_view() is None,
            !final(self).has_last_publish(),
            final(self).generation_view() == old(self).generation_view(),
    {
        self.latest = None;
        self.last_publish = None;
    }
}

/// Little-endian bytes of a 32-bit value.
pub open spec fn le_bytes(v: u32) -> Seq<u8> {
    seq![(v % 256) as u8, ((v / 256) % 256) as u8, ((v / 65536) % 256) as u8, (v / 16777216) as u8]
}

/// The websocket message carrying a frame: width and height as little-endian
/// 32-bit values, then the pixels.
pub open spec fn frame_packet_spec(width: u32, height: u32, pixels: Seq<u8>) -> Seq<u8> {
    le_bytes(width) + le_bytes(height) + pixels
}

fn push_le_u32(out: &mut Vec<u8>, v: u32)
    ensures
        final(out)@ == old(out)@ + le_bytes(v),
{
    out.push((v % 256) as u8);
    out.push(((v / 256) % 256) as u8);
    out.push(((v / 65536) % 256) as u8);
    out.push((v / 16777216) as u8);
}

/// Frames the pixels of `frame` for a websocket client.
pub fn frame_packet(frame: &CapturedFrame) -> (packet: Vec<u8>)
    ensures
        packet@ == frame_packet_spec(frame.width, frame.height, frame.pixels@),
{
    let mut packet: Vec<u8> = Vec::new();
    push_le_u32(&mut packet, frame.width);
    push_le_u32(&mut packet, frame.height);
    let pixels: &Vec<u8> = &frame.pixels;
    packet.extend_from_slice(pixels.as_slice());
    packet
}

/// What a client connection sends next: the latest frame when its generation
/// differs from the last one sent, with the generation to remember.
pub open spec fn next_packet_spec(latest: Option<(u32, u32, Seq<u8>, u64)>, last_generation: u64) -> Option<(Seq<u8>, u64)> {
    match latest {
        Some((w, h, px, g)) => if g == last_generation {
            None
        } else {
            Some((frame_packet_spec(w, h, px), g))
        },
        None => None,
    }
}

/// The packet a client should receive now, if any.
pub fn next_packet(latest: &Option<CapturedFrame>, last_generation: u64) -> (r: Option<(Vec<u8>, u64)>)
    ensures
        match r {
            Some((p, g)) => next_packet_spec(opt_frame_view(latest), last_generation) == Some((p@, g)),
            None => next_packet_spec(opt_frame_view(latest), last_generation) is None,
        },
{
    match latest {
        Some(frame) => {
            if frame.generation == last_generation {
                None
            } else {
                Some((frame_packet(frame), frame.generation))
            }
        },
        None => None,
    }
}

/// A newly accepted frame reaches every client that is up to date: its
/// generation differs from the last one sent, so it is the next packet.
pub proof fn lemma_new_frame_is_sent(width: u32, height: u32, pixels: Seq<u8>, sent: u64)
    ensures
        next_packet_spec(Some((width, height, pixels, next_generation(sent))), sent) == Some(
            (frame_packet_spec(width, height, pixels), next_generation(sent)),
        ),
{
}

/// A frame already sent is not sent again.
pub proof fn lemma_sent_frame_not_repeated(width: u32, height: u32, pixels: Seq<u8>, g: u64)
    ensures
        next_packet_spec(Some((width, height, pixels, g)), g) is None,
{
}

/// After a clear, the next frame is never dropped.
pub proof fn lemma_cleared_slot_accepts(elapsed_micros: Option<u128>)
    ensures
        !throttled(false, elapsed_micros),
{
}

/// The value of four little-endian bytes.
pub open spec fn le_value(b: Seq<u8>) -> int {
    b[0] + 256 * b[1] + 65536 * b[2] + 16777216 * b[3]
}

/// A frame packet is read back by a client: the first four bytes are the
/// width, the next four the height, and the rest the pixels.
pub proof fn lemma_packet_read_back(width: u32, height: u32, pixels: Seq<u8>)
    ensures
        frame_packet_spec(width, height, pixels).len() == 8 + pixels.len(),
        le_value(frame_packet_spec(width, height, pixels).subrange(0, 4)) == width,
        le_value(frame_packet_spec(width, height, pixels).subrange(4, 8)) == height,
        frame_packet_spec(width, height, pixels).skip(8) == pixels,
{
    let p = frame_packet_spec(width, height, pixels);
    assert(p.subrange(0, 4) == le_bytes(width));
    assert(p.subrange(4, 8) == le_bytes(height));
    assert(p.skip(8) == pixels);
    assert(le_value(le_bytes(width)) == width) by (nonlinear_arith);
    assert(le_value(le_bytes(height)) == height) by (nonlinear_arith);
}

/// The abstract contents of an optional frame.
pub open spec fn opt_frame_view(f: &Option<CapturedFrame>) -> Option<(u32, u32, Seq<u8>, u64)> {
    match f {
        Some(frame) => Some(frame_view(frame)),
        None => None,
    }
}

/// `ws://127.0.0.1:<port>/ws/<slot>`.
pub open spec fn socket_url_spec(port: u16, slot: Seq<char>) -> Seq<char> {
    "ws://127.0.0.1:"@ + decimal(port as nat) + "/ws/"@ + slot
}

/// The websocket URL at which the frames of `slot` are served.
pub fn socket_url(port: u16, slot: &str) -> (url: String)
    ensures
        url@ == socket_url_spec(port, slot@),
{
    let mut url = String::from_str("ws://127.0.0.1:");
    push_decimal(&mut url, port as u64);
    url.append("/ws/");
    url.append(slot);
    url
}

/// `Unknown frame slot: <slot>`.
pub open spec fn unknown_frame_slot(slot: Seq<char>) -> Seq<char> {
    "Unknown frame slot: "@ + slot
}

/// `handle_client`: the registered slot a websocket client asked for (by the
/// path of its request), or why it cannot be served.
pub fn client_slot<'a, W>(slots: &'a SlotMap<W>, requested: Option<String>) -> (r: Result<&'a W, String>)
    ensures
        match requested {
            None => r matches Err(m) && m@ == "Missing websocket slot path"@,
            Some(name) => match r {
                Ok(w) => slots.view().contains_key(name@) && slots.view()[name@] == *w,
                Err(m) => !slots.view().contains_key(name@) && m@ == unknown_frame_slot(name@),
            },
        },
{
    let name = match requested {
        Some(name) => name,
        None => return Err(String::from_str("Missing websocket slot path")),
    };
    match slots.get(name.as_str()) {
        Some(w) => Ok(w),
        None => {
            let mut m = String::from_str("Unknown frame slot: ");
            m.append(name.as_str());
            Err(m)
        },
    }
}

/// The slot a websocket client asks for: its request path after `/ws/`.
pub fn requested_slot(path: &str) -> (slot: Option<String>)
    ensures
        match slot {
            Some(s) => strip_prefix_seq(path@, "/ws/"@) == Some(s@),
            None => strip_prefix_seq(path@, "/ws/"@) is None,
        },
{
    match strip_prefix(path, "/ws/") {
        Some(rest) => Some(String::from_str(rest)),
        None => None,
    }
}

} // verus!
