//! Listing and finding capture sources, and encoding still previews as JPEG
//! data URLs.
use base64::Engine;
use vstd::prelude::*;

use crate::ndi::capture_ndi_preview;
use crate::pixels::{rgba_to_rgb, rgba_to_rgb_spec};
use crate::text::{decimal, lemma_parse_decimal, parse_unsigned, parse_unsigned_seq, push_decimal, str_eq, strip_prefix, strip_prefix_seq, IntParseError};
use crate::types::{source_view, CaptureSource, CaptureSourceKind};

verus! {

/// Why listing or capturing a source failed.
#[derive(Debug)]
pub enum CaptureError {
    ListFailed(String),
    CaptureFailed(String),
    SourceNotFound(String),
    Unsupported(String),
}

impl CaptureError {
    /// The text shown to the user for this error.
    pub open spec fn spec_message(&self) -> Seq<char> {
        match self {
            CaptureError::ListFailed(m) => "Failed to list sources: "@ + m@,
            CaptureError::CaptureFailed(m) => "Failed to capture preview: "@ + m@,
            CaptureError::SourceNotFound(m) => "Source not found: "@ + m@,
            CaptureError::Unsupported(m) => m@,
        }
    }

    /// The text shown to the user for this error (its `Display`).
    pub fn message(&self) -> (s: String)
        ensures
            s@ == self.spec_message(),
    {
        match self {
            CaptureError::ListFailed(m) => {
                let mut s = String::from_str("Failed to list sources: ");
                s.append(m.as_str());
                s
            },
            CaptureError::CaptureFailed(m) => {
                let mut s = String::from_str("Failed to capture preview: ");
                s.append(m.as_str());
                s
            },
            CaptureError::SourceNotFound(m) => {
                let mut s = String::from_str("Source not found: ");
                s.append(m.as_str());
                s
            },
            CaptureError::Unsupported(m) => m.clone(),
        }
    }
}

/// `list_all_sources`: screens, then webcams, then NDI sources; a failure to
/// list screens or webcams is the result, while a failure to discover NDI
/// sources only leaves them out.
pub open spec fn all_sources_spec(
    screens: Result<Seq<CaptureSource>, ()>,
    webcams: Result<Seq<CaptureSource>, ()>,
    ndi: Result<Seq<CaptureSource>, ()>,
) -> Option<Seq<CaptureSource>> {
    match (screens, webcams) {
        (Ok(s), Ok(w)) => Some(s + w + match ndi {
            Ok(n) => n,
            Err(_) => Seq::empty(),
        }),
        _ => None,
    }
}

/// Every source the machine offers, given the results of listing screens,
/// webcams and NDI sources.
pub fn list_all_sources(
    screens: Result<Vec<CaptureSource>, CaptureError>,
    webcams: Result<Vec<CaptureSource>, CaptureError>,
    ndi: Result<Vec<CaptureSource>, CaptureError>,
) -> (r: Result<Vec<CaptureSource>, CaptureError>)
    ensures
        match (&screens, &webcams) {
            (Err(e), _) => r == Err::<Vec<CaptureSource>, CaptureError>(*e),
            (Ok(_), Err(e)) => r == Err::<Vec<CaptureSource>, CaptureError>(*e),
            (Ok(s), Ok(w)) => r matches Ok(all) && all@ == s@ + w@ + match &ndi {
                Ok(n) => n@,
                Err(_) => Seq::empty(),
            },
        },
{
    let mut sources = match screens {
        Ok(s) => s,
        Err(e) => return Err(e),
    };
    let mut webcam_sources = match webcams {
        Ok(w) => w,
        Err(e) => return Err(e),
    };
    sources.append(&mut webcam_sources);
    match ndi {
        Ok(mut n) => sources.append(&mut n),
        Err(_) => {},
    }
    Ok(sources)
}

/// Finds a source by id among the listed sources.
pub fn find_source(sources: &Vec<CaptureSource>, source_id: &str) -> (r: Result<CaptureSource, CaptureError>)
    ensures
        match r {
            Ok(s) => exists|i: int|
                0 <= i < sources@.len() && source_view(&s) == source_view(&sources@[i]) && sources@[i].id@ == source_id@
                    && forall|j: int| 0 <= j < i ==> #[trigger] sources@[j].id@ != source_id@,
            Err(e) => (forall|i: int| 0 <= i < sources@.len() ==> #[trigger] sources@[i].id@ != source_id@)
                && (e matches CaptureError::SourceNotFound(m) && m@ == source_id@),
        },
{
    let mut i: usize = 0;
    while i < sources.len()
        invariant
            i <= sources.len(),
            forall|j: int| 0 <= j < i ==> #[trigger] sources@[j].id@ != source_id@,
        decreases sources.len() - i,
    {
        if str_eq(sources[i].id.as_str(), source_id) {
            return Ok(sources[i].duplicate());
        }
        i = i + 1;
    }
    Err(CaptureError::SourceNotFound(String::from_str(source_id)))
}

/// `parse_id_suffix`: the number after `prefix` in a source id.
pub open spec fn id_suffix_spec(source_id: Seq<char>, prefix: Seq<char>) -> Result<u32, Option<IntParseError>> {
    match strip_prefix_seq(source_id, prefix) {
        None => Err(None),
        Some(rest) => match parse_unsigned_seq(rest, 10, u32::MAX as nat) {
            Ok(n) => Ok(n as u32),
            Err(e) => Err(Some(e)),
        },
    }
}

/// The number after `prefix` in a source id such as `screen:2`. A missing
/// prefix reports the id as not found; a malformed number reports why it
/// could not be parsed.
pub fn parse_id_suffix(source_id: &str, prefix: &str) -> (r: Result<u32, CaptureError>)
    ensures
        match r {
            Ok(n) => id_suffix_spec(source_id@, prefix@) == Ok::<u32, Option<IntParseError>>(n),
            Err(e) => match id_suffix_spec(source_id@, prefix@) {
                Ok(_) => false,
                Err(None) => e matches CaptureError::SourceNotFound(m) && m@ == source_id@,
                Err(Some(k)) => e matches CaptureError::SourceNotFound(m) && m@ == k.spec_message(),
            },
        },
{
    let rest = match strip_prefix(source_id, prefix) {
        Some(rest) => rest,
        None => return Err(CaptureError::SourceNotFound(String::from_str(source_id))),
    };
    match parse_unsigned(rest, 10, u32::MAX) {
        Ok(n) => Ok(n),
        Err(e) => Err(CaptureError::SourceNotFound(e.message())),
    }
}

/// `screen:<id>` and `<name> (<width>×<height>)` for a monitor.
pub open spec fn screen_source_spec(id: u32, name: Seq<char>, width: u32, height: u32) -> (Seq<char>, CaptureSourceKind, Seq<char>) {
    (
        "screen:"@ + decimal(id as nat),
        CaptureSourceKind::Screen,
        name + " ("@ + decimal(width as nat) + "\u{d7}"@ + decimal(height as nat) + ")"@,
    )
}

/// The source listed for a monitor.
pub fn screen_source(id: u32, name: &str, width: u32, height: u32) -> (s: CaptureSource)
    ensures
        source_view(&s) == screen_source_spec(id, name@, width, height),
{
    let mut sid = String::from_str("screen:");
    push_decimal(&mut sid, id as u64);
    let mut label = String::from_str(name);
    label.append(" (");
    push_decimal(&mut label, width as u64);
    label.append("\u{d7}");
    push_decimal(&mut label, height as u64);
    label.append(")");
    CaptureSource { id: sid, kind: CaptureSourceKind::Screen, label }
}

/// The id of a listed screen names its monitor again: parsing the number
/// after `screen:` gives back the monitor id.
pub proof fn lemma_screen_id_read_back(id: u32, name: Seq<char>, width: u32, height: u32)
    ensures
        id_suffix_spec(screen_source_spec(id, name, width, height).0, "screen:"@) == Ok::<u32, Option<IntParseError>>(id),
{
    lemma_parse_decimal(id as nat, u32::MAX as nat);
    reveal_strlit("screen:");
    let s = screen_source_spec(id, name, width, height).0;
    assert(s.subrange(0, 7) == "screen:"@);
    assert(s.skip(7) == decimal(id as nat));
}

/// The id of a listed webcam names its position in the backend's list.
pub proof fn lemma_webcam_id_read_back(index: usize)
    requires
        index <= u32::MAX,
    ensures
        id_suffix_spec("webcam:"@ + decimal(index as nat), "webcam:"@) == Ok::<u32, Option<IntParseError>>(index as u32),
{
    lemma_parse_decimal(index as nat, u32::MAX as nat);
    reveal_strlit("webcam:");
    let s = "webcam:"@ + decimal(index as nat);
    assert(s.subrange(0, 7) == "webcam:"@);
    assert(s.skip(7) == decimal(index as nat));
}

/// The source listed for the webcam at `index` in the backend's list.
pub fn webcam_source(index: usize, human_name: &str) -> (s: CaptureSource)
    ensures
        source_view(&s) == ("webcam:"@ + decimal(index as nat), CaptureSourceKind::Webcam, human_name@),
{
    let mut sid = String::from_str("webcam:");
    push_decimal(&mut sid, index as u64);
    CaptureSource { id: sid, kind: CaptureSourceKind::Webcam, label: String::from_str(human_name) }
}

/// What must be grabbed to preview a source.
pub enum PreviewRequest {
    /// A still of the monitor with this id.
    Screen { monitor_id: u32 },
    /// A frame from the webcam at this position in the backend's list.
    Webcam { index: usize },
    /// A frame from this NDI source.
    Ndi { source_id: String },
}

/// The grab that previews the source `source_id`, found among `sources`.
pub fn preview_request(sources: &Vec<CaptureSource>, source_id: &str) -> (r: Result<PreviewRequest, CaptureError>)
    ensures
        r matches Ok(PreviewRequest::Screen { monitor_id }) ==> id_suffix_spec(source_id@, "screen:"@) == Ok::<u32, Option<IntParseError>>(monitor_id),
        r matches Ok(PreviewRequest::Webcam { index }) ==> id_suffix_spec(source_id@, "webcam:"@) == Ok::<u32, Option<IntParseError>>(index as u32),
        r matches Ok(PreviewRequest::Ndi { source_id: id }) ==> id@ == source_id@,
        r is Ok ==> exists|i: int| 0 <= i < sources@.len() && sources@[i].id@ == source_id@,
        (forall|i: int| 0 <= i < sources@.len() ==> #[trigger] sources@[i].id@ != source_id@) ==> (r matches Err(CaptureError::SourceNotFound(m)) && m@ == source_id@),
{
    let source = find_source(sources, source_id)?;
    match source.kind {
        CaptureSourceKind::Screen => {
            let monitor_id = parse_id_suffix(source_id, "screen:")?;
            Ok(PreviewRequest::Screen { monitor_id })
        },
        CaptureSourceKind::Webcam => {
            let index = parse_id_suffix(source_id, "webcam:")?;
            Ok(PreviewRequest::Webcam { index: index as usize })
        },
        CaptureSourceKind::Ndi => Ok(PreviewRequest::Ndi { source_id: String::from_str(source_id) }),
    }
}

/// An RGBA8 image: `width * height` pixels of four bytes, row by row, at the
/// start of `pixels` (`image::RgbaImage`).
pub struct RgbaFrame {
    pub width: u32,
    pub height: u32,
    pub pixels: Vec<u8>,
}

impl RgbaFrame {
    /// The buffer holds every pixel of the frame.
    pub open spec fn wf(&self) -> bool {
        4 * self.width as nat * self.height as nat <= self.pixels@.len()
    }

    /// A frame over `pixels`, when the buffer is large enough (`ImageBuffer::from_raw`).
    pub fn from_raw(width: u32, height: u32, pixels: Vec<u8>) -> (r: Option<RgbaFrame>)
        ensures
            r is Some <==> 4 * width as nat <= usize::MAX && 4 * width as nat * height as nat <= usize::MAX
                && 4 * width as nat * height as nat <= pixels@.len(),
            r matches Some(f) ==> f.width == width && f.height == height && f.pixels@ == pixels@ && f.wf(),
    {
        let w4 = match (width as usize).checked_mul(4) {
            Some(v) => v,
            None => return None,
        };
        let len = match w4.checked_mul(height as usize) {
            Some(v) => v,
            None => return None,
        };
        if len <= pixels.len() {
            Some(RgbaFrame { width, height, pixels })
        } else {
            None
        }
    }
}

/// Largest preview width.
pub const PREVIEW_MAX_WIDTH: u32 = 1280;

/// Largest preview height.
pub const PREVIEW_MAX_HEIGHT: u32 = 720;

/// JPEG quality of previews.
pub const PREVIEW_JPEG_QUALITY: u8 = 82;

/// The pixels `image::imageops::thumbnail` produces when it scales an RGBA8
/// image of the given size to `new_width` by `new_height`.
pub uninterp spec fn thumbnail_pixels(pixels: Seq<u8>, width: u32, height: u32, new_width: u32, new_height: u32) -> Seq<u8>;

/// `image::imageops::thumbnail` on an RGBA8 image. The result has exactly the
/// requested size (its source allocates the output buffer at that size); its
/// pixels are named by `thumbnail_pixels`, the area averages being unstated.
#[verifier::external_body]
fn thumbnail_rgba(frame: &RgbaFrame, new_width: u32, new_height: u32) -> (r: Vec<u8>)
    requires
        frame.wf(),
        4 * frame.width as nat * frame.height as nat <= usize::MAX,
        4 * new_width as nat * new_height as nat <= usize::MAX,
    ensures
        r@ == thumbnail_pixels(frame.pixels@, frame.width, frame.height, new_width, new_height),
        r@.len() == 4 * new_width as nat * new_height as nat,
{
    match image::RgbaImage::from_raw(frame.width, frame.height, frame.pixels.clone()) {
        Some(img) => image::imageops::thumbnail(&img, new_width, new_height).into_raw(),
        None => Vec::new(),
    }
}

/// The JPEG file `image::codecs::jpeg::JpegEncoder` writes for RGB8 pixels.
pub uninterp spec fn jpeg_rgb8(rgb: Seq<u8>, width: u32, height: u32, quality: u8) -> Seq<u8>;

/// `JpegEncoder::new_with_quality(..).encode(.., ExtendedColorType::Rgb8)`
/// into a byte buffer. Its source refuses (with `InvalidSize`) exactly the
/// images whose width or height is 0 or above 65535; writing to a `Vec` does
/// not fail. The bytes are named by `jpeg_rgb8`; the error text is unstated.
#[verifier::external_body]
fn encode_jpeg_rgb8(rgb: &Vec<u8>, width: u32, height: u32, quality: u8) -> (r: Result<Vec<u8>, String>)
    requires
        rgb@.len() == 3 * width as nat * height as nat,
    ensures
        r is Ok <==> (1 <= width <= 65535 && 1 <= height <= 65535),
        r matches Ok(bytes) ==> bytes@ == jpeg_rgb8(rgb@, width, height, quality),
{
    let mut buffer = Vec::new();
    let mut encoder = image::codecs::jpeg::JpegEncoder::new_with_quality(&mut buffer, quality);
    match encoder.encode(rgb, width, height, image::ExtendedColorType::Rgb8) {
        Ok(()) => Ok(buffer),
        Err(error) => Err(error.to_string()),
    }
}

/// Standard base64 (with padding) of `bytes`.
pub uninterp spec fn base64_standard(bytes: Seq<u8>) -> Seq<char>;

/// `base64::engine::general_purpose::STANDARD.encode`. The text is named by
/// `base64_standard`. Its length computation cannot overflow for any buffer
/// that exists (at most `isize::MAX` bytes), so it does not panic.
#[verifier::external_body]
fn base64_standard_encode(bytes: &[u8]) -> (r: String)
    ensures
        r@ == base64_standard(bytes@),
{
    base64::engine::general_purpose::STANDARD.encode(bytes)
}

/// The size a preview is encoded at: the frame's own when it fits in
/// 1280×720, else exactly 1280×720.
pub open spec fn preview_size(width: u32, height: u32) -> (u32, u32) {
    if width <= PREVIEW_MAX_WIDTH && height <= PREVIEW_MAX_HEIGHT {
        (width, height)
    } else {
        (PREVIEW_MAX_WIDTH, PREVIEW_MAX_HEIGHT)
    }
}

/// A preview is never larger than 1280×720, and a frame that fits is kept
/// at its own size.
pub proof fn lemma_preview_fits(width: u32, height: u32)
    ensures
        preview_size(width, height).0 <= PREVIEW_MAX_WIDTH,
        preview_size(width, height).1 <= PREVIEW_MAX_HEIGHT,
        width <= PREVIEW_MAX_WIDTH && height <= PREVIEW_MAX_HEIGHT ==> preview_size(width, height) == (width, height),
{
}

/// The RGBA pixels a preview is encoded from.
pub open spec fn preview_rgba(frame: &RgbaFrame) -> Seq<u8> {
    if frame.width <= PREVIEW_MAX_WIDTH && frame.height <= PREVIEW_MAX_HEIGHT {
        frame.pixels@.take(4 * frame.width * frame.height)
    } else {
        thumbnail_pixels(frame.pixels@, frame.width, frame.height, PREVIEW_MAX_WIDTH, PREVIEW_MAX_HEIGHT)
    }
}

/// `encode_preview_jpeg_bytes`: the JPEG of the (scaled) preview, or `None`
/// when its size is empty.
pub open spec fn preview_jpeg_spec(frame: &RgbaFrame) -> Option<Seq<u8>> {
    let (w, h) = preview_size(frame.width, frame.height);
    if w == 0 || h == 0 {
        None
    } else {
        Some(jpeg_rgb8(rgba_to_rgb_spec(preview_rgba(frame), w as nat * h as nat), w, h, PREVIEW_JPEG_QUALITY))
    }
}

/// A frame scaled down to at most 1280×720 and encoded as JPEG (quality 82).
pub fn encode_preview_jpeg_bytes(frame: RgbaFrame) -> (r: Result<Vec<u8>, CaptureError>)
    requires
        frame.wf(),
        4 * frame.width as nat * frame.height as nat <= usize::MAX,
    ensures
        match r {
            Ok(bytes) => preview_jpeg_spec(&frame) == Some(bytes@),
            Err(e) => preview_jpeg_spec(&frame) is None && e is CaptureFailed,
        },
{
    let w: u32;
    let h: u32;
    let rgba: Vec<u8>;
    if frame.width <= PREVIEW_MAX_WIDTH && frame.height <= PREVIEW_MAX_HEIGHT {
        w = frame.width;
        h = frame.height;
        let n = 4 * (w as usize) * (h as usize);
        let mut taken: Vec<u8> = frame.pixels;
        taken.truncate(n);
        rgba = taken;
    } else {
        w = PREVIEW_MAX_WIDTH;
        h = PREVIEW_MAX_HEIGHT;
        rgba = thumbnail_rgba(&frame, PREVIEW_MAX_WIDTH, PREVIEW_MAX_HEIGHT);
    }
    assert(rgba@ == preview_rgba(&frame));
    assert(rgba@.len() == 4 * w as nat * h as nat);
    assert(rgba@.len() / 4 == w as nat * h as nat && rgba@.len() % 4 == 0) by (nonlinear_arith)
        requires rgba@.len() == 4 * w as nat * h as nat;
    let rgb = rgba_to_rgb(rgba.as_slice());
    assert(rgb@.len() == 3 * w as nat * h as nat) by (nonlinear_arith)
        requires
            rgb@.len() == rgba@.len() / 4 * 3,
            rgba@.len() / 4 == w as nat * h as nat;
    match encode_jpeg_rgb8(&rgb, w, h, PREVIEW_JPEG_QUALITY) {
        Ok(bytes) => Ok(bytes),
        Err(message) => Err(CaptureError::CaptureFailed(message)),
    }
}

/// `encode_preview`: a `data:` URL of the preview JPEG.
pub open spec fn preview_url_spec(jpeg: Seq<u8>) -> Seq<char> {
    "data:image/jpeg;base64,"@ + base64_standard(jpeg)
}

/// A frame as a `data:image/jpeg;base64,...` URL for the user interface.
pub fn encode_preview(frame: RgbaFrame) -> (r: Result<String, CaptureError>)
    requires
        frame.wf(),
        4 * frame.width as nat * frame.height as nat <= usize::MAX,
    ensures
        match r {
            Ok(url) => preview_jpeg_spec(&frame) matches Some(jpeg) && url@ == preview_url_spec(jpeg),
            Err(e) => preview_jpeg_spec(&frame) is None && e is CaptureFailed,
        },
{
    let ghost f = frame;
    let jpeg = encode_preview_jpeg_bytes(frame)?;
    let mut url = String::from_str("data:image/jpeg;base64,");
    let encoded = base64_standard_encode(jpeg.as_slice());
    url.append(encoded.as_str());
    Ok(url)
}

/// A frame from a grab, checked to hold all its pixels.
pub fn frame_from_grab(width: u32, height: u32, pixels: Vec<u8>) -> (r: Result<RgbaFrame, CaptureError>)
    ensures
        r matches Ok(f) ==> f.wf() && 4 * f.width as nat * f.height as nat <= usize::MAX && f.width == width
            && f.height == height && f.pixels@ == pixels@,
        r is Err <==> !(4 * width as nat <= usize::MAX && 4 * width as nat * height as nat <= usize::MAX
            && 4 * width as nat * height as nat <= pixels@.len()),
        r matches Err(e) ==> (e matches CaptureError::CaptureFailed(m) && m@ == "invalid frame dimensions"@),
{
    match RgbaFrame::from_raw(width, height, pixels) {
        Some(f) => Ok(f),
        None => Err(CaptureError::CaptureFailed(String::from_str("invalid frame dimensions"))),
    }
}

/// `capture_preview`: the preview of a source, given the grab that
/// [`preview_request`] asked for. NDI sources are handled by the NDI module.
pub fn capture_preview(request: PreviewRequest, grabbed: Result<RgbaFrame, CaptureError>) -> (r: Result<String, CaptureError>)
    requires
        grabbed matches Ok(f) ==> f.wf() && 4 * f.width as nat * f.height as nat <= usize::MAX,
    ensures
        request is Ndi ==> r matches Err(CaptureError::Unsupported(_)),
        !(request is Ndi) ==> match grabbed {
            Err(e) => r == Err::<String, CaptureError>(e),
            Ok(f) => match r {
                Ok(url) => preview_jpeg_spec(&f) matches Some(jpeg) && url@ == preview_url_spec(jpeg),
                Err(e) => preview_jpeg_spec(&f) is None && e is CaptureFailed,
            },
        },
{
    match request {
        PreviewRequest::Ndi { source_id } => capture_ndi_preview(source_id.as_str()),
        _ => match grabbed {
            Ok(frame) => encode_preview(frame),
            Err(e) => Err(e),
        },
    }
}

} // verus!
