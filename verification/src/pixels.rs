//! Pixel buffer handling: packing padded rows of captured frames into tight
//! RGBA8 buffers, and converting between pixel layouts.
use vstd::prelude::*;

verus! {

/// The bytes of `height` rows of `row_bytes` bytes each, the first row
/// starting at `start` and each next one `pitch` bytes further.
pub open spec fn packed_rows(src: Seq<u8>, start: int, pitch: int, row_bytes: int, height: nat) -> Seq<u8>
    decreases height,
{
    if height == 0 {
        Seq::empty()
    } else {
        src.subrange(start, start + row_bytes) + packed_rows(src, start + pitch, pitch, row_bytes, (height - 1) as nat)
    }
}

/// Whether `try_extract_rgba8_pixels` accepts the frame metadata: non-empty,
/// the sizes fit in `usize`, each row is at least `width * 4` bytes apart and
/// the mapped buffer holds `row_pitch * height` bytes.
pub open spec fn rgba8_extract_ok(raw_len: nat, width: u32, height: u32, row_pitch: usize) -> bool {
    &&& width != 0
    &&& height != 0
    &&& width as nat * 4 <= usize::MAX
    &&& width as nat * 4 * height as nat <= usize::MAX
    &&& row_pitch >= width as nat * 4
    &&& row_pitch as nat * height as nat <= usize::MAX
    &&& raw_len >= row_pitch as nat * height as nat
}

/// Appending one more row to rows packed so far.
proof fn lemma_packed_rows_snoc(src: Seq<u8>, start: int, pitch: int, row_bytes: int, height: nat)
    ensures
        packed_rows(src, start, pitch, row_bytes, height + 1) == packed_rows(src, start, pitch, row_bytes, height)
            + src.subrange(start + height * pitch, start + height * pitch + row_bytes),
    decreases height,
{
    if height == 0 {
        assert(packed_rows(src, start + pitch, pitch, row_bytes, 0) == Seq::<u8>::empty());
        assert(src.subrange(start, start + row_bytes) + Seq::<u8>::empty() == src.subrange(start, start + row_bytes));
    } else {
        lemma_packed_rows_snoc(src, start + pitch, pitch, row_bytes, (height - 1) as nat);
        assert((start + pitch) + (height - 1) * pitch == start + height * pitch) by (nonlinear_arith);
        assert(packed_rows(src, start, pitch, row_bytes, height + 1) == src.subrange(start, start + row_bytes)
            + packed_rows(src, start + pitch, pitch, row_bytes, height));
    }
}

/// Copies the RGBA8 rows of a mapped texture into `scratch`, dropping row
/// padding. Returns `None`, and leaves `scratch` as it was, when the metadata
/// does not match the buffer (common while a captured window is resizing).
pub fn try_extract_rgba8_pixels(
    raw: &[u8],
    width: u32,
    height: u32,
    row_pitch: usize,
    scratch: &mut Vec<u8>,
) -> (r: Option<()>)
    ensures
        r is Some <==> rgba8_extract_ok(raw@.len(), width, height, row_pitch),
        r is Some ==> final(scratch)@ == packed_rows(raw@, 0, row_pitch as int, width * 4, height as nat),
        r is None ==> final(scratch)@ == old(scratch)@,
{
    if width == 0 || height == 0 {
        return None;
    }
    let width_bytes = match (width as usize).checked_mul(4) {
        Some(v) => v,
        None => return None,
    };
    let frame_size = match width_bytes.checked_mul(height as usize) {
        Some(v) => v,
        None => return None,
    };
    if row_pitch < width_bytes {
        return None;
    }
    let total = match row_pitch.checked_mul(height as usize) {
        Some(v) => v,
        None => return None,
    };
    if raw.len() < total {
        return None;
    }
    scratch.clear();
    let h = height as usize;
    let mut y: usize = 0;
    let mut start: usize = 0;
    while y < h
        invariant
            h == height,
            width_bytes == width * 4,
            total == row_pitch * h,
            raw@.len() >= total,
            row_pitch >= width_bytes,
            y <= h,
            y < h ==> start == y * row_pitch,
            scratch@ == packed_rows(raw@, 0, row_pitch as int, width_bytes as int, y as nat),
        decreases h - y,
    {
        assert(start + width_bytes <= total) by (nonlinear_arith)
            requires
                start == y * row_pitch,
                y < h,
                total == row_pitch * h,
                row_pitch >= width_bytes,
        ;
        proof {
            lemma_packed_rows_snoc(raw@, 0, row_pitch as int, width_bytes as int, y as nat);
        }
        scratch.extend_from_slice(&raw[start..start + width_bytes]);
        y = y + 1;
        if y < h {
            assert(start + row_pitch <= total) by (nonlinear_arith)
                requires
                    start == (y - 1) * row_pitch,
                    y < h,
                    total == row_pitch * h,
            ;
            start = start + row_pitch;
            assert(start == y * row_pitch) by (nonlinear_arith)
                requires start == (y - 1) * row_pitch + row_pitch;
        }
    }
    Some(())
}

/// Layout of a raw video frame.
#[derive(Debug, Clone, Copy, PartialEq, Eq, Structural)]
pub enum PixelFormat {
    Rgba,
    Rgbx,
    Bgrx,
    Rgb,
    Other,
}

/// Bytes per pixel of a supported layout.
pub open spec fn bytes_per_pixel(format: PixelFormat) -> int {
    match format {
        PixelFormat::Rgb => 3,
        _ => 4,
    }
}

/// One pixel converted to RGBA: alpha is opaque where the source has none,
/// and BGRx has its colour channels swapped.
pub open spec fn pixel_to_rgba(px: Seq<u8>, format: PixelFormat) -> Seq<u8> {
    match format {
        PixelFormat::Rgba => seq![px[0], px[1], px[2], px[3]],
        PixelFormat::Bgrx => seq![px[2], px[1], px[0], 255u8],
        _ => seq![px[0], px[1], px[2], 255u8],
    }
}

/// The first `count` pixels of a row, converted to RGBA.
pub open spec fn row_to_rgba(row: Seq<u8>, format: PixelFormat, count: nat) -> Seq<u8>
    decreases count,
{
    if count == 0 {
        Seq::empty()
    } else {
        let bpp = bytes_per_pixel(format);
        row_to_rgba(row, format, (count - 1) as nat) + pixel_to_rgba(
            row.subrange((count - 1) * bpp, count * bpp),
            format,
        )
    }
}

/// `height` rows of `width` pixels, converted to RGBA; the first row starts at
/// `start`, each next one `stride` bytes further.
pub open spec fn rows_to_rgba(src: Seq<u8>, start: int, stride: int, width: nat, height: nat, format: PixelFormat) -> Seq<u8>
    decreases height,
{
    if height == 0 {
        Seq::empty()
    } else {
        row_to_rgba(src.subrange(start, start + width * bytes_per_pixel(format)), format, width)
            + rows_to_rgba(src, start + stride, stride, width, (height - 1) as nat, format)
    }
}

/// `frame_to_rgba`: a raw frame in the given layout, converted to tightly
/// packed RGBA. Rows are `max(stride, width * bpp)` bytes apart; the frame is
/// rejected when it is empty, its layout is unsupported, its RGBA size does
/// not fit in `usize`, or its last row does not fit in `src`.
pub open spec fn frame_to_rgba_spec(src: Seq<u8>, stride: usize, width: u32, height: u32, format: PixelFormat) -> Option<Seq<u8>> {
    let bpp = bytes_per_pixel(format);
    let row_bytes = width * bpp;
    let step = if stride >= row_bytes { stride as int } else { row_bytes };
    if width == 0 || height == 0 || format == PixelFormat::Other || width as nat * height as nat * 4 > usize::MAX
        || (height - 1) * step + row_bytes > src.len() {
        None
    } else {
        Some(rows_to_rgba(src, 0, step, width as nat, height as nat, format))
    }
}

/// Converts the first `count` pixels of `row` and appends them to `out`.
fn append_row_rgba(row: &[u8], format: PixelFormat, count: usize, out: &mut Vec<u8>)
    requires
        format != PixelFormat::Other,
        count * bytes_per_pixel(format) <= row@.len(),
    ensures
        final(out)@ == old(out)@ + row_to_rgba(row@, format, count as nat),
{
    let bpp: usize = if format == PixelFormat::Rgb { 3 } else { 4 };
    let mut x: usize = 0;
    let mut off: usize = 0;
    while x < count
        invariant
            bpp == bytes_per_pixel(format),
            format != PixelFormat::Other,
            count * bpp <= row@.len(),
            x <= count,
            off == x * bpp,
            out@ == old(out)@ + row_to_rgba(row@, format, x as nat),
        decreases count - x,
    {
        assert(off + bpp <= row@.len()) by (nonlinear_arith)
            requires off == x * bpp, x < count, count * bpp <= row@.len();
        let ghost px = row@.subrange(off as int, off + bpp);
        match format {
            PixelFormat::Rgba => {
                out.push(row[off]);
                out.push(row[off + 1]);
                out.push(row[off + 2]);
                out.push(row[off + 3]);
            },
            PixelFormat::Bgrx => {
                out.push(row[off + 2]);
                out.push(row[off + 1]);
                out.push(row[off]);
                out.push(255);
            },
            _ => {
                out.push(row[off]);
                out.push(row[off + 1]);
                out.push(row[off + 2]);
                out.push(255);
            },
        }
        proof {
            assert((x + 1) * bpp == off + bpp) by (nonlinear_arith)
                requires off == x * bpp;
            assert(row_to_rgba(row@, format, (x + 1) as nat) == row_to_rgba(row@, format, x as nat)
                + pixel_to_rgba(px, format));
        }
        x = x + 1;
        off = off + bpp;
    }
}

proof fn lemma_rows_to_rgba_snoc(src: Seq<u8>, start: int, stride: int, width: nat, height: nat, format: PixelFormat)
    ensures
        rows_to_rgba(src, start, stride, width, height + 1, format) == rows_to_rgba(src, start, stride, width, height, format)
            + row_to_rgba(src.subrange(start + height * stride, start + height * stride + width * bytes_per_pixel(format)), format, width),
    decreases height,
{
    let bpp = bytes_per_pixel(format);
    if height == 0 {
        assert(rows_to_rgba(src, start + stride, stride, width, 0, format) == Seq::<u8>::empty());
    } else {
        lemma_rows_to_rgba_snoc(src, start + stride, stride, width, (height - 1) as nat, format);
        assert((start + stride) + (height - 1) * stride == start + height * stride) by (nonlinear_arith);
        assert(rows_to_rgba(src, start, stride, width, height + 1, format) == row_to_rgba(
            src.subrange(start, start + width * bpp), format, width)
            + rows_to_rgba(src, start + stride, stride, width, height, format));
    }
}

/// Converts a raw frame (rows `stride` bytes apart) into tightly packed RGBA.
pub fn frame_to_rgba(src: &[u8], stride: usize, width: u32, height: u32, format: PixelFormat) -> (r: Option<Vec<u8>>)
    ensures
        match r {
            Some(v) => frame_to_rgba_spec(src@, stride, width, height, format) == Some(v@),
            None => frame_to_rgba_spec(src@, stride, width, height, format) is None,
        },
{
    let n = src.len();
    if width == 0 || height == 0 || format == PixelFormat::Other {
        return None;
    }
    let w = width as usize;
    let h = height as usize;
    let pixel_count = match w.checked_mul(h) {
        Some(v) => v,
        None => return None,
    };
    let out_len = match pixel_count.checked_mul(4) {
        Some(v) => v,
        None => return None,
    };
    let bpp: usize = if format == PixelFormat::Rgb { 3 } else { 4 };
    let row_bytes = match w.checked_mul(bpp) {
        Some(v) => v,
        None => {
            assert(width as nat * height as nat * 4 <= usize::MAX);
            assert(width as nat * bpp <= width as nat * height as nat * 4) by (nonlinear_arith)
                requires height >= 1, bpp <= 4;
            return None;
        },
    };
    let step = if stride >= row_bytes { stride } else { row_bytes };
    let last_start = match (h - 1).checked_mul(step) {
        Some(v) => v,
        None => {
            assert(n <= usize::MAX);
            return None;
        },
    };
    let end = match last_start.checked_add(row_bytes) {
        Some(v) => v,
        None => {
            assert(n <= usize::MAX);
            return None;
        },
    };
    if end > src.len() {
        return None;
    }
    let mut out: Vec<u8> = Vec::with_capacity(out_len);
    let mut y: usize = 0;
    let mut start: usize = 0;
    while y < h
        invariant
            h == height,
            w == width,
            bpp == bytes_per_pixel(format),
            format != PixelFormat::Other,
            row_bytes == w * bpp,
            step >= row_bytes,
            last_start == (h - 1) * step,
            last_start + row_bytes <= src@.len(),
            n == src@.len(),
            y <= h,
            y < h ==> start == y * step,
            out@ == rows_to_rgba(src@, 0, step as int, w as nat, y as nat, format),
        decreases h - y,
    {
        assert(start <= last_start) by (nonlinear_arith)
            requires start == y * step, y < h, last_start == (h - 1) * step, step >= 0;
        proof {
            lemma_rows_to_rgba_snoc(src@, 0, step as int, w as nat, y as nat, format);
        }
        assert(start + row_bytes <= last_start + row_bytes);
        let row = &src[start..start + row_bytes];
        append_row_rgba(row, format, w, &mut out);
        y = y + 1;
        if y < h {
            assert(start + step <= last_start) by (nonlinear_arith)
                requires start == (y - 1) * step, y < h, last_start == (h - 1) * step;
            start = start + step;
            assert(start == y * step) by (nonlinear_arith)
                requires start == (y - 1) * step + step;
        }
    }
    Some(out)
}

/// RGBA pixels with their alpha dropped (`DynamicImage::into_rgb8` on an RGBA8 image).
pub open spec fn rgba_to_rgb_spec(rgba: Seq<u8>, count: nat) -> Seq<u8>
    decreases count,
{
    if count == 0 {
        Seq::empty()
    } else {
        rgba_to_rgb_spec(rgba, (count - 1) as nat) + rgba.subrange((count - 1) * 4, (count - 1) * 4 + 3)
    }
}

/// Drops the alpha channel of tightly packed RGBA pixels.
pub fn rgba_to_rgb(rgba: &[u8]) -> (rgb: Vec<u8>)
    requires
        rgba@.len() % 4 == 0,
    ensures
        rgb@ == rgba_to_rgb_spec(rgba@, rgba@.len() / 4),
        rgb@.len() == rgba@.len() / 4 * 3,
{
    let n = rgba.len();
    let count = n / 4;
    let mut out: Vec<u8> = Vec::new();
    let mut i: usize = 0;
    while i < count
        invariant
            count == rgba@.len() / 4,
            n == rgba@.len(),
            i <= count,
            out@ == rgba_to_rgb_spec(rgba@, i as nat),
            out@.len() == i * 3,
        decreases count - i,
    {
        assert(i * 4 + 3 < rgba@.len()) by (nonlinear_arith)
            requires i < count, count == rgba@.len() / 4;
        let off = i * 4;
        out.push(rgba[off]);
        out.push(rgba[off + 1]);
        out.push(rgba[off + 2]);
        assert(out@ == rgba_to_rgb_spec(rgba@, (i + 1) as nat));
        i = i + 1;
    }
    out
}

} // verus!
