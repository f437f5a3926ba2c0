//! Decoding a PNG into 8-bit RGBA pixels and encoding RGBA pixels back into a
//! PNG, with the `png` crate doing the byte-level work.

use vstd::prelude::*;
use png::ColorType;

verus! {

/// Images with more pixels than this are refused.
pub const FENBI_IMAGE_MAX_PIXELS: u64 = 2_400_000;

/// The colour layouts a decoded 8-bit PNG frame can have.
#[derive(Clone, Copy, Debug, PartialEq, Eq)]
pub enum PngColor {
    Grayscale,
    Rgb,
    Indexed,
    GrayscaleAlpha,
    Rgba,
}

/// A decoded frame as the `png` crate hands it out.
pub struct DecodedFrame {
    pub width: u32,
    pub height: u32,
    pub color: PngColor,
    pub data: Vec<u8>,
}

/// What `png` makes of `bytes` when it decodes the first frame with the
/// `EXPAND | STRIP_16` transformations: (width, height, colour, samples), or
/// the text of the decoding error.
pub uninterp spec fn png_decode(bytes: Seq<u8>) -> Result<(u32, u32, PngColor, Seq<u8>), Seq<char>>;

/// What `png` writes for an 8-bit RGBA image of the given size and samples at
/// `Compression::Best`, or the text of the encoding error.
pub uninterp spec fn png_encode(width: u32, height: u32, rgba: Seq<u8>) -> Result<Seq<u8>, Seq<char>>;

/// Calls `png::Decoder::read_info` and `Reader::next_frame` (with
/// `EXPAND | STRIP_16`) and hands out the frame's size, colour type and the
/// `buffer_size()` bytes of samples. Claimed: the outcome is the function
/// `png_decode` of the input bytes; nothing else is claimed of it.
#[verifier::external_body]
fn png_decode_frame(bytes: &[u8]) -> (res: Result<DecodedFrame, String>)
    ensures
        match res {
            Ok(f) => png_decode(bytes@) == Ok::<_, Seq<char>>((f.width, f.height, f.color, f.data@)),
            Err(e) => png_decode(bytes@) == Err::<(u32, u32, PngColor, Seq<u8>), _>(e@),
        },
{
    let mut decoder = png::Decoder::new(std::io::Cursor::new(bytes));
    decoder.set_transformations(png::Transformations::EXPAND | png::Transformations::STRIP_16);
    let mut reader = decoder.read_info().map_err(|error| error.to_string())?;
    let mut data = vec![0; reader.output_buffer_size()];
    let info = reader.next_frame(&mut data).map_err(|error| error.to_string())?;
    data.truncate(info.buffer_size());
    let color = match info.color_type {
        ColorType::Grayscale => PngColor::Grayscale,
        ColorType::Rgb => PngColor::Rgb,
        ColorType::Indexed => PngColor::Indexed,
        ColorType::GrayscaleAlpha => PngColor::GrayscaleAlpha,
        ColorType::Rgba => PngColor::Rgba,
    };
    Ok(DecodedFrame { width: info.width, height: info.height, color, data })
}

/// Calls `png::Encoder` for an 8-bit RGBA image at `Compression::Best`,
/// `write_header` and `write_image_data`, and hands out the written bytes.
/// Claimed: the outcome is the function `png_encode` of the arguments.
/// `write_image_data` multiplies the row length (four bytes per pixel, plus
/// one) by the height in `usize` without a check, so `requires` keeps
/// `4 * width * height` within `usize`.
#[verifier::external_body]
fn png_encode_rgba(width: u32, height: u32, rgba: &[u8]) -> (res: Result<Vec<u8>, String>)
    requires
        4 * width * height <= usize::MAX,
    ensures
        match res {
            Ok(out) => png_encode(width, height, rgba@) == Ok::<_, Seq<char>>(out@),
            Err(e) => png_encode(width, height, rgba@) == Err::<Seq<u8>, _>(e@),
        },
{
    let mut output = Vec::new();
    let mut encoder = png::Encoder::new(&mut output, width, height);
    encoder.set_color(ColorType::Rgba);
    encoder.set_depth(png::BitDepth::Eight);
    encoder.set_compression(png::Compression::Best);
    let mut writer = encoder.write_header().map_err(|error| error.to_string())?;
    writer.write_image_data(rgba).map_err(|error| error.to_string())?;
    drop(writer);
    Ok(output)
}

/// The number of samples per pixel of a colour layout.
pub open spec fn channels(color: PngColor) -> nat {
    match color {
        PngColor::Grayscale => 1,
        PngColor::Rgb => 3,
        PngColor::Indexed => 1,
        PngColor::GrayscaleAlpha => 2,
        PngColor::Rgba => 4,
    }
}

/// Sample `k` (0 = red, 1 = green, 2 = blue, 3 = alpha) of pixel `p` of
/// `data` once widened to RGBA: grey is copied into red, green and blue, and a
/// missing alpha is opaque.
pub open spec fn rgba_sample(color: PngColor, data: Seq<u8>, p: int, k: int) -> u8 {
    match color {
        PngColor::Rgb => if k == 3 { 255 } else { data[3 * p + k] },
        PngColor::Grayscale => if k == 3 { 255 } else { data[p] },
        PngColor::GrayscaleAlpha => if k == 3 { data[2 * p + 1] } else { data[2 * p] },
        _ => data[4 * p + k],
    }
}

/// The RGBA samples of `data`: one pixel per whole group of `channels(color)`
/// samples (a trailing partial group is dropped), four samples per pixel.
pub open spec fn widen_to_rgba(color: PngColor, data: Seq<u8>) -> Seq<u8> {
    if color == PngColor::Rgba {
        data
    } else {
        let pixels = data.len() / channels(color);
        Seq::new(4 * pixels, |i: int| rgba_sample(color, data, i / 4, i % 4))
    }
}

/// Why a decoded frame cannot be turned into RGBA pixels.
pub open spec fn frame_refusal(width: u32, height: u32, color: PngColor) -> Option<Seq<char>> {
    let pixels = width * height;
    if pixels == 0 || pixels > FENBI_IMAGE_MAX_PIXELS {
        Some("image size out of range"@)
    } else if color == PngColor::Indexed {
        Some("indexed png was not expanded"@)
    } else {
        None
    }
}

proof fn lemma_div_mod_4(p: int, k: int)
    requires
        0 <= p,
        0 <= k < 4,
    ensures
        (4 * p + k) / 4 == p,
        (4 * p + k) % 4 == k,
{
    assert((4 * p + k) / 4 == p && (4 * p + k) % 4 == k) by (nonlinear_arith)
        requires
            0 <= p,
            0 <= k < 4,
    ;
}

/// Widens the samples of an 8-bit frame to RGBA.
fn widen(color: PngColor, data: &Vec<u8>) -> (out: Vec<u8>)
    requires
        color != PngColor::Indexed,
    ensures
        out@ == widen_to_rgba(color, data@),
{
    if let PngColor::Rgba = color {
        return data.clone();
    }
    let step: usize = match color {
        PngColor::Rgb => 3,
        PngColor::GrayscaleAlpha => 2,
        _ => 1,
    };
    assert(step == channels(color));
    let n = data.len();
    let pixels = n / step;
    let mut out: Vec<u8> = Vec::new();
    let mut p: usize = 0;
    while p < pixels
        invariant
            color != PngColor::Indexed && color != PngColor::Rgba,
            step == channels(color),
            pixels == data@.len() / (step as nat),
            n == data@.len(),
            p <= pixels,
            out@.len() == 4 * p,
            forall|i: int| 0 <= i < 4 * p ==> out@[i] == rgba_sample(color, data@, i / 4, i % 4),
        decreases pixels - p,
    {
        assert(step * (p + 1) <= data@.len()) by (nonlinear_arith)
            requires
                p < pixels,
                pixels == data@.len() / (step as nat),
                step >= 1,
        ;
        assert(color == PngColor::Rgb ==> 3 * p + 3 <= data@.len());
        assert(color == PngColor::GrayscaleAlpha ==> 2 * p + 2 <= data@.len());
        assert(color == PngColor::Grayscale ==> p + 1 <= data@.len());
        let (r, g, b, a) = match color {
            PngColor::Rgb => (data[3 * p], data[3 * p + 1], data[3 * p + 2], 255u8),
            PngColor::GrayscaleAlpha => (data[2 * p], data[2 * p], data[2 * p], data[2 * p + 1]),
            _ => (data[p], data[p], data[p], 255u8),
        };
        out.push(r);
        out.push(g);
        out.push(b);
        out.push(a);
        proof {
            assert forall|i: int| 0 <= i < 4 * (p + 1) implies out@[i] == rgba_sample(
                color,
                data@,
                i / 4,
                i % 4,
            ) by {
                if i >= 4 * p {
                    lemma_div_mod_4(p as int, i - 4 * p);
                }
            }
        }
        p = p + 1;
    }
    assert(out@ =~= widen_to_rgba(color, data@));
    out
}

/// Turns a decoded frame into RGBA pixels, refusing frames that are empty,
/// larger than `FENBI_IMAGE_MAX_PIXELS` or still indexed.
pub fn rgba_from_frame(frame: DecodedFrame) -> (res: Result<(u32, u32, Vec<u8>), String>)
    ensures
        match frame_refusal(frame.width, frame.height, frame.color) {
            Some(reason) => res matches Err(e) && e@ == reason,
            None => res matches Ok((w, h, rgba)) && w == frame.width && h == frame.height
                && rgba@ == widen_to_rgba(frame.color, frame.data@),
        },
{
    assert(frame.width as u64 * frame.height as u64 <= u32::MAX as u64 * u32::MAX as u64)
        by (nonlinear_arith);
    let pixel_count = frame.width as u64 * frame.height as u64;
    if pixel_count == 0 || pixel_count > FENBI_IMAGE_MAX_PIXELS {
        return Err(String::from_str("image size out of range"));
    }
    if let PngColor::Indexed = frame.color {
        return Err(String::from_str("indexed png was not expanded"));
    }
    let rgba = widen(frame.color, &frame.data);
    Ok((frame.width, frame.height, rgba))
}

/// The outcome of `decode_png_rgba` on `bytes`.
pub open spec fn decoded_rgba(bytes: Seq<u8>) -> Result<(u32, u32, Seq<u8>), Seq<char>> {
    match png_decode(bytes) {
        Err(e) => Err(e),
        Ok((w, h, color, data)) => match frame_refusal(w, h, color) {
            Some(reason) => Err(reason),
            None => Ok((w, h, widen_to_rgba(color, data))),
        },
    }
}

/// Decodes a PNG into its width, height and 8-bit RGBA samples.
pub fn decode_png_rgba(bytes: &[u8]) -> (res: Result<(u32, u32, Vec<u8>), String>)
    ensures
        match res {
            Ok((w, h, rgba)) => decoded_rgba(bytes@) == Ok::<_, Seq<char>>((w, h, rgba@)),
            Err(e) => decoded_rgba(bytes@) == Err::<(u32, u32, Seq<u8>), _>(e@),
        },
{
    let frame = png_decode_frame(bytes)?;
    rgba_from_frame(frame)
}

/// Encodes 8-bit RGBA samples as a PNG; the image's size in bytes must fit
/// in `usize`.
pub fn encode_png_rgba(width: u32, height: u32, rgba: &[u8]) -> (res: Result<Vec<u8>, String>)
    requires
        4 * width * height <= usize::MAX,
    ensures
        match res {
            Ok(out) => png_encode(width, height, rgba@) == Ok::<_, Seq<char>>(out@),
            Err(e) => png_encode(width, height, rgba@) == Err::<Seq<u8>, _>(e@),
        },
{
    png_encode_rgba(width, height, rgba)
}

} // verus!
