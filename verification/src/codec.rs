//! The image codec boundary: decoding a PNG byte stream into its raw parts
//! and re-encoding raw parts as a PNG byte stream, through the `png` crate.
//! The codec's results are named, opaque functions of their inputs; what the
//! source plainly guarantees of them (well-formedness of a decoded image,
//! when encoding succeeds) is stated alongside.

use vstd::prelude::*;

verus! {

/// PNG color type code for grayscale images.
pub const COLOR_GRAYSCALE: u8 = 0;

/// PNG color type code for 3-sample truecolor images.
pub const COLOR_RGB: u8 = 2;

/// PNG color type code for palette-indexed images.
pub const COLOR_INDEXED: u8 = 3;

/// PNG color type code for grayscale images with an alpha channel.
pub const COLOR_GRAYSCALE_ALPHA: u8 = 4;

/// PNG color type code for 4-sample truecolor images with an alpha channel.
pub const COLOR_RGBA: u8 = 6;

/// A decoded image: dimensions, color type and bit depth as the header
/// declares them, the raw scanline data with no output transformation
/// applied, and the palette and transparency table when present.
pub struct DecodedImage {
    pub width: u32,
    pub height: u32,
    pub color: u8,
    pub depth: u8,
    pub data: Vec<u8>,
    pub palette: Option<Vec<u8>>,
    pub trns: Option<Vec<u8>>,
}

/// The mathematical image a `DecodedImage` holds.
pub ghost struct DecodedImageView {
    pub width: u32,
    pub height: u32,
    pub color: u8,
    pub depth: u8,
    pub data: Seq<u8>,
    pub palette: Option<Seq<u8>>,
    pub trns: Option<Seq<u8>>,
}

/// The byte sequences an optional byte buffer holds.
pub open spec fn opt_bytes(o: Option<Vec<u8>>) -> Option<Seq<u8>> {
    match o {
        Some(v) => Some(v@),
        None => None,
    }
}

impl View for DecodedImage {
    type V = DecodedImageView;

    open spec fn view(&self) -> DecodedImageView {
        DecodedImageView {
            width: self.width,
            height: self.height,
            color: self.color,
            depth: self.depth,
            data: self.data@,
            palette: opt_bytes(self.palette),
            trns: opt_bytes(self.trns),
        }
    }
}

/// Samples per pixel of a color type.
pub open spec fn samples(color: u8) -> int {
    if color == COLOR_RGB {
        3
    } else if color == COLOR_RGBA {
        4
    } else if color == COLOR_GRAYSCALE_ALPHA {
        2
    } else {
        1
    }
}

/// Bytes of one scanline of raw image data.
pub open spec fn scanline_bytes(color: u8, depth: u8, width: u32) -> int {
    (width * samples(color) * depth + 7) / 8
}

/// Whether a color type and bit depth are a combination the PNG format
/// allows.
pub open spec fn valid_color_depth(color: u8, depth: u8) -> bool {
    if color == COLOR_GRAYSCALE {
        depth == 1 || depth == 2 || depth == 4 || depth == 8 || depth == 16
    } else if color == COLOR_INDEXED {
        depth == 1 || depth == 2 || depth == 4 || depth == 8
    } else if color == COLOR_RGB || color == COLOR_RGBA || color == COLOR_GRAYSCALE_ALPHA {
        depth == 8 || depth == 16
    } else {
        false
    }
}

/// What every successful decode guarantees: positive dimensions, a color
/// type and bit depth the format allows, data of exactly one scanline per
/// row, and palette and transparency tables inside their chunk size limits.
pub open spec fn decoded_wf(img: DecodedImageView) -> bool {
    &&& img.width >= 1
    &&& img.height >= 1
    &&& valid_color_depth(img.color, img.depth)
    &&& img.data.len() == scanline_bytes(img.color, img.depth, img.width) * img.height
    &&& match img.palette {
        Some(p) => 3 <= p.len() <= 768,
        None => true,
    }
    &&& match img.trns {
        Some(t) => 1 <= t.len() <= 256,
        None => true,
    }
}

/// What the PNG decoder yields for a byte stream: `None` where decoding
/// fails, otherwise the decoded image. The result is a function of the
/// bytes alone.
pub uninterp spec fn png_decoding(input: Seq<u8>) -> Option<DecodedImageView>;

/// Relies on png's `Decoder` and `Reader`: decodes a PNG byte stream into
/// its header fields, raw image data, palette and transparency table, with
/// no output transformation. The decoder rejects zero dimensions and invalid
/// color/depth combinations, fills exactly one scanline per row, and bounds
/// the palette and transparency chunks, which is what `decoded_wf` states.
#[verifier::external_body]
pub(crate) fn decode_png(input: &[u8]) -> (r: Option<DecodedImage>)
    ensures
        r is Some <==> png_decoding(input@) is Some,
        r is Some ==> r.unwrap()@ == png_decoding(input@).unwrap(),
        r is Some ==> decoded_wf(png_decoding(input@).unwrap()),
{
    let mut reader = png::Decoder::new(std::io::Cursor::new(input)).read_info().ok()?;
    let mut data = vec![0u8; reader.output_buffer_size()?];
    let frame = reader.next_frame(&mut data).ok()?;
    data.truncate(frame.buffer_size());
    let info = reader.info();
    Some(DecodedImage {
        width: frame.width,
        height: frame.height,
        color: frame.color_type as u8,
        depth: frame.bit_depth as u8,
        palette: info.palette.as_ref().map(|p| p.to_vec()),
        trns: info.trns.as_ref().map(|t| t.to_vec()),
        data,
    })
}

/// What the PNG encoder produces for 8-bit RGBA data under the fast
/// compression setting: `None` where encoding fails, otherwise the encoded
/// bytes. The result is a function of the arguments alone.
pub uninterp spec fn rgba_png_encoding(width: u32, height: u32, data: Seq<u8>) -> Option<Seq<u8>>;

/// Relies on png's `Encoder`: encodes 8-bit RGBA data with the fast
/// compression setting. Encoding into a memory buffer fails only on a zero
/// dimension or on data whose length does not match the dimensions. The
/// buffer size the encoder computes must fit the machine word.
#[verifier::external_body]
pub(crate) fn encode_rgba8_png(width: u32, height: u32, data: &Vec<u8>) -> (r: Option<Vec<u8>>)
    requires
        4 * width * height <= usize::MAX,
    ensures
        r is Some <==> rgba_png_encoding(width, height, data@) is Some,
        r is Some ==> r.unwrap()@ == rgba_png_encoding(width, height, data@).unwrap(),
        width >= 1 && height >= 1 && data@.len() == 4 * width * height ==> r is Some,
{
    let mut out = Vec::new();
    let mut enc = png::Encoder::new(&mut out, width, height);
    enc.set_color(png::ColorType::Rgba);
    enc.set_depth(png::BitDepth::Eight);
    enc.set_compression(png::Compression::Fast);
    let mut writer = enc.write_header().ok()?;
    writer.write_image_data(data).ok()?;
    writer.finish().ok()?;
    Some(out)
}

/// What the PNG encoder produces for palette-indexed data under the fast
/// compression setting: `None` where encoding fails, otherwise the encoded
/// bytes. The result is a function of the arguments alone.
pub uninterp spec fn indexed_png_encoding(
    width: u32,
    height: u32,
    depth: u8,
    palette: Seq<u8>,
    trns: Option<Seq<u8>>,
    data: Seq<u8>,
) -> Option<Seq<u8>>;

/// Relies on png's `Encoder`: encodes palette-indexed data at the given bit
/// depth, with the given palette and optional transparency table, with the
/// fast compression setting. Encoding into a memory buffer succeeds whenever
/// the dimensions are positive, the depth is one the format allows for
/// indexed color, the palette is present and within its chunk size limit,
/// and the data length matches the dimensions. The buffer size the encoder
/// computes must fit the machine word.
#[verifier::external_body]
pub(crate) fn encode_indexed_png(
    width: u32,
    height: u32,
    depth: u8,
    palette: &Vec<u8>,
    trns: &Option<Vec<u8>>,
    data: &Vec<u8>,
) -> (r: Option<Vec<u8>>)
    requires
        scanline_bytes(COLOR_INDEXED, depth, width) * height <= usize::MAX,
    ensures
        r is Some <==> indexed_png_encoding(
            width,
            height,
            depth,
            palette@,
            opt_bytes(*trns),
            data@,
        ) is Some,
        r is Some ==> r.unwrap()@ == indexed_png_encoding(
            width,
            height,
            depth,
            palette@,
            opt_bytes(*trns),
            data@,
        ).unwrap(),
        width >= 1 && height >= 1 && (depth == 1 || depth == 2 || depth == 4 || depth == 8) && 1
            <= palette@.len() <= 768 && (match opt_bytes(*trns) {
            Some(t) => 1 <= t.len() <= 256,
            None => true,
        }) && data@.len() == scanline_bytes(COLOR_INDEXED, depth, width) * height ==> r is Some,
{
    let bit_depth = match depth { 1 => png::BitDepth::One, 2 => png::BitDepth::Two, 4 => png::BitDepth::Four, 8 => png::BitDepth::Eight, _ => return None };
    let mut out = Vec::new();
    let mut enc = png::Encoder::new(&mut out, width, height);
    enc.set_color(png::ColorType::Indexed);
    enc.set_depth(bit_depth);
    enc.set_compression(png::Compression::Fast);
    enc.set_palette(palette.clone());
    if let Some(t) = trns {
        enc.set_trns(t.clone());
    }
    let mut writer = enc.write_header().ok()?;
    writer.write_image_data(data).ok()?;
    writer.finish().ok()?;
    Some(out)
}

} // verus!
