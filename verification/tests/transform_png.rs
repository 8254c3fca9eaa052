//! The PNG tile transform, exercised against real encoded images.

use pmtiles_raster_tool::transform::{GsiDemPngToTerrainRgbPng, Transform, TransformError};

fn encode_png(
    width: u32,
    height: u32,
    color: png::ColorType,
    depth: png::BitDepth,
    palette: Option<Vec<u8>>,
    data: &[u8],
) -> Vec<u8> {
    let mut out: Vec<u8> = Vec::new();
    let mut enc = png::Encoder::new(&mut out, width, height);
    enc.set_color(color);
    enc.set_depth(depth);
    if let Some(p) = palette {
        enc.set_palette(p);
    }
    let mut writer = enc.write_header().unwrap();
    writer.write_image_data(data).unwrap();
    writer.finish().unwrap();
    out
}

fn decode_png(bytes: &[u8]) -> (png::OutputInfo, Vec<u8>, Option<Vec<u8>>) {
    let decoder = png::Decoder::new(std::io::Cursor::new(bytes));
    let mut reader = decoder.read_info().unwrap();
    let mut buf: Vec<u8> = vec![0u8; reader.output_buffer_size().unwrap()];
    let info = reader.next_frame(&mut buf).unwrap();
    buf.truncate(info.buffer_size());
    let palette = reader.info().palette.as_ref().map(|p| p.to_vec());
    (info, buf, palette)
}

fn solid_rgb(width: u32, height: u32, rgb: [u8; 3]) -> Vec<u8> {
    let mut data: Vec<u8> = Vec::new();
    for _ in 0..(width * height) {
        data.extend_from_slice(&rgb);
    }
    data
}

#[test]
fn rgb_tile_becomes_rgba_terrain() {
    let input = encode_png(
        2,
        2,
        png::ColorType::Rgb,
        png::BitDepth::Eight,
        None,
        &solid_rgb(2, 2, [0x00, 0x01, 0xF4]),
    );
    let t = GsiDemPngToTerrainRgbPng::new();
    let out = t.transform(&input).unwrap();
    let (info, data, _) = decode_png(&out);
    assert_eq!(info.color_type, png::ColorType::Rgba);
    assert_eq!(info.bit_depth, png::BitDepth::Eight);
    assert_eq!((info.width, info.height), (2, 2));
    for px in data.chunks_exact(4) {
        assert_eq!(px, &[0x01, 0x86, 0xD2, 0xFF]);
    }
}

#[test]
fn rgba_tile_keeps_dimensions_and_forces_alpha() {
    let mut data: Vec<u8> = Vec::new();
    for a in [0u8, 0x55, 0xAA, 0xFF] {
        data.extend_from_slice(&[0x80, 0x00, 0x00, a]);
    }
    let input = encode_png(4, 1, png::ColorType::Rgba, png::BitDepth::Eight, None, &data);
    let t = GsiDemPngToTerrainRgbPng::new();
    let out = t.transform(&input).unwrap();
    let (info, data, _) = decode_png(&out);
    assert_eq!(info.color_type, png::ColorType::Rgba);
    assert_eq!((info.width, info.height), (4, 1));
    for px in data.chunks_exact(4) {
        assert_eq!(px, &[0x01, 0x86, 0xA0, 0xFF]);
    }
}

#[test]
fn indexed_tile_keeps_indices_and_remaps_palette() {
    let palette: Vec<u8> = vec![
        0x00, 0x01, 0xF4, // 500 cm
        0x80, 0x00, 0x00, // sentinel
    ];
    let indices: Vec<u8> = vec![0, 1, 1, 0];
    let input = encode_png(
        2,
        2,
        png::ColorType::Indexed,
        png::BitDepth::Eight,
        Some(palette),
        &indices,
    );
    let t = GsiDemPngToTerrainRgbPng::new();
    let out = t.transform(&input).unwrap();
    let (info, data, palette) = decode_png(&out);
    assert_eq!(info.color_type, png::ColorType::Indexed);
    assert_eq!(info.bit_depth, png::BitDepth::Eight);
    assert_eq!(data, indices);
    assert_eq!(
        palette.unwrap(),
        vec![0x01, 0x86, 0xD2, 0x01, 0x86, 0xA0]
    );
}

#[test]
fn indexed_path_equals_truecolor_path() {
    // The same image, once indexed and once expanded to truecolor, must
    // transform to bit-identical pixel colors.
    let palette: Vec<u8> = vec![0x00, 0x01, 0xF4, 0x80, 0x00, 0x00, 0xFF, 0xFF, 0xFB];
    let indices: Vec<u8> = vec![2, 0, 1, 1, 0, 2];
    let indexed = encode_png(
        3,
        2,
        png::ColorType::Indexed,
        png::BitDepth::Eight,
        Some(palette.clone()),
        &indices,
    );
    let mut truecolor_data: Vec<u8> = Vec::new();
    for &i in &indices {
        let base: usize = 3 * (i as usize);
        truecolor_data.extend_from_slice(&palette[base..base + 3]);
    }
    let truecolor = encode_png(
        3,
        2,
        png::ColorType::Rgb,
        png::BitDepth::Eight,
        None,
        &truecolor_data,
    );

    let t = GsiDemPngToTerrainRgbPng::new();
    let out_indexed = t.transform(&indexed).unwrap();
    let out_truecolor = t.transform(&truecolor).unwrap();

    let (_, idx_data, idx_palette) = decode_png(&out_indexed);
    let idx_palette = idx_palette.unwrap();
    let mut indexed_pixels: Vec<u8> = Vec::new();
    for &i in &idx_data {
        let base: usize = 3 * (i as usize);
        indexed_pixels.extend_from_slice(&idx_palette[base..base + 3]);
        indexed_pixels.push(255);
    }
    let (_, truecolor_pixels, _) = decode_png(&out_truecolor);
    assert_eq!(indexed_pixels, truecolor_pixels);
}

#[test]
fn garbage_bytes_are_a_decode_error() {
    let t = GsiDemPngToTerrainRgbPng::new();
    let r = t.transform(b"not a png at all");
    assert_eq!(r.unwrap_err(), TransformError::DecodeFailed);
}

#[test]
fn sixteen_bit_rgb_is_unsupported() {
    let mut data: Vec<u8> = Vec::new();
    for _ in 0..6 {
        data.push(0);
    }
    let input = encode_png(1, 1, png::ColorType::Rgb, png::BitDepth::Sixteen, None, &data);
    let t = GsiDemPngToTerrainRgbPng::new();
    assert_eq!(t.transform(&input).unwrap_err(), TransformError::UnsupportedFormat);
}

#[test]
fn grayscale_is_unsupported() {
    let input = encode_png(2, 1, png::ColorType::Grayscale, png::BitDepth::Eight, None, &[7, 9]);
    let t = GsiDemPngToTerrainRgbPng::new();
    assert_eq!(t.transform(&input).unwrap_err(), TransformError::UnsupportedFormat);
}

#[test]
fn transform_names_form_a_closed_set() {
    assert!(matches!(
        Transform::from_str("gsidempng-to-terrainrgbpng"),
        Ok(Transform::GsiDemPngToTerrainRgbPng(_))
    ));
    assert_eq!(
        Transform::from_str("sepia").unwrap_err(),
        TransformError::UnknownTransformName
    );
    assert_eq!(
        Transform::from_str("").unwrap_err(),
        TransformError::UnknownTransformName
    );
}

#[test]
fn transform_enum_delegates() {
    let input = encode_png(
        1,
        1,
        png::ColorType::Rgb,
        png::BitDepth::Eight,
        None,
        &[0x80, 0x00, 0x00],
    );
    let transform = Transform::from_str("gsidempng-to-terrainrgbpng").unwrap();
    let out = transform.transform(&input).unwrap();
    let (_, data, _) = decode_png(&out);
    assert_eq!(data, vec![0x01, 0x86, 0xA0, 0xFF]);
}
