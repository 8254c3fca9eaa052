//! The numeric laws of the per-pixel elevation remapping.

use pmtiles_raster_tool::pixel::{
    dem_rgb_to_terrain_rgb, expand_rgb8_to_rgba8, gsi_rgb_to_cm, round_decimeters, sign_extend_24,
    terrain_value_from_cm, transform_palette_rgb_in_place, transform_rgba8_in_place,
};

#[test]
fn sentinel_maps_to_base_value() {
    // Packed value 0x800000 is -8,388,608: the "no data" sentinel.
    assert_eq!(gsi_rgb_to_cm(0x80, 0x00, 0x00), 0);
    assert_eq!(terrain_value_from_cm(0), 100_000);
    assert_eq!(dem_rgb_to_terrain_rgb(0x80, 0x00, 0x00), [0x01, 0x86, 0xA0]);
}

#[test]
fn positive_elevation_rounds_to_decimeters() {
    // 500 cm -> 50 dm -> terrain value 100050.
    assert_eq!(gsi_rgb_to_cm(0x00, 0x01, 0xF4), 500);
    assert_eq!(round_decimeters(500), 50);
    assert_eq!(terrain_value_from_cm(500), 100_050);
    assert_eq!(dem_rgb_to_terrain_rgb(0x00, 0x01, 0xF4), [0x01, 0x86, 0xD2]);
}

#[test]
fn negative_tie_rounds_like_the_reference() {
    // -5 cm: a = 0, decimeters 0, value 100000.
    assert_eq!(gsi_rgb_to_cm(0xFF, 0xFF, 0xFB), -5);
    assert_eq!(round_decimeters(-5), 0);
    assert_eq!(terrain_value_from_cm(-5), 100_000);
    // -15 cm: a = -10, decimeters -((10 + 9) / 10) = -1, value 99999.
    assert_eq!(gsi_rgb_to_cm(0xFF, 0xFF, 0xF1), -15);
    assert_eq!(round_decimeters(-15), -1);
    assert_eq!(terrain_value_from_cm(-15), 99_999);
    assert_eq!(dem_rgb_to_terrain_rgb(0xFF, 0xFF, 0xF1), [0x01, 0x86, 0x9F]);
}

#[test]
fn sign_extension_reads_twos_complement() {
    assert_eq!(sign_extend_24(0), 0);
    assert_eq!(sign_extend_24(0x7F_FFFF), 8_388_607);
    assert_eq!(sign_extend_24(0x80_0000), -8_388_608);
    assert_eq!(sign_extend_24(0xFF_FFFF), -1);
}

#[test]
fn negative_terrain_value_packs_low_24_bits() {
    // -8,388,607 cm -> -838,861 dm -> value -738,861, packed as two's
    // complement in 24 bits.
    assert_eq!(gsi_rgb_to_cm(0x80, 0x00, 0x01), -8_388_607);
    assert_eq!(round_decimeters(-8_388_607), -838_861);
    assert_eq!(terrain_value_from_cm(-8_388_607), -738_861);
    let expected: u32 = (-738_861i32 as u32) & 0x00FF_FFFF;
    let rgb = dem_rgb_to_terrain_rgb(0x80, 0x00, 0x01);
    let packed: u32 = ((rgb[0] as u32) << 16) | ((rgb[1] as u32) << 8) | (rgb[2] as u32);
    assert_eq!(packed, expected);
}

#[test]
fn rgba_buffer_transforms_each_pixel_and_forces_alpha() {
    let mut data: Vec<u8> = vec![
        0x00, 0x01, 0xF4, 0x00, // 500 cm, transparent
        0x80, 0x00, 0x00, 0x7F, // sentinel, half transparent
    ];
    transform_rgba8_in_place(&mut data);
    assert_eq!(data, vec![0x01, 0x86, 0xD2, 0xFF, 0x01, 0x86, 0xA0, 0xFF]);
}

#[test]
fn rgb_buffer_expands_with_opaque_alpha() {
    let src: Vec<u8> = vec![1, 2, 3, 4, 5, 6];
    let out = expand_rgb8_to_rgba8(&src);
    assert_eq!(out, vec![1, 2, 3, 255, 4, 5, 6, 255]);
}

#[test]
fn palette_transform_matches_per_pixel_transform() {
    // Remapping the palette and re-reading the pixels through it gives the
    // same colors as remapping each expanded pixel.
    let palette: Vec<u8> = vec![
        0x00, 0x01, 0xF4, // 500 cm
        0x80, 0x00, 0x00, // sentinel
        0xFF, 0xFF, 0xFB, // -5 cm
    ];
    let indices: Vec<u8> = vec![2, 0, 1, 1, 0, 2];

    // Path one: transform the palette, then expand the indices.
    let mut new_palette = palette.clone();
    transform_palette_rgb_in_place(&mut new_palette);
    let mut by_palette: Vec<u8> = Vec::new();
    for &i in &indices {
        let base: usize = 3 * (i as usize);
        by_palette.extend_from_slice(&new_palette[base..base + 3]);
        by_palette.push(255);
    }

    // Path two: expand the indices to truecolor, then transform each pixel.
    let mut truecolor: Vec<u8> = Vec::new();
    for &i in &indices {
        let base: usize = 3 * (i as usize);
        truecolor.extend_from_slice(&palette[base..base + 3]);
    }
    let mut by_pixels = expand_rgb8_to_rgba8(&truecolor);
    transform_rgba8_in_place(&mut by_pixels);

    assert_eq!(by_palette, by_pixels);
}
