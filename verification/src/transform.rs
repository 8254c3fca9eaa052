//! The tile transforms: a closed set of named, stateless functions from tile
//! bytes to tile bytes. The one concrete transform remaps a DEM elevation
//! PNG to a terrain-RGB PNG, by the palette for indexed images and by the
//! pixels for truecolor ones.

use vstd::prelude::*;

use crate::codec::{
    decode_png, encode_indexed_png, encode_rgba8_png, indexed_png_encoding, png_decoding,
    rgba_png_encoding, DecodedImage, DecodedImageView, COLOR_INDEXED, COLOR_RGB, COLOR_RGBA,
};
use crate::pixel::{
    expand_rgb8_to_rgba8, expanded_rgba, palette_transformed, rgba_transformed,
    transform_palette_rgb_in_place, transform_rgba8_in_place,
};
use crate::tile::{ReadTileMsg, WriteTileMsg};

verus! {

/// Why a transform did not produce an output tile.
#[derive(Clone, Copy, Debug, PartialEq, Eq, Structural)]
pub enum TransformError {
    /// The input bytes do not decode as a PNG image.
    DecodeFailed,
    /// A color type and bit depth combination the transform does not accept.
    UnsupportedFormat,
    /// An indexed image without a palette.
    MissingPalette,
    /// An indexed image whose palette holds no complete RGB triple.
    EmptyPalette,
    /// An indexed image whose palette length is not a whole number of RGB
    /// triples.
    RaggedPalette,
    /// Re-encoding the transformed image failed.
    EncodeFailed,
    /// A transform name outside the supported set.
    UnknownTransformName,
}

impl TransformError {
    /// A fixed description of the error.
    pub fn message(&self) -> &'static str {
        match self {
            TransformError::DecodeFailed => "failed to decode PNG tile",
            TransformError::UnsupportedFormat => "only 8-bit RGB/RGBA or indexed PNG supported",
            TransformError::MissingPalette => "indexed PNG missing palette",
            TransformError::EmptyPalette => "indexed PNG has empty palette",
            TransformError::RaggedPalette => "indexed PNG palette is not whole RGB triples",
            TransformError::EncodeFailed => "failed to encode transformed tile",
            TransformError::UnknownTransformName => "invalid transform name",
        }
    }
}

/// Whether a decoded image is one the DEM transform accepts.
pub open spec fn supported_image(img: DecodedImageView) -> bool {
    if img.color == COLOR_INDEXED {
        match img.palette {
            Some(p) => p.len() >= 3 && p.len() % 3 == 0,
            None => false,
        }
    } else {
        (img.color == COLOR_RGBA || img.color == COLOR_RGB) && img.depth == 8
    }
}

/// The exact result of the DEM-to-terrain transform on a byte stream:
/// decode, remap the palette or the pixels, re-encode; or the error that
/// stops it.
pub open spec fn gsidem_transform_spec(input: Seq<u8>) -> Result<Seq<u8>, TransformError> {
    match png_decoding(input) {
        None => Err(TransformError::DecodeFailed),
        Some(img) => {
            if img.color == COLOR_INDEXED {
                match img.palette {
                    None => Err(TransformError::MissingPalette),
                    Some(p) => {
                        if p.len() / 3 == 0 {
                            Err(TransformError::EmptyPalette)
                        } else if p.len() % 3 != 0 {
                            Err(TransformError::RaggedPalette)
                        } else {
                            match indexed_png_encoding(
                                img.width,
                                img.height,
                                img.depth,
                                palette_transformed(p),
                                img.trns,
                                img.data,
                            ) {
                                Some(out) => Ok(out),
                                None => Err(TransformError::EncodeFailed),
                            }
                        }
                    },
                }
            } else if img.color == COLOR_RGBA && img.depth == 8 {
                match rgba_png_encoding(img.width, img.height, rgba_transformed(img.data)) {
                    Some(out) => Ok(out),
                    None => Err(TransformError::EncodeFailed),
                }
            } else if img.color == COLOR_RGB && img.depth == 8 {
                match rgba_png_encoding(
                    img.width,
                    img.height,
                    rgba_transformed(expanded_rgba(img.data)),
                ) {
                    Some(out) => Ok(out),
                    None => Err(TransformError::EncodeFailed),
                }
            } else {
                Err(TransformError::UnsupportedFormat)
            }
        },
    }
}

/// The DEM elevation PNG to terrain-RGB PNG transform.
#[derive(Clone, Copy, Debug)]
pub struct GsiDemPngToTerrainRgbPng;

impl GsiDemPngToTerrainRgbPng {
    /// A fresh, stateless instance.
    pub fn new() -> Self {
        GsiDemPngToTerrainRgbPng
    }

    /// Transforms one tile. The result is exactly what
    /// `gsidem_transform_spec` assigns to the input, and every decodable,
    /// supported image is transformed successfully.
    pub fn transform(&self, input: &[u8]) -> (r: Result<Vec<u8>, TransformError>)
        ensures
            (match gsidem_transform_spec(input@) {
                Ok(bytes) => r is Ok && r.unwrap()@ == bytes,
                Err(e) => r is Err && r.unwrap_err() == e,
            }),
            (match png_decoding(input@) {
                Some(img) => supported_image(img) ==> r is Ok,
                None => true,
            }),
    {
        let img = match decode_png(input) {
            Some(img) => img,
            None => {
                return Err(TransformError::DecodeFailed);
            },
        };
        let ghost iv = png_decoding(input@).unwrap();
        let DecodedImage { width, height, color, depth, data, palette, trns } = img;
        if color == COLOR_INDEXED {
            let mut palette = match palette {
                Some(p) => p,
                None => {
                    return Err(TransformError::MissingPalette);
                },
            };
            if palette.len() / 3 == 0 {
                return Err(TransformError::EmptyPalette);
            }
            if palette.len() % 3 != 0 {
                return Err(TransformError::RaggedPalette);
            }
            transform_palette_rgb_in_place(&mut palette);
            proof {
                assert(data.len() <= usize::MAX);
            }
            match encode_indexed_png(width, height, depth, &palette, &trns, &data) {
                Some(out) => Ok(out),
                None => Err(TransformError::EncodeFailed),
            }
        } else if color == COLOR_RGBA && depth == 8 {
            let ghost w = iv.width as int;
            let ghost h = iv.height as int;
            proof {
                vstd::arithmetic::div_mod::lemma_fundamental_div_mod_converse(
                    w * 4 * 8 + 7,
                    8,
                    4 * w,
                    7,
                );
                vstd::arithmetic::mul::lemma_mul_is_associative(4, w, h);
                vstd::arithmetic::mul::lemma_mul_is_commutative(4, w * h);
                vstd::arithmetic::div_mod::lemma_fundamental_div_mod_converse(4 * w * h, 4, w * h, 0);
                assert(data@.len() == 4 * w * h);
                assert(data.len() <= usize::MAX);
            }
            let mut data = data;
            transform_rgba8_in_place(&mut data);
            match encode_rgba8_png(width, height, &data) {
                Some(out) => Ok(out),
                None => Err(TransformError::EncodeFailed),
            }
        } else if color == COLOR_RGB && depth == 8 {
            let ghost w = iv.width as int;
            let ghost h = iv.height as int;
            proof {
                vstd::arithmetic::div_mod::lemma_fundamental_div_mod_converse(
                    w * 3 * 8 + 7,
                    8,
                    3 * w,
                    7,
                );
                vstd::arithmetic::mul::lemma_mul_is_associative(3, w, h);
                vstd::arithmetic::mul::lemma_mul_is_commutative(3, w * h);
                vstd::arithmetic::div_mod::lemma_fundamental_div_mod_converse(3 * w * h, 3, w * h, 0);
                assert(data@.len() == 3 * w * h && data@.len() / 3 == w * h);
            }
            let mut data = expand_rgb8_to_rgba8(data.as_slice());
            proof {
                vstd::arithmetic::mul::lemma_mul_is_commutative(w * h, 4);
                vstd::arithmetic::mul::lemma_mul_is_associative(4, w, h);
                vstd::arithmetic::div_mod::lemma_fundamental_div_mod_converse(4 * w * h, 4, w * h, 0);
                assert(data@.len() == 4 * w * h);
                assert(data.len() <= usize::MAX);
            }
            transform_rgba8_in_place(&mut data);
            match encode_rgba8_png(width, height, &data) {
                Some(out) => Ok(out),
                None => Err(TransformError::EncodeFailed),
            }
        } else {
            Err(TransformError::UnsupportedFormat)
        }
    }
}

/// The closed set of supported transforms, selected by name once at
/// startup.
#[derive(Clone, Copy, Debug)]
pub enum Transform {
    /// Remap a DEM elevation PNG to a terrain-RGB PNG.
    GsiDemPngToTerrainRgbPng(GsiDemPngToTerrainRgbPng),
}

/// The name that selects the DEM-to-terrain transform.
pub open spec fn gsidem_transform_name() -> Seq<char> {
    "gsidempng-to-terrainrgbpng"@
}

impl Transform {
    /// Looks a transform up by name; a name outside the supported set is a
    /// configuration error.
    pub fn from_str(s: &str) -> (r: Result<Transform, TransformError>)
        ensures
            r is Ok <==> s@ == gsidem_transform_name(),
            r is Err ==> r.unwrap_err() == TransformError::UnknownTransformName,
    {
        if s.to_owned() == "gsidempng-to-terrainrgbpng".to_owned() {
            Ok(Transform::GsiDemPngToTerrainRgbPng(GsiDemPngToTerrainRgbPng::new()))
        } else {
            Err(TransformError::UnknownTransformName)
        }
    }

    /// The per-item work of the parallel transform stage: applies the
    /// selected transform to one fetched tile, keeping its rank and
    /// coordinate. A failure is reported with the coordinate of the tile
    /// at fault.
    pub fn transform_tile_msg(&self, msg: ReadTileMsg) -> (r: Result<
        WriteTileMsg,
        (crate::tile::Tile, TransformError),
    >)
        ensures
            (match gsidem_transform_spec(msg.tile_data@) {
                Ok(bytes) => r is Ok && r.unwrap().tile_data@ == bytes && r.unwrap().index
                    == msg.index && r.unwrap().tile == msg.tile,
                Err(e) => r is Err && r.unwrap_err() == (msg.tile, e),
            }),
    {
        match self.transform(msg.tile_data.as_slice()) {
            Ok(data) => Ok(WriteTileMsg { index: msg.index, tile: msg.tile, tile_data: data }),
            Err(e) => Err((msg.tile, e)),
        }
    }

    /// Applies the selected transform to one tile.
    pub fn transform(&self, input: &[u8]) -> (r: Result<Vec<u8>, TransformError>)
        ensures
            (match gsidem_transform_spec(input@) {
                Ok(bytes) => r is Ok && r.unwrap()@ == bytes,
                Err(e) => r is Err && r.unwrap_err() == e,
            }),
            (match png_decoding(input@) {
                Some(img) => supported_image(img) ==> r is Ok,
                None => true,
            }),
    {
        match self {
            Transform::GsiDemPngToTerrainRgbPng(t) => t.transform(input),
        }
    }
}

} // verus!
