//! The per-pixel elevation remapping: a DEM RGB triple packs an elevation in
//! centimeters as a 24-bit two's-complement integer; the transform rounds it
//! to decimeters, offsets it by a fixed base, and re-packs it as three bytes.

use vstd::prelude::*;

verus! {

/// Big-endian 24-bit packing of an RGB triple.
pub open spec fn pack24(r: u8, g: u8, b: u8) -> int {
    r * 0x1_0000 + g * 0x100 + b
}

/// Reading of a 24-bit value as a two's-complement integer.
pub open spec fn sign_extend24(d: int) -> int
    recommends
        0 <= d < 0x100_0000,
{
    if d >= 0x80_0000 {
        d - 0x100_0000
    } else {
        d
    }
}

/// Elevation in centimeters encoded by a DEM RGB triple. The minimum
/// representable value is the "no data" sentinel and counts as 0 cm.
pub open spec fn elevation_cm(r: u8, g: u8, b: u8) -> int {
    let cm = sign_extend24(pack24(r, g, b));
    if cm == -0x80_0000 {
        0
    } else {
        cm
    }
}

/// Rounding of `cm / 10` to whole decimeters: the value `(cm + 5) / 10` with
/// the inner division truncating toward zero.
pub open spec fn decimeters(cm: int) -> int {
    let a = cm + 5;
    if a >= 0 {
        a / 10
    } else {
        -((-a + 9) / 10)
    }
}

/// The terrain encoding of an elevation: decimeters offset by a fixed base.
pub open spec fn terrain_value(cm: int) -> int {
    100_000 + decimeters(cm)
}

/// The low 24 bits of a value, as a non-negative integer.
pub open spec fn low24(v: int) -> int {
    v % 0x100_0000
}

/// The three output bytes for one input RGB triple: the terrain value of the
/// encoded elevation, truncated to 24 bits, big-endian.
pub open spec fn terrain_rgb(r: u8, g: u8, b: u8) -> Seq<u8> {
    let w = low24(terrain_value(elevation_cm(r, g, b)));
    seq![(w / 0x1_0000) as u8, ((w / 0x100) % 0x100) as u8, (w % 0x100) as u8]
}

/// Reads a 24-bit value as a signed integer.
pub fn sign_extend_24(d: i32) -> (r: i32)
    requires
        0 <= d < 0x100_0000,
    ensures
        r == sign_extend24(d as int),
{
    if d >= 0x80_0000 {
        d - 0x100_0000
    } else {
        d
    }
}

/// Decodes a DEM RGB triple to its elevation in centimeters, mapping the
/// sentinel to 0.
pub fn gsi_rgb_to_cm(r: u8, g: u8, b: u8) -> (cm: i32)
    ensures
        cm == elevation_cm(r, g, b),
        -0x80_0000 < cm < 0x80_0000,
{
    let d: i32 = (r as i32) * 0x1_0000 + (g as i32) * 0x100 + (b as i32);
    let mut cm = sign_extend_24(d);
    if cm == -8_388_608 {
        cm = 0;
    }
    cm
}

/// Rounds centimeters to whole decimeters as `decimeters` specifies.
pub fn round_decimeters(cm: i32) -> (r: i32)
    requires
        -0x80_0000 <= cm <= 0x80_0000,
    ensures
        r == decimeters(cm as int),
{
    let a = cm + 5;
    if a >= 0 {
        a / 10
    } else {
        -((-a + 9) / 10)
    }
}

/// The terrain value of an elevation in centimeters.
pub fn terrain_value_from_cm(cm: i32) -> (v: i32)
    requires
        -0x80_0000 <= cm <= 0x80_0000,
    ensures
        v == terrain_value(cm as int),
{
    100_000 + round_decimeters(cm)
}

/// A palette of packed RGB triples, each remapped through `terrain_rgb`.
pub open spec fn palette_transformed(p: Seq<u8>) -> Seq<u8>
    recommends
        p.len() % 3 == 0,
{
    Seq::new(
        p.len(),
        |i: int| terrain_rgb(p[3 * (i / 3)], p[3 * (i / 3) + 1], p[3 * (i / 3) + 2])[i % 3],
    )
}

/// A buffer of 4-byte RGBA pixels, each remapped through `terrain_rgb`, with
/// the alpha channel forced to fully opaque.
pub open spec fn rgba_transformed(s: Seq<u8>) -> Seq<u8>
    recommends
        s.len() % 4 == 0,
{
    Seq::new(
        s.len(),
        |i: int|
            if i % 4 == 3 {
                255u8
            } else {
                terrain_rgb(s[4 * (i / 4)], s[4 * (i / 4) + 1], s[4 * (i / 4) + 2])[i % 4]
            },
    )
}

/// A buffer of 3-byte RGB pixels expanded to 4-byte RGBA with opaque alpha.
pub open spec fn expanded_rgba(src: Seq<u8>) -> Seq<u8> {
    Seq::new(
        (src.len() / 3) * 4,
        |i: int|
            if i % 4 == 3 {
                255u8
            } else {
                src[3 * (i / 4) + i % 4]
            },
    )
}

/// Converts one DEM RGB triple to its terrain RGB triple.
pub fn dem_rgb_to_terrain_rgb(r: u8, g: u8, b: u8) -> (out: [u8; 3])
    ensures
        out@ == terrain_rgb(r, g, b),
{
    let cm = gsi_rgb_to_cm(r, g, b);
    let v = terrain_value_from_cm(cm);
    let w: i32 = if v >= 0 {
        v
    } else {
        v + 0x100_0000
    };
    let out = [(w / 0x1_0000) as u8, ((w / 0x100) % 0x100) as u8, (w % 0x100) as u8];
    assert(out@ =~= terrain_rgb(r, g, b));
    out
}

/// Remaps every packed RGB triple of a palette in place.
#[verifier::rlimit(50)]
pub fn transform_palette_rgb_in_place(palette: &mut Vec<u8>)
    requires
        old(palette)@.len() % 3 == 0,
    ensures
        final(palette)@ == palette_transformed(old(palette)@),
{
    let len = palette.len();
    let mut i: usize = 0;
    while i < len
        invariant
            palette@.len() == len,
            len == old(palette)@.len(),
            len % 3 == 0,
            i % 3 == 0,
            0 <= i <= len,
            forall|j: int| 0 <= j < i ==> palette@[j] == palette_transformed(old(palette)@)[j],
            forall|j: int| i <= j < len ==> palette@[j] == old(palette)@[j],
        decreases len - i,
    {
        let rgb = dem_rgb_to_terrain_rgb(palette[i], palette[i + 1], palette[i + 2]);
        palette.set(i, rgb[0]);
        palette.set(i + 1, rgb[1]);
        palette.set(i + 2, rgb[2]);
        assert forall|j: int| i <= j < i + 3 implies palette@[j] == palette_transformed(
            old(palette)@,
        )[j] by {
            vstd::arithmetic::div_mod::lemma_fundamental_div_mod_converse(
                j,
                3,
                i as int / 3,
                j - i,
            );
            assert(3 * (j / 3) == i && j % 3 == j - i);
        }
        i = i + 3;
    }
    assert(palette@ =~= palette_transformed(old(palette)@));
}

/// Remaps every 4-byte RGBA pixel of a decoded buffer in place.
#[verifier::rlimit(50)]
pub fn transform_rgba8_in_place(data: &mut Vec<u8>)
    requires
        old(data)@.len() % 4 == 0,
    ensures
        final(data)@ == rgba_transformed(old(data)@),
{
    let len = data.len();
    let mut i: usize = 0;
    while i < len
        invariant
            data@.len() == len,
            len == old(data)@.len(),
            len % 4 == 0,
            i % 4 == 0,
            0 <= i <= len,
            forall|j: int| 0 <= j < i ==> data@[j] == rgba_transformed(old(data)@)[j],
            forall|j: int| i <= j < len ==> data@[j] == old(data)@[j],
        decreases len - i,
    {
        let rgb = dem_rgb_to_terrain_rgb(data[i], data[i + 1], data[i + 2]);
        data.set(i, rgb[0]);
        data.set(i + 1, rgb[1]);
        data.set(i + 2, rgb[2]);
        data.set(i + 3, 255);
        assert forall|j: int| i <= j < i + 4 implies data@[j] == rgba_transformed(old(data)@)[j] by {
            vstd::arithmetic::div_mod::lemma_fundamental_div_mod_converse(
                j,
                4,
                i as int / 4,
                j - i,
            );
            assert(4 * (j / 4) == i && j % 4 == j - i);
        }
        i = i + 4;
    }
    assert(data@ =~= rgba_transformed(old(data)@));
}

/// Expands a buffer of 3-byte RGB pixels to 4-byte RGBA with opaque alpha.
pub fn expand_rgb8_to_rgba8(src: &[u8]) -> (out: Vec<u8>)
    ensures
        out@ == expanded_rgba(src@),
{
    let pixels = src.len() / 3;
    assert(3 * pixels <= src@.len()) by (nonlinear_arith)
        requires
            pixels == src@.len() / 3,
    ;
    let mut out: Vec<u8> = Vec::new();
    let mut k: usize = 0;
    while k < pixels
        invariant
            pixels == src@.len() / 3,
            3 * pixels <= src@.len(),
            src@.len() <= usize::MAX,
            0 <= k <= pixels,
            out@.len() == 4 * k,
            forall|j: int| 0 <= j < 4 * k ==> out@[j] == expanded_rgba(src@)[j],
        decreases pixels - k,
    {
        out.push(src[3 * k]);
        out.push(src[3 * k + 1]);
        out.push(src[3 * k + 2]);
        out.push(255);
        assert forall|j: int| 4 * k <= j < 4 * k + 4 implies out@[j] == expanded_rgba(src@)[j] by {
            assert(j / 4 == k && j % 4 == j - 4 * k);
        }
        k = k + 1;
    }
    assert(out@ =~= expanded_rgba(src@));
    out
}

/// The RGBA bytes a palette entry stands for.
pub open spec fn palette_rgba_at(p: Seq<u8>, idx: u8) -> Seq<u8>
    recommends
        3 * idx + 2 < p.len(),
{
    seq![p[3 * idx], p[3 * idx + 1], p[3 * idx + 2], 255u8]
}

/// The RGBA expansion of an indexed image: each index replaced by its
/// palette entry, with opaque alpha.
pub open spec fn paletted_rgba(p: Seq<u8>, idxs: Seq<u8>) -> Seq<u8> {
    Seq::new(idxs.len() * 4, |i: int| palette_rgba_at(p, idxs[i / 4])[i % 4])
}

/// Remapping an indexed image's palette and re-reading the pixels through it
/// gives exactly the pixels that remapping the image expanded to truecolor
/// would give, for every index buffer whose entries lie inside the palette.
pub proof fn lemma_indexed_path_equivalence(p: Seq<u8>, idxs: Seq<u8>)
    requires
        p.len() % 3 == 0,
        forall|k: int| 0 <= k < idxs.len() ==> 3 * idxs[k] + 2 < p.len(),
    ensures
        paletted_rgba(palette_transformed(p), idxs) == rgba_transformed(paletted_rgba(p, idxs)),
{
    let lhs = paletted_rgba(palette_transformed(p), idxs);
    let rhs = rgba_transformed(paletted_rgba(p, idxs));
    assert(palette_transformed(p).len() == p.len());
    assert forall|i: int| 0 <= i < lhs.len() implies lhs[i] == rhs[i] by {
        let q = i / 4;
        let c = i % 4;
        let e = idxs[q] as int;
        assert(0 <= q < idxs.len());
        assert(3 * idxs[q] + 2 < p.len());
        assert((4 * q) / 4 == q && (4 * q + 1) / 4 == q && (4 * q + 2) / 4 == q);
        assert((4 * q) % 4 == 0 && (4 * q + 1) % 4 == 1 && (4 * q + 2) % 4 == 2);
        if c == 3 {
            assert(lhs[i] == 255u8);
            assert(rhs[i] == 255u8);
        } else {
            assert((3 * e + c) / 3 == e && (3 * e + c) % 3 == c);
            assert(lhs[i] == palette_transformed(p)[3 * e + c]);
            assert(lhs[i] == terrain_rgb(p[3 * e], p[3 * e + 1], p[3 * e + 2])[c]);
            let x = paletted_rgba(p, idxs);
            assert(x[4 * q] == p[3 * e] && x[4 * q + 1] == p[3 * e + 1] && x[4 * q + 2] == p[3 * e
                + 2]);
            assert(rhs[i] == terrain_rgb(x[4 * (i / 4)], x[4 * (i / 4) + 1], x[4 * (i / 4) + 2])[c]);
        }
    }
    assert(lhs =~= rhs);
}

} // verus!
