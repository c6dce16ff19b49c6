//! Conversion of RGBA8888 pixel rows into the RGB565 encoding that SPI panels take.
use vstd::prelude::*;

verus! {

/// The 16-bit RGB565 value of one colour: the top five bits of red, the top
/// six bits of green and the top five bits of blue.
pub open spec fn rgb565(r: u8, g: u8, b: u8) -> u16 {
    (((r as u16 & 0xF8u16) << 8u16) | ((g as u16 & 0xFCu16) << 3u16) | ((b as u16) >> 3u16)) as u16
}

/// Number of whole 4-byte pixels in an RGBA8888 buffer; a trailing partial pixel is ignored.
pub open spec fn pixel_count(input: Seq<u8>) -> nat {
    input.len() / 4
}

/// The RGB565 value of pixel `k` of an RGBA8888 buffer. With `swapped` the first and third
/// channel trade places (the buffer is BGRA); alpha never counts.
pub open spec fn pixel_rgb565(input: Seq<u8>, k: int, swapped: bool) -> u16 {
    let c0 = input[4 * k];
    let c1 = input[4 * k + 1];
    let c2 = input[4 * k + 2];
    if swapped {
        rgb565(c2, c1, c0)
    } else {
        rgb565(c0, c1, c2)
    }
}

/// One RGB565 value per whole pixel of the buffer.
pub open spec fn rgb565_words(input: Seq<u8>, swapped: bool) -> Seq<u16> {
    Seq::new(pixel_count(input), |k: int| pixel_rgb565(input, k, swapped))
}

/// Byte `i` of the little-endian encoding of a sequence of 16-bit values.
pub open spec fn le_byte(words: Seq<u16>, i: int) -> u8 {
    let w = words[i / 2];
    if i % 2 == 0 {
        (w & 0xFFu16) as u8
    } else {
        (w >> 8u16) as u8
    }
}

/// The RGB565 values of the buffer, each written as two bytes, low byte first.
pub open spec fn rgb565_le_bytes(input: Seq<u8>, swapped: bool) -> Seq<u8> {
    let words = rgb565_words(input, swapped);
    Seq::new(2 * words.len(), |i: int| le_byte(words, i))
}

/// Packs one colour into RGB565.
pub fn pack_rgb565(r: u8, g: u8, b: u8) -> (v: u16)
    ensures
        v == rgb565(r, g, b),
{
    ((r as u16 & 0xF8) << 8) | ((g as u16 & 0xFC) << 3) | ((b as u16) >> 3)
}

/// RGB565 value of the pixel that starts at byte `4 * k`.
fn pixel_at(input: &[u8], k: usize, swapped: bool) -> (v: u16)
    requires
        k < pixel_count(input@),
    ensures
        v == pixel_rgb565(input@, k as int, swapped),
{
    let len = input.len();
    assert(4 * k + 3 < len);
    let base = 4 * k;
    let c0 = input[base];
    let c1 = input[base + 1];
    let c2 = input[base + 2];
    if swapped {
        pack_rgb565(c2, c1, c0)
    } else {
        pack_rgb565(c0, c1, c2)
    }
}

/// Converts RGBA8888 pixels to RGB565 values, one `u16` per whole pixel.
pub fn rgba8888_to_rgb565(input: &[u8], flip_order: bool) -> (out: Vec<u16>)
    ensures
        out@ == rgb565_words(input@, flip_order),
{
    let n = input.len() / 4;
    let mut out: Vec<u16> = Vec::with_capacity(n);
    let mut k: usize = 0;
    while k < n
        invariant
            n == pixel_count(input@),
            k <= n,
            out@ =~= rgb565_words(input@, flip_order).subrange(0, k as int),
        decreases n - k,
    {
        let v = pixel_at(input, k, flip_order);
        out.push(v);
        k = k + 1;
    }
    out
}

/// Converts RGBA8888 pixels to RGB565, two bytes per whole pixel, low byte first.
/// A trailing partial pixel is dropped, so the output holds `input.len() / 4 * 2` bytes.
pub fn rgba8888_to_rgb565_u8(input: &[u8], flip_order: bool) -> (out: Vec<u8>)
    ensures
        out@ == rgb565_le_bytes(input@, flip_order),
        out@.len() == input@.len() / 4 * 2,
{
    let n = input.len() / 4;
    let mut out: Vec<u8> = Vec::with_capacity(2 * n);
    let ghost words = rgb565_words(input@, flip_order);
    let mut k: usize = 0;
    while k < n
        invariant
            n == pixel_count(input@),
            words == rgb565_words(input@, flip_order),
            k <= n,
            out@ =~= rgb565_le_bytes(input@, flip_order).subrange(0, 2 * k),
        decreases n - k,
    {
        let v = pixel_at(input, k, flip_order);
        out.push((v & 0xFF) as u8);
        out.push((v >> 8) as u8);
        proof {
            assert(words[k as int] == v);
            assert(le_byte(words, 2 * k) == (v & 0xFFu16) as u8);
            assert(le_byte(words, 2 * k + 1) == (v >> 8u16) as u8);
        }
        k = k + 1;
    }
    out
}

} // verus!
