//! Conversions of single pixels and row-stride arithmetic.

use vstd::prelude::*;

verus! {

/// Red of an RGB565 colour widened to 8 bits (low bits zero).
pub open spec fn rgb565_red(c: u16) -> int {
    (c as int / 2048) * 8
}

/// Green of an RGB565 colour widened to 8 bits (low bits zero).
pub open spec fn rgb565_green(c: u16) -> int {
    (c as int / 32 % 64) * 4
}

/// Blue of an RGB565 colour widened to 8 bits (low bits zero).
pub open spec fn rgb565_blue(c: u16) -> int {
    (c as int % 32) * 8
}

/// The packed `0xAARRGGBB` word of alpha `a` and an RGB565 colour.
pub open spec fn argb_of_565(c: u16, a: int) -> int {
    a * 0x1000000 + rgb565_red(c) * 0x10000 + rgb565_green(c) * 0x100 + rgb565_blue(c)
}

/// Alpha of pixel column `x` from a byte that packs two 4-bit alphas:
/// the high nibble for even columns, the low one for odd columns, scaled by 17.
pub open spec fn nibble_alpha(alpha_byte: u8, x: int) -> int {
    if x % 2 != 0 {
        (alpha_byte as int % 16) * 17
    } else {
        (alpha_byte as int / 16) * 17
    }
}

pub proof fn lemma_565_channels(color: u16)
    ensures
        ((color & 0xf800) >> 8) as int == rgb565_red(color),
        ((color & 0x07e0) >> 3) as int == rgb565_green(color),
        ((color & 0x001f) << 3) as int == rgb565_blue(color),
        ((color & 0xf800) >> 8) < 256,
        ((color & 0x07e0) >> 3) < 256,
        ((color & 0x001f) << 3) < 256,
{
    assert(((color & 0xf800) >> 8) == (color / 2048) * 8) by (bit_vector);
    assert(((color & 0x07e0) >> 3) == (color / 32 % 64) * 4) by (bit_vector);
    assert(((color & 0x001f) << 3) == (color % 32) * 8) by (bit_vector);
    assert(((color & 0xf800) >> 8) < 256) by (bit_vector);
    assert(((color & 0x07e0) >> 3) < 256) by (bit_vector);
    assert(((color & 0x001f) << 3) < 256) by (bit_vector);
}

fn pack_argb(a: u32, r: u32, g: u32, b: u32) -> (v: u32)
    requires
        a < 256,
        r < 256,
        g < 256,
        b < 256,
    ensures
        v as int == a * 0x1000000 + r * 0x10000 + g * 0x100 + b,
{
    let v = (a << 24) | (r << 16) | (g << 8) | b;
    assert(v == a * 0x1000000 + r * 0x10000 + g * 0x100 + b) by (bit_vector)
        requires
            a < 256 && r < 256 && g < 256 && b < 256,
            v == (a << 24) | (r << 16) | (g << 8) | b,
    ;
    v
}

/// RGB565 to `0xAARRGGBB`: opaque, except that black becomes 0 (transparent).
pub fn convert_16bit_to_32bit(color: u16) -> (v: u32)
    ensures
        (rgb565_red(color) == 0 && rgb565_green(color) == 0 && rgb565_blue(color) == 0) ==> v == 0,
        !(rgb565_red(color) == 0 && rgb565_green(color) == 0 && rgb565_blue(color) == 0)
            ==> v as int == argb_of_565(color, 255),
{
    proof {
        lemma_565_channels(color);
    }
    let red = ((color & 0xf800) >> 8) as u8;
    let green = ((color & 0x07e0) >> 3) as u8;
    let blue = ((color & 0x001f) << 3) as u8;
    if red == 0 && green == 0 && blue == 0 {
        return 0;
    }
    pack_argb(255, red as u32, green as u32, blue as u32)
}

/// RGB565 to `0xAARRGGBB` with the alpha of column `x` taken from `alpha_byte`.
pub fn convert_16bit_to_32bit_with_alpha(color: u16, alpha_byte: u8, x: usize) -> (v: u32)
    ensures
        v as int == argb_of_565(color, nibble_alpha(alpha_byte, x as int)),
{
    proof {
        lemma_565_channels(color);
    }
    let red = ((color & 0xf800) >> 8) as u8;
    let green = ((color & 0x07e0) >> 3) as u8;
    let blue = ((color & 0x001f) << 3) as u8;
    let alpha: u32 = if x % 2 != 0 {
        assert((alpha_byte & 0x0f) == alpha_byte % 16) by (bit_vector);
        ((alpha_byte & 0x0f) as u32) * 17
    } else {
        assert(((alpha_byte & 0xf0) >> 4) == alpha_byte / 16) by (bit_vector);
        (((alpha_byte & 0xf0) >> 4) as u32) * 17
    };
    pack_argb(alpha, red as u32, green as u32, blue as u32)
}

/// Bytes in a row of `width` pixels of `bit_count` bits, padded to 4 bytes.
pub open spec fn row_stride(bit_count: int, width: int) -> int {
    (width * bit_count + 31) / 32 * 4
}

/// Row length in bytes of `width` pixels of `bit_count` bits, padded to a multiple of 4.
pub fn width_bytes(bit_count: u32, width: u32) -> (n: u32)
    requires
        width as int * bit_count as int + 31 <= u32::MAX,
    ensures
        n as int == row_stride(bit_count as int, width as int),
{
    let p = width * bit_count;
    assert(p as int == width as int * bit_count as int);
    assert((p as int + 31) / 32 * 4 <= u32::MAX) by (nonlinear_arith)
        requires
            p as int + 31 <= u32::MAX,
    ;
    (p + 31) / 32 * 4
}

/// `width_bytes(bit * width, width) - width * (bit / 8)`.
pub fn skip_bytes(bit: u32, width: u32) -> (n: u32)
    requires
        bit as int * width as int <= u32::MAX,
        width as int * (bit as int * width as int) + 31 <= u32::MAX,
        width as int * (bit as int / 8) <= row_stride(bit as int * width as int, width as int),
    ensures
        n as int == row_stride(bit as int * width as int, width as int) - width as int * (bit as int / 8),
{
    let bw = bit * width;
    let stride = width_bytes(bw, width);
    let used = width * (bit / 8);
    assert(used as int == width as int * (bit as int / 8));
    stride - used
}

} // verus!
