//! RGBA rasters and the row transforms that the codecs apply to them.

use vstd::prelude::*;
use vstd::arithmetic::div_mod::lemma_fundamental_div_mod_converse;

use crate::image::palette::Color;
use crate::image::pixel::{rgb565_blue, rgb565_green, rgb565_red};

verus! {

/// A raster of `width * height` pixels, four bytes R, G, B, A each, top row first.
#[derive(Debug, Clone)]
pub struct Raster {
    pub width: u32,
    pub height: u32,
    pub data: Vec<u8>,
}

/// Byte `c` of pixel `p` in a buffer of four-byte pixels.
pub open spec fn byte4(s: Seq<u8>, p: int, c: int) -> u8 {
    s[p * 4 + c]
}

/// Channel `c` of a colour in R, G, B, A order.
pub open spec fn channel(col: Color, c: int) -> u8 {
    if c == 0 {
        col.r
    } else if c == 1 {
        col.g
    } else if c == 2 {
        col.b
    } else {
        col.a
    }
}

/// The fully transparent colour.
pub open spec fn clear_color() -> Color {
    Color { a: 0, r: 0, g: 0, b: 0 }
}

/// Pixel `p` of a top-down raster of width `w` and height `h` lies in the
/// row that a bottom-up layout stores first when `p` is in the last row:
/// this is the pixel at the same column of the mirrored row.
pub open spec fn mirrored_pixel(p: int, w: int, h: int) -> int {
    (h - 1 - p / w) * w + p % w
}

/// Byte position, in a bottom-up layout with rows of `stride` bytes and
/// pixels of `bpp` bytes, of pixel `p` of a top-down raster of width `w`.
pub open spec fn stored_position(p: int, w: int, h: int, stride: int, bpp: int) -> int {
    (h - 1 - p / w) * stride + (p % w) * bpp
}

/// Swaps the red and blue channel positions.
pub open spec fn swap_rb(c: int) -> int {
    if c == 0 {
        2
    } else if c == 2 {
        0
    } else {
        c
    }
}

/// Pixel `p` of `s` has zero red, green and blue.
pub open spec fn black_pixel(s: Seq<u8>, p: int) -> bool {
    byte4(s, p, 0) == 0 && byte4(s, p, 1) == 0 && byte4(s, p, 2) == 0
}

/// `out` is `src` read as bottom-up rows of B, G, R, A pixels.
pub open spec fn flipped_swapped(out: Seq<u8>, src: Seq<u8>, w: int, h: int) -> bool {
    &&& out.len() == w * h * 4
    &&& forall|p: int, c: int|
        0 <= p < w * h && 0 <= c < 4 ==> #[trigger] byte4(out, p, c) == byte4(
            src,
            mirrored_pixel(p, w, h),
            swap_rb(c),
        )
}

/// `out` is the raster `img` written as bottom-up rows of B, G, R, A pixels,
/// where every pixel with zero red, green and blue gets alpha 0.
pub open spec fn bgra_encoded(out: Seq<u8>, img: Seq<u8>, w: int, h: int) -> bool {
    &&& out.len() == w * h * 4
    &&& forall|p: int, c: int|
        0 <= p < w * h && 0 <= c < 4 ==> #[trigger] byte4(out, p, c) == if c == 3 && black_pixel(
            img,
            mirrored_pixel(p, w, h),
        ) {
            0
        } else {
            byte4(img, mirrored_pixel(p, w, h), swap_rb(c))
        }
}

/// Colour of the palette index at `pos`, transparent past the end of `bytes`.
pub open spec fn indexed_color(bytes: Seq<u8>, pal: Seq<Color>, pos: int) -> Color {
    if 0 <= pos < bytes.len() {
        pal[bytes[pos] as int]
    } else {
        clear_color()
    }
}

/// Colour of the little-endian RGB565 value at `pos`: black and anything past
/// the end of `bytes` are transparent, every other colour is opaque.
pub open spec fn rgb565_color(bytes: Seq<u8>, pos: int) -> Color {
    if 0 <= pos && pos + 1 < bytes.len() {
        let v = (bytes[pos] as int + bytes[pos + 1] as int * 256) as u16;
        if rgb565_red(v) == 0 && rgb565_green(v) == 0 && rgb565_blue(v) == 0 {
            clear_color()
        } else {
            Color { a: 255, r: rgb565_red(v) as u8, g: rgb565_green(v) as u8, b: rgb565_blue(v) as u8 }
        }
    } else {
        clear_color()
    }
}

/// Index arithmetic of pixel `(x, y)` of a `w` by `h` raster.
pub proof fn lemma_pixel_index(x: int, y: int, w: int, h: int)
    requires
        0 <= x < w,
        0 <= y < h,
    ensures
        (y * w + x) / w == y,
        (y * w + x) % w == x,
        0 <= y * w + x < w * h,
        mirrored_pixel(y * w + x, w, h) == (h - 1 - y) * w + x,
        0 <= (h - 1 - y) * w + x < w * h,
        (y * w + x) * 4 + 4 <= w * h * 4,
        (y * w + x + 1) * 4 == (y * w + x) * 4 + 4,
        x + 1 == w ==> y * w + x + 1 == (y + 1) * w,
{
    lemma_fundamental_div_mod_converse(y * w + x, w, y, x);
    assert(0 <= y * w + x < w * h) by (nonlinear_arith)
        requires
            0 <= x < w,
            0 <= y < h,
    ;
    assert(0 <= (h - 1 - y) * w + x < w * h) by (nonlinear_arith)
        requires
            0 <= x < w,
            0 <= y < h,
    ;
    assert((y * w + x) * 4 + 4 <= w * h * 4) by (nonlinear_arith)
        requires
            0 <= x < w,
            0 <= y < h,
            y * w + x < w * h,
    ;
    assert(x + 1 == w ==> y * w + x + 1 == (y + 1) * w) by (nonlinear_arith);
}

/// Mirroring rows twice gives back every pixel.
pub proof fn lemma_mirror_twice(p: int, w: int, h: int)
    requires
        0 <= p < w * h,
        w > 0,
    ensures
        0 <= mirrored_pixel(p, w, h) < w * h,
        mirrored_pixel(mirrored_pixel(p, w, h), w, h) == p,
{
    let y = p / w;
    let x = p % w;
    vstd::arithmetic::div_mod::lemma_mod_pos_bound(p, w);
    assert(p == y * w + x) by {
        vstd::arithmetic::div_mod::lemma_fundamental_div_mod(p, w);
        vstd::arithmetic::mul::lemma_mul_is_commutative(w, y);
    }
    assert(0 <= y < h) by (nonlinear_arith)
        requires
            p == y * w + x,
            0 <= x < w,
            0 <= p < w * h,
    ;
    lemma_pixel_index(x, y, w, h);
    lemma_pixel_index(x, h - 1 - y, w, h);
}

impl View for Raster {
    type V = (u32, u32, Seq<u8>);

    open spec fn view(&self) -> (u32, u32, Seq<u8>) {
        (self.width, self.height, self.data@)
    }
}

impl Raster {
    /// The byte buffer holds exactly `width * height` pixels.
    pub open spec fn wf(&self) -> bool {
        self.data@.len() == self.width as int * self.height as int * 4
    }

    /// Byte `c` of the pixel at column `x`, row `y`.
    pub open spec fn byte(&self, x: int, y: int, c: int) -> u8 {
        byte4(self.data@, y * self.width as int + x, c)
    }

    /// A fully transparent raster.
    pub fn new(width: u32, height: u32) -> (r: Raster)
        requires
            width as int * height as int * 4 <= usize::MAX,
        ensures
            r.wf(),
            r.width == width,
            r.height == height,
            forall|k: int| 0 <= k < r.data@.len() ==> r.data@[k] == 0,
    {
        let n = width as usize * height as usize * 4;
        let mut data: Vec<u8> = Vec::new();
        let mut k: usize = 0;
        while k < n
            invariant
                k <= n,
                data@.len() == k,
                forall|j: int| 0 <= j < k ==> data@[j] == 0,
            decreases n - k,
        {
            data.push(0);
            k = k + 1;
        }
        Raster { width, height, data }
    }

    /// Whether the byte buffer holds exactly `width * height` pixels.
    pub fn is_valid(&self) -> (r: bool)
        ensures
            r == self.wf(),
    {
        let (w, h) = (self.width as u64, self.height as u64);
        assert(w * h <= 0xffff_ffff * 0xffff_ffff) by (nonlinear_arith)
            requires
                w <= 0xffff_ffff,
                h <= 0xffff_ffff,
        ;
        let wh = w * h;
        let n = self.data.len();
        n % 4 == 0 && (n / 4) as u64 == wh
    }

    /// A copy of the raster.
    pub fn copy(&self) -> (r: Raster)
        ensures
            r@ == self@,
    {
        let mut data: Vec<u8> = Vec::new();
        let mut k: usize = 0;
        while k < self.data.len()
            invariant
                k <= self.data@.len(),
                data@ == self.data@.subrange(0, k as int),
            decreases self.data@.len() - k,
        {
            data.push(self.data[k]);
            k = k + 1;
            assert(data@ =~= self.data@.subrange(0, k as int));
        }
        assert(data@ =~= self.data@);
        Raster { width: self.width, height: self.height, data }
    }

    /// The R, G, B, A bytes of the pixel at column `x`, row `y`.
    pub fn get_pixel(&self, x: u32, y: u32) -> (px: [u8; 4])
        requires
            self.wf(),
            x < self.width,
            y < self.height,
        ensures
            forall|c: int| 0 <= c < 4 ==> px[c] == self.byte(x as int, y as int, c),
    {
        proof {
            lemma_pixel_index(x as int, y as int, self.width as int, self.height as int);
        }
        let len = self.data.len();
        assert(len == self.data@.len());
        let base = (y as usize * self.width as usize + x as usize) * 4;
        [self.data[base], self.data[base + 1], self.data[base + 2], self.data[base + 3]]
    }

    /// Sets the pixel at column `x`, row `y` to `px` (R, G, B, A).
    pub fn put_pixel(&mut self, x: u32, y: u32, px: [u8; 4])
        requires
            old(self).wf(),
            x < old(self).width,
            y < old(self).height,
        ensures
            final(self).wf(),
            final(self).width == old(self).width,
            final(self).height == old(self).height,
            forall|c: int| 0 <= c < 4 ==> final(self).byte(x as int, y as int, c) == px[c],
            forall|k: int|
                0 <= k < old(self).data@.len() && k / 4 != y * old(self).width + x
                    ==> final(self).data@[k] == old(self).data@[k],
    {
        proof {
            lemma_pixel_index(x as int, y as int, self.width as int, self.height as int);
        }
        let len = self.data.len();
        assert(len == self.data@.len());
        let base = (y as usize * self.width as usize + x as usize) * 4;
        self.data.set(base, px[0]);
        self.data.set(base + 1, px[1]);
        self.data.set(base + 2, px[2]);
        self.data.set(base + 3, px[3]);
    }
}

/// Reads `w * h` bottom-up B, G, R, A pixels into top-down R, G, B, A order.
pub fn flip_swap_rows(src: &[u8], w: usize, h: usize) -> (out: Vec<u8>)
    requires
        src@.len() == w * h * 4,
    ensures
        flipped_swapped(out@, src@, w as int, h as int),
        out@ == bgra_decoding(src@, w as int, h as int),
{
    let n = src.len();
    let mut out: Vec<u8> = Vec::new();
    let mut y: usize = 0;
    while y < h
        invariant
            y <= h,
            n == src@.len(),
            src@.len() == w * h * 4,
            out@.len() == y * w * 4,
            forall|p: int, c: int|
                0 <= p < y * w && 0 <= c < 4 ==> #[trigger] byte4(out@, p, c) == byte4(
                    src@,
                    mirrored_pixel(p, w as int, h as int),
                    swap_rb(c),
                ),
        decreases h - y,
    {
        let mut x: usize = 0;
        while x < w
            invariant
                y < h,
                x <= w,
                n == src@.len(),
                src@.len() == w * h * 4,
                out@.len() == (y * w + x) * 4,
                forall|p: int, c: int|
                    0 <= p < y * w + x && 0 <= c < 4 ==> #[trigger] byte4(out@, p, c) == byte4(
                        src@,
                        mirrored_pixel(p, w as int, h as int),
                        swap_rb(c),
                    ),
            decreases w - x,
        {
            proof {
                lemma_pixel_index(x as int, y as int, w as int, h as int);
            }
            let q = ((h - 1 - y) * w + x) * 4;
            let ghost before = out@;
            out.push(src[q + 2]);
            out.push(src[q + 1]);
            out.push(src[q]);
            out.push(src[q + 3]);
            proof {
                let p0 = y * w + x;
                assert forall|p: int, c: int| 0 <= p < p0 + 1 && 0 <= c < 4 implies #[trigger] byte4(
                    out@,
                    p,
                    c,
                ) == byte4(src@, mirrored_pixel(p, w as int, h as int), swap_rb(c)) by {
                    if p < p0 {
                        assert(byte4(before, p, c) == byte4(out@, p, c));
                    }
                }
            }
            x = x + 1;
        }
        proof {
            if w > 0 {
                lemma_pixel_index((w - 1) as int, y as int, w as int, h as int);
            }
            assert((y + 1) * w == y * w + w) by (nonlinear_arith);
        }
        y = y + 1;
    }
    assert(h * w == w * h) by (nonlinear_arith);
    proof {
        lemma_flipped_swapped_is(out@, src@, w as int, h as int);
    }
    out
}

/// Writes a raster as bottom-up B, G, R, A pixels, black made transparent.
pub fn encode_bgra_rows(img: &[u8], w: usize, h: usize) -> (out: Vec<u8>)
    requires
        img@.len() == w * h * 4,
    ensures
        bgra_encoded(out@, img@, w as int, h as int),
        out@ == bgra_encoding(img@, w as int, h as int),
{
    let n = img.len();
    let mut out: Vec<u8> = Vec::new();
    let mut y: usize = 0;
    while y < h
        invariant
            y <= h,
            n == img@.len(),
            img@.len() == w * h * 4,
            out@.len() == y * w * 4,
            forall|p: int, c: int|
                0 <= p < y * w && 0 <= c < 4 ==> #[trigger] byte4(out@, p, c) == if c == 3
                    && black_pixel(img@, mirrored_pixel(p, w as int, h as int)) {
                    0
                } else {
                    byte4(img@, mirrored_pixel(p, w as int, h as int), swap_rb(c))
                },
        decreases h - y,
    {
        let mut x: usize = 0;
        while x < w
            invariant
                y < h,
                x <= w,
                n == img@.len(),
                img@.len() == w * h * 4,
                out@.len() == (y * w + x) * 4,
                forall|p: int, c: int|
                    0 <= p < y * w + x && 0 <= c < 4 ==> #[trigger] byte4(out@, p, c) == if c == 3
                        && black_pixel(img@, mirrored_pixel(p, w as int, h as int)) {
                        0
                    } else {
                        byte4(img@, mirrored_pixel(p, w as int, h as int), swap_rb(c))
                    },
            decreases w - x,
        {
            proof {
                lemma_pixel_index(x as int, y as int, w as int, h as int);
            }
            let q = ((h - 1 - y) * w + x) * 4;
            let (r, g, b, a) = (img[q], img[q + 1], img[q + 2], img[q + 3]);
            let ghost before = out@;
            out.push(b);
            out.push(g);
            out.push(r);
            out.push(if r == 0 && g == 0 && b == 0 { 0 } else { a });
            proof {
                let p0 = y * w + x;
                assert forall|p: int, c: int| 0 <= p < p0 + 1 && 0 <= c < 4 implies #[trigger] byte4(
                    out@,
                    p,
                    c,
                ) == if c == 3 && black_pixel(img@, mirrored_pixel(p, w as int, h as int)) {
                    0
                } else {
                    byte4(img@, mirrored_pixel(p, w as int, h as int), swap_rb(c))
                } by {
                    if p < p0 {
                        assert(byte4(before, p, c) == byte4(out@, p, c));
                    }
                }
            }
            x = x + 1;
        }
        proof {
            if w > 0 {
                lemma_pixel_index((w - 1) as int, y as int, w as int, h as int);
            }
            assert((y + 1) * w == y * w + w) by (nonlinear_arith);
        }
        y = y + 1;
    }
    assert(h * w == w * h) by (nonlinear_arith);
    proof {
        lemma_bgra_encoded_is(out@, img@, w as int, h as int);
    }
    out
}

/// Decoding what `encode_bgra_rows` wrote gives the raster back, provided
/// that every pixel with zero red, green and blue is already transparent.
pub proof fn lemma_bgra_round_trip(img: Seq<u8>, enc: Seq<u8>, dec: Seq<u8>, w: int, h: int)
    requires
        w > 0,
        h > 0,
        img.len() == w * h * 4,
        forall|p: int| 0 <= p < w * h && #[trigger] black_pixel(img, p) ==> byte4(img, p, 3) == 0,
        bgra_encoded(enc, img, w, h),
        flipped_swapped(dec, enc, w, h),
    ensures
        dec == img,
{
    assert forall|k: int| 0 <= k < img.len() implies dec[k] == img[k] by {
        let p = k / 4;
        let c = k % 4;
        assert(k == p * 4 + c);
        assert(0 <= p < w * h);
        lemma_mirror_twice(p, w, h);
        let m = mirrored_pixel(p, w, h);
        assert(byte4(dec, p, c) == byte4(enc, m, swap_rb(c)));
        assert(swap_rb(swap_rb(c)) == c);
    }
    assert(dec =~= img);
}

/// `out` holds the `w` by `h` raster whose pixels are palette indices stored
/// one byte each in bottom-up rows of `stride` bytes.
pub open spec fn indexed_decoded(
    out: Seq<u8>,
    bytes: Seq<u8>,
    pal: Seq<Color>,
    w: int,
    h: int,
    stride: int,
) -> bool {
    &&& out.len() == w * h * 4
    &&& forall|p: int, c: int|
        0 <= p < w * h && 0 <= c < 4 ==> #[trigger] byte4(out, p, c) == channel(
            indexed_color(bytes, pal, stored_position(p, w, h, stride, 1)),
            c,
        )
}

/// `out` holds the `w` by `h` raster whose pixels are RGB565 values stored
/// two bytes each in bottom-up rows of `stride` bytes.
pub open spec fn rgb565_decoded(out: Seq<u8>, bytes: Seq<u8>, w: int, h: int, stride: int) -> bool {
    &&& out.len() == w * h * 4
    &&& forall|p: int, c: int|
        0 <= p < w * h && 0 <= c < 4 ==> #[trigger] byte4(out, p, c) == channel(
            rgb565_color(bytes, stored_position(p, w, h, stride, 2)),
            c,
        )
}

fn push_color(out: &mut Vec<u8>, col: Color)
    ensures
        final(out)@ == old(out)@.push(col.r).push(col.g).push(col.b).push(col.a),
{
    out.push(col.r);
    out.push(col.g);
    out.push(col.b);
    out.push(col.a);
}

/// Decodes bottom-up rows of one-byte palette indices into a top-down raster.
pub fn decode_indexed_rows(bytes: &[u8], pal: &Vec<Color>, w: usize, h: usize, stride: usize) -> (out: Vec<u8>)
    requires
        pal@.len() == 256,
        w * h * 4 <= usize::MAX,
        h * stride + w <= usize::MAX,
    ensures
        indexed_decoded(out@, bytes@, pal@, w as int, h as int, stride as int),
{
    let mut out: Vec<u8> = Vec::new();
    let mut y: usize = 0;
    while y < h
        invariant
            y <= h,
            pal@.len() == 256,
            w * h * 4 <= usize::MAX,
            h * stride + w <= usize::MAX,
            out@.len() == y * w * 4,
            forall|p: int, c: int|
                0 <= p < y * w && 0 <= c < 4 ==> #[trigger] byte4(out@, p, c) == channel(
                    indexed_color(bytes@, pal@, stored_position(p, w as int, h as int, stride as int, 1)),
                    c,
                ),
        decreases h - y,
    {
        let mut x: usize = 0;
        while x < w
            invariant
                y < h,
                x <= w,
                pal@.len() == 256,
                w * h * 4 <= usize::MAX,
                h * stride + w <= usize::MAX,
                out@.len() == (y * w + x) * 4,
                forall|p: int, c: int|
                    0 <= p < y * w + x && 0 <= c < 4 ==> #[trigger] byte4(out@, p, c) == channel(
                        indexed_color(bytes@, pal@, stored_position(p, w as int, h as int, stride as int, 1)),
                        c,
                    ),
            decreases w - x,
        {
            proof {
                lemma_pixel_index(x as int, y as int, w as int, h as int);
                assert((h - 1 - y) * stride + x <= h * stride + w) by (nonlinear_arith)
                    requires
                        y < h,
                        x < w,
            ;
            }
            let pos = (h - 1 - y) * stride + x;
            let col = if pos < bytes.len() {
                pal[bytes[pos] as usize]
            } else {
                Color { a: 0, r: 0, g: 0, b: 0 }
            };
            let ghost before = out@;
            push_color(&mut out, col);
            proof {
                let p0 = y * w + x;
                assert forall|p: int, c: int| 0 <= p < p0 + 1 && 0 <= c < 4 implies #[trigger] byte4(
                    out@,
                    p,
                    c,
                ) == channel(
                    indexed_color(bytes@, pal@, stored_position(p, w as int, h as int, stride as int, 1)),
                    c,
                ) by {
                    if p < p0 {
                        assert(byte4(before, p, c) == byte4(out@, p, c));
                    }
                }
            }
            x = x + 1;
        }
        proof {
            if w > 0 {
                lemma_pixel_index((w - 1) as int, y as int, w as int, h as int);
            }
            assert((y + 1) * w == y * w + w) by (nonlinear_arith);
        }
        y = y + 1;
    }
    assert(h * w == w * h) by (nonlinear_arith);
    out
}

/// Decodes bottom-up rows of little-endian RGB565 pixels into a top-down raster.
pub fn decode_565_rows(bytes: &[u8], w: usize, h: usize, stride: usize) -> (out: Vec<u8>)
    requires
        w * h * 4 <= usize::MAX,
        h * stride + w * 2 + 1 <= usize::MAX,
    ensures
        rgb565_decoded(out@, bytes@, w as int, h as int, stride as int),
{
    let mut out: Vec<u8> = Vec::new();
    let mut y: usize = 0;
    while y < h
        invariant
            y <= h,
            w * h * 4 <= usize::MAX,
            h * stride + w * 2 + 1 <= usize::MAX,
            out@.len() == y * w * 4,
            forall|p: int, c: int|
                0 <= p < y * w && 0 <= c < 4 ==> #[trigger] byte4(out@, p, c) == channel(
                    rgb565_color(bytes@, stored_position(p, w as int, h as int, stride as int, 2)),
                    c,
                ),
        decreases h - y,
    {
        let mut x: usize = 0;
        while x < w
            invariant
                y < h,
                x <= w,
                w * h * 4 <= usize::MAX,
                h * stride + w * 2 + 1 <= usize::MAX,
                out@.len() == (y * w + x) * 4,
                forall|p: int, c: int|
                    0 <= p < y * w + x && 0 <= c < 4 ==> #[trigger] byte4(out@, p, c) == channel(
                        rgb565_color(bytes@, stored_position(p, w as int, h as int, stride as int, 2)),
                        c,
                    ),
            decreases w - x,
        {
            proof {
                lemma_pixel_index(x as int, y as int, w as int, h as int);
                assert((h - 1 - y) * stride + x * 2 <= h * stride + w * 2) by (nonlinear_arith)
                    requires
                        y < h,
                        x < w,
                ;
            }
            let pos = (h - 1 - y) * stride + x * 2;
            let col = if pos + 1 < bytes.len() {
                let v: u16 = bytes[pos] as u16 | (bytes[pos + 1] as u16) << 8;
                let lo = bytes[pos] as u16;
                let hi = bytes[pos + 1] as u16;
                assert(v == lo + hi * 256) by (bit_vector)
                    requires
                        v == lo | hi << 8,
                        lo < 256,
                        hi < 256,
                ;
                let c32 = crate::image::pixel::convert_16bit_to_32bit(v);
                if c32 == 0 {
                    Color { a: 0, r: 0, g: 0, b: 0 }
                } else {
                    proof {
                        crate::image::pixel::lemma_565_channels(v);
                    }
                    Color {
                        a: 255,
                        r: ((v & 0xf800) >> 8) as u8,
                        g: ((v & 0x07e0) >> 3) as u8,
                        b: ((v & 0x001f) << 3) as u8,
                    }
                }
            } else {
                Color { a: 0, r: 0, g: 0, b: 0 }
            };
            let ghost before = out@;
            push_color(&mut out, col);
            proof {
                let p0 = y * w + x;
                assert forall|p: int, c: int| 0 <= p < p0 + 1 && 0 <= c < 4 implies #[trigger] byte4(
                    out@,
                    p,
                    c,
                ) == channel(
                    rgb565_color(bytes@, stored_position(p, w as int, h as int, stride as int, 2)),
                    c,
                ) by {
                    if p < p0 {
                        assert(byte4(before, p, c) == byte4(out@, p, c));
                    }
                }
            }
            x = x + 1;
        }
        proof {
            if w > 0 {
                lemma_pixel_index((w - 1) as int, y as int, w as int, h as int);
            }
            assert((y + 1) * w == y * w + w) by (nonlinear_arith);
        }
        y = y + 1;
    }
    assert(h * w == w * h) by (nonlinear_arith);
    out
}

/// The raster that `flipped_swapped` describes, byte by byte.
pub open spec fn bgra_decoding(src: Seq<u8>, w: int, h: int) -> Seq<u8> {
    Seq::new((w * h * 4) as nat, |k: int| byte4(src, mirrored_pixel(k / 4, w, h), swap_rb(k % 4)))
}

/// The bytes that `bgra_encoded` describes, byte by byte.
pub open spec fn bgra_encoding(img: Seq<u8>, w: int, h: int) -> Seq<u8> {
    Seq::new(
        (w * h * 4) as nat,
        |k: int|
            if k % 4 == 3 && black_pixel(img, mirrored_pixel(k / 4, w, h)) {
                0
            } else {
                byte4(img, mirrored_pixel(k / 4, w, h), swap_rb(k % 4))
            },
    )
}

proof fn lemma_split_index(k: int, n: int)
    requires
        0 <= k < n * 4,
    ensures
        k == (k / 4) * 4 + k % 4,
        0 <= k / 4 < n,
        0 <= k % 4 < 4,
{
}

pub proof fn lemma_flipped_swapped_is(out: Seq<u8>, src: Seq<u8>, w: int, h: int)
    requires
        0 <= w,
        0 <= h,
        flipped_swapped(out, src, w, h),
    ensures
        out == bgra_decoding(src, w, h),
{
    assert forall|k: int| 0 <= k < out.len() implies out[k] == bgra_decoding(src, w, h)[k] by {
        lemma_split_index(k, w * h);
        assert(byte4(out, k / 4, k % 4) == out[k]);
    }
    assert(out =~= bgra_decoding(src, w, h));
}

pub proof fn lemma_bgra_encoded_is(out: Seq<u8>, img: Seq<u8>, w: int, h: int)
    requires
        0 <= w,
        0 <= h,
        bgra_encoded(out, img, w, h),
    ensures
        out == bgra_encoding(img, w, h),
{
    assert forall|k: int| 0 <= k < out.len() implies out[k] == bgra_encoding(img, w, h)[k] by {
        lemma_split_index(k, w * h);
        assert(byte4(out, k / 4, k % 4) == out[k]);
    }
    assert(out =~= bgra_encoding(img, w, h));
}

/// Decoding the encoding of a raster gives the raster back, provided that
/// every pixel with zero red, green and blue is already transparent.
pub proof fn lemma_bgra_encoding_round_trip(img: Seq<u8>, w: int, h: int)
    requires
        w > 0,
        h > 0,
        img.len() == w * h * 4,
        forall|p: int| 0 <= p < w * h && #[trigger] black_pixel(img, p) ==> byte4(img, p, 3) == 0,
    ensures
        bgra_decoding(bgra_encoding(img, w, h), w, h) == img,
{
    let enc = bgra_encoding(img, w, h);
    let dec = bgra_decoding(enc, w, h);
    assert forall|p: int, c: int| 0 <= p < w * h && 0 <= c < 4 implies #[trigger] byte4(enc, p, c) == if c
        == 3 && black_pixel(img, mirrored_pixel(p, w, h)) {
        0
    } else {
        byte4(img, mirrored_pixel(p, w, h), swap_rb(c))
    } by {
        assert((p * 4 + c) / 4 == p && (p * 4 + c) % 4 == c);
    }
    assert forall|p: int, c: int| 0 <= p < w * h && 0 <= c < 4 implies #[trigger] byte4(dec, p, c) == byte4(
        enc,
        mirrored_pixel(p, w, h),
        swap_rb(c),
    ) by {
        assert((p * 4 + c) / 4 == p && (p * 4 + c) % 4 == c);
    }
    lemma_bgra_round_trip(img, enc, dec, w, h);
}

/// `out` is the `w` by `h` raster `img` extended with transparent pixels to
/// `fw` by `fh`, the source pixels at the top left.
pub open spec fn padded(out: Seq<u8>, img: Seq<u8>, w: int, h: int, fw: int, fh: int) -> bool {
    &&& out.len() == fw * fh * 4
    &&& forall|p: int, c: int|
        0 <= p < fw * fh && 0 <= c < 4 ==> #[trigger] byte4(out, p, c) == if p % fw < w && p / fw < h {
            byte4(img, (p / fw) * w + p % fw, c)
        } else {
            0
        }
}

/// Offset at which an extent of `n` is centred in a preview.
pub open spec fn preview_offset(n: int) -> int {
    (64 - if n < 64 { n } else { 64 }) / 2
}

/// Byte `c` of pixel `(px, py)` of the preview of a `w` by `h` raster: the
/// top-left 64 by 64 window of the raster, centred when smaller.
pub open spec fn preview_byte(img: Seq<u8>, w: int, h: int, px: int, py: int, c: int) -> u8 {
    let ox = preview_offset(w);
    let oy = preview_offset(h);
    if ox <= px < ox + w && oy <= py < oy + h && px - ox < 64 && py - oy < 64 {
        byte4(img, (py - oy) * w + (px - ox), c)
    } else {
        0
    }
}

/// `out` is the 64 by 64 preview of the `w` by `h` raster `img`.
pub open spec fn is_preview(out: Seq<u8>, img: Seq<u8>, w: int, h: int) -> bool {
    &&& out.len() == 64 * 64 * 4
    &&& forall|p: int, c: int|
        0 <= p < 64 * 64 && 0 <= c < 4 ==> #[trigger] byte4(out, p, c) == preview_byte(
            img,
            w,
            h,
            p % 64,
            p / 64,
            c,
        )
}

/// `n` capped at 64.
pub open spec fn capped64(n: u32) -> u32 {
    if n < 64 {
        n
    } else {
        64
    }
}

/// What the image crate's resampling makes of the `w` by `h` RGBA buffer
/// `data` at `nw` by `nh` pixels.
pub uninterp spec fn resized_of(w: u32, h: u32, data: Seq<u8>, nw: u32, nh: u32) -> Seq<u8>;

/// The pixels a preview shows: the raster scaled to fit in 64 by 64.
pub open spec fn preview_source(img: Raster) -> Seq<u8> {
    if capped64(img.width) == 0 || capped64(img.height) == 0 {
        Seq::empty()
    } else {
        resized_of(img.width, img.height, img.data@, capped64(img.width), capped64(img.height))
    }
}

/// `p` is the window preview of `img`: its top-left window of at most 64
/// by 64 pixels, centred on a transparent background.
pub open spec fn window_of(p: Raster, img: Raster) -> bool {
    &&& p.wf()
    &&& p.width == 64
    &&& p.height == 64
    &&& is_preview(p.data@, img.data@, img.width as int, img.height as int)
}

/// `p` is the preview raster of `img`: the raster scaled down to fit in 64
/// by 64 pixels, centred on a transparent background.
pub open spec fn preview_of(p: Raster, img: Raster) -> bool {
    &&& p.wf()
    &&& p.width == 64
    &&& p.height == 64
    &&& is_preview(
        p.data@,
        preview_source(img),
        capped64(img.width) as int,
        capped64(img.height) as int,
    )
}

/// Relies on the image crate's `RgbaImage::from_raw` and `imageops::resize`
/// with `FilterType::Triangle`: an `nw` by `nh` buffer that depends on the
/// arguments alone, and a copy of the input when the size is unchanged.
#[verifier::external_body]
fn resize_rgba(w: u32, h: u32, data: &Vec<u8>, nw: u32, nh: u32) -> (r: Vec<u8>)
    requires
        data@.len() == w as int * h as int * 4,
        nw as int * nh as int * 4 <= usize::MAX,
    ensures
        r@ == resized_of(w, h, data@, nw, nh),
        r@.len() == nw as int * nh as int * 4,
        nw == w && nh == h ==> r@ == data@,
{
    match image::RgbaImage::from_raw(w, h, data.clone()) {
        Some(img) => image::imageops::resize(&img, nw, nh, image::imageops::FilterType::Triangle).into_raw(),
        None => Vec::new(),
    }
}

/// Extends a raster with transparent pixels on the right and at the bottom.
pub fn pad_raster(img: &Raster, fw: u32, fh: u32) -> (out: Raster)
    requires
        img.wf(),
        img.width <= fw,
        img.height <= fh,
        fw as int * fh as int * 4 <= usize::MAX,
    ensures
        out.wf(),
        out.width == fw,
        out.height == fh,
        padded(out.data@, img.data@, img.width as int, img.height as int, fw as int, fh as int),
{
    let w = img.width as usize;
    let h = img.height as usize;
    let fwu = fw as usize;
    let fhu = fh as usize;
    let n = img.data.len();
    let mut out: Vec<u8> = Vec::new();
    let mut y: usize = 0;
    while y < fhu
        invariant
            y <= fhu,
            n == img.data@.len(),
            img.data@.len() == w * h * 4,
            w <= fwu,
            h <= fhu,
            out@.len() == y * fwu * 4,
            forall|p: int, c: int|
                0 <= p < y * fwu && 0 <= c < 4 ==> #[trigger] byte4(out@, p, c) == if p % (fwu as int) < w
                    && p / (fwu as int) < h {
                    byte4(img.data@, (p / (fwu as int)) * w + p % (fwu as int), c)
                } else {
                    0
                },
        decreases fhu - y,
    {
        let mut x: usize = 0;
        while x < fwu
            invariant
                y < fhu,
                x <= fwu,
                n == img.data@.len(),
                img.data@.len() == w * h * 4,
                w <= fwu,
                h <= fhu,
                out@.len() == (y * fwu + x) * 4,
                forall|p: int, c: int|
                    0 <= p < y * fwu + x && 0 <= c < 4 ==> #[trigger] byte4(out@, p, c) == if p % (
                    fwu as int) < w && p / (fwu as int) < h {
                        byte4(img.data@, (p / (fwu as int)) * w + p % (fwu as int), c)
                    } else {
                        0
                    },
            decreases fwu - x,
        {
            proof {
                lemma_pixel_index(x as int, y as int, fwu as int, fhu as int);
            }
            let ghost before = out@;
            if x < w && y < h {
                proof {
                    lemma_pixel_index(x as int, y as int, w as int, h as int);
                }
                let q = (y * w + x) * 4;
                out.push(img.data[q]);
                out.push(img.data[q + 1]);
                out.push(img.data[q + 2]);
                out.push(img.data[q + 3]);
            } else {
                out.push(0);
                out.push(0);
                out.push(0);
                out.push(0);
            }
            proof {
                let p0 = y * fwu + x;
                assert forall|p: int, c: int| 0 <= p < p0 + 1 && 0 <= c < 4 implies #[trigger] byte4(
                    out@,
                    p,
                    c,
                ) == if p % (fwu as int) < w && p / (fwu as int) < h {
                    byte4(img.data@, (p / (fwu as int)) * w + p % (fwu as int), c)
                } else {
                    0
                } by {
                    if p < p0 {
                        assert(byte4(before, p, c) == byte4(out@, p, c));
                    }
                }
            }
            x = x + 1;
        }
        proof {
            if fwu > 0 {
                lemma_pixel_index((fwu - 1) as int, y as int, fwu as int, fhu as int);
            }
            assert((y + 1) * fwu == y * fwu + fwu) by (nonlinear_arith);
        }
        y = y + 1;
    }
    assert(fhu * fwu == fwu * fhu) by (nonlinear_arith);
    Raster { width: fw, height: fh, data: out }
}

/// The 64 by 64 preview of a raster: the raster scaled down to at most 64
/// by 64 pixels (each side capped separately), centred on a transparent
/// background.
pub fn center_preview(img: &Raster) -> (out: Raster)
    requires
        img.wf(),
    ensures
        preview_of(out, *img),
{
    let vw: u32 = if img.width < 64 { img.width } else { 64 };
    let vh: u32 = if img.height < 64 { img.height } else { 64 };
    assert(vw as int * vh as int * 4 <= 64 * 64 * 4) by (nonlinear_arith)
        requires
            vw <= 64,
            vh <= 64,
    ;
    let scaled = if vw > 0 && vh > 0 {
        resize_rgba(img.width, img.height, &img.data, vw, vh)
    } else {
        Vec::new()
    };
    let small = Raster { width: vw, height: vh, data: scaled };
    assert(vw == 0 || vh == 0 ==> vw as int * vh as int * 4 == 0) by (nonlinear_arith);
    center_window(&small)
}

/// The raster placed in the middle of a transparent 64 by 64 raster, its
/// top-left 64 by 64 window where it is larger.
pub fn center_window(img: &Raster) -> (out: Raster)
    requires
        img.wf(),
    ensures
        window_of(out, *img),
{
    let w = img.width as usize;
    let h = img.height as usize;
    let n = img.data.len();
    let vw: usize = if w < 64 { w } else { 64 };
    let vh: usize = if h < 64 { h } else { 64 };
    let ox: usize = (64 - vw) / 2;
    let oy: usize = (64 - vh) / 2;
    let mut out: Vec<u8> = Vec::new();
    let mut py: usize = 0;
    while py < 64
        invariant
            py <= 64,
            n == img.data@.len(),
            img.data@.len() == w * h * 4,
            w == img.width,
            h == img.height,
            ox == preview_offset(w as int),
            oy == preview_offset(h as int),
            out@.len() == py * 64 * 4,
            forall|p: int, c: int|
                0 <= p < py * 64 && 0 <= c < 4 ==> #[trigger] byte4(out@, p, c) == preview_byte(
                    img.data@,
                    w as int,
                    h as int,
                    p % 64,
                    p / 64,
                    c,
                ),
        decreases 64 - py,
    {
        let mut px: usize = 0;
        while px < 64
            invariant
                py < 64,
                px <= 64,
                n == img.data@.len(),
                img.data@.len() == w * h * 4,
                w == img.width,
                h == img.height,
                ox == preview_offset(w as int),
                oy == preview_offset(h as int),
                out@.len() == (py * 64 + px) * 4,
                forall|p: int, c: int|
                    0 <= p < py * 64 + px && 0 <= c < 4 ==> #[trigger] byte4(out@, p, c) == preview_byte(
                        img.data@,
                        w as int,
                        h as int,
                        p % 64,
                        p / 64,
                        c,
                    ),
            decreases 64 - px,
        {
            proof {
                lemma_pixel_index(px as int, py as int, 64, 64);
            }
            let ghost before = out@;
            if ox <= px && px < ox + w && oy <= py && py < oy + h && px - ox < 64 && py - oy < 64 {
                let x = px - ox;
                let y = py - oy;
                proof {
                    lemma_pixel_index(x as int, y as int, w as int, h as int);
                }
                let q = (y * w + x) * 4;
                out.push(img.data[q]);
                out.push(img.data[q + 1]);
                out.push(img.data[q + 2]);
                out.push(img.data[q + 3]);
            } else {
                out.push(0);
                out.push(0);
                out.push(0);
                out.push(0);
            }
            proof {
                let p0 = py * 64 + px;
                assert forall|p: int, c: int| 0 <= p < p0 + 1 && 0 <= c < 4 implies #[trigger] byte4(
                    out@,
                    p,
                    c,
                ) == preview_byte(img.data@, w as int, h as int, p % 64, p / 64, c) by {
                    if p < p0 {
                        assert(byte4(before, p, c) == byte4(out@, p, c));
                    }
                }
            }
            px = px + 1;
        }
        proof {
            lemma_pixel_index(63, py as int, 64, 64);
        }
        py = py + 1;
    }
    Raster { width: 64, height: 64, data: out }
}

} // verus!
