//! The oldest pair of files, `.wix` / `.wil`: an offset index, a 256-colour
//! B, G, R, A palette, and entries of raw 8-bit palette indices.

use vstd::prelude::*;

use crate::error::{LibraryError, Result};
use crate::formats::bytes::{is_eof, read_offsets, read_u16, read_u32, u16_le, u32_le, le16, le32, write_u16, write_u32};
use crate::formats::container::LibraryContainer;
use crate::image::palette::Color;
use crate::image::raster::{byte4, center_preview, decode_indexed_rows, indexed_decoded, mirrored_pixel, preview_of, Raster};

verus! {

/// Where the entry records of a `.wil` file start.
pub const IMAGE_DATA_OFFSET: u32 = 1080;

/// Where the palette of a `.wil` file starts.
pub const PALETTE_OFFSET: usize = 56;

/// Bytes in the palette of a `.wil` file.
pub const PALETTE_SIZE: usize = 1024;

/// The `flag` field of new entries.
pub const DEFAULT_FLAG: u32 = 0xFFD40007;

/// One entry of a `.wil` file.
#[derive(Debug)]
pub struct MImage {
    pub width: u16,
    pub height: u16,
    pub x: i16,
    pub y: i16,
    pub flag: u32,
    /// Palette indices of the bottom-up rows.
    pub fbytes: Vec<u8>,
    /// `image` holds the decoded pixels.
    pub texture_valid: bool,
    pub image: Option<Raster>,
    pub preview: Option<Raster>,
}

/// Squared distance between `(r, g, b)` and entry `i` of a B, G, R, A palette.
pub open spec fn bgra_distance(pal: Seq<[u8; 4]>, i: int, r: u8, g: u8, b: u8) -> int {
    let c = pal[i];
    (r as int - c[2] as int) * (r as int - c[2] as int) + (g as int - c[1] as int) * (g as int
        - c[1] as int) + (b as int - c[0] as int) * (b as int - c[0] as int)
}

/// The first index among `1 .. n` (at least index 1) at the least distance
/// from `(r, g, b)`.
pub open spec fn nearest_from_one(pal: Seq<[u8; 4]>, r: u8, g: u8, b: u8, n: int) -> int
    decreases n,
{
    if n <= 2 {
        1
    } else {
        let prev = nearest_from_one(pal, r, g, b, n - 1);
        if bgra_distance(pal, n - 1, r, g, b) < bgra_distance(pal, prev, r, g, b) {
            n - 1
        } else {
            prev
        }
    }
}

/// The palette index that a pixel quantizes to: 0 (transparent) below alpha
/// 128, else the nearest of entries 1 to 255, the first one on ties.
pub open spec fn quantized_index(pal: Seq<[u8; 4]>, r: u8, g: u8, b: u8, a: u8) -> int {
    if a < 128 {
        0
    } else {
        nearest_from_one(pal, r, g, b, 256)
    }
}

/// The colour that index `i` of a B, G, R, A palette decodes to: index 0 is
/// transparent, and an alpha of 0 elsewhere means opaque.
pub open spec fn palette_color(pal: Seq<[u8; 4]>, i: int) -> Color {
    if i == 0 {
        Color { a: 0, r: 0, g: 0, b: 0 }
    } else {
        let c = pal[i];
        Color { a: if c[3] == 0 { 255 } else { c[3] }, r: c[2], g: c[1], b: c[0] }
    }
}

/// The decoded colours of a B, G, R, A palette.
pub open spec fn palette_colors(pal: Seq<[u8; 4]>) -> Seq<Color> {
    Seq::new(256, |i: int| palette_color(pal, i))
}

proof fn lemma_nearest_range(pal: Seq<[u8; 4]>, r: u8, g: u8, b: u8, n: int)
    ensures
        1 <= nearest_from_one(pal, r, g, b, n) < if n <= 2 { 2 } else { n },
    decreases n,
{
    if n > 2 {
        lemma_nearest_range(pal, r, g, b, n - 1);
    }
}

/// The palette index nearest to a pixel; 0 for a pixel with alpha below 128.
pub fn find_closest_palette_color(r: u8, g: u8, b: u8, a: u8, palette: &[[u8; 4]]) -> (idx: u8)
    requires
        palette@.len() == 256,
    ensures
        idx as int == quantized_index(palette@, r, g, b, a),
        a < 128 ==> idx == 0,
        a >= 128 ==> 1 <= idx,
{
    if a < 128 {
        return 0;
    }
    let mut best: usize = 1;
    let mut min_dist: u32 = bgra_dist(palette, 1, r, g, b);
    let mut i: usize = 2;
    while i < 256
        invariant
            2 <= i <= 256,
            palette@.len() == 256,
            best as int == nearest_from_one(palette@, r, g, b, i as int),
            1 <= best < i,
            min_dist as int == bgra_distance(palette@, best as int, r, g, b),
        decreases 256 - i,
    {
        let d = bgra_dist(palette, i, r, g, b);
        if d < min_dist {
            min_dist = d;
            best = i;
        }
        i = i + 1;
    }
    best as u8
}

fn bgra_dist(palette: &[[u8; 4]], i: usize, r: u8, g: u8, b: u8) -> (d: u32)
    requires
        i < palette@.len(),
    ensures
        d as int == bgra_distance(palette@, i as int, r, g, b),
{
    let c = palette[i];
    let dr = r as i32 - c[2] as i32;
    let dg = g as i32 - c[1] as i32;
    let db = b as i32 - c[0] as i32;
    assert(0 <= dr * dr <= 65025 && 0 <= dg * dg <= 65025 && 0 <= db * db <= 65025) by (nonlinear_arith)
        requires
            -255 <= dr <= 255,
            -255 <= dg <= 255,
            -255 <= db <= 255,
    ;
    (dr * dr + dg * dg + db * db) as u32
}

/// Transparency is never quantized to a colour: alpha below 128 gives index 0,
/// and an opaque enough pixel never gives index 0.
pub proof fn lemma_quantizer_transparency(pal: Seq<[u8; 4]>, r: u8, g: u8, b: u8, a: u8)
    ensures
        a < 128 ==> quantized_index(pal, r, g, b, a) == 0,
        a >= 128 ==> 1 <= quantized_index(pal, r, g, b, a) < 256,
{
    lemma_nearest_range(pal, r, g, b, 256);
}

/// The decoded colours of a B, G, R, A palette, as a palette of `Color`.
pub fn decoded_palette(palette: &[[u8; 4]]) -> (p: Vec<Color>)
    requires
        palette@.len() == 256,
    ensures
        p@ == palette_colors(palette@),
{
    let mut p: Vec<Color> = Vec::new();
    p.push(Color { a: 0, r: 0, g: 0, b: 0 });
    let mut i: usize = 1;
    while i < 256
        invariant
            1 <= i <= 256,
            palette@.len() == 256,
            p@.len() == i,
            forall|j: int| 0 <= j < i ==> p@[j] == palette_color(palette@, j),
        decreases 256 - i,
    {
        let c = palette[i];
        p.push(Color { a: if c[3] == 0 { 255 } else { c[3] }, r: c[2], g: c[1], b: c[0] });
        i = i + 1;
    }
    assert(p@ =~= palette_colors(palette@));
    p
}

/// `s` cut or extended with zeros to `n` bytes.
pub open spec fn resized(s: Seq<u8>, n: int) -> Seq<u8> {
    Seq::new(n as nat, |k: int| if k < s.len() { s[k] } else { 0 })
}

fn resize_bytes(v: &mut Vec<u8>, n: usize)
    ensures
        final(v)@ == resized(old(v)@, n as int),
{
    let mut out: Vec<u8> = Vec::new();
    let mut k: usize = 0;
    while k < n
        invariant
            k <= n,
            out@.len() == k,
            forall|j: int| 0 <= j < k ==> out@[j] == (if j < v@.len() { v@[j] } else { 0 }),
        decreases n - k,
    {
        out.push(if k < v.len() { v[k] } else { 0 });
        k = k + 1;
    }
    assert(out@ =~= resized(v@, n as int));
    *v = out;
}

/// `indices` holds the palette index of every pixel of the `w` by `h` raster
/// `img`, bottom row first.
pub open spec fn quantized_rows(indices: Seq<u8>, img: Seq<u8>, pal: Seq<[u8; 4]>, w: int, h: int) -> bool {
    &&& indices.len() == w * h
    &&& forall|p: int|
        0 <= p < w * h ==> #[trigger] indices[p] as int == {
            let q = mirrored_pixel(p, w, h);
            quantized_index(pal, byte4(img, q, 0), byte4(img, q, 1), byte4(img, q, 2), byte4(img, q, 3))
        }
}

impl MImage {
    /// An entry with no pixels and the default flag.
    pub fn new() -> (m: Self)
        ensures
            m.width == 0 && m.height == 0 && m.x == 0 && m.y == 0,
            m.flag == DEFAULT_FLAG,
            m.fbytes@.len() == 0,
            !m.texture_valid,
            m.image is None && m.preview is None,
    {
        MImage {
            width: 0,
            height: 0,
            x: 0,
            y: 0,
            flag: DEFAULT_FLAG,
            fbytes: Vec::new(),
            texture_valid: false,
            image: None,
            preview: None,
        }
    }

    /// An entry for a raster placed at `(x, y)`, each pixel quantized to
    /// `palette` and stored bottom row first.
    pub fn from_image(img: &Raster, x: i16, y: i16, palette: &[[u8; 4]]) -> (m: Self)
        requires
            img.wf(),
            img.width <= 65535,
            img.height <= 65535,
            palette@.len() == 256,
        ensures
            m.width as int == img.width && m.height as int == img.height,
            m.x == x && m.y == y && m.flag == DEFAULT_FLAG,
            quantized_rows(m.fbytes@, img.data@, palette@, img.width as int, img.height as int),
            m.image matches Some(i) && i@ == img@,
            m.texture_valid && m.preview is None,
    {
        let w = img.width as usize;
        let h = img.height as usize;
        let n = img.data.len();
        let mut fbytes: Vec<u8> = Vec::new();
        let mut yy: usize = 0;
        while yy < h
            invariant
                yy <= h,
                n == img.data@.len(),
                img.data@.len() == w * h * 4,
                palette@.len() == 256,
                fbytes@.len() == yy * w,
                forall|p: int|
                    0 <= p < yy * w ==> #[trigger] fbytes@[p] as int == {
                        let q = mirrored_pixel(p, w as int, h as int);
                        quantized_index(palette@, byte4(img.data@, q, 0), byte4(img.data@, q, 1), byte4(img.data@, q, 2), byte4(img.data@, q, 3))
                    },
            decreases h - yy,
        {
            let mut xx: usize = 0;
            while xx < w
                invariant
                    yy < h,
                    xx <= w,
                    n == img.data@.len(),
                    img.data@.len() == w * h * 4,
                    palette@.len() == 256,
                    fbytes@.len() == yy * w + xx,
                    forall|p: int|
                        0 <= p < yy * w + xx ==> #[trigger] fbytes@[p] as int == {
                            let q = mirrored_pixel(p, w as int, h as int);
                            quantized_index(palette@, byte4(img.data@, q, 0), byte4(img.data@, q, 1), byte4(img.data@, q, 2), byte4(img.data@, q, 3))
                        },
                decreases w - xx,
            {
                proof {
                    crate::image::raster::lemma_pixel_index(xx as int, yy as int, w as int, h as int);
                }
                let q = ((h - 1 - yy) * w + xx) * 4;
                let idx = find_closest_palette_color(img.data[q], img.data[q + 1], img.data[q + 2], img.data[q + 3], palette);
                fbytes.push(idx);
                xx = xx + 1;
            }
            proof {
                if w > 0 {
                    crate::image::raster::lemma_pixel_index((w - 1) as int, yy as int, w as int, h as int);
                }
                assert((yy + 1) * w == yy * w + w) by (nonlinear_arith);
            }
            yy = yy + 1;
        }
        assert(h * w == w * h) by (nonlinear_arith);
        MImage {
            width: img.width as u16,
            height: img.height as u16,
            x,
            y,
            flag: DEFAULT_FLAG,
            fbytes,
            texture_valid: true,
            image: Some(img.copy()),
            preview: None,
        }
    }

    /// Decodes the palette indices into `image`: bottom row first, index 0
    /// transparent. Index data of the wrong length is cut or padded with
    /// zeros first.
    pub fn decode_with_palette(&mut self, palette: &[[u8; 4]]) -> (r: Result<()>)
        requires
            palette@.len() == 256,
        ensures
            (old(self).width == 0 || old(self).height == 0) ==> r == Err::<(), LibraryError>(
                LibraryError::InvalidImageData,
            ),
            old(self).width > 0 && old(self).height > 0 && old(self).width * old(self).height * 4
                + old(self).width > usize::MAX ==> r == Err::<(), LibraryError>(LibraryError::InvalidImageData),
            old(self).width > 0 && old(self).height > 0 && old(self).width * old(self).height * 4
                + old(self).width <= usize::MAX ==> ({
                let w = old(self).width as int;
                let h = old(self).height as int;
                &&& r is Ok
                &&& final(self).fbytes@ == resized(old(self).fbytes@, w * h)
                &&& final(self).texture_valid
                &&& final(self).image matches Some(img) && img.width as int == w && img.height as int == h
                    && indexed_decoded(img.data@, final(self).fbytes@, palette_colors(palette@), w, h, w)
            }),
            final(self).width == old(self).width && final(self).height == old(self).height,
            final(self).x == old(self).x && final(self).y == old(self).y,
            final(self).flag == old(self).flag,
    {
        if self.width == 0 || self.height == 0 {
            return Err(LibraryError::InvalidImageData);
        }
        let w = self.width as usize;
        let h = self.height as usize;
        assert(w * h <= 65535 * 65535) by (nonlinear_arith)
            requires
                w <= 65535,
                h <= 65535,
        ;
        if (w as u64) * (h as u64) * 4 + (w as u64) > usize::MAX as u64 {
            return Err(LibraryError::InvalidImageData);
        }
        resize_bytes(&mut self.fbytes, w * h);
        let colors = decoded_palette(palette);
        let pixels = decode_indexed_rows(self.fbytes.as_slice(), &colors, w, h, w);
        self.image = Some(Raster { width: w as u32, height: h as u32, data: pixels });
        self.texture_valid = true;
        Ok(())
    }

    /// Builds the 64 by 64 preview of the decoded raster, if there is one.
    pub fn create_preview(&mut self)
        ensures
            final(self).image == old(self).image,
            final(self).fbytes@ == old(self).fbytes@,
            old(self).image is Some && old(self).image->0.wf() ==> (final(self).preview is Some
                && preview_of(final(self).preview->0, old(self).image->0)),
            !(old(self).image is Some && old(self).image->0.wf()) ==> *final(self) == *old(self),
            *final(self) == (MImage { preview: final(self).preview, ..*old(self) }),
    {
        let preview = match &self.image {
            Some(img) => {
                if img.is_valid() {
                    Some(center_preview(img))
                } else {
                    None
                }
            },
            None => None,
        };
        if preview.is_some() {
            self.preview = preview;
        }
    }

    /// The preview, built on first request.
    pub fn get_preview(&mut self) -> (r: Option<&Raster>)
        ensures
            final(self).image == old(self).image,
            old(self).preview is Some ==> (r is Some && *r->0 == old(self).preview->0),
            old(self).preview is None && old(self).image is Some && old(self).image->0.wf() ==> (r is Some
                && preview_of(*r->0, old(self).image->0)),
            r is Some ==> final(self).preview == Some(*r->0),
            *final(self) == (MImage { preview: final(self).preview, ..*old(self) }),
    {
        if self.preview.is_none() {
            self.create_preview();
        }
        self.preview.as_ref()
    }

    /// Appends the entry's record: width, height, flag, then the indices.
    pub fn save(&self, writer: &mut Vec<u8>)
        ensures
            final(writer)@ == old(writer)@ + wil_record(*self),
    {
        let ghost start = writer@;
        write_u16(writer, self.width);
        write_u16(writer, self.height);
        write_u32(writer, self.flag);
        crate::formats::mlibrary_v2::append_bytes(writer, &self.fbytes);
        reveal(wil_record);
        assert(writer@ =~= start + wil_record(*self));
    }
}

/// The record of an entry in a `.wil` file.
#[verifier::opaque]
pub open spec fn wil_record(m: MImage) -> Seq<u8> {
    le16(m.width as int) + le16(m.height as int) + le32(m.flag as int) + m.fbytes@
}

} // verus!

verus! {

/// The signature that starts a `.wix` file this library writes.
pub open spec fn wix_signature() -> Seq<u8> {
    seq![35, 73, 78, 68, 88, 32, 118, 49, 46, 48, 45, 87, 69, 77, 65, 68, 69, 32, 69, 110, 116, 101, 114, 116, 97, 105, 110, 109, 101, 110, 116, 32, 105, 110, 99, 46, 0, 0, 0, 0, 0, 0, 0, 0]
}

/// The signature that starts a `.wil` file this library writes.
pub open spec fn wil_signature() -> Seq<u8> {
    seq![35, 87, 69, 77, 65, 68, 69, 32, 69, 110, 116, 101, 114, 116, 97, 105, 110, 109, 101, 110, 116, 32, 105, 110, 99, 46, 0, 0, 0, 0, 0, 0, 0, 0, 0, 0, 0, 0, 0, 0, 0, 0, 0, 0]
}

/// The prefix of the standard `.wix` signature.
pub open spec fn standard_magic() -> Seq<u8> {
    seq![35, 73, 78, 68, 88, 32, 118, 49, 46, 48, 45, 87, 69, 77, 65, 68, 69]
}

/// The prefix shared by all recognised `.wix` signatures.
pub open spec fn index_magic() -> Seq<u8> {
    seq![35, 73, 78, 68, 88]
}

fn wix_signature_bytes() -> (v: Vec<u8>)
    ensures
        v@ == wix_signature(),
{
    let v: Vec<u8> = vec![35, 73, 78, 68, 88, 32, 118, 49, 46, 48, 45, 87, 69, 77, 65, 68, 69, 32, 69, 110, 116, 101, 114, 116, 97, 105, 110, 109, 101, 110, 116, 32, 105, 110, 99, 46, 0, 0, 0, 0, 0, 0, 0, 0];
    assert(v@ =~= wix_signature());
    v
}

fn wil_signature_bytes() -> (v: Vec<u8>)
    ensures
        v@ == wil_signature(),
{
    let v: Vec<u8> = vec![35, 87, 69, 77, 65, 68, 69, 32, 69, 110, 116, 101, 114, 116, 97, 105, 110, 109, 101, 110, 116, 32, 105, 110, 99, 46, 0, 0, 0, 0, 0, 0, 0, 0, 0, 0, 0, 0, 0, 0, 0, 0, 0, 0];
    assert(v@ =~= wil_signature());
    v
}

fn standard_magic_bytes() -> (v: Vec<u8>)
    ensures
        v@ == standard_magic(),
{
    let v: Vec<u8> = vec![35, 73, 78, 68, 88, 32, 118, 49, 46, 48, 45, 87, 69, 77, 65, 68, 69];
    assert(v@ =~= standard_magic());
    v
}

fn index_magic_bytes() -> (v: Vec<u8>)
    ensures
        v@ == index_magic(),
{
    let v: Vec<u8> = vec![35, 73, 78, 68, 88];
    assert(v@ =~= index_magic());
    v
}

} // verus!

verus! {

/// `d` starts with `m`.
pub open spec fn has_prefix(d: Seq<u8>, m: Seq<u8>) -> bool {
    d.len() >= m.len() && d.subrange(0, m.len() as int) == m
}

/// How many whole `u32` values, at most 10, can be read from `start`.
pub open spec fn probe_len(d: Seq<u8>, start: int) -> int {
    if d.len() <= start {
        0
    } else if (d.len() - start) / 4 < 10 {
        (d.len() - start) / 4
    } else {
        10
    }
}

/// A value plausible as a byte offset into a data file of some kilobytes.
pub open spec fn offset_like(v: int) -> bool {
    1000 < v < 10_000_000
}

/// Some values can be read from `start` and every one of the first (up to)
/// ten looks like an offset.
pub open spec fn probe_ok(d: Seq<u8>, start: int) -> bool {
    probe_len(d, start) > 0 && forall|i: int|
        0 <= i < probe_len(d, start) ==> offset_like(#[trigger] u32_le(d, start + 4 * i))
}

/// Where the offsets of a `.wix` file start: after the count and data start
/// of the standard signature, after the count of the short one, else at the
/// first of 48, 52 that probes well, else at 44.
pub open spec fn wix_header_size(d: Seq<u8>) -> int {
    if has_prefix(d, standard_magic()) {
        52
    } else if has_prefix(d, index_magic()) {
        48
    } else if probe_ok(d, 48) {
        48
    } else if probe_ok(d, 52) {
        52
    } else {
        44
    }
}

/// Number of offsets of a `.wix` file: the count field of a recognised
/// signature, or, where that is 0 or absent, every whole `u32` after the header.
pub open spec fn wix_count(d: Seq<u8>) -> int {
    let hs = wix_header_size(d);
    let field = if has_prefix(d, index_magic()) { u32_le(d, 44) } else { 0 };
    if field != 0 {
        field
    } else if d.len() >= hs {
        (d.len() - hs) / 4
    } else {
        0
    }
}

/// A `.wix` file without a recognised signature whose values from byte 48
/// look like offsets has its offsets from byte 48, as many as fill the file.
pub proof fn lemma_probed_layout(d: Seq<u8>)
    requires
        !has_prefix(d, index_magic()),
        probe_ok(d, 48),
    ensures
        wix_header_size(d) == 48,
        wix_count(d) == (d.len() - 48) / 4,
        wix_fields_present(d),
{
    if has_prefix(d, standard_magic()) {
        assert(d.subrange(0, 5) =~= d.subrange(0, 17).subrange(0, 5));
        assert(standard_magic().subrange(0, 5) =~= index_magic());
    }
}

/// The fields that the recognised signature promises are present.
pub open spec fn wix_fields_present(d: Seq<u8>) -> bool {
    &&& has_prefix(d, standard_magic()) ==> d.len() >= 52
    &&& has_prefix(d, index_magic()) ==> d.len() >= 48
}

fn starts_with(d: &[u8], m: &Vec<u8>) -> (r: bool)
    ensures
        r == has_prefix(d@, m@),
{
    if d.len() < m.len() {
        return false;
    }
    let mut i: usize = 0;
    while i < m.len()
        invariant
            i <= m@.len(),
            d@.len() >= m@.len(),
            d@.subrange(0, i as int) == m@.subrange(0, i as int),
        decreases m@.len() - i,
    {
        if d[i] != m[i] {
            assert(d@.subrange(0, m@.len() as int)[i as int] != m@[i as int]);
            return false;
        }
        i = i + 1;
        assert(d@.subrange(0, i as int) =~= m@.subrange(0, i as int));
    }
    assert(m@.subrange(0, m@.len() as int) =~= m@);
    true
}

fn probe(d: &[u8], start: usize) -> (r: bool)
    ensures
        r == probe_ok(d@, start as int),
{
    let n = d.len();
    let k: usize = if n <= start {
        0
    } else if (n - start) / 4 < 10 {
        (n - start) / 4
    } else {
        10
    };
    if k == 0 {
        return false;
    }
    let mut i: usize = 0;
    while i < k
        invariant
            i <= k,
            k == probe_len(d@, start as int),
            n == d@.len(),
            forall|j: int| 0 <= j < i ==> offset_like(#[trigger] u32_le(d@, start + 4 * j)),
        decreases k - i,
    {
        let v = match read_u32(d, start + 4 * i) {
            Ok(v) => v,
            Err(_) => {
                return false;
            },
        };
        if !(1000 < v && v < 10_000_000) {
            return false;
        }
        i = i + 1;
    }
    true
}

/// The entry count and the offset-table start of a `.wix` file.
pub fn detect_wix_layout(d: &[u8]) -> (r: Result<(usize, usize)>)
    ensures
        r is Ok <==> wix_fields_present(d@),
        r matches Ok((count, header_size)) ==> count as int == wix_count(d@) && header_size as int
            == wix_header_size(d@),
        r matches Err(e) ==> is_eof(e),
{
    let n = d.len();
    let (field, header_size): (u32, usize) = if starts_with(d, &index_magic_bytes()) {
        let count = read_u32(d, 44)?;
        if starts_with(d, &standard_magic_bytes()) {
            read_u32(d, 48)?;
            let n = d.len();
            let count: usize = if count != 0 {
                count as usize
            } else {
                (n - 52) / 4
            };
            return Ok((count, 52));
        } else {
            proof {
                if has_prefix(d@, standard_magic()) {
                    assert(d@.subrange(0, 5) =~= d@.subrange(0, 17).subrange(0, 5));
                    assert(standard_magic().subrange(0, 5) =~= index_magic());
                }
            }
        }
        (count, 48)
    } else {
        proof {
            if has_prefix(d@, standard_magic()) {
                assert(d@.subrange(0, 5) =~= d@.subrange(0, 17).subrange(0, 5));
                assert(standard_magic().subrange(0, 5) =~= index_magic());
            }
        }
        if probe(d, 48) {
            (0, 48)
        } else if probe(d, 52) {
            (0, 52)
        } else {
            (0, 44)
        }
    };
    let count: usize = if field != 0 {
        field as usize
    } else if n >= header_size {
        (n - header_size) / 4
    } else {
        0
    };
    Ok((count, header_size))
}

/// The offsets of a `.wix` file.
pub fn read_wix_file(d: &[u8]) -> (r: Result<Vec<u32>>)
    ensures
        r is Ok <==> wix_fields_present(d@) && wix_header_size(d@) + 4 * wix_count(d@) <= d@.len(),
        r matches Ok(v) ==> v@.len() == wix_count(d@) && forall|i: int|
            0 <= i < v@.len() ==> v@[i] as int == #[trigger] u32_le(d@, wix_header_size(d@) + 4 * i),
        r matches Err(e) ==> is_eof(e),
{
    let (count, header_size) = detect_wix_layout(d)?;
    read_offsets(d, header_size, count)
}

/// The B, G, R, A palette of a `.wil` file; entry 0 is always transparent.
pub open spec fn wil_palette_entry(d: Seq<u8>, i: int, c: int) -> u8 {
    if i == 0 {
        0
    } else {
        d[PALETTE_OFFSET + 4 * i + c]
    }
}

/// Reads the palette of a `.wil` file.
pub fn read_palette(d: &[u8]) -> (r: Result<Vec<[u8; 4]>>)
    ensures
        r is Ok <==> d@.len() >= 1080,
        r matches Ok(p) ==> p@.len() == 256 && forall|i: int, c: int|
            0 <= i < 256 && 0 <= c < 4 ==> #[trigger] p@[i][c] == wil_palette_entry(d@, i, c),
        r matches Err(e) ==> is_eof(e),
{
    let n = d.len();
    if n < PALETTE_OFFSET + PALETTE_SIZE {
        return Err(LibraryError::Io(String::from_str("unexpected end of data")));
    }
    let mut p: Vec<[u8; 4]> = Vec::new();
    p.push([0, 0, 0, 0]);
    let mut i: usize = 1;
    while i < 256
        invariant
            1 <= i <= 256,
            n == d@.len(),
            n >= 1080,
            p@.len() == i,
            forall|j: int, c: int| 0 <= j < i && 0 <= c < 4 ==> #[trigger] p@[j][c] == wil_palette_entry(d@, j, c),
        decreases 256 - i,
    {
        let at = PALETTE_OFFSET + 4 * i;
        p.push([d[at], d[at + 1], d[at + 2], d[at + 3]]);
        i = i + 1;
    }
    Ok(p)
}

} // verus!

verus! {

/// A `.wix` / `.wil` library.
pub struct MLibraryV0 {
    /// Path of the library without its extension.
    pub file_name: String,
    pub entries: LibraryContainer<MImage>,
    /// The index and palette have been read.
    pub initialized: bool,
    /// Decode pixels when an entry is loaded.
    pub load: bool,
    /// The B, G, R, A palette of the data file.
    pub palette: Vec<[u8; 4]>,
    /// The bytes of the `.wix` index file, if it exists.
    pub index_data: Option<Vec<u8>>,
    /// The bytes of the `.wil` data file, if it exists.
    pub data: Option<Vec<u8>>,
}

/// The record at `pos` of a `.wil` file is complete.
pub open spec fn wil_record_ok(d: Seq<u8>, pos: int) -> bool {
    0 <= pos && pos + 8 <= d.len() && pos + 8 + u16_le(d, pos) * u16_le(d, pos + 2) <= d.len()
}

/// The fields of the record at `pos` of a `.wil` file.
pub open spec fn wil_record_fields(m: MImage, d: Seq<u8>, pos: int) -> bool {
    &&& m.width as int == u16_le(d, pos)
    &&& m.height as int == u16_le(d, pos + 2)
    &&& m.flag as int == u32_le(d, pos + 4)
}

/// Reads the record at `pos` of a `.wil` file, without decoding it.
pub fn read_wil_image(d: &[u8], pos: usize) -> (r: Result<MImage>)
    ensures
        r is Ok <==> wil_record_ok(d@, pos as int),
        r matches Ok(m) ==> wil_record_fields(m, d@, pos as int) && m.fbytes@ == d@.subrange(
            pos + 8,
            pos + 8 + u16_le(d@, pos as int) * u16_le(d@, pos + 2),
        ) && m.x == 0 && m.y == 0 && !m.texture_valid && m.image is None,
        r matches Err(e) ==> is_eof(e),
{
    let n = d.len();
    if pos >= n || n - pos < 8 {
        return Err(LibraryError::Io(String::from_str("unexpected end of data")));
    }
    let width = read_u16(d, pos)?;
    let height = read_u16(d, pos + 2)?;
    let flag = read_u32(d, pos + 4)?;
    assert(width as int * height as int <= 65535 * 65535) by (nonlinear_arith)
        requires
            width <= 65535,
            height <= 65535,
    ;
    let size = width as usize * height as usize;
    if n - (pos + 8) < size {
        return Err(LibraryError::Io(String::from_str("unexpected end of data")));
    }
    let fbytes = crate::formats::mlibrary_v1::copy_range(d, pos + 8, size);
    let mut img = MImage::new();
    img.width = width;
    img.height = height;
    img.flag = flag;
    img.fbytes = fbytes;
    Ok(img)
}

/// The records of `s`, one after another.
pub open spec fn wil_records(s: Seq<MImage>) -> Seq<u8>
    decreases s.len(),
{
    if s.len() == 0 {
        Seq::empty()
    } else {
        wil_records(s.drop_last()) + wil_record(s.last())
    }
}

/// The offsets of the records of `s` when they start at byte `base`.
pub open spec fn wil_offsets(s: Seq<MImage>, base: int) -> Seq<u8>
    decreases s.len(),
{
    if s.len() == 0 {
        Seq::empty()
    } else {
        wil_offsets(s.drop_last(), base) + le32(base + wil_records(s.drop_last()).len())
    }
}

/// The bytes of a palette, four per entry.
pub open spec fn palette_bytes(p: Seq<[u8; 4]>) -> Seq<u8>
    decreases p.len(),
{
    if p.len() == 0 {
        Seq::empty()
    } else {
        palette_bytes(p.drop_last()) + p.last()@
    }
}

/// The `.wix` file for entries `s`.
pub open spec fn wix_file(s: Seq<MImage>) -> Seq<u8> {
    wix_signature() + le32(s.len() as int) + le32(1080) + wil_offsets(s, 1080)
}

/// The `.wil` file for entries `s` and palette `p`.
pub open spec fn wil_file(s: Seq<MImage>, p: Seq<[u8; 4]>) -> Seq<u8> {
    wil_signature() + Seq::new(12, |i: int| 0u8) + palette_bytes(p) + wil_records(s)
}

proof fn lemma_wil_step(all: Seq<MImage>, i: int, base: int)
    requires
        0 <= i < all.len(),
    ensures
        wil_records(all.take(i + 1)) == wil_records(all.take(i)) + wil_record(all[i]),
        wil_offsets(all.take(i + 1), base) == wil_offsets(all.take(i), base) + le32(
            base + wil_records(all.take(i)).len(),
        ),
{
    let next = all.take(i + 1);
    assert(next.drop_last() =~= all.take(i));
    assert(next.last() == all[i]);
}

/// `m` is the entry read from the record at `pos` of `d` and decoded
/// through the palette `pal`.
pub open spec fn v0_loaded_from(m: MImage, d: Seq<u8>, pos: int, pal: Seq<[u8; 4]>) -> bool {
    let w = m.width as int;
    let h = m.height as int;
    &&& wil_record_fields(m, d, pos)
    &&& m.fbytes@ == d.subrange(pos + 8, pos + 8 + w * h)
    &&& m.texture_valid
    &&& m.image matches Some(img) && img.width as int == w && img.height as int == h && indexed_decoded(
        img.data@,
        m.fbytes@,
        palette_colors(pal),
        w,
        h,
        w,
    )
}

/// The record at `pos` of `d` is complete and of a size that decodes.
pub open spec fn v0_loadable(d: Seq<u8>, pos: int) -> bool {
    let w = u16_le(d, pos);
    let h = u16_le(d, pos + 2);
    wil_record_ok(d, pos) && w > 0 && h > 0 && w * h * 4 + w <= usize::MAX
}

impl MLibraryV0 {
    pub open spec fn wf(&self) -> bool {
        self.entries.wf() && self.palette@.len() == 256
    }

    /// Entry `index` is loaded as `m`; a further access changes nothing.
    pub open spec fn holds_loaded(&self, index: int, m: MImage) -> bool {
        &&& self.initialized
        &&& 0 <= index < self.entries.images@.len()
        &&& self.entries.images@[index] == Some(m)
    }

    /// A library whose files do not exist yet: no entries.
    pub fn new(file_name: String) -> (r: Result<Self>)
        ensures
            r matches Ok(lib) && lib.wf() && lib.entries.count == 0 && lib.initialized && lib.load,
    {
        let mut palette: Vec<[u8; 4]> = Vec::new();
        let mut i: usize = 0;
        while i < 256
            invariant
                i <= 256,
                palette@.len() == i,
            decreases 256 - i,
        {
            palette.push([0, 0, 0, 0]);
            i = i + 1;
        }
        Ok(MLibraryV0 {
            file_name,
            entries: LibraryContainer::new(),
            initialized: true,
            load: true,
            palette,
            index_data: None,
            data: None,
        })
    }

    /// A library read from the bytes of its `.wix` index and `.wil` data files.
    pub fn open(file_name: String, index_data: Vec<u8>, data: Vec<u8>) -> (r: Result<Self>)
        ensures
            r is Ok <==> wix_fields_present(index_data@) && wix_header_size(index_data@) + 4
                * wix_count(index_data@) <= index_data@.len() && data@.len() >= 1080,
            r matches Ok(lib) ==> lib.wf() && lib.initialized && lib.load && v0_index_loaded(lib, index_data@, data@),
            r matches Err(e) ==> is_eof(e),
    {
        let offsets = read_wix_file(index_data.as_slice())?;
        let palette = read_palette(data.as_slice())?;
        Ok(MLibraryV0 {
            file_name,
            entries: LibraryContainer::with_offsets(offsets),
            initialized: true,
            load: true,
            palette,
            index_data: Some(index_data),
            data: Some(data),
        })
    }

    /// Reads the index and the palette again; without both files there is
    /// nothing to read and the library is left as it is.
    pub fn initialize(&mut self) -> (r: Result<()>)
        requires
            old(self).wf(),
        ensures
            final(self).wf(),
            final(self).index_data == old(self).index_data,
            final(self).data == old(self).data,
            final(self).load == old(self).load,
            r is Ok ==> final(self).initialized,
            r is Err ==> final(self).initialized == old(self).initialized && final(self).entries == old(self).entries,
            (old(self).index_data is None || old(self).data is None) ==> r is Ok && final(self).entries
                == old(self).entries,
            r is Err ==> *final(self) == *old(self),
            r matches Err(e) ==> is_eof(e),
            old(self).index_data is Some && old(self).data is Some ==> ({
                let ix = old(self).index_data->0@;
                let d = old(self).data->0@;
                &&& r is Ok <==> wix_fields_present(ix) && wix_header_size(ix) + 4 * wix_count(ix)
                    <= ix.len() && d.len() >= 1080
                &&& r is Ok ==> v0_index_loaded(*final(self), ix, d)
            }),
    {
        let (offsets, palette) = match (&self.index_data, &self.data) {
            (Some(ix), Some(d)) => (read_wix_file(ix.as_slice())?, read_palette(d.as_slice())?),
            _ => {
                self.initialized = true;
                return Ok(());
            },
        };
        self.entries = LibraryContainer::with_offsets(offsets);
        self.palette = palette;
        self.initialized = true;
        Ok(())
    }

    /// Marks the library for re-reading on next access.
    pub fn close(&mut self)
        ensures
            !final(self).initialized,
            final(self).entries == old(self).entries,
            final(self).palette == old(self).palette,
            final(self).index_data == old(self).index_data,
            final(self).data == old(self).data,
            final(self).load == old(self).load,
    {
        self.initialized = false;
    }

    /// Reads and decodes the record of entry `index`.
    fn load_image(&self, index: usize) -> (r: Result<MImage>)
        requires
            self.wf(),
            index < self.entries.index_list@.len(),
        ensures
            r matches Ok(m) ==> self.data matches Some(d) && v0_loaded_from(
                m,
                d@,
                self.entries.index_list@[index as int] as int,
                self.palette@,
            ),
            self.data matches Some(d) && v0_loadable(d@, self.entries.index_list@[index as int] as int) ==> r is Ok,
            self.data is None ==> (r matches Err(e) && e is FileNotFound),
    {
        match &self.data {
            None => Err(LibraryError::FileNotFound(self.file_name.clone())),
            Some(d) => {
                let mut img = read_wil_image(d.as_slice(), self.entries.index_list[index] as usize)?;
                let ghost raw = img.fbytes@;
                img.decode_with_palette(self.palette.as_slice())?;
                assert(resized(raw, img.width as int * img.height as int) =~= raw);
                Ok(img)
            },
        }
    }

    /// Makes sure that entry `index` is read and decoded. An index past the
    /// end is no error here.
    pub fn check_image(&mut self, index: usize) -> (r: Result<()>)
        requires
            old(self).wf(),
        ensures
            final(self).wf(),
            final(self).load == old(self).load,
            final(self).data == old(self).data,
            forall|m: MImage| old(self).holds_loaded(index as int, m) ==> r is Ok && *final(self) == *old(self),
            r is Ok && index < final(self).entries.count ==> exists|m: MImage| final(self).holds_loaded(index as int, m),
            r is Ok ==> final(self).initialized,
            old(self).initialized ==> final(self).entries.count == old(self).entries.count
                && final(self).entries.index_list == old(self).entries.index_list,
            old(self).initialized && index >= old(self).entries.count ==> r is Ok && *final(self) == *old(self),
            old(self).initialized && index < old(self).entries.count && old(self).entries.images@[index as int] is None
                && r is Ok ==> (final(self).data matches Some(d) && (final(self).entries.images@[index as int] matches Some(m)
                && v0_loaded_from(m, d@, old(self).entries.index_list@[index as int] as int, old(self).palette@))),
            old(self).initialized && index < old(self).entries.count && old(self).entries.images@[index as int] is None
                && (old(self).data matches Some(d) && v0_loadable(d@, old(self).entries.index_list@[index as int] as int))
                ==> r is Ok,
    {
        if !self.initialized {
            self.initialize()?;
        }
        if index >= self.entries.images.len() {
            return Ok(());
        }
        if self.entries.images[index].is_none() {
            let m = self.load_image(index)?;
            self.entries.images.set(index, Some(m));
        }
        assert(self.holds_loaded(index as int, self.entries.images@[index as int]->0));
        Ok(())
    }

    /// Entry `index`, read and decoded on first access and cached after.
    pub fn get_image(&mut self, index: usize) -> (r: Result<&MImage>)
        requires
            old(self).wf(),
        ensures
            final(self).wf(),
            r matches Ok(m) ==> final(self).holds_loaded(index as int, *m),
            forall|m: MImage|
                old(self).holds_loaded(index as int, m) ==> (r matches Ok(x) && *x == m) && *final(self)
                    == *old(self),
            old(self).initialized && index >= old(self).entries.count ==> r
                == Err::<&MImage, LibraryError>(LibraryError::IndexOutOfBounds(index)),
            old(self).initialized && index < old(self).entries.count && old(self).entries.images@[index as int] is None
                && r is Ok ==> (final(self).data matches Some(d) && (final(self).entries.images@[index as int] matches Some(m)
                && v0_loaded_from(m, d@, old(self).entries.index_list@[index as int] as int, old(self).palette@))),
            old(self).initialized && index < old(self).entries.count && old(self).entries.images@[index as int] is None
                && (old(self).data matches Some(d) && v0_loadable(d@, old(self).entries.index_list@[index as int] as int))
                ==> r is Ok,
    {
        self.check_image(index)?;
        if index >= self.entries.images.len() {
            return Err(LibraryError::IndexOutOfBounds(index));
        }
        match &self.entries.images[index] {
            Some(m) => Ok(m),
            None => Err(LibraryError::IndexOutOfBounds(index)),
        }
    }

    /// Appends an entry.
    pub fn add_image(&mut self, image: MImage)
        requires
            old(self).wf(),
        ensures
            final(self).wf(),
            *final(self) == (MLibraryV0 { entries: final(self).entries, ..*old(self) }),
            final(self).entries.images@ == old(self).entries.images@.push(Some(image)),
            final(self).entries.count == old(self).entries.count + 1,
    {
        self.entries.add(image);
    }

    /// Replaces entry `index`.
    pub fn replace_image(&mut self, index: usize, image: MImage) -> (r: Result<()>)
        requires
            old(self).wf(),
        ensures
            final(self).wf(),
            *final(self) == (MLibraryV0 { entries: final(self).entries, ..*old(self) }),
            final(self).entries.index_list@ == old(self).entries.index_list@,
            index < old(self).entries.count ==> r is Ok && final(self).entries.images@ == old(self).entries.images@.update(
                index as int,
                Some(image),
            ),
            index >= old(self).entries.count ==> r == Err::<(), LibraryError>(LibraryError::IndexOutOfBounds(index))
                && *final(self) == *old(self),
    {
        self.entries.replace(index, image)
    }

    /// Inserts an entry before `index`.
    pub fn insert_image(&mut self, index: usize, image: MImage) -> (r: Result<()>)
        requires
            old(self).wf(),
        ensures
            final(self).wf(),
            *final(self) == (MLibraryV0 { entries: final(self).entries, ..*old(self) }),
            index <= old(self).entries.count ==> r is Ok && final(self).entries.images@ == old(self).entries.images@.insert(
                index as int,
                Some(image),
            ),
            index > old(self).entries.count ==> r == Err::<(), LibraryError>(LibraryError::IndexOutOfBounds(index))
                && *final(self) == *old(self),
    {
        self.entries.insert(index, image)
    }

    /// Removes entry `index`; removing the last remaining entry empties the library.
    pub fn remove_image(&mut self, index: usize) -> (r: Result<()>)
        requires
            old(self).wf(),
        ensures
            final(self).wf(),
            *final(self) == (MLibraryV0 { entries: final(self).entries, ..*old(self) }),
            old(self).entries.count <= 1 ==> r is Ok && final(self).entries.count == 0,
            old(self).entries.count > 1 && index < old(self).entries.count ==> r is Ok
                && final(self).entries.images@ == old(self).entries.images@.remove(index as int),
            old(self).entries.count > 1 && index >= old(self).entries.count ==> r == Err::<(), LibraryError>(
                LibraryError::IndexOutOfBounds(index),
            ) && *final(self) == *old(self),
    {
        self.entries.remove(index)
    }

    pub fn count(&self) -> (n: usize)
        ensures
            n == self.entries.count,
    {
        self.entries.count
    }

    pub fn get_palette(&self) -> (p: &Vec<[u8; 4]>)
        ensures
            p@ == self.palette@,
    {
        &self.palette
    }

    pub fn set_palette(&mut self, palette: Vec<[u8; 4]>)
        requires
            old(self).wf(),
            palette@.len() == 256,
        ensures
            final(self).wf(),
            final(self).palette@ == palette@,
            final(self).entries == old(self).entries,
    {
        self.palette = palette;
    }

    /// The bytes of the `.wix` and `.wil` files for the current entries:
    /// signatures, count, data start 1080, offsets assigned in list order
    /// from 1080, 12 reserved zero bytes, the palette, then the records.
    /// Entries not read yet are read from the data file first, without decoding.
    #[verifier::loop_isolation(false)]
    #[verifier::spinoff_prover]
    pub fn save(&mut self) -> (r: Result<(Vec<u8>, Vec<u8>)>)
        requires
            old(self).wf(),
        ensures
            final(self).wf(),
            final(self).entries.count == old(self).entries.count,
            r matches Ok((wix, wil)) ==> all_loaded_v0(final(self).entries.images@) && wix@ == wix_file(
                entries_of(final(self).entries.images@),
            ) && wil@ == wil_file(entries_of(final(self).entries.images@), final(self).palette@),
            forall|i: int|
                0 <= i < old(self).entries.count && old(self).entries.images@[i] is Some
                    ==> final(self).entries.images@[i] == old(self).entries.images@[i],
            final(self).palette == old(self).palette,
            wil_unread_readable(*old(self)) ==> all_loaded_v0(final(self).entries.images@) && (wil_fits(
                entries_of(final(self).entries.images@),
                final(self).palette@,
            ) ==> r is Ok),
    {
        let n = self.entries.images.len();
        let mut i: usize = 0;
        while i < n
            invariant
                i <= n,
                n == self.entries.count,
                self.wf(),
                self.entries.count == old(self).entries.count,
                self.palette == old(self).palette,
                self.data == old(self).data,
                self.entries.index_list@ == old(self).entries.index_list@,
                forall|j: int| 0 <= j < i ==> #[trigger] self.entries.images@[j] is Some,
                forall|j: int|
                    0 <= j < n && old(self).entries.images@[j] is Some
                        ==> self.entries.images@[j] == old(self).entries.images@[j],
                forall|j: int| i <= j < n ==> self.entries.images@[j] == old(self).entries.images@[j],
            decreases n - i,
        {
            if self.entries.images[i].is_none() {
                let m = match &self.data {
                    Some(d) => read_wil_image(d.as_slice(), self.entries.index_list[i] as usize)?,
                    None => {
                        return Err(LibraryError::FileNotFound(self.file_name.clone()));
                    },
                };
                self.entries.images.set(i, Some(m));
            }
            i = i + 1;
        }
        if n > 0x3fff_fff0 {
            return Err(LibraryError::ParseError(String::from_str("too many entries")));
        }
        let ghost all = entries_of(self.entries.images@);
        let mut records: Vec<u8> = Vec::new();
        let mut table: Vec<u8> = Vec::new();
        let mut k: usize = 0;
        while k < n
            invariant
                k <= n,
                n == self.entries.images@.len(),
                all_loaded_v0(self.entries.images@),
                all == entries_of(self.entries.images@),
                records@ == wil_records(all.take(k as int)),
                table@ == wil_offsets(all.take(k as int), 1080),
            decreases n - k,
        {
            proof {
                lemma_wil_step(all, k as int, 1080);
                lemma_wil_records_prefix(all, k as int);
                lemma_palette_len(self.palette@);
            }
            let len = records.len();
            if len > (u32::MAX - IMAGE_DATA_OFFSET) as usize {
                return Err(LibraryError::ParseError(String::from_str("library too large")));
            }
            write_u32(&mut table, IMAGE_DATA_OFFSET + len as u32);
            match &self.entries.images[k] {
                Some(m) => {
                    assert(*m == all[k as int]);
                    m.save(&mut records);
                },
                None => {},
            }
            k = k + 1;
        }
        assert(all.take(n as int) =~= all);
        let mut wix = wix_signature_bytes();
        write_u32(&mut wix, n as u32);
        write_u32(&mut wix, IMAGE_DATA_OFFSET);
        crate::formats::mlibrary_v2::append_bytes(&mut wix, &table);
        assert(wix@ =~= wix_file(all));
        let mut wil = wil_signature_bytes();
        let mut z: usize = 0;
        while z < 12
            invariant
                z <= 12,
                wil@ == wil_signature() + Seq::new(z as nat, |i: int| 0u8),
            decreases 12 - z,
        {
            wil.push(0);
            z = z + 1;
            assert(wil@ =~= wil_signature() + Seq::new(z as nat, |i: int| 0u8));
        }
        let ghost head = wil@;
        let mut p: usize = 0;
        while p < 256
            invariant
                p <= 256,
                self.palette@.len() == 256,
                wil@ == head + palette_bytes(self.palette@.take(p as int)),
            decreases 256 - p,
        {
            let c = self.palette[p];
            proof {
                let next = self.palette@.take(p + 1);
                assert(next.drop_last() =~= self.palette@.take(p as int));
            }
            wil.push(c[0]);
            wil.push(c[1]);
            wil.push(c[2]);
            wil.push(c[3]);
            p = p + 1;
            assert(wil@ =~= head + palette_bytes(self.palette@.take(p as int)));
        }
        assert(self.palette@.take(256) =~= self.palette@);
        crate::formats::mlibrary_v2::append_bytes(&mut wil, &records);
        assert(wil@ =~= wil_file(all, self.palette@));
        Ok((wix, wil))
    }
}

/// `lib` holds the offsets of the `.wix` bytes `ix`, every slot empty, and
/// the palette of the `.wil` bytes `d`.
pub open spec fn v0_index_loaded(lib: MLibraryV0, ix: Seq<u8>, d: Seq<u8>) -> bool {
    &&& lib.entries.count == wix_count(ix)
    &&& forall|i: int|
        #![trigger lib.entries.index_list@[i]]
        #![trigger u32_le(ix, wix_header_size(ix) + 4 * i)]
        0 <= i < lib.entries.count ==> lib.entries.images@[i] is None && lib.entries.index_list@[i] as int
            == u32_le(ix, wix_header_size(ix) + 4 * i)
    &&& forall|i: int, c: int|
        0 <= i < 256 && 0 <= c < 4 ==> #[trigger] lib.palette@[i][c] == wil_palette_entry(d, i, c)
}

/// Every slot not read yet has a complete record in the data file.
pub open spec fn wil_unread_readable(lib: MLibraryV0) -> bool {
    forall|i: int|
        0 <= i < lib.entries.count && #[trigger] lib.entries.images@[i] is None ==> (lib.data matches Some(d)
            && wil_record_ok(d@, lib.entries.index_list@[i] as int))
}

/// Entries `s` fit a `.wil` file whose offsets are `u32` values.
pub open spec fn wil_fits(s: Seq<MImage>, p: Seq<[u8; 4]>) -> bool {
    s.len() <= 0x3fff_fff0 && wil_file(s, p).len() <= u32::MAX
}

/// Every slot holds an entry.
pub open spec fn all_loaded_v0(s: Seq<Option<MImage>>) -> bool {
    forall|i: int| 0 <= i < s.len() ==> #[trigger] s[i] is Some
}

/// The entries of slots that all hold one.
pub open spec fn entries_of(s: Seq<Option<MImage>>) -> Seq<MImage> {
    s.map_values(|o: Option<MImage>| o->0)
}

} // verus!

verus! {

/// Quantizing a raster as `MImage::from_image` does and decoding the indices
/// as `MImage::decode_with_palette` does gives every pixel the palette colour
/// that it quantizes to.
pub proof fn lemma_quantized_round_trip(
    img: Seq<u8>,
    pal: Seq<[u8; 4]>,
    indices: Seq<u8>,
    out: Seq<u8>,
    w: int,
    h: int,
)
    requires
        w > 0,
        h > 0,
        img.len() == w * h * 4,
        pal.len() == 256,
        quantized_rows(indices, img, pal, w, h),
        indexed_decoded(out, indices, palette_colors(pal), w, h, w),
    ensures
        forall|p: int, c: int|
            0 <= p < w * h && 0 <= c < 4 ==> #[trigger] byte4(out, p, c) == crate::image::raster::channel(
                palette_color(
                    pal,
                    quantized_index(pal, byte4(img, p, 0), byte4(img, p, 1), byte4(img, p, 2), byte4(img, p, 3)),
                ),
                c,
            ),
{
    assert forall|p: int, c: int| 0 <= p < w * h && 0 <= c < 4 implies #[trigger] byte4(out, p, c)
        == crate::image::raster::channel(
        palette_color(
            pal,
            quantized_index(pal, byte4(img, p, 0), byte4(img, p, 1), byte4(img, p, 2), byte4(img, p, 3)),
        ),
        c,
    ) by {
        crate::image::raster::lemma_mirror_twice(p, w, h);
        let q = mirrored_pixel(p, w, h);
        assert(crate::image::raster::stored_position(p, w, h, w, 1) == q);
        let i = indices[q] as int;
        lemma_quantizer_transparency(pal, byte4(img, p, 0), byte4(img, p, 1), byte4(img, p, 2), byte4(img, p, 3));
        assert(i == quantized_index(pal, byte4(img, p, 0), byte4(img, p, 1), byte4(img, p, 2), byte4(img, p, 3)));
        assert(palette_colors(pal)[i] == palette_color(pal, i));
    }
}

impl Default for MImage {
    fn default() -> (m: Self)
        ensures
            m.width == 0 && m.height == 0 && m.flag == DEFAULT_FLAG && m.fbytes@.len() == 0 && m.image is None,
    {
        MImage::new()
    }
}

} // verus!

verus! {

proof fn lemma_wil_offsets_len(s: Seq<MImage>, base: int)
    ensures
        wil_offsets(s, base).len() == 4 * s.len(),
    decreases s.len(),
{
    if s.len() > 0 {
        lemma_wil_offsets_len(s.drop_last(), base);
    }
}

proof fn lemma_wil_offset_entry(s: Seq<MImage>, base: int, i: int)
    requires
        0 <= i < s.len(),
    ensures
        wil_offsets(s, base).subrange(4 * i, 4 * i + 4) == le32(base + wil_records(s.take(i)).len()),
    decreases s.len(),
{
    let t = wil_offsets(s.drop_last(), base);
    lemma_wil_offsets_len(s.drop_last(), base);
    if i < s.len() - 1 {
        lemma_wil_offset_entry(s.drop_last(), base, i);
        assert(s.drop_last().take(i) =~= s.take(i));
        assert(wil_offsets(s, base).subrange(4 * i, 4 * i + 4) =~= t.subrange(4 * i, 4 * i + 4));
    } else {
        assert(s.drop_last() =~= s.take(i));
        assert(wil_offsets(s, base).subrange(4 * i, 4 * i + 4) =~= le32(
            base + wil_records(s.take(i)).len(),
        ));
    }
}

proof fn lemma_wil_records_prefix(s: Seq<MImage>, i: int)
    requires
        0 <= i <= s.len(),
    ensures
        wil_records(s.take(i)).len() <= wil_records(s).len(),
        wil_records(s).subrange(0, wil_records(s.take(i)).len() as int) == wil_records(s.take(i)),
    decreases s.len(),
{
    if i == s.len() {
        assert(s.take(i) =~= s);
    } else {
        lemma_wil_records_prefix(s.drop_last(), i);
        assert(s.drop_last().take(i) =~= s.take(i));
        assert(wil_records(s).subrange(0, wil_records(s.take(i)).len() as int) =~= wil_records(
            s.drop_last(),
        ).subrange(0, wil_records(s.take(i)).len() as int));
    }
}

proof fn lemma_palette_bytes(p: Seq<[u8; 4]>, i: int)
    requires
        0 <= i < p.len(),
    ensures
        palette_bytes(p).len() == 4 * p.len(),
        palette_bytes(p).subrange(4 * i, 4 * i + 4) == p[i]@,
    decreases p.len(),
{
    lemma_palette_len(p.drop_last());
    if i < p.len() - 1 {
        lemma_palette_bytes(p.drop_last(), i);
        assert(palette_bytes(p).subrange(4 * i, 4 * i + 4) =~= palette_bytes(p.drop_last()).subrange(
            4 * i,
            4 * i + 4,
        ));
    } else {
        assert(palette_bytes(p).subrange(4 * i, 4 * i + 4) =~= p[i]@);
    }
}

proof fn lemma_palette_len(p: Seq<[u8; 4]>)
    ensures
        palette_bytes(p).len() == 4 * p.len(),
    decreases p.len(),
{
    if p.len() > 0 {
        lemma_palette_len(p.drop_last());
    }
}

/// `m` is stored by `MImage::save` so that it reads back the same: its
/// index data holds one byte per pixel.
pub open spec fn wil_storable(m: MImage) -> bool {
    m.fbytes@.len() == m.width as int * m.height as int
}

proof fn lemma_read_wil_record(d: Seq<u8>, pos: int, m: MImage)
    requires
        0 <= pos,
        pos + wil_record(m).len() <= d.len(),
        d.subrange(pos, pos + wil_record(m).len()) == wil_record(m),
        wil_storable(m),
    ensures
        wil_record_ok(d, pos),
        wil_record_fields(m, d, pos),
        d.subrange(pos + 8, pos + 8 + m.width as int * m.height as int) == m.fbytes@,
{
    reveal(wil_record);
    let r = wil_record(m);
    let n = m.fbytes@.len() as int;
    let sub = d.subrange(pos, pos + r.len());
    assert(d.subrange(pos, pos + 2) =~= sub.subrange(0, 2));
    assert(sub.subrange(0, 2) =~= le16(m.width as int));
    crate::formats::bytes::lemma_le16_read(d, pos, m.width as int);
    assert(d.subrange(pos + 2, pos + 4) =~= sub.subrange(2, 4));
    assert(sub.subrange(2, 4) =~= le16(m.height as int));
    crate::formats::bytes::lemma_le16_read(d, pos + 2, m.height as int);
    assert(d.subrange(pos + 4, pos + 8) =~= sub.subrange(4, 8));
    assert(sub.subrange(4, 8) =~= le32(m.flag as int));
    crate::formats::bytes::lemma_le32_read(d, pos + 4, m.flag as int);
    assert(d.subrange(pos + 8, pos + 8 + n) =~= sub.subrange(8, 8 + n));
    assert(sub.subrange(8, 8 + n) =~= m.fbytes@);
}

} // verus!

verus! {

/// The `.wix` and `.wil` bytes that `MLibraryV0::save` produces for a
/// non-empty list of entries `s` and a palette `p` reopen with `s.len()`
/// offsets, the palette (entry 0, always transparent, aside), and at the
/// offset of slot `i` a record with the size, flag and indices of `s[i]`.
#[verifier::spinoff_prover]
pub proof fn lemma_saved_pair_reopens(s: Seq<MImage>, p: Seq<[u8; 4]>, i: int)
    requires
        0 <= i < s.len(),
        s.len() < 0x4000_0000,
        p.len() == 256,
        wil_file(s, p).len() <= u32::MAX,
        forall|j: int| 0 <= j < s.len() ==> wil_storable(#[trigger] s[j]),
    ensures
        wix_fields_present(wix_file(s)),
        wix_header_size(wix_file(s)) == 52,
        wix_count(wix_file(s)) == s.len(),
        52 + 4 * s.len() <= wix_file(s).len(),
        wil_file(s, p).len() >= 1080,
        forall|k: int, c: int|
            1 <= k < 256 && 0 <= c < 4 ==> #[trigger] wil_palette_entry(wil_file(s, p), k, c) == p[k][c],
        ({
            let off = u32_le(wix_file(s), 52 + 4 * i);
            &&& wil_record_ok(wil_file(s, p), off)
            &&& wil_record_fields(s[i], wil_file(s, p), off)
            &&& wil_file(s, p).subrange(off + 8, off + 8 + s[i].width as int * s[i].height as int)
                == s[i].fbytes@
        }),
{
    let n = s.len() as int;
    let x = wix_file(s);
    let t = wil_offsets(s, 1080);
    let w = wil_file(s, p);
    let r = wil_records(s);
    let head = wil_signature() + Seq::new(12, |k: int| 0u8);
    lemma_wil_offsets_len(s, 1080);
    lemma_palette_len(p);
    assert(w == head + palette_bytes(p) + r);
    assert(x.subrange(0, 5) =~= index_magic());
    assert(x.subrange(0, 17) =~= standard_magic());
    assert(x.subrange(44, 48) =~= le32(n));
    crate::formats::bytes::lemma_le32_read(x, 44, n);
    assert forall|k: int, c: int| 1 <= k < 256 && 0 <= c < 4 implies #[trigger] wil_palette_entry(w, k, c)
        == p[k][c] by {
        lemma_palette_bytes(p, k);
        assert(w[56 + 4 * k + c] == palette_bytes(p)[4 * k + c]);
        assert(palette_bytes(p).subrange(4 * k, 4 * k + 4)[c] == p[k]@[c]);
    }
    lemma_wil_records_prefix(s, i);
    lemma_wil_records_prefix(s, i + 1);
    lemma_wil_step(s, i, 1080);
    let li = wil_records(s.take(i)).len() as int;
    let m = s[i];
    let rl = wil_record(m).len() as int;
    lemma_wil_offset_entry(s, 1080, i);
    assert(x.subrange(52 + 4 * i, 56 + 4 * i) =~= t.subrange(4 * i, 4 * i + 4));
    crate::formats::bytes::lemma_le32_read(x, 52 + 4 * i, 1080 + li);
    assert(r.subrange(li, li + rl) =~= wil_record(m)) by {
        assert(r.subrange(li, li + rl) =~= r.subrange(0, li + rl).subrange(li, li + rl));
    }
    assert(w.subrange(1080 + li, 1080 + li + rl) =~= r.subrange(li, li + rl));
    assert(wil_storable(s[i]));
    lemma_read_wil_record(w, 1080 + li, m);
}

} // verus!
