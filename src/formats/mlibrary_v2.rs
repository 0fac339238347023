//! The single-file `.Lib` format: gzip-compressed B, G, R, A payloads with an
//! optional mask layer per entry.

use vstd::prelude::*;

use crate::error::{LibraryError, Result};
use crate::formats::bytes::{
    i16_le, i32_le, is_eof, le16, le32, read_i16, read_i32, read_offsets, read_u8, u32_le, write_i16,
    write_i32, write_u32,
};
use crate::formats::container::LibraryContainer;
use crate::image::compression::{compress_gzip, decompress_gzip, gunzip_of, gzip_of};
use crate::image::raster::{
    bgra_decoding, bgra_encoding, center_window, encode_bgra_rows, flip_swap_rows, window_of, Raster,
};

verus! {

/// One entry of a `.Lib` file.
#[derive(Debug)]
pub struct MImage {
    pub width: i16,
    pub height: i16,
    pub x: i16,
    pub y: i16,
    pub shadow_x: i16,
    pub shadow_y: i16,
    /// Shadow value; its high bit is not part of it.
    pub shadow: u8,
    /// Length of `fbytes` as read from the file.
    pub length: i32,
    /// gzip stream of the bottom-up B, G, R, A pixels.
    pub fbytes: Vec<u8>,
    /// `image` holds the decoded pixels.
    pub texture_valid: bool,
    pub image: Option<Raster>,
    pub preview: Option<Raster>,
    pub has_mask: bool,
    pub mask_width: i16,
    pub mask_height: i16,
    pub mask_x: i16,
    pub mask_y: i16,
    pub mask_fbytes: Vec<u8>,
    pub mask_image: Option<Raster>,
}

/// The raster that a payload decodes to, if it inflates to exactly
/// `w * h` pixels.
pub open spec fn decoded_payload(payload: Seq<u8>, w: int, h: int) -> Option<Seq<u8>> {
    match gunzip_of(payload) {
        Some(d) => if d.len() == w * h * 4 {
            Some(bgra_decoding(d, w, h))
        } else {
            None
        },
        None => None,
    }
}

/// The shadow byte as stored: the mask flag in the high bit.
pub open spec fn stored_shadow(shadow: u8, has_mask: bool) -> u8 {
    if has_mask && shadow < 128 {
        (shadow + 128) as u8
    } else {
        shadow
    }
}

/// The bytes of an entry as `MImage::save` writes them.
#[verifier::opaque]
pub open spec fn record_bytes(m: MImage) -> Seq<u8> {
    le16(m.width as int) + le16(m.height as int) + le16(m.x as int) + le16(m.y as int) + le16(
        m.shadow_x as int,
    ) + le16(m.shadow_y as int) + seq![stored_shadow(m.shadow, m.has_mask)] + le32(
        m.fbytes@.len() as int,
    ) + m.fbytes@ + if m.has_mask {
        le16(m.mask_width as int) + le16(m.mask_height as int) + le16(m.mask_x as int) + le16(
            m.mask_y as int,
        ) + le32(m.mask_fbytes@.len() as int) + m.mask_fbytes@
    } else {
        Seq::empty()
    }
}

/// The fields of the entry whose record starts at `pos`, where the header
/// fields are all present.
pub open spec fn header_fields_at(m: MImage, data: Seq<u8>, pos: int) -> bool {
    &&& m.width as int == i16_le(data, pos)
    &&& m.height as int == i16_le(data, pos + 2)
    &&& m.x as int == i16_le(data, pos + 4)
    &&& m.y as int == i16_le(data, pos + 6)
    &&& m.shadow_x as int == i16_le(data, pos + 8)
    &&& m.shadow_y as int == i16_le(data, pos + 10)
    &&& m.shadow as int == data[pos + 12] as int % 128
    &&& m.has_mask == (data[pos + 12] >= 128)
    &&& m.length as int == i32_le(data, pos + 13)
}

fn high_bit_set(b: u8) -> (r: bool)
    ensures
        r == (b >= 128),
{
    b >= 128
}

fn with_high_bit(s: u8, on: bool) -> (r: u8)
    ensures
        r == stored_shadow(s, on),
{
    if on && s < 128 {
        s + 128
    } else {
        s
    }
}

fn read_payload(data: &[u8], pos: usize, len: i32) -> (r: Result<Vec<u8>>)
    ensures
        len >= 0 && pos + len <= data@.len() ==> (r matches Ok(v) && v@ == data@.subrange(
            pos as int,
            pos + len,
        )),
        len < 0 ==> r == Err::<Vec<u8>, LibraryError>(LibraryError::InvalidImageData),
        len >= 0 && pos + len > data@.len() ==> (r matches Err(e) && is_eof(e)),
{
    if len < 0 {
        return Err(LibraryError::InvalidImageData);
    }
    let n = len as usize;
    if pos > data.len() || data.len() - pos < n {
        return Err(LibraryError::Io(String::from_str("unexpected end of data")));
    }
    let dl = data.len();
    let mut v: Vec<u8> = Vec::new();
    let mut k: usize = 0;
    while k < n
        invariant
            k <= n,
            dl == data@.len(),
            pos + n <= data@.len(),
            v@ == data@.subrange(pos as int, pos + k),
        decreases n - k,
    {
        v.push(data[pos + k]);
        k = k + 1;
        assert(v@ =~= data@.subrange(pos as int, pos + k));
    }
    Ok(v)
}

impl MImage {
    /// An entry with no pixels.
    pub fn new() -> (m: Self)
        ensures
            m.width == 0 && m.height == 0 && m.x == 0 && m.y == 0,
            m.shadow_x == 0 && m.shadow_y == 0 && m.shadow == 0 && m.length == 0,
            m.fbytes@.len() == 0 && m.mask_fbytes@.len() == 0,
            !m.texture_valid && !m.has_mask,
            m.image is None && m.preview is None && m.mask_image is None,
            m.mask_width == 0 && m.mask_height == 0 && m.mask_x == 0 && m.mask_y == 0,
    {
        MImage {
            width: 0,
            height: 0,
            x: 0,
            y: 0,
            shadow_x: 0,
            shadow_y: 0,
            shadow: 0,
            length: 0,
            fbytes: Vec::new(),
            texture_valid: false,
            image: None,
            preview: None,
            has_mask: false,
            mask_width: 0,
            mask_height: 0,
            mask_x: 0,
            mask_y: 0,
            mask_fbytes: Vec::new(),
            mask_image: None,
        }
    }

    /// Decodes `fbytes` (and `mask_fbytes` for an entry with a mask) into
    /// `image` (and `mask_image`).
    pub fn create_texture(&mut self) -> (r: Result<()>)
        ensures
            (old(self).width <= 0 || old(self).height <= 0) ==> r == Err::<(), LibraryError>(
                LibraryError::InvalidImageData,
            ),
            (old(self).width > 0 && old(self).height > 0 && gunzip_of(old(self).fbytes@) is None)
                ==> (r matches Err(e) && e is Compression),
            (old(self).width > 0 && old(self).height > 0 && gunzip_of(old(self).fbytes@) is Some
                && decoded_payload(old(self).fbytes@, old(self).width as int, old(self).height as int)
                is None) ==> r == Err::<(), LibraryError>(LibraryError::InvalidImageData),
            r is Ok ==> ({
                let w = old(self).width as int;
                let h = old(self).height as int;
                &&& w > 0 && h > 0
                &&& decoded_payload(old(self).fbytes@, w, h) is Some
                &&& final(self).image matches Some(img) && img.width == w && img.height == h
                    && img.data@ == decoded_payload(old(self).fbytes@, w, h)->0
                &&& final(self).texture_valid
            }),
            old(self).width > 0 && old(self).height > 0 && decoded_payload(
                old(self).fbytes@,
                old(self).width as int,
                old(self).height as int,
            ) is Some && !(old(self).has_mask && old(self).mask_width > 0 && old(self).mask_height
                > 0) ==> r is Ok,
            final(self).width == old(self).width && final(self).height == old(self).height,
            final(self).x == old(self).x && final(self).y == old(self).y,
            final(self).fbytes@ == old(self).fbytes@,
            final(self).has_mask == old(self).has_mask,
            final(self).shadow == old(self).shadow,
            final(self).shadow_x == old(self).shadow_x && final(self).shadow_y == old(self).shadow_y,
            final(self).length == old(self).length,
            final(self).mask_width == old(self).mask_width && final(self).mask_height == old(self).mask_height,
            final(self).mask_x == old(self).mask_x && final(self).mask_y == old(self).mask_y,
            final(self).mask_fbytes@ == old(self).mask_fbytes@,
            r is Err ==> *final(self) == *old(self),
            r is Ok ==> final(self).preview == old(self).preview,
            r is Ok && old(self).has_mask && old(self).mask_width > 0 && old(self).mask_height > 0 ==> (
            final(self).mask_image matches Some(mi) && Some(mi.data@) == decoded_payload(
                old(self).mask_fbytes@,
                old(self).mask_width as int,
                old(self).mask_height as int,
            )),
            old(self).width > 0 && old(self).height > 0 && decoded_payload(
                old(self).fbytes@,
                old(self).width as int,
                old(self).height as int,
            ) is Some && old(self).has_mask && old(self).mask_width > 0 && old(self).mask_height > 0
                && decoded_payload(old(self).mask_fbytes@, old(self).mask_width as int, old(self).mask_height as int)
                is Some ==> r is Ok,
    {
        if self.width <= 0 || self.height <= 0 {
            return Err(LibraryError::InvalidImageData);
        }
        let img = decode_layer(self.fbytes.as_slice(), self.width, self.height)?;
        if self.has_mask && self.mask_width > 0 && self.mask_height > 0 {
            let mask = decode_layer(self.mask_fbytes.as_slice(), self.mask_width, self.mask_height)?;
            self.mask_image = Some(mask);
        }
        self.image = Some(img);
        self.texture_valid = true;
        Ok(())
    }

    /// Builds the 64 by 64 preview of the decoded raster, if there is one:
    /// its top-left window of at most 64 by 64 pixels, centred.
    pub fn create_preview(&mut self)
        ensures
            final(self).image == old(self).image,
            final(self).fbytes@ == old(self).fbytes@,
            old(self).image is Some && old(self).image->0.wf() ==> (final(self).preview is Some
                && window_of(final(self).preview->0, old(self).image->0)),
            !(old(self).image is Some && old(self).image->0.wf()) ==> *final(self) == *old(self),
            *final(self) == (MImage { preview: final(self).preview, ..*old(self) }),
    {
        let preview = match &self.image {
            Some(img) => {
                if img.is_valid() {
                    Some(center_window(img))
                } else {
                    None
                }
            },
            None => None,
        };
        if preview.is_some() {
            self.preview = preview;
        }
    }

    /// The preview, built on first request.
    pub fn get_preview(&mut self) -> (r: Option<&Raster>)
        ensures
            final(self).image == old(self).image,
            old(self).preview is Some ==> (r is Some && *r->0 == old(self).preview->0),
            old(self).preview is None && old(self).image is Some && old(self).image->0.wf() ==> (r is Some
                && window_of(*r->0, old(self).image->0)),
            r is Some ==> final(self).preview == Some(*r->0),
            *final(self) == (MImage { preview: final(self).preview, ..*old(self) }),
    {
        if self.preview.is_none() {
            self.create_preview();
        }
        self.preview.as_ref()
    }

    /// Appends the entry's record: six 16-bit fields, the shadow byte with the
    /// mask flag, the payload length and payload, then the mask sub-record.
    #[verifier::rlimit(40)]
    pub fn save(&self, writer: &mut Vec<u8>) -> (r: Result<()>)
        ensures
            (self.fbytes@.len() <= i32::MAX && self.mask_fbytes@.len() <= i32::MAX) ==> (r is Ok
                && final(writer)@ == old(writer)@ + record_bytes(*self)),
            !(self.fbytes@.len() <= i32::MAX && self.mask_fbytes@.len() <= i32::MAX) ==> (r matches Err(
                e,
            ) && e is ParseError && final(writer)@ == old(writer)@),
    {
        if self.fbytes.len() > i32::MAX as usize || self.mask_fbytes.len() > i32::MAX as usize {
            return Err(LibraryError::ParseError(String::from_str("payload too large")));
        }
        let ghost start = writer@;
        write_i16(writer, self.width);
        write_i16(writer, self.height);
        write_i16(writer, self.x);
        write_i16(writer, self.y);
        write_i16(writer, self.shadow_x);
        write_i16(writer, self.shadow_y);
        writer.push(with_high_bit(self.shadow, self.has_mask));
        write_i32(writer, self.fbytes.len() as i32);
        append_bytes(writer, &self.fbytes);
        if self.has_mask {
            write_i16(writer, self.mask_width);
            write_i16(writer, self.mask_height);
            write_i16(writer, self.mask_x);
            write_i16(writer, self.mask_y);
            write_i32(writer, self.mask_fbytes.len() as i32);
            append_bytes(writer, &self.mask_fbytes);
        }
        reveal(record_bytes);
        assert(writer@ =~= start + record_bytes(*self));
        Ok(())
    }
}

/// Appends `src` to `dst`.
pub fn append_bytes(dst: &mut Vec<u8>, src: &Vec<u8>)
    ensures
        final(dst)@ == old(dst)@ + src@,
{
    let mut k: usize = 0;
    while k < src.len()
        invariant
            k <= src@.len(),
            dst@ == old(dst)@ + src@.subrange(0, k as int),
        decreases src@.len() - k,
    {
        dst.push(src[k]);
        k = k + 1;
        assert(dst@ =~= old(dst)@ + src@.subrange(0, k as int));
    }
    assert(src@.subrange(0, src@.len() as int) =~= src@);
}

/// Inflates one layer and decodes it as a `w` by `h` raster.
pub fn decode_layer(payload: &[u8], w: i16, h: i16) -> (r: Result<Raster>)
    requires
        w > 0,
        h > 0,
    ensures
        gunzip_of(payload@) is None ==> (r matches Err(e) && e is Compression),
        gunzip_of(payload@) is Some && decoded_payload(payload@, w as int, h as int) is None ==> r
            == Err::<Raster, LibraryError>(LibraryError::InvalidImageData),
        decoded_payload(payload@, w as int, h as int) is Some ==> (r matches Ok(img) && img.width
            == w && img.height == h && img.data@ == decoded_payload(payload@, w as int, h as int)->0),
{
    let raw = decompress_gzip(payload)?;
    let wu = w as usize;
    let hu = h as usize;
    assert(wu * hu * 4 <= 32767 * 32767 * 4) by (nonlinear_arith)
        requires
            wu <= 32767,
            hu <= 32767,
    ;
    if raw.len() != wu * hu * 4 {
        return Err(LibraryError::InvalidImageData);
    }
    let data = flip_swap_rows(raw.as_slice(), wu, hu);
    Ok(Raster { width: w as u32, height: h as u32, data })
}

} // verus!

verus! {

/// The record at `pos` is complete: header, payload of non-negative length,
/// and, where the high bit of the shadow byte is set, the mask sub-record.
pub open spec fn record_ok(d: Seq<u8>, pos: int) -> bool {
    &&& 0 <= pos
    &&& pos + 17 <= d.len()
    &&& i32_le(d, pos + 13) >= 0
    &&& pos + 17 + i32_le(d, pos + 13) <= d.len()
    &&& d[pos + 12] >= 128 ==> {
        let q = pos + 17 + i32_le(d, pos + 13);
        &&& q + 12 <= d.len()
        &&& i32_le(d, q + 8) >= 0
        &&& q + 12 + i32_le(d, q + 8) <= d.len()
    }
}

/// `m` holds what the complete record at `pos` of `d` says, not yet decoded.
pub open spec fn parsed_record(m: MImage, d: Seq<u8>, pos: int) -> bool {
    let len = i32_le(d, pos + 13);
    let q = pos + 17 + len;
    &&& header_fields_at(m, d, pos)
    &&& m.fbytes@ == d.subrange(pos + 17, q)
    &&& !m.texture_valid && m.image is None && m.preview is None && m.mask_image is None
    &&& m.has_mask ==> {
        &&& m.mask_width as int == i16_le(d, q)
        &&& m.mask_height as int == i16_le(d, q + 2)
        &&& m.mask_x as int == i16_le(d, q + 4)
        &&& m.mask_y as int == i16_le(d, q + 6)
        &&& m.mask_fbytes@ == d.subrange(q + 12, q + 12 + i32_le(d, q + 8))
    }
}

/// Parses the entry record at byte `pos` of a `.Lib` file.
pub fn read_mimage(data: &[u8], pos: usize) -> (r: Result<MImage>)
    ensures
        r is Ok <==> record_ok(data@, pos as int),
        r matches Ok(m) ==> parsed_record(m, data@, pos as int),
        r matches Err(e) ==> is_eof(e) || e == LibraryError::InvalidImageData,
{
    let n = data.len();
    if pos >= n || n - pos < 17 {
        return Err(LibraryError::Io(String::from_str("unexpected end of data")));
    }
    let width = read_i16(data, pos)?;
    let height = read_i16(data, pos + 2)?;
    let x = read_i16(data, pos + 4)?;
    let y = read_i16(data, pos + 6)?;
    let shadow_x = read_i16(data, pos + 8)?;
    let shadow_y = read_i16(data, pos + 10)?;
    let shadow = read_u8(data, pos + 12)?;
    let length = read_i32(data, pos + 13)?;
    let fbytes = read_payload(data, pos + 17, length)?;
    let mut img = MImage::new();
    img.width = width;
    img.height = height;
    img.x = x;
    img.y = y;
    img.shadow_x = shadow_x;
    img.shadow_y = shadow_y;
    img.shadow = shadow % 128;
    img.length = length;
    img.fbytes = fbytes;
    img.has_mask = high_bit_set(shadow);
    if img.has_mask {
        let q = pos + 17 + length as usize;
        if n - q < 12 {
            return Err(LibraryError::Io(String::from_str("unexpected end of data")));
        }
        img.mask_width = read_i16(data, q)?;
        img.mask_height = read_i16(data, q + 2)?;
        img.mask_x = read_i16(data, q + 4)?;
        img.mask_y = read_i16(data, q + 6)?;
        let mask_length = read_i32(data, q + 8)?;
        img.mask_fbytes = read_payload(data, q + 12, mask_length)?;
    }
    Ok(img)
}

impl MImage {
    /// An entry for a raster placed at `(x, y)`: its pixels written as
    /// bottom-up B, G, R, A rows, black made transparent, and gzip-compressed.
    /// Fails where compression fails or its output is too long for the
    /// record's length field.
    pub fn from_image(img: &Raster, x: i16, y: i16) -> (r: Result<Self>)
        requires
            img.wf(),
            img.width <= 32767,
            img.height <= 32767,
        ensures
            r matches Ok(m) ==> {
                &&& m.width as int == img.width && m.height as int == img.height
                &&& m.x == x && m.y == y
                &&& m.fbytes@ == raster_payload(*img)
                &&& gunzip_of(m.fbytes@) == Some(
                    bgra_encoding(img.data@, img.width as int, img.height as int),
                )
                &&& m.length as int == m.fbytes@.len()
                &&& m.image matches Some(i) && i@ == img@
                &&& m.texture_valid
                &&& !m.has_mask && m.shadow == 0 && m.shadow_x == 0 && m.shadow_y == 0
                &&& m.mask_fbytes@.len() == 0 && m.preview is None && m.mask_image is None
                &&& m.mask_width == 0 && m.mask_height == 0 && m.mask_x == 0 && m.mask_y == 0
            },
            r matches Err(e) ==> e is Compression || (e is ParseError && raster_payload(*img).len()
                > i32::MAX),
    {
        let fbytes = compress_raster(img)?;
        let mut result = MImage::new();
        result.width = img.width as i16;
        result.height = img.height as i16;
        result.x = x;
        result.y = y;
        result.image = Some(img.copy());
        result.length = fbytes.len() as i32;
        result.fbytes = fbytes;
        result.texture_valid = true;
        Ok(result)
    }

    /// `from_image` with a mask layer made from `mask_img` the same way.
    pub fn from_image_with_mask(img: &Raster, mask_img: &Raster, x: i16, y: i16) -> (r: Result<Self>)
        requires
            img.wf(),
            img.width <= 32767,
            img.height <= 32767,
            mask_img.wf(),
            mask_img.width <= 32767,
            mask_img.height <= 32767,
        ensures
            r matches Ok(m) ==> {
                &&& m.width as int == img.width && m.height as int == img.height
                &&& m.x == x && m.y == y
                &&& m.fbytes@ == raster_payload(*img)
                &&& m.length as int == m.fbytes@.len()
                &&& m.image matches Some(i) && i@ == img@
                &&& m.texture_valid
                &&& m.has_mask && m.shadow == 0 && m.shadow_x == 0 && m.shadow_y == 0
                &&& m.mask_width as int == mask_img.width && m.mask_height as int == mask_img.height
                &&& m.mask_x == 0 && m.mask_y == 0
                &&& m.mask_fbytes@ == raster_payload(*mask_img)
                &&& m.mask_image matches Some(i) && i@ == mask_img@
                &&& m.preview is None
            },
            r matches Err(e) ==> e is Compression || (e is ParseError && (raster_payload(*img).len()
                > i32::MAX || raster_payload(*mask_img).len() > i32::MAX)),
    {
        let mut result = MImage::from_image(img, x, y)?;
        let mask_fbytes = compress_raster(mask_img)?;
        result.has_mask = true;
        result.mask_width = mask_img.width as i16;
        result.mask_height = mask_img.height as i16;
        result.mask_image = Some(mask_img.copy());
        result.mask_fbytes = mask_fbytes;
        Ok(result)
    }
}

/// The payload stored for a raster: the gzip stream of its bottom-up
/// B, G, R, A encoding.
pub open spec fn raster_payload(img: Raster) -> Seq<u8> {
    gzip_of(bgra_encoding(img.data@, img.width as int, img.height as int))
}

/// The gzip stream of a raster's encoding; an error where compression fails
/// or the stream is longer than an `i32` length can say.
fn compress_raster(img: &Raster) -> (r: Result<Vec<u8>>)
    requires
        img.wf(),
        img.width <= 32767,
        img.height <= 32767,
    ensures
        r matches Ok(v) ==> v@ == raster_payload(*img) && gunzip_of(v@) == Some(
            bgra_encoding(img.data@, img.width as int, img.height as int),
        ) && v@.len() <= i32::MAX,
        r matches Err(e) ==> e is Compression || (e is ParseError && raster_payload(*img).len()
            > i32::MAX),
{
    let w = img.width as usize;
    let h = img.height as usize;
    let pixels = encode_bgra_rows(img.data.as_slice(), w, h);
    let v = compress_gzip(pixels.as_slice())?;
    if v.len() <= i32::MAX as usize {
        Ok(v)
    } else {
        Err(LibraryError::ParseError(String::from_str("compressed payload too large")))
    }
}

} // verus!

verus! {

/// A `.Lib` library: its entries, loaded from the file bytes on first access.
pub struct MLibraryV2 {
    /// Path of the library without its extension.
    pub file_name: String,
    pub entries: LibraryContainer<MImage>,
    /// The header has been read.
    pub initialized: bool,
    /// Decode pixels when an entry is loaded.
    pub load: bool,
    /// The bytes of the `.Lib` file, if it exists.
    pub data: Option<Vec<u8>>,
}

/// The header of a `.Lib` file is complete and of version 2.
pub open spec fn lib_header_ok(d: Seq<u8>) -> bool {
    &&& d.len() >= 8
    &&& i32_le(d, 0) == 2
    &&& i32_le(d, 4) >= 0
    &&& 8 + 4 * i32_le(d, 4) <= d.len()
}

/// Every slot is empty and holds the offset read at `start + 4 i` of `d`.
pub open spec fn offsets_loaded<T>(entries: LibraryContainer<T>, d: Seq<u8>, start: int) -> bool {
    forall|i: int|
        #![trigger entries.index_list@[i]]
        #![trigger u32_le(d, start + 4 * i)]
        0 <= i < entries.count ==> entries.images@[i] is None && entries.index_list@[i] as int
            == u32_le(d, start + 4 * i)
}

/// `m` is the entry read from the record at `pos` of `d`, its pixels
/// decoded where `load` is set.
pub open spec fn loaded_from(m: MImage, d: Seq<u8>, pos: int, load: bool) -> bool {
    &&& header_fields_at(m, d, pos)
    &&& m.fbytes@ == d.subrange(pos + 17, pos + 17 + i32_le(d, pos + 13))
    &&& load ==> (m.image matches Some(img) && img.width as int == m.width as int && img.height as int
        == m.height as int && decoded_payload(m.fbytes@, m.width as int, m.height as int) == Some(img.data@))
}

/// The entry at `pos` of `d` can be read and, where `load` is set, decoded.
pub open spec fn loadable(d: Seq<u8>, pos: int, load: bool) -> bool {
    &&& record_ok(d, pos)
    &&& load ==> {
        &&& i16_le(d, pos) > 0 && i16_le(d, pos + 2) > 0
        &&& decoded_payload(d.subrange(pos + 17, pos + 17 + i32_le(d, pos + 13)), i16_le(d, pos), i16_le(d, pos + 2)) is Some
        &&& (d[pos + 12] >= 128 && i16_le(d, pos + 17 + i32_le(d, pos + 13)) > 0 && i16_le(
            d,
            pos + 19 + i32_le(d, pos + 13),
        ) > 0) ==> {
            let q = pos + 17 + i32_le(d, pos + 13);
            decoded_payload(d.subrange(q + 12, q + 12 + i32_le(d, q + 8)), i16_le(d, q), i16_le(d, q + 2)) is Some
        }
    }
}

/// Entry `m` has been read and, where pixels are to be decoded, decoded.
pub open spec fn entry_ready(m: MImage, load: bool) -> bool {
    m.texture_valid || !load
}

impl MLibraryV2 {
    pub const LIB_VERSION: i32 = 2;

    pub open spec fn is_initialized(&self) -> bool {
        self.initialized
    }

    /// The bytes of the `.Lib` file, if there is one.
    pub open spec fn source(&self) -> Option<Seq<u8>> {
        match self.data {
            Some(d) => Some(d@),
            None => None,
        }
    }

    pub open spec fn wf(&self) -> bool {
        self.entries.wf()
    }

    /// Entry `index` is loaded as `m` and a further access changes nothing.
    pub open spec fn holds_loaded(&self, index: int, m: MImage) -> bool {
        &&& self.is_initialized()
        &&& 0 <= index < self.entries.images@.len()
        &&& self.entries.images@[index] == Some(m)
        &&& entry_ready(m, self.load)
    }

    /// A library whose file does not exist yet: no entries.
    pub fn new(file_name: String) -> (r: Result<Self>)
        ensures
            r matches Ok(lib) && lib.wf() && lib.entries.count == 0 && lib.source() is None
                && lib.file_name@ == file_name@ && lib.is_initialized() && lib.load,
    {
        Ok(MLibraryV2 {
            file_name,
            entries: LibraryContainer::new(),
            initialized: true,
            load: true,
            data: None,
        })
    }

    /// A library read from the bytes of its `.Lib` file.
    pub fn open(file_name: String, data: Vec<u8>) -> (r: Result<Self>)
        ensures
            r is Ok <==> lib_header_ok(data@),
            r matches Ok(lib) ==> lib.wf() && lib.source() == Some(data@),
            r matches Ok(lib) ==> lib.is_initialized() && lib.load,
            r matches Ok(lib) ==> lib.entries.count as int == i32_le(data@, 4) && offsets_loaded(
                lib.entries,
                data@,
                8,
            ),
            data@.len() >= 4 && i32_le(data@, 0) != 2 ==> (r matches Err(e) && e
                == LibraryError::UnsupportedVersion(i32_le(data@, 0) as i32)),
            r matches Err(e) ==> is_eof(e) || e is UnsupportedVersion,
    {
        let mut lib = MLibraryV2 {
            file_name,
            entries: LibraryContainer::new(),
            initialized: false,
            load: true,
            data: Some(data),
        };
        assert(lib.source() == Some(data@));
        lib.initialize()?;
        Ok(lib)
    }

    /// Reads the header and offset table; every entry slot starts empty.
    pub fn initialize(&mut self) -> (r: Result<()>)
        requires
            old(self).wf(),
        ensures
            final(self).wf(),
            final(self).is_initialized(),
            final(self).source() == old(self).source(),
            final(self).load == old(self).load,
            final(self).file_name == old(self).file_name,
            old(self).source() is None ==> r is Ok && final(self).entries == old(self).entries,
            old(self).source() matches Some(d) ==> {
                &&& r is Ok <==> lib_header_ok(d)
                &&& r is Ok ==> final(self).entries.count as int == i32_le(d, 4) && offsets_loaded(
                    final(self).entries,
                    d,
                    8,
                )
                &&& d.len() >= 4 && i32_le(d, 0) != 2 ==> (r matches Err(e) && e
                    == LibraryError::UnsupportedVersion(i32_le(d, 0) as i32))
                &&& r matches Err(e) ==> is_eof(e) || e is UnsupportedVersion
            },
    {
        self.initialized = true;
        let offsets = match &self.data {
            None => {
                return Ok(());
            },
            Some(d) => {
                let version = read_i32(d.as_slice(), 0)?;
                if version != Self::LIB_VERSION {
                    return Err(LibraryError::UnsupportedVersion(version));
                }
                let count = read_i32(d.as_slice(), 4)?;
                if count < 0 {
                    return Err(LibraryError::Io(String::from_str("negative entry count")));
                }
                read_offsets(d.as_slice(), 8, count as usize)?
            },
        };
        self.entries = LibraryContainer::with_offsets(offsets);
        Ok(())
    }

    /// Marks the library for re-reading on next access.
    pub fn close(&mut self)
        ensures
            !final(self).is_initialized(),
            final(self).entries == old(self).entries,
            final(self).source() == old(self).source(),
            final(self).load == old(self).load,
            final(self).file_name == old(self).file_name,
    {
        self.initialized = false;
    }

    /// Reads the record of entry `index` from the file bytes.
    fn load_image(&self, index: usize) -> (r: Result<MImage>)
        requires
            index < self.entries.index_list@.len(),
        ensures
            self.source() is None ==> (r matches Err(e) && e is FileNotFound),
            self.source() matches Some(d) ==> {
                &&& r is Ok <==> record_ok(d, self.entries.index_list@[index as int] as int)
                &&& r matches Ok(m) ==> parsed_record(m, d, self.entries.index_list@[index as int] as int)
                &&& r matches Err(e) ==> is_eof(e) || e == LibraryError::InvalidImageData
            },
    {
        match &self.data {
            None => Err(LibraryError::FileNotFound(self.file_name.clone())),
            Some(d) => read_mimage(d.as_slice(), self.entries.index_list[index] as usize),
        }
    }

    /// Makes sure that entry `index` is read and, if `load` is set, decoded.
    /// An index past the end is no error here.
    pub fn check_image(&mut self, index: usize) -> (r: Result<()>)
        requires
            old(self).wf(),
        ensures
            final(self).wf(),
            final(self).load == old(self).load,
            final(self).source() == old(self).source(),
            final(self).file_name == old(self).file_name,
            forall|m: MImage| old(self).holds_loaded(index as int, m) ==> r is Ok && *final(self)
                == *old(self),
            old(self).is_initialized() && index >= old(self).entries.count ==> r is Ok && *final(self)
                == *old(self),
            old(self).is_initialized() && index < old(self).entries.count && old(self).entries.images@[index as int] is None
                && (old(self).source() matches Some(d) && loadable(d, old(self).entries.index_list@[index as int] as int, old(self).load))
                ==> r is Ok,
            r is Ok && index < final(self).entries.count ==> exists|m: MImage|
                final(self).holds_loaded(index as int, m),
            r is Ok ==> final(self).is_initialized(),
            old(self).is_initialized() ==> final(self).entries.count == old(self).entries.count
                && final(self).entries.index_list == old(self).entries.index_list,
            old(self).is_initialized() && index < old(self).entries.count && old(self).entries.images@[index as int] is None
                && r is Ok ==> (final(self).source() matches Some(d) && (final(self).entries.images@[index as int] matches Some(m)
                && loaded_from(m, d, old(self).entries.index_list@[index as int] as int, old(self).load))),
    {
        if !self.initialized {
            self.initialize()?;
        }
        if index >= self.entries.images.len() {
            return Ok(());
        }
        if self.entries.images[index].is_none() {
            let m = self.load_image(index)?;
            self.entries.images.set(index, Some(m));
        }
        if !self.load {
            assert(self.holds_loaded(index as int, self.entries.images@[index as int]->0));
            return Ok(());
        }
        let needs_texture = match &self.entries.images[index] {
            Some(m) => !m.texture_valid,
            None => false,
        };
        if !needs_texture {
            assert(self.holds_loaded(index as int, self.entries.images@[index as int]->0));
            return Ok(());
        }
        let mut slot: Option<MImage> = None;
        self.entries.images.set_and_swap(index, &mut slot);
        match slot {
            Some(mut m) => {
                if m.texture_valid {
                    self.entries.images.set(index, Some(m));
                    assert(self.holds_loaded(index as int, self.entries.images@[index as int]->0));
                    Ok(())
                } else {
                    let r = m.create_texture();
                    self.entries.images.set(index, Some(m));
                    assert(r is Ok ==> self.holds_loaded(index as int, self.entries.images@[index as int]->0));
                    r
                }
            },
            None => Ok(()),
        }
    }
}

} // verus!

verus! {

/// The records of `s`, one after another.
pub open spec fn records_of(s: Seq<MImage>) -> Seq<u8>
    decreases s.len(),
{
    if s.len() == 0 {
        Seq::empty()
    } else {
        records_of(s.drop_last()) + record_bytes(s.last())
    }
}

/// The offsets of the records of `s` when they start at byte `base`.
pub open spec fn offset_table(s: Seq<MImage>, base: int) -> Seq<u8>
    decreases s.len(),
{
    if s.len() == 0 {
        Seq::empty()
    } else {
        offset_table(s.drop_last(), base) + le32(base + records_of(s.drop_last()).len())
    }
}

/// A `.Lib` file holding the entries `s`: version, count, offsets, records.
pub open spec fn lib_file(s: Seq<MImage>) -> Seq<u8> {
    le32(2) + le32(s.len() as int) + offset_table(s, 8 + 4 * s.len() as int) + records_of(s)
}

/// Every slot holds an entry.
pub open spec fn all_loaded(s: Seq<Option<MImage>>) -> bool {
    forall|i: int| 0 <= i < s.len() ==> #[trigger] s[i] is Some
}

/// The entries of slots that all hold one.
pub open spec fn loaded_entries(s: Seq<Option<MImage>>) -> Seq<MImage> {
    s.map_values(|o: Option<MImage>| o->0)
}

proof fn lemma_save_step(all: Seq<MImage>, i: int, base: int)
    requires
        0 <= i < all.len(),
    ensures
        records_of(all.take(i + 1)) == records_of(all.take(i)) + record_bytes(all[i]),
        offset_table(all.take(i + 1), base) == offset_table(all.take(i), base) + le32(
            base + records_of(all.take(i)).len(),
        ),
{
    let next = all.take(i + 1);
    assert(next.drop_last() =~= all.take(i));
    assert(next.last() == all[i]);
}

/// What a call of `get_image(index)` from `before` to `after` that returned
/// `r` (`None` for an error) promises: a returned entry is cached, and an
/// entry that was cached is returned without any change.
pub open spec fn get_image_post(before: MLibraryV2, after: MLibraryV2, index: int, r: Option<MImage>) -> bool {
    &&& r matches Some(m) ==> after.holds_loaded(index, m)
    &&& forall|m: MImage| before.holds_loaded(index, m) ==> r == Some(m) && after == before
}

/// Two successive `get_image(index)` calls return the same entry, and the
/// second changes nothing.
pub proof fn lemma_repeated_get_image(
    s0: MLibraryV2,
    s1: MLibraryV2,
    s2: MLibraryV2,
    index: int,
    r1: Option<MImage>,
    r2: Option<MImage>,
)
    requires
        get_image_post(s0, s1, index, r1),
        get_image_post(s1, s2, index, r2),
        r1 is Some,
    ensures
        r2 == r1,
        s2 == s1,
{
    assert(s1.holds_loaded(index, r1->0));
}

/// Every slot not read yet has a complete record in the file.
pub open spec fn unread_readable(lib: MLibraryV2) -> bool {
    forall|i: int|
        0 <= i < lib.entries.count && #[trigger] lib.entries.images@[i] is None ==> (lib.source() matches Some(
            d,
        ) && record_ok(d, lib.entries.index_list@[i] as int))
}

/// Entries `s` fit a `.Lib` file: payload lengths fit an `i32` and the
/// whole file fits `u32` offsets.
pub open spec fn lib_fits(s: Seq<MImage>) -> bool {
    &&& s.len() <= 0x3fff_fff0
    &&& lib_file(s).len() <= u32::MAX
    &&& forall|j: int|
        0 <= j < s.len() ==> (#[trigger] s[j]).fbytes@.len() <= i32::MAX && s[j].mask_fbytes@.len()
            <= i32::MAX
}

impl MLibraryV2 {
    /// Entry `index`, read and decoded on first access and cached after.
    pub fn get_image(&mut self, index: usize) -> (r: Result<&MImage>)
        requires
            old(self).wf(),
        ensures
            final(self).wf(),
            get_image_post(
                *old(self),
                *final(self),
                index as int,
                match r {
                    Ok(m) => Some(*m),
                    Err(_) => None,
                },
            ),
            old(self).is_initialized() && index >= old(self).entries.count ==> r
                == Err::<&MImage, LibraryError>(LibraryError::IndexOutOfBounds(index)),
            old(self).is_initialized() && index < old(self).entries.count && old(self).entries.images@[index as int] is None
                && (old(self).source() matches Some(d) && loadable(d, old(self).entries.index_list@[index as int] as int, old(self).load))
                ==> r is Ok,
            old(self).is_initialized() && index < old(self).entries.count && old(self).entries.images@[index as int] is None
                && r is Ok ==> (final(self).source() matches Some(d) && (final(self).entries.images@[index as int] matches Some(m)
                && loaded_from(m, d, old(self).entries.index_list@[index as int] as int, old(self).load))),
    {
        self.check_image(index)?;
        if index >= self.entries.images.len() {
            return Err(LibraryError::IndexOutOfBounds(index));
        }
        match &self.entries.images[index] {
            Some(m) => Ok(m),
            None => Err(LibraryError::IndexOutOfBounds(index)),
        }
    }

    /// The decoded raster of entry `index`, if it has one.
    pub fn get_preview(&mut self, index: usize) -> (r: Result<Option<&Raster>>)
        requires
            old(self).wf(),
        ensures
            final(self).wf(),
            r matches Ok(Some(img)) ==> final(self).entries.images@[index as int] matches Some(m)
                && m.image == Some(*img),
            forall|m: MImage|
                old(self).holds_loaded(index as int, m) ==> r is Ok && *final(self) == *old(self),
            old(self).is_initialized() && index >= old(self).entries.count ==> r
                == Err::<Option<&Raster>, LibraryError>(LibraryError::IndexOutOfBounds(index)),
            r matches Ok(o) ==> 0 <= index < final(self).entries.images@.len() && (final(self).entries.images@[index as int] matches Some(m)
                && (o is Some <==> m.image is Some)),
            old(self).is_initialized() && index < old(self).entries.count && old(self).entries.images@[index as int] is None
                && (old(self).source() matches Some(d) && loadable(d, old(self).entries.index_list@[index as int] as int, old(self).load))
                ==> r is Ok,
    {
        self.check_image(index)?;
        if index >= self.entries.images.len() {
            return Err(LibraryError::IndexOutOfBounds(index));
        }
        match &self.entries.images[index] {
            Some(m) => Ok(m.image.as_ref()),
            None => Ok(None),
        }
    }

    /// Appends an entry.
    pub fn add_image(&mut self, image: MImage)
        requires
            old(self).wf(),
        ensures
            final(self).wf(),
            *final(self) == (MLibraryV2 { entries: final(self).entries, ..*old(self) }),
            final(self).entries.images@ == old(self).entries.images@.push(Some(image)),
            final(self).entries.count == old(self).entries.count + 1,
    {
        self.entries.add(image);
    }

    /// Appends `image` with the layer of `mask_image` as its mask.
    pub fn add_image_with_mask(&mut self, image: MImage, mask_image: MImage)
        requires
            old(self).wf(),
        ensures
            final(self).wf(),
            *final(self) == (MLibraryV2 { entries: final(self).entries, ..*old(self) }),
            final(self).entries.count == old(self).entries.count + 1,
            final(self).entries.images@.drop_last() == old(self).entries.images@,
            final(self).entries.images@.last() == Some(
                MImage {
                    has_mask: true,
                    mask_width: mask_image.width,
                    mask_height: mask_image.height,
                    mask_fbytes: mask_image.fbytes,
                    mask_image: mask_image.image,
                    ..image
                },
            ),
    {
        let mut new_image = image;
        new_image.has_mask = true;
        new_image.mask_width = mask_image.width;
        new_image.mask_height = mask_image.height;
        new_image.mask_fbytes = mask_image.fbytes;
        new_image.mask_image = mask_image.image;
        self.entries.add(new_image);
        assert(self.entries.images@.drop_last() =~= old(self).entries.images@);
    }

    /// Replaces entry `index`.
    pub fn replace_image(&mut self, index: usize, image: MImage) -> (r: Result<()>)
        requires
            old(self).wf(),
        ensures
            final(self).wf(),
            *final(self) == (MLibraryV2 { entries: final(self).entries, ..*old(self) }),
            final(self).entries.index_list@ == old(self).entries.index_list@,
            index < old(self).entries.count ==> r is Ok && final(self).entries.images@ == old(self).entries.images@.update(index as int, Some(image)),
            index >= old(self).entries.count ==> r == Err::<(), LibraryError>(
                LibraryError::IndexOutOfBounds(index),
            ) && *final(self) == *old(self),
    {
        self.entries.replace(index, image)
    }

    /// Inserts an entry before `index`.
    pub fn insert_image(&mut self, index: usize, image: MImage) -> (r: Result<()>)
        requires
            old(self).wf(),
        ensures
            final(self).wf(),
            *final(self) == (MLibraryV2 { entries: final(self).entries, ..*old(self) }),
            index <= old(self).entries.count ==> r is Ok && final(self).entries.images@ == old(self).entries.images@.insert(index as int, Some(image)),
            index > old(self).entries.count ==> r == Err::<(), LibraryError>(
                LibraryError::IndexOutOfBounds(index),
            ) && *final(self) == *old(self),
    {
        self.entries.insert(index, image)
    }

    /// Removes entry `index`; removing the last remaining entry empties the library.
    pub fn remove_image(&mut self, index: usize) -> (r: Result<()>)
        requires
            old(self).wf(),
        ensures
            final(self).wf(),
            *final(self) == (MLibraryV2 { entries: final(self).entries, ..*old(self) }),
            old(self).entries.count <= 1 ==> r is Ok && final(self).entries.count == 0,
            old(self).entries.count > 1 && index < old(self).entries.count ==> r is Ok && final(self).entries.images@ == old(self).entries.images@.remove(index as int),
            old(self).entries.count > 1 && index >= old(self).entries.count ==> r == Err::<
                (),
                LibraryError,
            >(LibraryError::IndexOutOfBounds(index)) && *final(self) == *old(self),
    {
        self.entries.remove(index)
    }

    pub fn count(&self) -> (n: usize)
        ensures
            n == self.entries.count,
    {
        self.entries.count
    }

    /// Reads every entry not read yet.
    fn load_all(&mut self) -> (r: Result<()>)
        requires
            old(self).wf(),
        ensures
            final(self).wf(),
            final(self).entries.count == old(self).entries.count,
            final(self).source() == old(self).source(),
            r is Ok ==> all_loaded(final(self).entries.images@),
            forall|i: int|
                0 <= i < old(self).entries.count && old(self).entries.images@[i] is Some
                    ==> final(self).entries.images@[i] == old(self).entries.images@[i],
            unread_readable(*old(self)) ==> r is Ok,
    {
        let n = self.entries.images.len();
        let mut i: usize = 0;
        while i < n
            invariant
                i <= n,
                n == self.entries.count,
                self.wf(),
                self.entries.count == old(self).entries.count,
                self.source() == old(self).source(),
                forall|j: int| 0 <= j < i ==> #[trigger] self.entries.images@[j] is Some,
                forall|j: int|
                    0 <= j < n && old(self).entries.images@[j] is Some
                        ==> self.entries.images@[j] == old(self).entries.images@[j],
                forall|j: int| i <= j < n ==> self.entries.images@[j] == old(self).entries.images@[j],
                self.entries.index_list@ == old(self).entries.index_list@,
            decreases n - i,
        {
            if self.entries.images[i].is_none() {
                let m = self.load_image(i)?;
                self.entries.images.set(i, Some(m));
            }
            i = i + 1;
        }
        Ok(())
    }

    /// The bytes of the `.Lib` file for the current entries: version 2, the
    /// count, offsets assigned in list order after the offset table, then the
    /// records. Entries not read yet are read from the file first.
    #[verifier::loop_isolation(false)]
    #[verifier::spinoff_prover]
    pub fn save(&mut self) -> (r: Result<Vec<u8>>)
        requires
            old(self).wf(),
        ensures
            final(self).wf(),
            final(self).entries.count == old(self).entries.count,
            r matches Ok(bytes) ==> all_loaded(final(self).entries.images@) && bytes@ == lib_file(
                loaded_entries(final(self).entries.images@),
            ),
            forall|i: int|
                0 <= i < old(self).entries.count && old(self).entries.images@[i] is Some
                    ==> final(self).entries.images@[i] == old(self).entries.images@[i],
            unread_readable(*old(self)) ==> all_loaded(final(self).entries.images@) && (lib_fits(
                loaded_entries(final(self).entries.images@),
            ) ==> r is Ok),
    {
        self.load_all()?;
        let ghost loaded = *self;
        let n = self.entries.images.len();
        if n > 0x3fff_fff0 {
            return Err(LibraryError::ParseError(String::from_str("too many entries")));
        }
        let base: u32 = 8 + 4 * n as u32;
        let ghost all = loaded_entries(self.entries.images@);
        let mut records: Vec<u8> = Vec::new();
        let mut table: Vec<u8> = Vec::new();
        let mut i: usize = 0;
        while i < n
            invariant
                i <= n,
                *self == loaded,
                n == self.entries.images@.len(),
                base == 8 + 4 * n,
                all_loaded(self.entries.images@),
                all == loaded_entries(self.entries.images@),
                records@ == records_of(all.take(i as int)),
                table@ == offset_table(all.take(i as int), base as int),
            decreases n - i,
        {
            let ghost prev = all.take(i as int);
            let ghost next = all.take(i + 1);
            proof {
                lemma_save_step(all, i as int, base as int);
                lemma_records_prefix(all, i as int);
                lemma_offset_table_len(all, base as int);
            }
            let len = records.len();
            if len > (u32::MAX - base) as usize {
                return Err(LibraryError::ParseError(String::from_str("library too large")));
            }
            write_u32(&mut table, base + len as u32);
            match &self.entries.images[i] {
                Some(m) => {
                    assert(*m == all[i as int]);
                    m.save(&mut records)?;
                },
                None => {},
            }
            i = i + 1;
        }
        assert(all.take(n as int) =~= all);
        let mut out: Vec<u8> = Vec::new();
        write_i32(&mut out, Self::LIB_VERSION);
        write_i32(&mut out, n as i32);
        append_bytes(&mut out, &table);
        append_bytes(&mut out, &records);
        assert(out@ =~= lib_file(all));
        Ok(out)
    }
}

} // verus!

verus! {

/// Encoding a raster as `MImage::from_image` does and decoding the payload
/// as `MImage::create_texture` does gives the raster back, provided that
/// every pixel with zero red, green and blue is already transparent.
pub proof fn lemma_payload_round_trip(img: Raster, payload: Seq<u8>)
    requires
        img.wf(),
        0 < img.width <= 32767,
        0 < img.height <= 32767,
        forall|p: int|
            0 <= p < img.width * img.height && #[trigger] crate::image::raster::black_pixel(img.data@, p)
                ==> crate::image::raster::byte4(img.data@, p, 3) == 0,
        gunzip_of(payload) == Some(bgra_encoding(img.data@, img.width as int, img.height as int)),
    ensures
        decoded_payload(payload, img.width as int, img.height as int) == Some(img.data@),
{
    crate::image::raster::lemma_bgra_encoding_round_trip(img.data@, img.width as int, img.height as int);
}

} // verus!

verus! {

proof fn lemma_offset_table_len(s: Seq<MImage>, base: int)
    ensures
        offset_table(s, base).len() == 4 * s.len(),
    decreases s.len(),
{
    if s.len() > 0 {
        lemma_offset_table_len(s.drop_last(), base);
    }
}

proof fn lemma_offset_entry(s: Seq<MImage>, base: int, i: int)
    requires
        0 <= i < s.len(),
    ensures
        offset_table(s, base).subrange(4 * i, 4 * i + 4) == le32(base + records_of(s.take(i)).len()),
    decreases s.len(),
{
    let t = offset_table(s.drop_last(), base);
    lemma_offset_table_len(s.drop_last(), base);
    if i < s.len() - 1 {
        lemma_offset_entry(s.drop_last(), base, i);
        assert(s.drop_last().take(i) =~= s.take(i));
        assert(offset_table(s, base).subrange(4 * i, 4 * i + 4) =~= t.subrange(4 * i, 4 * i + 4));
    } else {
        assert(s.drop_last() =~= s.take(i));
        assert(offset_table(s, base).subrange(4 * i, 4 * i + 4) =~= le32(
            base + records_of(s.take(i)).len(),
        ));
    }
}

proof fn lemma_records_prefix(s: Seq<MImage>, i: int)
    requires
        0 <= i <= s.len(),
    ensures
        records_of(s.take(i)).len() <= records_of(s).len(),
        records_of(s).subrange(0, records_of(s.take(i)).len() as int) == records_of(s.take(i)),
    decreases s.len(),
{
    if i == s.len() {
        assert(s.take(i) =~= s);
    } else {
        lemma_records_prefix(s.drop_last(), i);
        assert(s.drop_last().take(i) =~= s.take(i));
        assert(records_of(s).subrange(0, records_of(s.take(i)).len() as int) =~= records_of(
            s.drop_last(),
        ).subrange(0, records_of(s.take(i)).len() as int));
    }
}

/// The saved record of `m` starts at `pos` of `d`.
pub open spec fn record_at(d: Seq<u8>, pos: int, m: MImage) -> bool {
    0 <= pos && pos + record_bytes(m).len() <= d.len() && d.subrange(pos, pos + record_bytes(m).len())
        == record_bytes(m)
}

/// `m` is stored as `MImage::save` writes it and reads back the same: its
/// shadow value fits in 7 bits and its payloads fit an `i32` length.
pub open spec fn storable(m: MImage) -> bool {
    m.shadow < 128 && m.fbytes@.len() <= i32::MAX && m.mask_fbytes@.len() <= i32::MAX
}

/// The 17 header bytes of a record.
pub open spec fn record_head(m: MImage) -> Seq<u8> {
    let (w, h, x, y) = (le16(m.width as int), le16(m.height as int), le16(m.x as int), le16(m.y as int));
    let (sx, sy, n) = (le16(m.shadow_x as int), le16(m.shadow_y as int), le32(m.fbytes@.len() as int));
    seq![
        w[0], w[1], h[0], h[1], x[0], x[1], y[0], y[1], sx[0], sx[1], sy[0], sy[1],
        stored_shadow(m.shadow, m.has_mask), n[0], n[1], n[2], n[3],
    ]
}

/// The mask sub-record of a record, empty without a mask.
pub open spec fn record_tail(m: MImage) -> Seq<u8> {
    if m.has_mask {
        let (w, h, x, y) = (
            le16(m.mask_width as int),
            le16(m.mask_height as int),
            le16(m.mask_x as int),
            le16(m.mask_y as int),
        );
        let n = le32(m.mask_fbytes@.len() as int);
        seq![w[0], w[1], h[0], h[1], x[0], x[1], y[0], y[1], n[0], n[1], n[2], n[3]] + m.mask_fbytes@
    } else {
        Seq::empty()
    }
}

proof fn lemma_record_split(m: MImage)
    ensures
        record_bytes(m) == record_head(m) + m.fbytes@ + record_tail(m),
        record_head(m).len() == 17,
{
    reveal(record_bytes);
    assert(record_bytes(m) =~= record_head(m) + m.fbytes@ + record_tail(m));
}

proof fn lemma_head_fields(d: Seq<u8>, pos: int, m: MImage)
    requires
        0 <= pos,
        pos + 17 <= d.len(),
        d.subrange(pos, pos + 17) == record_head(m),
        storable(m),
    ensures
        i16_le(d, pos) == m.width,
        i16_le(d, pos + 2) == m.height,
        i16_le(d, pos + 4) == m.x,
        i16_le(d, pos + 6) == m.y,
        i16_le(d, pos + 8) == m.shadow_x,
        i16_le(d, pos + 10) == m.shadow_y,
        d[pos + 12] as int % 128 == m.shadow,
        (d[pos + 12] >= 128) == m.has_mask,
        i32_le(d, pos + 13) == m.fbytes@.len(),
{
    let r = record_head(m);
    assert(d.subrange(pos, pos + 2) =~= le16(m.width as int));
    crate::formats::bytes::lemma_le16_read(d, pos, m.width as int);
    assert(d.subrange(pos + 2, pos + 4) =~= le16(m.height as int));
    crate::formats::bytes::lemma_le16_read(d, pos + 2, m.height as int);
    assert(d.subrange(pos + 4, pos + 6) =~= le16(m.x as int));
    crate::formats::bytes::lemma_le16_read(d, pos + 4, m.x as int);
    assert(d.subrange(pos + 6, pos + 8) =~= le16(m.y as int));
    crate::formats::bytes::lemma_le16_read(d, pos + 6, m.y as int);
    assert(d.subrange(pos + 8, pos + 10) =~= le16(m.shadow_x as int));
    crate::formats::bytes::lemma_le16_read(d, pos + 8, m.shadow_x as int);
    assert(d.subrange(pos + 10, pos + 12) =~= le16(m.shadow_y as int));
    crate::formats::bytes::lemma_le16_read(d, pos + 10, m.shadow_y as int);
    assert(d[pos + 12] == r[12]);
    assert(d.subrange(pos + 13, pos + 17) =~= le32(m.fbytes@.len() as int));
    crate::formats::bytes::lemma_le32_read(d, pos + 13, m.fbytes@.len() as int);
}

proof fn lemma_tail_fields(d: Seq<u8>, q: int, m: MImage)
    requires
        m.has_mask,
        storable(m),
        0 <= q,
        q + 12 + m.mask_fbytes@.len() <= d.len(),
        d.subrange(q, q + 12 + m.mask_fbytes@.len()) == record_tail(m),
    ensures
        i16_le(d, q) == m.mask_width,
        i16_le(d, q + 2) == m.mask_height,
        i16_le(d, q + 4) == m.mask_x,
        i16_le(d, q + 6) == m.mask_y,
        i32_le(d, q + 8) == m.mask_fbytes@.len(),
        d.subrange(q + 12, q + 12 + m.mask_fbytes@.len()) == m.mask_fbytes@,
{
    let mn = m.mask_fbytes@.len() as int;
    let (w, h, x, y) = (
        le16(m.mask_width as int),
        le16(m.mask_height as int),
        le16(m.mask_x as int),
        le16(m.mask_y as int),
    );
    let nb = le32(mn);
    let fixed = seq![w[0], w[1], h[0], h[1], x[0], x[1], y[0], y[1], nb[0], nb[1], nb[2], nb[3]];
    assert(record_tail(m) == fixed + m.mask_fbytes@);
    assert(d.subrange(q, q + 12) =~= fixed) by {
        assert(d.subrange(q, q + 12) =~= d.subrange(q, q + 12 + mn).subrange(0, 12));
    }
    assert(d.subrange(q, q + 2) =~= le16(m.mask_width as int));
    crate::formats::bytes::lemma_le16_read(d, q, m.mask_width as int);
    assert(d.subrange(q + 2, q + 4) =~= le16(m.mask_height as int));
    crate::formats::bytes::lemma_le16_read(d, q + 2, m.mask_height as int);
    assert(d.subrange(q + 4, q + 6) =~= le16(m.mask_x as int));
    crate::formats::bytes::lemma_le16_read(d, q + 4, m.mask_x as int);
    assert(d.subrange(q + 6, q + 8) =~= le16(m.mask_y as int));
    crate::formats::bytes::lemma_le16_read(d, q + 6, m.mask_y as int);
    assert(d.subrange(q + 8, q + 12) =~= le32(mn));
    crate::formats::bytes::lemma_le32_read(d, q + 8, mn);
    assert(d.subrange(q + 12, q + 12 + mn) =~= m.mask_fbytes@) by {
        assert(d.subrange(q + 12, q + 12 + mn) =~= d.subrange(q, q + 12 + mn).subrange(12, 12 + mn));
    }
}

/// The fields that reading a record gives back: those of `m`, with the
/// payload length field set to the payload's length.
pub open spec fn reads_back(d: Seq<u8>, pos: int, m: MImage) -> bool {
    let n = m.fbytes@.len() as int;
    let q = pos + 17 + n;
    &&& record_ok(d, pos)
    &&& i16_le(d, pos) == m.width && i16_le(d, pos + 2) == m.height
    &&& i16_le(d, pos + 4) == m.x && i16_le(d, pos + 6) == m.y
    &&& i16_le(d, pos + 8) == m.shadow_x && i16_le(d, pos + 10) == m.shadow_y
    &&& d[pos + 12] as int % 128 == m.shadow && (d[pos + 12] >= 128) == m.has_mask
    &&& i32_le(d, pos + 13) == n
    &&& d.subrange(pos + 17, q) == m.fbytes@
    &&& m.has_mask ==> {
        &&& i16_le(d, q) == m.mask_width && i16_le(d, q + 2) == m.mask_height
        &&& i16_le(d, q + 4) == m.mask_x && i16_le(d, q + 6) == m.mask_y
        &&& i32_le(d, q + 8) == m.mask_fbytes@.len()
        &&& d.subrange(q + 12, q + 12 + m.mask_fbytes@.len()) == m.mask_fbytes@
    }
}

#[verifier::spinoff_prover]
proof fn lemma_read_record(d: Seq<u8>, pos: int, m: MImage)
    requires
        record_at(d, pos, m),
        storable(m),
    ensures
        reads_back(d, pos, m),
{
    lemma_record_split(m);
    let n = m.fbytes@.len() as int;
    let rl = record_bytes(m).len() as int;
    let sub = d.subrange(pos, pos + rl);
    assert(d.subrange(pos, pos + 17) =~= sub.subrange(0, 17));
    assert(sub.subrange(0, 17) =~= record_head(m));
    lemma_head_fields(d, pos, m);
    assert(d.subrange(pos + 17, pos + 17 + n) =~= sub.subrange(17, 17 + n));
    assert(sub.subrange(17, 17 + n) =~= m.fbytes@);
    if m.has_mask {
        let q = pos + 17 + n;
        let mn = m.mask_fbytes@.len() as int;
        assert(d.subrange(q, q + 12 + mn) =~= sub.subrange(17 + n, rl));
        assert(sub.subrange(17 + n, rl) =~= record_tail(m));
        lemma_tail_fields(d, q, m);
    }
}

/// The bytes that `MLibraryV2::save` produces for entries `s` reopen as a
/// version-2 `.Lib` file of `s.len()` entries, where the offset of slot `i`
/// leads to a record with the fields and payloads of `s[i]`.
#[verifier::spinoff_prover]
pub proof fn lemma_saved_file_reopens(s: Seq<MImage>, i: int)
    requires
        0 <= i < s.len(),
        lib_file(s).len() <= u32::MAX,
        forall|j: int| 0 <= j < s.len() ==> storable(#[trigger] s[j]),
    ensures
        lib_header_ok(lib_file(s)),
        i32_le(lib_file(s), 4) == s.len(),
        reads_back(lib_file(s), u32_le(lib_file(s), 8 + 4 * i), s[i]),
{
    let n = s.len() as int;
    let base = 8 + 4 * n;
    let f = lib_file(s);
    let t = offset_table(s, base);
    let r = records_of(s);
    lemma_offset_table_len(s, base);
    assert(f == le32(2) + le32(n) + t + r);
    assert(f.subrange(0, 4) =~= le32(2));
    crate::formats::bytes::lemma_le32_read(f, 0, 2);
    assert(f.subrange(4, 8) =~= le32(n));
    crate::formats::bytes::lemma_le32_read(f, 4, n);
    lemma_records_prefix(s, i);
    lemma_records_prefix(s, i + 1);
    lemma_save_step(s, i, base);
    let li = records_of(s.take(i)).len() as int;
    let m = s[i];
    let rl = record_bytes(m).len() as int;
    lemma_offset_entry(s, base, i);
    assert(f.subrange(8 + 4 * i, 12 + 4 * i) =~= t.subrange(4 * i, 4 * i + 4));
    crate::formats::bytes::lemma_le32_read(f, 8 + 4 * i, base + li);
    assert(records_of(s.take(i + 1)) == records_of(s.take(i)) + record_bytes(m));
    assert(r.subrange(li, li + rl) =~= record_bytes(m)) by {
        assert(r.subrange(li, li + rl) =~= r.subrange(0, li + rl).subrange(li, li + rl));
    }
    assert(f.subrange(base + li, base + li + rl) =~= r.subrange(li, li + rl));
    assert(storable(s[i]));
    lemma_read_record(f, base + li, m);
}

impl Default for MImage {
    fn default() -> (m: Self)
        ensures
            m.width == 0 && m.height == 0 && m.fbytes@.len() == 0 && m.image is None && !m.has_mask,
    {
        MImage::new()
    }
}

} // verus!

verus! {

/// An entry whose payload encodes a raster as `MImage::from_image` writes it
/// (the payload of every entry `from_image` returns does), saved among entries `s` and
/// reopened, decodes to that raster exactly, provided that every pixel with
/// zero red, green and blue is already transparent.
pub proof fn lemma_saved_raster_round_trip(s: Seq<MImage>, i: int, img: Raster)
    requires
        0 <= i < s.len(),
        lib_file(s).len() <= u32::MAX,
        forall|j: int| 0 <= j < s.len() ==> storable(#[trigger] s[j]),
        img.wf(),
        0 < img.width <= 32767,
        0 < img.height <= 32767,
        s[i].width as int == img.width as int,
        s[i].height as int == img.height as int,
        gunzip_of(s[i].fbytes@) == Some(bgra_encoding(img.data@, img.width as int, img.height as int)),
        forall|p: int|
            0 <= p < img.width * img.height && #[trigger] crate::image::raster::black_pixel(img.data@, p)
                ==> crate::image::raster::byte4(img.data@, p, 3) == 0,
    ensures
        ({
            let d = lib_file(s);
            let off = u32_le(d, 8 + 4 * i);
            decoded_payload(
                d.subrange(off + 17, off + 17 + i32_le(d, off + 13)),
                i16_le(d, off),
                i16_le(d, off + 2),
            ) == Some(img.data@)
        }),
{
    lemma_saved_file_reopens(s, i);
    lemma_payload_round_trip(img, s[i].fbytes@);
}

} // verus!
