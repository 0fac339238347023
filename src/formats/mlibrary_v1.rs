//! The `.wzx` / `.wzl` pair: an offset index and entries of 8-bit palette
//! indices or 16-bit RGB565 pixels, raw or zlib-compressed.

use vstd::prelude::*;

use crate::error::{LibraryError, Result};
use crate::formats::bytes::{i16_le, i32_le, is_eof, read_i16, read_i32, read_offsets, read_u8, u32_le};
use crate::formats::container::LibraryContainer;
use crate::image::compression::{decompress_zlib, unzlib_of};
use crate::image::palette::{create_default_palette, Color};
use crate::image::palette_data::default_color;
use crate::image::raster::{
    decode_565_rows, decode_indexed_rows, indexed_decoded, rgb565_decoded, Raster,
};

pub use crate::image::bitmap::MImage;

verus! {

/// Size of the `.wzx` header that precedes the offsets.
pub const WZX_HEADER_SIZE: usize = 48;

/// Number of offsets in a `.wzx` file: every whole `u32` after the header.
pub open spec fn wzx_count(d: Seq<u8>) -> int {
    if d.len() >= 48 {
        (d.len() - 48) / 4
    } else {
        0
    }
}

/// Row length in bytes of `w` pixels of `bpp` bytes, padded to a multiple of 4.
pub open spec fn padded_row(w: int, bpp: int) -> int {
    (w * bpp + 3) / 4 * 4
}

/// The stored pixel bytes of a record whose header starts at `pos` with a
/// size field `n_size`: raw `w * h * bpp` bytes when `n_size` is 0, else the
/// inflated zlib block of `n_size` bytes.
pub open spec fn v1_payload(d: Seq<u8>, pos: int, bpp: int) -> Option<Seq<u8>> {
    let w = i16_le(d, pos + 4);
    let h = i16_le(d, pos + 6);
    let n_size = i32_le(d, pos + 12);
    if n_size == 0 {
        if pos + 16 + w * h * bpp <= d.len() {
            Some(d.subrange(pos + 16, pos + 16 + w * h * bpp))
        } else {
            None
        }
    } else if n_size > 0 && pos + 16 + n_size <= d.len() {
        unzlib_of(d.subrange(pos + 16, pos + 16 + n_size))
    } else {
        None
    }
}

/// The record at `pos` of `d` reads without error: a placeholder, or a
/// header with positive size and a payload that is present and inflates.
pub open spec fn v1_loadable(d: Seq<u8>, pos: int) -> bool {
    let w = i16_le(d, pos + 4);
    let h = i16_le(d, pos + 6);
    ||| pos == 0 && d.len() >= 1
    ||| pos > 0 && pos + 16 <= d.len() && w * h < 4
    ||| pos > 0 && pos + 16 <= d.len() && w > 0 && h > 0 && w * h >= 4 && v1_payload(
        d,
        pos,
        if d[pos] == 5 { 2int } else { 1int },
    ) is Some
}

/// `m` is the placeholder entry: no size, no pixels.
pub open spec fn is_placeholder(m: MImage) -> bool {
    m.width == 0 && m.height == 0 && m.x == 0 && m.y == 0 && m.image is None && m.fbytes@.len() == 0
}

/// `m` is the decoded record at `pos`: its header fields, its payload, and
/// the raster that the payload decodes to through `pal` or as RGB565.
pub open spec fn v1_decoded(m: MImage, d: Seq<u8>, pos: int, pal: Seq<Color>) -> bool {
    let sixteen = d[pos] == 5;
    let bpp = if sixteen { 2int } else { 1int };
    let w = i16_le(d, pos + 4);
    let h = i16_le(d, pos + 6);
    &&& m.width as int == w && m.height as int == h
    &&& m.x as int == i16_le(d, pos + 8) && m.y as int == i16_le(d, pos + 10)
    &&& v1_payload(d, pos, bpp) == Some(m.fbytes@)
    &&& m.texture_valid
    &&& m.image matches Some(img) && img.width as int == w && img.height as int == h && if sixteen {
        rgb565_decoded(img.data@, m.fbytes@, w, h, padded_row(w, 2))
    } else {
        indexed_decoded(img.data@, m.fbytes@, pal, w, h, padded_row(w, 1))
    }
}

/// Reads and decodes the record at `pos` of a `.wzl` file.
///
/// A record at offset 0, or one whose width times height is below 4, is a
/// placeholder entry.
pub fn read_mimage(palette: &Vec<Color>, data: &[u8], pos: usize) -> (r: Result<MImage>)
    requires
        palette@.len() == 256,
    ensures
        pos == 0 && data@.len() >= 1 ==> (r matches Ok(m) && is_placeholder(m)),
        pos + 1 > data@.len() || (pos > 0 && pos + 16 > data@.len()) ==> (r matches Err(e) && is_eof(e)),
        pos > 0 && pos + 16 <= data@.len() && i16_le(data@, pos as int + 4) * i16_le(data@, pos as int + 6) < 4
            ==> (r matches Ok(m) && is_placeholder(m)),
        pos > 0 && pos + 16 <= data@.len() && i16_le(data@, pos as int + 4) * i16_le(data@, pos as int + 6) >= 4
            && (i16_le(data@, pos as int + 4) <= 0 || i16_le(data@, pos as int + 6) <= 0) ==> r
            == Err::<MImage, LibraryError>(LibraryError::InvalidImageData),
        pos > 0 && pos + 16 <= data@.len() && i16_le(data@, pos as int + 4) > 0 && i16_le(
            data@,
            pos as int + 6,
        ) > 0 && i16_le(data@, pos as int + 4) * i16_le(data@, pos as int + 6) >= 4 ==> ({
            let bpp = if data@[pos as int] == 5 { 2int } else { 1int };
            &&& r is Ok <==> v1_payload(data@, pos as int, bpp) is Some
            &&& r matches Ok(m) ==> v1_decoded(m, data@, pos as int, palette@)
        }),
        r matches Err(e) ==> is_eof(e) || e is Compression || e == LibraryError::InvalidImageData,
{
    let n = data.len();
    let flag = read_u8(data, pos)?;
    if pos == 0 {
        return Ok(MImage::new());
    }
    if pos >= n || n - pos < 16 {
        return Err(LibraryError::Io(String::from_str("unexpected end of data")));
    }
    let sixteen = flag == 5;
    let width = read_i16(data, pos + 4)?;
    let height = read_i16(data, pos + 6)?;
    let x = read_i16(data, pos + 8)?;
    let y = read_i16(data, pos + 10)?;
    let n_size = read_i32(data, pos + 12)?;
    let (wi, hi) = (width as i32, height as i32);
    assert(-0x4000_0000 <= wi * hi <= 0x4000_0000) by (nonlinear_arith)
        requires
            -32768 <= wi <= 32767,
            -32768 <= hi <= 32767,
    ;
    if wi * hi < 4 {
        return Ok(MImage::new());
    }
    if width <= 0 || height <= 0 {
        return Err(LibraryError::InvalidImageData);
    }
    let w = width as usize;
    let h = height as usize;
    let bpp: usize = if sixteen { 2 } else { 1 };
    assert(w * h * 4 <= 32767 * 32767 * 4) by (nonlinear_arith)
        requires
            0 < w <= 32767,
            0 < h <= 32767,
    ;
    let start = pos + 16;
    let bytes: Vec<u8> = if n_size == 0 {
        let size = w * h * bpp;
        if n - start < size {
            return Err(LibraryError::Io(String::from_str("unexpected end of data")));
        }
        copy_range(data, start, size)
    } else {
        if n_size < 0 || n - start < n_size as usize {
            return Err(LibraryError::Io(String::from_str("unexpected end of data")));
        }
        let block = copy_range(data, start, n_size as usize);
        decompress_zlib(block.as_slice())?
    };
    let row = (w * bpp + 3) / 4 * 4;
    assert(h * row + w * 2 + 1 <= 32767 * 65540 + 65535) by (nonlinear_arith)
        requires
            0 < w <= 32767,
            0 < h <= 32767,
            row <= 65540,
    ;
    let pixels = if sixteen {
        decode_565_rows(bytes.as_slice(), w, h, row)
    } else {
        decode_indexed_rows(bytes.as_slice(), palette, w, h, row)
    };
    let mut img = MImage::new();
    img.width = width;
    img.height = height;
    img.x = x;
    img.y = y;
    img.fbytes = bytes;
    img.image = Some(Raster { width: w as u32, height: h as u32, data: pixels });
    img.texture_valid = true;
    Ok(img)
}

/// The `len` bytes of `data` from `start`.
pub fn copy_range(data: &[u8], start: usize, len: usize) -> (v: Vec<u8>)
    requires
        start + len <= data@.len(),
    ensures
        v@ == data@.subrange(start as int, start + len),
{
    let n = data.len();
    let mut v: Vec<u8> = Vec::new();
    let mut k: usize = 0;
    while k < len
        invariant
            k <= len,
            n == data@.len(),
            start + len <= data@.len(),
            v@ == data@.subrange(start as int, start + k),
        decreases len - k,
    {
        v.push(data[start + k]);
        k = k + 1;
        assert(v@ =~= data@.subrange(start as int, start + k));
    }
    v
}

} // verus!

verus! {

/// A `.wzx` / `.wzl` library.
pub struct MLibraryV1 {
    /// Path of the library without its extension.
    pub file_name: String,
    pub entries: LibraryContainer<MImage>,
    /// The index has been read.
    pub initialized: bool,
    /// Decode pixels when an entry is loaded.
    pub load: bool,
    /// The palette of 8-bit entries: the built-in one.
    pub palette: Vec<Color>,
    /// The bytes of the `.wzx` index file, if it exists.
    pub index_data: Option<Vec<u8>>,
    /// The bytes of the `.wzl` data file, if it exists.
    pub data: Option<Vec<u8>>,
}

/// `base` with `ext` appended.
pub fn path_with(base: &String, ext: &str) -> (p: String)
    ensures
        p@ == base@ + ext@,
{
    let mut p = base.clone();
    p.append(ext);
    p
}

/// Every slot is empty and holds offset `i` of a `.wzx` file.
pub open spec fn wzx_loaded(entries: LibraryContainer<MImage>, d: Seq<u8>) -> bool {
    &&& entries.count == wzx_count(d)
    &&& forall|i: int|
        #![trigger entries.index_list@[i]]
        #![trigger u32_le(d, 48 + 4 * i)]
        0 <= i < entries.count ==> entries.images@[i] is None && entries.index_list@[i] as int
            == u32_le(d, 48 + 4 * i)
}

impl MLibraryV1 {
    pub const LIB_VERSION: i32 = 1;

    pub open spec fn wf(&self) -> bool {
        self.entries.wf() && self.palette@.len() == 256
    }

    /// Entry `index` is loaded as `m`; a further access changes nothing.
    pub open spec fn holds_loaded(&self, index: int, m: MImage) -> bool {
        &&& self.initialized
        &&& 0 <= index < self.entries.images@.len()
        &&& self.entries.images@[index] == Some(m)
    }

    /// A library whose files do not exist: the index file is reported missing.
    pub fn new(file_name: String) -> (r: Result<Self>)
        ensures
            r matches Err(LibraryError::FileNotFound(p)) && p@ == file_name@ + ".wzx"@,
    {
        proof {
            reveal_strlit(".wzx");
        }
        Err(LibraryError::FileNotFound(path_with(&file_name, ".wzx")))
    }

    /// A library read from the bytes of its `.wzx` index and `.wzl` data files.
    pub fn open(file_name: String, index_data: Vec<u8>, data: Vec<u8>) -> (r: Result<Self>)
        ensures
            r matches Ok(lib) && lib.wf() && lib.initialized && lib.load && wzx_loaded(
                lib.entries,
                index_data@,
            ) && lib.data is Some && lib.data->0@ == data@ && (forall|i: int|
                0 <= i < 256 ==> lib.palette@[i] == default_color(i)),
    {
        let mut lib = MLibraryV1 {
            file_name,
            entries: LibraryContainer::new(),
            initialized: false,
            load: true,
            palette: create_default_palette(),
            index_data: Some(index_data),
            data: Some(data),
        };
        lib.load_index();
        Ok(lib)
    }

    /// Reads the offsets of the index file; every slot starts empty.
    fn load_index(&mut self)
        requires
            old(self).palette@.len() == 256,
            old(self).index_data is Some,
        ensures
            final(self).wf(),
            final(self).initialized,
            wzx_loaded(final(self).entries, old(self).index_data->0@),
            final(self).index_data == old(self).index_data,
            final(self).data == old(self).data,
            final(self).palette == old(self).palette,
            final(self).load == old(self).load,
            final(self).file_name == old(self).file_name,
    {
        self.initialized = true;
        let offsets = match &self.index_data {
            Some(d) => {
                let n = d.len();
                let count = if n >= WZX_HEADER_SIZE { (n - WZX_HEADER_SIZE) / 4 } else { 0 };
                match read_offsets(d.as_slice(), WZX_HEADER_SIZE, count) {
                    Ok(v) => v,
                    Err(_) => Vec::new(),
                }
            },
            None => Vec::new(),
        };
        self.entries = LibraryContainer::with_offsets(offsets);
    }

    /// Reads the index file; both files must exist.
    pub fn initialize(&mut self) -> (r: Result<()>)
        requires
            old(self).wf(),
        ensures
            final(self).wf(),
            old(self).index_data is None ==> (r matches Err(e) && e is FileNotFound),
            old(self).index_data is Some && old(self).data is None ==> (r matches Err(e) && e is FileNotFound),
            old(self).index_data is Some && old(self).data is Some ==> r is Ok && final(self).initialized
                && wzx_loaded(final(self).entries, old(self).index_data->0@),
            r is Err ==> final(self).entries == old(self).entries && final(self).initialized == old(self).initialized,
            final(self).index_data == old(self).index_data,
            final(self).data == old(self).data,
            final(self).palette == old(self).palette,
            final(self).load == old(self).load,
    {
        proof {
            reveal_strlit(".wzx");
            reveal_strlit(".wzl");
        }
        if self.index_data.is_none() {
            return Err(LibraryError::FileNotFound(path_with(&self.file_name, ".wzx")));
        }
        if self.data.is_none() {
            return Err(LibraryError::FileNotFound(path_with(&self.file_name, ".wzl")));
        }
        self.load_index();
        Ok(())
    }

    /// Makes sure that entry `index` is read and decoded.
    pub fn check_image(&mut self, index: usize) -> (r: Result<()>)
        requires
            old(self).wf(),
        ensures
            final(self).wf(),
            final(self).data == old(self).data,
            final(self).palette == old(self).palette,
            forall|m: MImage| old(self).holds_loaded(index as int, m) ==> r is Ok && *final(self) == *old(self),
            r is Ok ==> exists|m: MImage| final(self).holds_loaded(index as int, m),
            final(self).initialized && index >= final(self).entries.count ==> r == Err::<(), LibraryError>(
                LibraryError::IndexOutOfBounds(index),
            ),
            old(self).initialized ==> final(self).entries.count == old(self).entries.count
                && final(self).entries.index_list == old(self).entries.index_list,
            old(self).initialized && index < old(self).entries.count && old(self).entries.images@[index as int] is None
                && r is Ok ==> (final(self).data is Some && (final(self).entries.images@[index as int] matches Some(m)
                && (is_placeholder(m) || v1_decoded(
                m,
                final(self).data->0@,
                old(self).entries.index_list@[index as int] as int,
                final(self).palette@,
            )))),
            old(self).initialized && index < old(self).entries.count && old(self).entries.images@[index as int] is None
                && (old(self).data matches Some(d) && v1_loadable(d@, old(self).entries.index_list@[index as int] as int))
                ==> r is Ok,
    {
        if !self.initialized {
            self.initialize()?;
        }
        if index >= self.entries.images.len() {
            return Err(LibraryError::IndexOutOfBounds(index));
        }
        if self.entries.images[index].is_none() {
            let m = match &self.data {
                Some(d) => read_mimage(&self.palette, d.as_slice(), self.entries.index_list[index] as usize)?,
                None => {
                    return Err(LibraryError::FileNotFound(self.file_name.clone()));
                },
            };
            self.entries.images.set(index, Some(m));
        }
        assert(self.holds_loaded(index as int, self.entries.images@[index as int]->0));
        Ok(())
    }

    /// Entry `index`, read and decoded on first access and cached after.
    pub fn get_image(&mut self, index: usize) -> (r: Result<&MImage>)
        requires
            old(self).wf(),
        ensures
            final(self).wf(),
            r matches Ok(m) ==> final(self).holds_loaded(index as int, *m),
            forall|m: MImage|
                old(self).holds_loaded(index as int, m) ==> (r matches Ok(x) && *x == m) && *final(self)
                    == *old(self),
            final(self).initialized && index >= final(self).entries.count ==> r is Err,
            final(self).palette == old(self).palette && final(self).data == old(self).data,
            old(self).initialized && index < old(self).entries.count && old(self).entries.images@[index as int] is None
                && r is Ok ==> (final(self).data is Some && (final(self).entries.images@[index as int] matches Some(m)
                && (is_placeholder(m) || v1_decoded(
                m,
                final(self).data->0@,
                old(self).entries.index_list@[index as int] as int,
                final(self).palette@,
            )))),
            old(self).initialized && index < old(self).entries.count && old(self).entries.images@[index as int] is None
                && (old(self).data matches Some(d) && v1_loadable(d@, old(self).entries.index_list@[index as int] as int))
                ==> r is Ok,
    {
        self.check_image(index)?;
        match &self.entries.images[index] {
            Some(m) => Ok(m),
            None => Err(LibraryError::IndexOutOfBounds(index)),
        }
    }

    /// The decoded raster of entry `index`, if it has one.
    pub fn get_preview(&mut self, index: usize) -> (r: Result<Option<&Raster>>)
        requires
            old(self).wf(),
        ensures
            final(self).wf(),
            r matches Ok(Some(img)) ==> final(self).entries.images@[index as int] matches Some(m)
                && m.image == Some(*img),
            final(self).initialized && index >= final(self).entries.count ==> r is Err,
            r matches Ok(o) ==> 0 <= index < final(self).entries.images@.len() && (final(self).entries.images@[index as int] matches Some(m)
                && (o is Some <==> m.image is Some)),
            old(self).initialized && index < old(self).entries.count && old(self).entries.images@[index as int] is None
                && (old(self).data matches Some(d) && v1_loadable(d@, old(self).entries.index_list@[index as int] as int))
                ==> r is Ok,
            forall|m: MImage| old(self).holds_loaded(index as int, m) ==> r is Ok && *final(self) == *old(self),
    {
        self.check_image(index)?;
        match &self.entries.images[index] {
            Some(m) => Ok(m.image.as_ref()),
            None => Ok(None),
        }
    }

    /// Appends an entry.
    pub fn add_image(&mut self, image: MImage)
        requires
            old(self).wf(),
        ensures
            final(self).wf(),
            *final(self) == (MLibraryV1 { entries: final(self).entries, ..*old(self) }),
            final(self).entries.images@ == old(self).entries.images@.push(Some(image)),
            final(self).entries.count == old(self).entries.count + 1,
    {
        self.entries.add(image);
    }

    /// Replaces entry `index`.
    pub fn replace_image(&mut self, index: usize, image: MImage) -> (r: Result<()>)
        requires
            old(self).wf(),
        ensures
            final(self).wf(),
            *final(self) == (MLibraryV1 { entries: final(self).entries, ..*old(self) }),
            final(self).entries.index_list@ == old(self).entries.index_list@,
            index < old(self).entries.count ==> r is Ok && final(self).entries.images@ == old(self).entries.images@.update(
                index as int,
                Some(image),
            ),
            index >= old(self).entries.count ==> r == Err::<(), LibraryError>(LibraryError::IndexOutOfBounds(index))
                && *final(self) == *old(self),
    {
        self.entries.replace(index, image)
    }

    /// Inserts an entry before `index`.
    pub fn insert_image(&mut self, index: usize, image: MImage) -> (r: Result<()>)
        requires
            old(self).wf(),
        ensures
            final(self).wf(),
            *final(self) == (MLibraryV1 { entries: final(self).entries, ..*old(self) }),
            index <= old(self).entries.count ==> r is Ok && final(self).entries.images@ == old(self).entries.images@.insert(
                index as int,
                Some(image),
            ),
            index > old(self).entries.count ==> r == Err::<(), LibraryError>(LibraryError::IndexOutOfBounds(index))
                && *final(self) == *old(self),
    {
        self.entries.insert(index, image)
    }

    /// Removes entry `index`; removing the last remaining entry empties the library.
    pub fn remove_image(&mut self, index: usize) -> (r: Result<()>)
        requires
            old(self).wf(),
        ensures
            final(self).wf(),
            *final(self) == (MLibraryV1 { entries: final(self).entries, ..*old(self) }),
            old(self).entries.count <= 1 ==> r is Ok && final(self).entries.count == 0,
            old(self).entries.count > 1 && index < old(self).entries.count ==> r is Ok
                && final(self).entries.images@ == old(self).entries.images@.remove(index as int),
            old(self).entries.count > 1 && index >= old(self).entries.count ==> r == Err::<(), LibraryError>(
                LibraryError::IndexOutOfBounds(index),
            ) && *final(self) == *old(self),
    {
        self.entries.remove(index)
    }

    pub fn count(&self) -> (n: usize)
        ensures
            n == self.entries.count,
    {
        self.entries.count
    }

    /// Drops the data file; entries not read yet can no longer be read.
    pub fn close(&mut self)
        ensures
            final(self).data is None,
            final(self).entries == old(self).entries,
            final(self).palette == old(self).palette,
            final(self).initialized == old(self).initialized,
    {
        self.data = None;
    }
}

} // verus!

verus! {

/// The flag byte an entry is stored with: 5 when its payload holds two bytes
/// per pixel, else 3.
pub open spec fn v1_flag(m: MImage) -> u8 {
    if m.fbytes@.len() == 2 * (m.width as int * m.height as int) && m.fbytes@.len() > 0 {
        5
    } else {
        3
    }
}

/// The record of an entry in a `.wzl` file: flag, three zero bytes, width,
/// height, x, y, a zero size (raw payload), then the payload.
#[verifier::opaque]
pub open spec fn v1_record(m: MImage) -> Seq<u8> {
    seq![v1_flag(m), 0u8, 0u8, 0u8] + crate::formats::bytes::le16(m.width as int)
        + crate::formats::bytes::le16(m.height as int) + crate::formats::bytes::le16(m.x as int)
        + crate::formats::bytes::le16(m.y as int) + crate::formats::bytes::le32(0) + m.fbytes@
}

/// The records of `s`, one after another.
pub open spec fn v1_records(s: Seq<MImage>) -> Seq<u8>
    decreases s.len(),
{
    if s.len() == 0 {
        Seq::empty()
    } else {
        v1_records(s.drop_last()) + v1_record(s.last())
    }
}

/// The offsets of the records of `s` when they start at byte `base`.
pub open spec fn v1_offsets(s: Seq<MImage>, base: int) -> Seq<u8>
    decreases s.len(),
{
    if s.len() == 0 {
        Seq::empty()
    } else {
        v1_offsets(s.drop_last(), base) + crate::formats::bytes::le32(base + v1_records(s.drop_last()).len())
    }
}

/// The `.wzl` file for entries `s`: version 1, count, offsets, records.
pub open spec fn wzl_file(s: Seq<MImage>) -> Seq<u8> {
    crate::formats::bytes::le32(1) + crate::formats::bytes::le32(s.len() as int) + v1_offsets(
        s,
        8 + 4 * s.len() as int,
    ) + v1_records(s)
}

/// The `.wzx` file for entries `s`: a zero header of 48 bytes, then the offsets.
pub open spec fn wzx_file(s: Seq<MImage>) -> Seq<u8> {
    Seq::new(48, |i: int| 0u8) + v1_offsets(s, 8 + 4 * s.len() as int)
}

/// Every slot not read yet has a readable record in the data file.
pub open spec fn v1_unread_readable(lib: MLibraryV1) -> bool {
    forall|i: int|
        0 <= i < lib.entries.count && #[trigger] lib.entries.images@[i] is None ==> (lib.data matches Some(d)
            && v1_loadable(d@, lib.entries.index_list@[i] as int))
}

/// Every slot holds an entry.
pub open spec fn all_loaded_v1(s: Seq<Option<MImage>>) -> bool {
    forall|i: int| 0 <= i < s.len() ==> #[trigger] s[i] is Some
}

/// The entries of slots that all hold one.
pub open spec fn entries_v1(s: Seq<Option<MImage>>) -> Seq<MImage> {
    s.map_values(|o: Option<MImage>| o->0)
}

proof fn lemma_v1_step(all: Seq<MImage>, i: int, base: int)
    requires
        0 <= i < all.len(),
    ensures
        v1_records(all.take(i + 1)) == v1_records(all.take(i)) + v1_record(all[i]),
        v1_offsets(all.take(i + 1), base) == v1_offsets(all.take(i), base) + crate::formats::bytes::le32(
            base + v1_records(all.take(i)).len(),
        ),
{
    let next = all.take(i + 1);
    assert(next.drop_last() =~= all.take(i));
    assert(next.last() == all[i]);
}

/// Appends the record of an entry.
pub fn write_mimage_data(image: &MImage, writer: &mut Vec<u8>)
    ensures
        final(writer)@ == old(writer)@ + v1_record(*image),
{
    let ghost start = writer@;
    let (w, h) = (image.width as i64, image.height as i64);
    assert(-0x4000_0000 <= w * h <= 0x4000_0000) by (nonlinear_arith)
        requires
            -32768 <= w <= 32767,
            -32768 <= h <= 32767,
    ;
    let pixels = w * h;
    let len = image.fbytes.len();
    let flag: u8 = if len > 0 && pixels > 0 && len as u64 == 2 * pixels as u64 { 5 } else { 3 };
    assert(flag == v1_flag(*image));
    writer.push(flag);
    writer.push(0);
    writer.push(0);
    writer.push(0);
    crate::formats::bytes::write_i16(writer, image.width);
    crate::formats::bytes::write_i16(writer, image.height);
    crate::formats::bytes::write_i16(writer, image.x);
    crate::formats::bytes::write_i16(writer, image.y);
    crate::formats::bytes::write_u32(writer, 0);
    crate::formats::mlibrary_v2::append_bytes(writer, &image.fbytes);
    reveal(v1_record);
    assert(writer@ =~= start + v1_record(*image));
}

impl MLibraryV1 {
    /// The bytes of the `.wzx` and `.wzl` files for the current entries, with
    /// offsets assigned in list order after the `.wzl` offset table. Entries
    /// not read yet are read from the data file first.
    #[verifier::loop_isolation(false)]
    #[verifier::spinoff_prover]
    pub fn save(&mut self) -> (r: Result<(Vec<u8>, Vec<u8>)>)
        requires
            old(self).wf(),
        ensures
            final(self).wf(),
            final(self).entries.count == old(self).entries.count,
            r matches Ok((wzx, wzl)) ==> all_loaded_v1(final(self).entries.images@) && wzx@ == wzx_file(
                entries_v1(final(self).entries.images@),
            ) && wzl@ == wzl_file(entries_v1(final(self).entries.images@)),
            forall|i: int|
                0 <= i < old(self).entries.count && old(self).entries.images@[i] is Some
                    ==> final(self).entries.images@[i] == old(self).entries.images@[i],
            v1_unread_readable(*old(self)) ==> all_loaded_v1(final(self).entries.images@) && (
            entries_v1(final(self).entries.images@).len() <= 0x3fff_fff0 && wzl_file(
                entries_v1(final(self).entries.images@),
            ).len() <= u32::MAX ==> r is Ok),
    {
        let n = self.entries.images.len();
        let mut i: usize = 0;
        while i < n
            invariant
                i <= n,
                n == self.entries.count,
                self.wf(),
                self.entries.count == old(self).entries.count,
                self.data == old(self).data,
                self.palette == old(self).palette,
                self.entries.index_list@ == old(self).entries.index_list@,
                forall|j: int| 0 <= j < i ==> #[trigger] self.entries.images@[j] is Some,
                forall|j: int|
                    0 <= j < n && old(self).entries.images@[j] is Some
                        ==> self.entries.images@[j] == old(self).entries.images@[j],
                forall|j: int| i <= j < n ==> self.entries.images@[j] == old(self).entries.images@[j],
            decreases n - i,
        {
            if self.entries.images[i].is_none() {
                let m = match &self.data {
                    Some(d) => read_mimage(&self.palette, d.as_slice(), self.entries.index_list[i] as usize)?,
                    None => {
                        return Err(LibraryError::FileNotFound(self.file_name.clone()));
                    },
                };
                self.entries.images.set(i, Some(m));
            }
            i = i + 1;
        }
        if n > 0x3fff_fff0 {
            return Err(LibraryError::ParseError(String::from_str("too many entries")));
        }
        let base: u32 = 8 + 4 * n as u32;
        let ghost all = entries_v1(self.entries.images@);
        let mut records: Vec<u8> = Vec::new();
        let mut table: Vec<u8> = Vec::new();
        let mut k: usize = 0;
        while k < n
            invariant
                k <= n,
                n == self.entries.images@.len(),
                base == 8 + 4 * n,
                all_loaded_v1(self.entries.images@),
                all == entries_v1(self.entries.images@),
                records@ == v1_records(all.take(k as int)),
                table@ == v1_offsets(all.take(k as int), base as int),
            decreases n - k,
        {
            proof {
                lemma_v1_step(all, k as int, base as int);
                lemma_v1_records_prefix(all, k as int);
                lemma_v1_offsets_len(all, base as int);
            }
            let len = records.len();
            if len > (u32::MAX - base) as usize {
                return Err(LibraryError::ParseError(String::from_str("library too large")));
            }
            crate::formats::bytes::write_u32(&mut table, base + len as u32);
            match &self.entries.images[k] {
                Some(m) => {
                    assert(*m == all[k as int]);
                    write_mimage_data(m, &mut records);
                },
                None => {},
            }
            k = k + 1;
        }
        assert(all.take(n as int) =~= all);
        let mut wzl: Vec<u8> = Vec::new();
        crate::formats::bytes::write_i32(&mut wzl, Self::LIB_VERSION);
        crate::formats::bytes::write_i32(&mut wzl, n as i32);
        crate::formats::mlibrary_v2::append_bytes(&mut wzl, &table);
        crate::formats::mlibrary_v2::append_bytes(&mut wzl, &records);
        assert(wzl@ =~= wzl_file(all));
        let mut wzx: Vec<u8> = Vec::new();
        let mut z: usize = 0;
        while z < WZX_HEADER_SIZE
            invariant
                z <= 48,
                wzx@ == Seq::new(z as nat, |i: int| 0u8),
            decreases 48 - z,
        {
            wzx.push(0);
            z = z + 1;
            assert(wzx@ =~= Seq::new(z as nat, |i: int| 0u8));
        }
        crate::formats::mlibrary_v2::append_bytes(&mut wzx, &table);
        assert(wzx@ =~= wzx_file(all));
        Ok((wzx, wzl))
    }
}

} // verus!

verus! {

proof fn lemma_v1_offsets_len(s: Seq<MImage>, base: int)
    ensures
        v1_offsets(s, base).len() == 4 * s.len(),
    decreases s.len(),
{
    if s.len() > 0 {
        lemma_v1_offsets_len(s.drop_last(), base);
    }
}

proof fn lemma_v1_offset_entry(s: Seq<MImage>, base: int, i: int)
    requires
        0 <= i < s.len(),
    ensures
        v1_offsets(s, base).subrange(4 * i, 4 * i + 4) == crate::formats::bytes::le32(
            base + v1_records(s.take(i)).len(),
        ),
    decreases s.len(),
{
    let t = v1_offsets(s.drop_last(), base);
    lemma_v1_offsets_len(s.drop_last(), base);
    if i < s.len() - 1 {
        lemma_v1_offset_entry(s.drop_last(), base, i);
        assert(s.drop_last().take(i) =~= s.take(i));
        assert(v1_offsets(s, base).subrange(4 * i, 4 * i + 4) =~= t.subrange(4 * i, 4 * i + 4));
    } else {
        assert(s.drop_last() =~= s.take(i));
        assert(v1_offsets(s, base).subrange(4 * i, 4 * i + 4) =~= crate::formats::bytes::le32(
            base + v1_records(s.take(i)).len(),
        ));
    }
}

proof fn lemma_v1_records_prefix(s: Seq<MImage>, i: int)
    requires
        0 <= i <= s.len(),
    ensures
        v1_records(s.take(i)).len() <= v1_records(s).len(),
        v1_records(s).subrange(0, v1_records(s.take(i)).len() as int) == v1_records(s.take(i)),
    decreases s.len(),
{
    if i == s.len() {
        assert(s.take(i) =~= s);
    } else {
        lemma_v1_records_prefix(s.drop_last(), i);
        assert(s.drop_last().take(i) =~= s.take(i));
        assert(v1_records(s).subrange(0, v1_records(s.take(i)).len() as int) =~= v1_records(
            s.drop_last(),
        ).subrange(0, v1_records(s.take(i)).len() as int));
    }
}

/// `m` reads back as saved: a size of at least 4 pixels and a payload of one
/// byte per pixel, or of two bytes per pixel.
pub open spec fn v1_storable(m: MImage) -> bool {
    let n = m.width as int * m.height as int;
    m.width > 0 && m.height > 0 && n >= 4 && (m.fbytes@.len() == n || m.fbytes@.len() == 2 * n)
}

proof fn lemma_read_v1_record(d: Seq<u8>, pos: int, m: MImage)
    requires
        0 < pos,
        pos + v1_record(m).len() <= d.len(),
        d.subrange(pos, pos + v1_record(m).len()) == v1_record(m),
        v1_storable(m),
    ensures
        d[pos] == v1_flag(m),
        i16_le(d, pos + 4) == m.width,
        i16_le(d, pos + 6) == m.height,
        i16_le(d, pos + 8) == m.x,
        i16_le(d, pos + 10) == m.y,
        i32_le(d, pos + 12) == 0,
        v1_payload(d, pos, if d[pos] == 5 { 2int } else { 1int }) == Some(m.fbytes@),
{
    reveal(v1_record);
    let r = v1_record(m);
    let n = m.fbytes@.len() as int;
    let sub = d.subrange(pos, pos + r.len());
    assert(d[pos] == sub[0]);
    assert(d.subrange(pos + 4, pos + 6) =~= sub.subrange(4, 6));
    assert(sub.subrange(4, 6) =~= crate::formats::bytes::le16(m.width as int));
    crate::formats::bytes::lemma_le16_read(d, pos + 4, m.width as int);
    assert(d.subrange(pos + 6, pos + 8) =~= sub.subrange(6, 8));
    assert(sub.subrange(6, 8) =~= crate::formats::bytes::le16(m.height as int));
    crate::formats::bytes::lemma_le16_read(d, pos + 6, m.height as int);
    assert(d.subrange(pos + 8, pos + 10) =~= sub.subrange(8, 10));
    assert(sub.subrange(8, 10) =~= crate::formats::bytes::le16(m.x as int));
    crate::formats::bytes::lemma_le16_read(d, pos + 8, m.x as int);
    assert(d.subrange(pos + 10, pos + 12) =~= sub.subrange(10, 12));
    assert(sub.subrange(10, 12) =~= crate::formats::bytes::le16(m.y as int));
    crate::formats::bytes::lemma_le16_read(d, pos + 10, m.y as int);
    assert(d.subrange(pos + 12, pos + 16) =~= sub.subrange(12, 16));
    assert(sub.subrange(12, 16) =~= crate::formats::bytes::le32(0));
    crate::formats::bytes::lemma_le32_read(d, pos + 12, 0);
    assert(d.subrange(pos + 16, pos + 16 + n) =~= sub.subrange(16, 16 + n));
    assert(sub.subrange(16, 16 + n) =~= m.fbytes@);
    let px = m.width as int * m.height as int;
    let bpp = if d[pos] == 5 { 2int } else { 1int };
    assert(n == px * bpp) by {
        if d[pos] == 5 {
            assert(n == 2 * px);
        } else {
            assert(n == px);
        }
    }
    assert(i16_le(d, pos + 4) * i16_le(d, pos + 6) * bpp == n);
}

/// The `.wzx` and `.wzl` bytes that `MLibraryV1::save` produces for entries
/// `s` reopen with `s.len()` offsets, where the offset of slot `i` leads to a
/// raw record with the size, placement and payload of `s[i]`.
#[verifier::spinoff_prover]
pub proof fn lemma_saved_v1_reopens(s: Seq<MImage>, i: int)
    requires
        0 <= i < s.len(),
        wzl_file(s).len() <= u32::MAX,
        forall|j: int| 0 <= j < s.len() ==> v1_storable(#[trigger] s[j]),
    ensures
        wzx_count(wzx_file(s)) == s.len(),
        ({
            let d = wzl_file(s);
            let off = u32_le(wzx_file(s), 48 + 4 * i);
            let m = s[i];
            &&& 0 < off && off + 16 <= d.len()
            &&& d[off] == v1_flag(m)
            &&& i16_le(d, off + 4) == m.width && i16_le(d, off + 6) == m.height
            &&& i16_le(d, off + 8) == m.x && i16_le(d, off + 10) == m.y
            &&& v1_payload(d, off, if d[off] == 5 { 2int } else { 1int }) == Some(m.fbytes@)
        }),
{
    let n = s.len() as int;
    let base = 8 + 4 * n;
    let x = wzx_file(s);
    let d = wzl_file(s);
    let t = v1_offsets(s, base);
    let r = v1_records(s);
    lemma_v1_offsets_len(s, base);
    assert(d == crate::formats::bytes::le32(1) + crate::formats::bytes::le32(n) + t + r);
    lemma_v1_records_prefix(s, i);
    lemma_v1_records_prefix(s, i + 1);
    lemma_v1_step(s, i, base);
    let li = v1_records(s.take(i)).len() as int;
    let m = s[i];
    let rl = v1_record(m).len() as int;
    lemma_v1_offset_entry(s, base, i);
    assert(x.subrange(48 + 4 * i, 52 + 4 * i) =~= t.subrange(4 * i, 4 * i + 4));
    crate::formats::bytes::lemma_le32_read(x, 48 + 4 * i, base + li);
    assert(r.subrange(li, li + rl) =~= v1_record(m)) by {
        assert(r.subrange(li, li + rl) =~= r.subrange(0, li + rl).subrange(li, li + rl));
    }
    assert(d.subrange(base + li, base + li + rl) =~= r.subrange(li, li + rl));
    assert(v1_storable(s[i]));
    lemma_read_v1_record(d, base + li, m);
}

} // verus!
