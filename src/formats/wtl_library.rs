//! The single-file `.wtl` format: a short signature, an offset table and
//! entries with a gzip-compressed payload.

use vstd::prelude::*;

use crate::error::{LibraryError, Result};
use crate::formats::bytes::{i16_le, i32_le, is_eof, le32, read_i16, read_i32, read_offsets, read_u32, u32_le, write_u32};
use crate::formats::container::LibraryContainer;
use crate::formats::mlibrary_v1::{copy_range, path_with};
use crate::formats::mlibrary_v2::decoded_payload;
use crate::image::bitmap::MImage;

verus! {

/// The first four bytes of a `.wtl` file: `WTL` and a zero or one byte.
pub open spec fn wtl_magic_ok(d: Seq<u8>) -> bool {
    d.len() >= 4 && d[0] == 87 && d[1] == 84 && d[2] == 76 && (d[3] == 0 || d[3] == 1)
}

/// The header of a `.wtl` file is complete.
pub open spec fn wtl_header_ok(d: Seq<u8>) -> bool {
    wtl_magic_ok(d) && d.len() >= 8 && 8 + 4 * u32_le(d, 4) <= d.len()
}

/// The offset that `save` records for entry `i`: the table end plus a fixed
/// 256 bytes per earlier entry.
pub open spec fn estimated_offset(n: int, i: int) -> int {
    8 + 4 * n + 256 * i
}

/// The offsets that `save` writes for `n` entries.
pub open spec fn estimated_table(n: int, k: int) -> Seq<u8>
    decreases k,
{
    if k <= 0 {
        Seq::empty()
    } else {
        estimated_table(n, k - 1) + le32(estimated_offset(n, k - 1))
    }
}

/// A `.wtl` library.
pub struct WTLLibrary {
    /// Path of the library without its extension.
    pub file_name: String,
    pub entries: LibraryContainer<MImage>,
    /// The header has been read.
    pub initialized: bool,
    /// The bytes of the `.wtl` file, if it exists.
    pub data: Option<Vec<u8>>,
}

/// `m` is the entry read from the record at `pos` of `d`, its payload
/// decoded where its size is positive.
pub open spec fn wtl_loaded_from(m: MImage, d: Seq<u8>, pos: int) -> bool {
    let size = i32_le(d, pos + 8);
    &&& m.width as int == i16_le(d, pos) && m.height as int == i16_le(d, pos + 2)
    &&& m.x as int == i16_le(d, pos + 4) && m.y as int == i16_le(d, pos + 6)
    &&& size > 0 ==> m.texture_valid && (m.image matches Some(img) && img.data@ == decoded_payload(
        d.subrange(pos + 12, pos + 12 + size),
        m.width as int,
        m.height as int,
    )->0)
    &&& size <= 0 ==> m.image is None
}

/// The record at `pos` of `d` reads and decodes without error.
pub open spec fn wtl_loadable(d: Seq<u8>, pos: int) -> bool {
    let size = i32_le(d, pos + 8);
    &&& 0 <= pos && pos + 12 <= d.len()
    &&& size > 0 ==> {
        &&& pos + 12 + size <= d.len()
        &&& i16_le(d, pos) > 0 && i16_le(d, pos + 2) > 0
        &&& decoded_payload(d.subrange(pos + 12, pos + 12 + size), i16_le(d, pos), i16_le(d, pos + 2)) is Some
    }
}

/// Reads the record at `pos`: placement, then a payload that is decoded
/// where its size is positive.
pub fn read_wtl_image(d: &[u8], pos: usize) -> (r: Result<MImage>)
    ensures
        pos + 12 > d@.len() ==> (r matches Err(e) && is_eof(e)),
        r matches Ok(m) ==> pos + 12 <= d@.len() && wtl_loaded_from(m, d@, pos as int),
        wtl_loadable(d@, pos as int) ==> r is Ok,
        r matches Ok(m) ==> (i32_le(d@, pos + 8) > 0 ==> m.texture_valid && (m.image matches Some(img)
            && img.data@ == decoded_payload(
            d@.subrange(pos + 12, pos + 12 + i32_le(d@, pos + 8)),
            m.width as int,
            m.height as int,
        )->0)),
        r matches Ok(m) ==> (i32_le(d@, pos + 8) <= 0 ==> m.image is None),
        pos + 12 <= d@.len() && i32_le(d@, pos + 8) <= 0 ==> r is Ok,
        pos + 12 <= d@.len() && i32_le(d@, pos + 8) > 0 && pos + 12 + i32_le(d@, pos + 8) <= d@.len()
            && i16_le(d@, pos as int) > 0 && i16_le(d@, pos + 2) > 0 && decoded_payload(
            d@.subrange(pos + 12, pos + 12 + i32_le(d@, pos + 8)),
            i16_le(d@, pos as int),
            i16_le(d@, pos + 2),
        ) is Some ==> r is Ok,
        r matches Err(e) ==> is_eof(e) || e is Compression || e == LibraryError::InvalidImageData,
{
    let n = d.len();
    if pos >= n || n - pos < 12 {
        return Err(LibraryError::Io(String::from_str("unexpected end of data")));
    }
    let width = read_i16(d, pos)?;
    let height = read_i16(d, pos + 2)?;
    let x = read_i16(d, pos + 4)?;
    let y = read_i16(d, pos + 6)?;
    let data_size = read_i32(d, pos + 8)?;
    let mut image = MImage::new();
    image.width = width;
    image.height = height;
    image.x = x;
    image.y = y;
    if data_size > 0 {
        if n - (pos + 12) < data_size as usize {
            return Err(LibraryError::Io(String::from_str("unexpected end of data")));
        }
        let payload = copy_range(d, pos + 12, data_size as usize);
        image.create_texture(payload.as_slice())?;
    }
    Ok(image)
}

impl WTLLibrary {
    pub open spec fn wf(&self) -> bool {
        self.entries.wf()
    }

    /// Entry `index` is loaded as `m`; a further access changes nothing.
    pub open spec fn holds_loaded(&self, index: int, m: MImage) -> bool {
        &&& self.initialized
        &&& 0 <= index < self.entries.images@.len()
        &&& self.entries.images@[index] == Some(m)
    }

    /// A library whose file does not exist: the file is reported missing.
    pub fn new(file_name: String) -> (r: Result<Self>)
        ensures
            r matches Err(LibraryError::FileNotFound(p)) && p@ == file_name@ + ".wtl"@,
    {
        Err(LibraryError::FileNotFound(path_with(&file_name, ".wtl")))
    }

    /// A library read from the bytes of its `.wtl` file.
    pub fn open(file_name: String, data: Vec<u8>) -> (r: Result<Self>)
        ensures
            r is Ok <==> wtl_header_ok(data@),
            r matches Ok(lib) ==> lib.wf() && lib.initialized && lib.entries.count == u32_le(data@, 4)
                && forall|i: int|
                0 <= i < lib.entries.count ==> lib.entries.images@[i] is None && lib.entries.index_list@[i] as int
                    == #[trigger] u32_le(data@, 8 + 4 * i),
            d_short(data@) ==> (r matches Err(e) && is_eof(e)),
            data@.len() >= 4 && !wtl_magic_ok(data@) ==> r == Err::<WTLLibrary, LibraryError>(LibraryError::InvalidFormat),
            r matches Err(e) ==> is_eof(e) || e == LibraryError::InvalidFormat,
    {
        let offsets = load_wtl_file(data.as_slice())?;
        Ok(WTLLibrary {
            file_name,
            entries: LibraryContainer::with_offsets(offsets),
            initialized: true,
            data: Some(data),
        })
    }

    /// Reads the header again; the file must exist.
    pub fn initialize(&mut self) -> (r: Result<()>)
        requires
            old(self).wf(),
        ensures
            final(self).wf(),
            final(self).data == old(self).data,
            r is Ok ==> final(self).initialized,
            r is Err ==> final(self).initialized == old(self).initialized && final(self).entries == old(self).entries,
            old(self).data is None ==> (r matches Err(e) && e is FileNotFound),
            old(self).data matches Some(d) ==> (r is Ok <==> wtl_header_ok(d@)),
            r is Err ==> *final(self) == *old(self),
            old(self).data matches Some(d) ==> {
                &&& r is Ok ==> final(self).entries.count == u32_le(d@, 4) && forall|i: int|
                    0 <= i < final(self).entries.count ==> final(self).entries.images@[i] is None
                        && final(self).entries.index_list@[i] as int == #[trigger] u32_le(d@, 8 + 4 * i)
                &&& d_short(d@) ==> (r matches Err(e) && is_eof(e))
                &&& d@.len() >= 4 && !wtl_magic_ok(d@) ==> r == Err::<(), LibraryError>(LibraryError::InvalidFormat)
                &&& r matches Err(e) ==> is_eof(e) || e == LibraryError::InvalidFormat
            },
    {
        let offsets = match &self.data {
            None => {
                return Err(LibraryError::FileNotFound(path_with(&self.file_name, ".wtl")));
            },
            Some(d) => load_wtl_file(d.as_slice())?,
        };
        self.entries = LibraryContainer::with_offsets(offsets);
        self.initialized = true;
        Ok(())
    }

    /// Makes sure that entry `index` is read and decoded.
    pub fn check_image(&mut self, index: usize) -> (r: Result<()>)
        requires
            old(self).wf(),
        ensures
            final(self).wf(),
            final(self).data == old(self).data,
            forall|m: MImage| old(self).holds_loaded(index as int, m) ==> r is Ok && *final(self) == *old(self),
            r is Ok ==> exists|m: MImage| final(self).holds_loaded(index as int, m),
            final(self).initialized && index >= final(self).entries.count ==> r == Err::<(), LibraryError>(
                LibraryError::IndexOutOfBounds(index),
            ),
            old(self).initialized ==> final(self).entries.count == old(self).entries.count
                && final(self).entries.index_list == old(self).entries.index_list,
            old(self).initialized && index >= old(self).entries.count ==> r == Err::<(), LibraryError>(
                LibraryError::IndexOutOfBounds(index),
            ) && *final(self) == *old(self),
            old(self).initialized && index < old(self).entries.count && old(self).entries.images@[index as int] is None
                && r is Ok ==> (final(self).data matches Some(d) && (final(self).entries.images@[index as int] matches Some(m)
                && wtl_loaded_from(m, d@, old(self).entries.index_list@[index as int] as int))),
            old(self).initialized && index < old(self).entries.count && old(self).entries.images@[index as int] is None
                && (old(self).data matches Some(d) && wtl_loadable(d@, old(self).entries.index_list@[index as int] as int))
                ==> r is Ok,
    {
        if !self.initialized {
            self.initialize()?;
        }
        if index >= self.entries.images.len() {
            return Err(LibraryError::IndexOutOfBounds(index));
        }
        if self.entries.images[index].is_none() {
            let m = match &self.data {
                Some(d) => read_wtl_image(d.as_slice(), self.entries.index_list[index] as usize)?,
                None => {
                    return Err(LibraryError::FileNotFound(path_with(&self.file_name, ".wtl")));
                },
            };
            self.entries.images.set(index, Some(m));
        }
        assert(self.holds_loaded(index as int, self.entries.images@[index as int]->0));
        Ok(())
    }

    /// Entry `index`, read and decoded on first access and cached after.
    pub fn get_image(&mut self, index: usize) -> (r: Result<&MImage>)
        requires
            old(self).wf(),
        ensures
            final(self).wf(),
            r matches Ok(m) ==> final(self).holds_loaded(index as int, *m),
            forall|m: MImage|
                old(self).holds_loaded(index as int, m) ==> (r matches Ok(x) && *x == m) && *final(self)
                    == *old(self),
            final(self).initialized && index >= final(self).entries.count ==> r is Err,
            final(self).data == old(self).data,
            old(self).initialized && index >= old(self).entries.count ==> r is Err && *final(self) == *old(self),
            old(self).initialized && index < old(self).entries.count && old(self).entries.images@[index as int] is None
                && r is Ok ==> (final(self).data matches Some(d) && (final(self).entries.images@[index as int] matches Some(m)
                && wtl_loaded_from(m, d@, old(self).entries.index_list@[index as int] as int))),
            old(self).initialized && index < old(self).entries.count && old(self).entries.images@[index as int] is None
                && (old(self).data matches Some(d) && wtl_loadable(d@, old(self).entries.index_list@[index as int] as int))
                ==> r is Ok,
    {
        self.check_image(index)?;
        match &self.entries.images[index] {
            Some(m) => Ok(m),
            None => Err(LibraryError::IndexOutOfBounds(index)),
        }
    }

    /// Appends an entry.
    pub fn add_image(&mut self, image: MImage)
        requires
            old(self).wf(),
        ensures
            final(self).wf(),
            *final(self) == (WTLLibrary { entries: final(self).entries, ..*old(self) }),
            final(self).entries.images@ == old(self).entries.images@.push(Some(image)),
            final(self).entries.count == old(self).entries.count + 1,
    {
        self.entries.add(image);
    }

    /// Replaces entry `index`.
    pub fn replace_image(&mut self, index: usize, image: MImage) -> (r: Result<()>)
        requires
            old(self).wf(),
        ensures
            final(self).wf(),
            *final(self) == (WTLLibrary { entries: final(self).entries, ..*old(self) }),
            final(self).entries.index_list@ == old(self).entries.index_list@,
            index < old(self).entries.count ==> r is Ok && final(self).entries.images@ == old(self).entries.images@.update(
                index as int,
                Some(image),
            ),
            index >= old(self).entries.count ==> r == Err::<(), LibraryError>(LibraryError::IndexOutOfBounds(index))
                && *final(self) == *old(self),
    {
        self.entries.replace(index, image)
    }

    /// Removes entry `index`; removing the last remaining entry empties the library.
    pub fn remove_image(&mut self, index: usize) -> (r: Result<()>)
        requires
            old(self).wf(),
        ensures
            final(self).wf(),
            *final(self) == (WTLLibrary { entries: final(self).entries, ..*old(self) }),
            old(self).entries.count <= 1 ==> r is Ok && final(self).entries.count == 0,
            old(self).entries.count > 1 && index < old(self).entries.count ==> r is Ok
                && final(self).entries.images@ == old(self).entries.images@.remove(index as int),
            old(self).entries.count > 1 && index >= old(self).entries.count ==> r == Err::<(), LibraryError>(
                LibraryError::IndexOutOfBounds(index),
            ) && *final(self) == *old(self),
    {
        self.entries.remove(index)
    }

    /// The header and offset table of a `.wtl` file for the current entries.
    /// Each offset is estimated as 256 bytes past the previous one; no entry
    /// data is written.
    pub fn save(&self) -> (r: Result<Vec<u8>>)
        requires
            self.wf(),
        ensures
            self.entries.count <= 0xf0_0000 ==> (r matches Ok(v)
                && v@ == seq![87u8, 84, 76, 0] + le32(self.entries.count as int) + estimated_table(
                self.entries.count as int,
                self.entries.count as int,
            )),
            self.entries.count > 0xf0_0000 ==> r is Err,
    {
        let n = self.entries.images.len();
        if n > 0xf0_0000 {
            return Err(LibraryError::ParseError(String::from_str("too many entries")));
        }
        let data_offset: u32 = 8 + 4 * n as u32;
        let mut out: Vec<u8> = vec![87u8, 84, 76, 0];
        write_u32(&mut out, n as u32);
        let ghost head = out@;
        let mut i: usize = 0;
        while i < n
            invariant
                i <= n,
                n <= 0xf0_0000,
                n == self.entries.count,
                data_offset == 8 + 4 * n,
                out@ == head + estimated_table(n as int, i as int),
            decreases n - i,
        {
            write_u32(&mut out, data_offset + 256 * i as u32);
            i = i + 1;
        }
        assert(head =~= seq![87u8, 84, 76, 0] + le32(n as int));
        Ok(out)
    }

    pub fn count(&self) -> (n: usize)
        ensures
            n == self.entries.count,
    {
        self.entries.count
    }
}

/// Data too short for its signature or count.
pub open spec fn d_short(d: Seq<u8>) -> bool {
    d.len() < 4 || (wtl_magic_ok(d) && d.len() < 8)
}

/// Checks the signature and reads the offset table of a `.wtl` file.
fn load_wtl_file(d: &[u8]) -> (r: Result<Vec<u32>>)
    ensures
        r is Ok <==> wtl_header_ok(d@),
        r matches Ok(v) ==> v@.len() == u32_le(d@, 4) && forall|i: int|
            0 <= i < v@.len() ==> v@[i] as int == #[trigger] u32_le(d@, 8 + 4 * i),
        d_short(d@) ==> (r matches Err(e) && is_eof(e)),
        d@.len() >= 4 && !wtl_magic_ok(d@) ==> r == Err::<Vec<u32>, LibraryError>(LibraryError::InvalidFormat),
        r matches Err(e) ==> is_eof(e) || e == LibraryError::InvalidFormat,
{
    if d.len() < 4 {
        return Err(LibraryError::Io(String::from_str("unexpected end of data")));
    }
    if !(d[0] == 87 && d[1] == 84 && d[2] == 76 && (d[3] == 0 || d[3] == 1)) {
        return Err(LibraryError::InvalidFormat);
    }
    let count = read_u32(d, 4)?;
    read_offsets(d, 8, count as usize)
}

} // verus!
