//! Entry headers of the index/data pairs used by the game client:
//! `.wix` / `.wil`, `.wzx` / `.wzl` and `.mix` / `.miz`, chosen by a type byte.

use vstd::prelude::*;

use crate::error::{LibraryError, Result};
use crate::formats::bytes::{i16_le, i32_le, is_eof, read_i16, read_i32, read_offsets, read_u16, read_u8, u16_le, u32_le};
use crate::formats::container::LibraryContainer;
use crate::formats::mlibrary_v1::path_with;
use crate::formats::mlibrary_v2::MLibraryV2;
use crate::image::palette::{create_default_palette, Color};
use crate::image::raster::Raster;

verus! {

/// The header of one entry.
#[derive(Debug)]
pub struct WeMadeImage {
    pub width: i16,
    pub height: i16,
    pub x: i16,
    pub y: i16,
    pub shadow_x: i16,
    pub shadow_y: i16,
    pub has_shadow: bool,
    pub is_16bit: bool,
    pub n_size: i32,
    pub has_mask: bool,
    pub image_data: Option<Raster>,
    pub mask_data: Option<Raster>,
}

/// A library of one of the client's index/data pairs.
pub struct WeMadeLibrary {
    /// Path of the library without its extension.
    pub file_name: String,
    pub entries: LibraryContainer<WeMadeImage>,
    /// The index has been read.
    pub initialized: bool,
    /// 1 for `.wzx` / `.wzl`, 4 for `.mix` / `.miz`, else `.wix` / `.wil`.
    pub n_type: u8,
    pub palette: Vec<Color>,
    pub version: i32,
    /// The bytes of the index file, if it exists.
    pub index_data: Option<Vec<u8>>,
    /// The bytes of the data file, if it exists.
    pub data: Option<Vec<u8>>,
}

/// Where the offsets of an index file of type `n_type` start; `None` where
/// the file is too short for the header that type reads.
pub open spec fn index_start(d: Seq<u8>, n_type: u8, version: i32) -> Option<int> {
    if n_type == 4 {
        Some(24)
    } else if n_type == 3 {
        if d.len() < 28 {
            None
        } else if u16_le(d, 26) != 0xB13A {
            Some(24)
        } else {
            Some(28)
        }
    } else if n_type == 2 {
        Some(52)
    } else if version == 0 {
        Some(48)
    } else {
        Some(52)
    }
}

/// Every slot is empty, one for each whole `u32` from `start`, holding it.
pub open spec fn offsets_from(entries: LibraryContainer<WeMadeImage>, d: Seq<u8>, start: int) -> bool {
    &&& entries.count == words_from(d, start)
    &&& forall|i: int|
        #![trigger entries.index_list@[i]]
        #![trigger u32_le(d, start + 4 * i)]
        0 <= i < entries.count ==> entries.images@[i] is None && entries.index_list@[i] as int
            == u32_le(d, start + 4 * i)
}

/// Number of whole `u32` values from `start` to the end of `d`.
pub open spec fn words_from(d: Seq<u8>, start: int) -> int {
    if d.len() >= start {
        (d.len() - start) / 4
    } else {
        0
    }
}

/// The header fields of the entry at `pos` for a type-`n_type` library.
pub open spec fn wemade_header(m: WeMadeImage, d: Seq<u8>, pos: int, n_type: u8) -> bool {
    if n_type == 1 || n_type == 4 {
        &&& m.is_16bit == (d[pos] == 5)
        &&& m.width as int == i16_le(d, pos + 4)
        &&& m.height as int == i16_le(d, pos + 6)
        &&& m.x as int == i16_le(d, pos + 8)
        &&& m.y as int == i16_le(d, pos + 10)
        &&& m.n_size as int == i32_le(d, pos + 12)
    } else {
        &&& !m.is_16bit
        &&& m.width as int == i16_le(d, pos)
        &&& m.height as int == i16_le(d, pos + 2)
        &&& m.x as int == i16_le(d, pos + 4)
        &&& m.y as int == i16_le(d, pos + 6)
        &&& m.n_size as int == i16_le(d, pos) * i16_le(d, pos + 2)
    }
}

/// Bytes of the entry header of a type-`n_type` library.
pub open spec fn header_len(n_type: u8) -> int {
    if n_type == 1 || n_type == 4 {
        16
    } else {
        8
    }
}

/// Reads the header of the entry at `pos`.
pub fn read_wemade_image(d: &[u8], pos: usize, n_type: u8) -> (r: Result<WeMadeImage>)
    ensures
        pos + header_len(n_type) <= d@.len() ==> (r matches Ok(m) && wemade_header(m, d@, pos as int, n_type)
            && m.image_data is None && m.mask_data is None && !m.has_mask && !m.has_shadow),
        pos + header_len(n_type) > d@.len() ==> (r matches Err(e) && is_eof(e)),
{
    let n = d.len();
    let wide = n_type == 1 || n_type == 4;
    let need: usize = if wide { 16 } else { 8 };
    if pos >= n || n - pos < need {
        return Err(LibraryError::Io(String::from_str("unexpected end of data")));
    }
    let mut image = WeMadeImage {
        width: 0,
        height: 0,
        x: 0,
        y: 0,
        shadow_x: 0,
        shadow_y: 0,
        has_shadow: false,
        is_16bit: false,
        n_size: 0,
        has_mask: false,
        image_data: None,
        mask_data: None,
    };
    if wide {
        image.is_16bit = read_u8(d, pos)? == 5;
        image.width = read_i16(d, pos + 4)?;
        image.height = read_i16(d, pos + 6)?;
        image.x = read_i16(d, pos + 8)?;
        image.y = read_i16(d, pos + 10)?;
        image.n_size = read_i32(d, pos + 12)?;
    } else {
        image.width = read_i16(d, pos)?;
        image.height = read_i16(d, pos + 2)?;
        image.x = read_i16(d, pos + 4)?;
        image.y = read_i16(d, pos + 6)?;
        let (w, h) = (image.width as i32, image.height as i32);
        assert(-0x4000_0000 <= w * h <= 0x4000_0000) by (nonlinear_arith)
            requires
                -32768 <= w <= 32767,
                -32768 <= h <= 32767,
        ;
        image.n_size = w * h;
    }
    Ok(image)
}

impl WeMadeLibrary {
    pub open spec fn wf(&self) -> bool {
        self.entries.wf()
    }

    /// Entry `index` is loaded as `m`; a further access changes nothing.
    pub open spec fn holds_loaded(&self, index: int, m: WeMadeImage) -> bool {
        &&& self.initialized
        &&& 0 <= index < self.entries.images@.len()
        &&& self.entries.images@[index] == Some(m)
    }

    /// A library whose files do not exist: the index file is reported missing.
    pub fn new(file_name: String) -> (r: Result<Self>)
        ensures
            r matches Err(LibraryError::FileNotFound(p)) && p@ == file_name@ + ".wix"@,
    {
        Err(LibraryError::FileNotFound(path_with(&file_name, ".wix")))
    }

    /// A library of type `n_type` read from the bytes of its index and data files.
    pub fn open(file_name: String, n_type: u8, index_data: Vec<u8>, data: Vec<u8>) -> (r: Result<Self>)
        ensures
            r is Ok <==> index_start(index_data@, n_type, 0) is Some,
            r matches Ok(lib) ==> lib.wf() && lib.initialized && lib.n_type == n_type && offsets_from(
                lib.entries,
                index_data@,
                index_start(index_data@, n_type, 0)->0,
            ),
            r matches Err(e) ==> is_eof(e),
    {
        let mut lib = WeMadeLibrary {
            file_name,
            entries: LibraryContainer::new(),
            initialized: false,
            n_type,
            palette: create_default_palette(),
            version: 0,
            index_data: Some(index_data),
            data: Some(data),
        };
        assert(lib.index_data->0@ == index_data@);
        lib.initialize()?;
        Ok(lib)
    }

    /// Reads the index file; both files must exist.
    pub fn initialize(&mut self) -> (r: Result<()>)
        requires
            old(self).wf(),
        ensures
            final(self).wf(),
            final(self).n_type == old(self).n_type && final(self).version == old(self).version,
            final(self).index_data == old(self).index_data && final(self).data == old(self).data,
            old(self).index_data is None || old(self).data is None ==> (r matches Err(e) && e is FileNotFound),
            r is Err ==> final(self).initialized == old(self).initialized && final(self).entries == old(self).entries,
            r matches Err(e) ==> is_eof(e) || e is FileNotFound,
            old(self).index_data is Some && old(self).data is Some ==> ({
                let d = old(self).index_data->0@;
                &&& r is Ok <==> index_start(d, old(self).n_type, old(self).version) is Some
                &&& r is Ok ==> final(self).initialized && offsets_from(
                    final(self).entries,
                    d,
                    index_start(d, old(self).n_type, old(self).version)->0,
                )
                &&& r matches Err(e) ==> is_eof(e)
            }),
    {
        let offsets = match (&self.index_data, &self.data) {
            (Some(ix), Some(_)) => {
                let d = ix.as_slice();
                let n = d.len();
                let start: usize = if self.n_type == 4 {
                    24
                } else if self.n_type == 3 {
                    if n < 28 {
                        return Err(LibraryError::Io(String::from_str("unexpected end of data")));
                    }
                    if read_u16(d, 26)? != 0xB13A {
                        24
                    } else {
                        28
                    }
                } else if self.n_type == 2 {
                    52
                } else if self.version == 0 {
                    48
                } else {
                    52
                };
                if n >= start {
                    read_offsets(d, start, (n - start) / 4)?
                } else {
                    Vec::new()
                }
            },
            (None, _) => {
                return Err(LibraryError::FileNotFound(path_with(&self.file_name, ".wix")));
            },
            (_, None) => {
                return Err(LibraryError::FileNotFound(path_with(&self.file_name, ".wil")));
            },
        };
        self.entries = LibraryContainer::with_offsets(offsets);
        self.initialized = true;
        Ok(())
    }

    /// Makes sure that the header of entry `index` is read.
    pub fn check_image(&mut self, index: usize) -> (r: Result<()>)
        requires
            old(self).wf(),
        ensures
            final(self).wf(),
            final(self).n_type == old(self).n_type,
            final(self).data == old(self).data,
            forall|m: WeMadeImage| old(self).holds_loaded(index as int, m) ==> r is Ok && *final(self) == *old(self),
            r is Ok ==> exists|m: WeMadeImage| final(self).holds_loaded(index as int, m),
            final(self).initialized && index >= final(self).entries.count ==> r == Err::<(), LibraryError>(
                LibraryError::IndexOutOfBounds(index),
            ),
            old(self).initialized && index < old(self).entries.count && old(self).entries.images@[index as int] is None
                && r is Ok ==> (final(self).data is Some && (final(self).entries.images@[index as int] matches Some(m)
                && wemade_header(m, final(self).data->0@, old(self).entries.index_list@[index as int] as int, final(self).n_type))),
            old(self).initialized ==> final(self).entries.count == old(self).entries.count
                && final(self).entries.index_list == old(self).entries.index_list,
            old(self).initialized && index < old(self).entries.count && old(self).entries.images@[index as int] is None
                && (old(self).data matches Some(d) && old(self).entries.index_list@[index as int] + header_len(old(self).n_type) <= d@.len())
                ==> r is Ok,
    {
        if !self.initialized {
            self.initialize()?;
        }
        if index >= self.entries.images.len() {
            return Err(LibraryError::IndexOutOfBounds(index));
        }
        if self.entries.images[index].is_none() {
            let m = match &self.data {
                Some(d) => read_wemade_image(d.as_slice(), self.entries.index_list[index] as usize, self.n_type)?,
                None => {
                    return Err(LibraryError::FileNotFound(self.file_name.clone()));
                },
            };
            self.entries.images.set(index, Some(m));
        }
        assert(self.holds_loaded(index as int, self.entries.images@[index as int]->0));
        Ok(())
    }

    /// The header of entry `index`, read on first access and cached after.
    pub fn get_image(&mut self, index: usize) -> (r: Result<&WeMadeImage>)
        requires
            old(self).wf(),
        ensures
            final(self).wf(),
            r matches Ok(m) ==> final(self).holds_loaded(index as int, *m),
            forall|m: WeMadeImage|
                old(self).holds_loaded(index as int, m) ==> (r matches Ok(x) && *x == m) && *final(self)
                    == *old(self),
            final(self).initialized && index >= final(self).entries.count ==> r is Err,
            final(self).data == old(self).data && final(self).n_type == old(self).n_type,
            old(self).initialized && index < old(self).entries.count && old(self).entries.images@[index as int] is None
                && r is Ok ==> (final(self).data is Some && (final(self).entries.images@[index as int] matches Some(m)
                && wemade_header(m, final(self).data->0@, old(self).entries.index_list@[index as int] as int, final(self).n_type))),
            old(self).initialized && index < old(self).entries.count && old(self).entries.images@[index as int] is None
                && (old(self).data matches Some(d) && old(self).entries.index_list@[index as int] + header_len(old(self).n_type) <= d@.len())
                ==> r is Ok,
    {
        self.check_image(index)?;
        match &self.entries.images[index] {
            Some(m) => Ok(m),
            None => Err(LibraryError::IndexOutOfBounds(index)),
        }
    }

    /// A `.Lib` library under the same name with one blank entry for each
    /// entry read so far.
    pub fn to_mlibrary_v2(&self) -> (r: Result<MLibraryV2>)
        requires
            self.wf(),
        ensures
            r matches Ok(lib) && lib.wf() && lib.entries.count == loaded_count(self.entries.images@)
                && lib.source() is None && lib.file_name@ == self.file_name@ && forall|i: int|
                0 <= i < lib.entries.count ==> (#[trigger] lib.entries.images@[i] matches Some(m) && blank_entry(m)),
    {
        let mut library = MLibraryV2::new(self.file_name.clone())?;
        let mut i: usize = 0;
        while i < self.entries.images.len()
            invariant
                i <= self.entries.images@.len(),
                library.wf(),
                library.entries.count == loaded_count(self.entries.images@.take(i as int)),
                library.source() is None,
                library.file_name@ == self.file_name@,
                forall|k: int|
                    0 <= k < library.entries.count ==> (#[trigger] library.entries.images@[k] matches Some(m) && blank_entry(m)),
            decreases self.entries.images@.len() - i,
        {
            proof {
                let next = self.entries.images@.take(i + 1);
                assert(next.drop_last() =~= self.entries.images@.take(i as int));
            }
            if self.entries.images[i].is_some() {
                library.add_image(crate::formats::mlibrary_v2::MImage::new());
            }
            i = i + 1;
        }
        assert(self.entries.images@.take(self.entries.images@.len() as int) =~= self.entries.images@);
        Ok(library)
    }

    pub fn count(&self) -> (n: usize)
        ensures
            n == self.entries.count,
    {
        self.entries.count
    }
}

/// An entry with no size, placement or pixels.
pub open spec fn blank_entry(m: crate::formats::mlibrary_v2::MImage) -> bool {
    m.width == 0 && m.height == 0 && m.x == 0 && m.y == 0 && m.fbytes@.len() == 0 && !m.has_mask
        && m.image is None
}

/// Number of slots that hold an entry.
pub open spec fn loaded_count(s: Seq<Option<WeMadeImage>>) -> int
    decreases s.len(),
{
    if s.len() == 0 {
        0
    } else {
        loaded_count(s.drop_last()) + if s.last() is Some { 1int } else { 0int }
    }
}

} // verus!
