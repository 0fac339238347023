//! The archive formats, and the facade that picks one by file extension.

pub mod bytes;
pub mod container;
pub mod mlibrary_v0;
pub mod mlibrary_v1;
pub mod mlibrary_v2;
pub mod wemade_library;
pub mod wtl_library;

pub use mlibrary_v2::MLibraryV2;

use vstd::prelude::*;

use crate::error::{LibraryError, Result};
use crate::formats::mlibrary_v1::MLibraryV1;
use crate::image::palette::{digit_char, push_str, upper_digit};
use crate::image::raster::Raster;

verus! {

/// The archive formats.
#[derive(Debug, Clone, Copy, PartialEq, Eq, Structural)]
pub enum LibraryType {
    /// The oldest `.wil` layout.
    MLV0,
    /// `.wzl` / `.wzx`.
    MLV1,
    /// `.Lib`.
    MLV2,
    /// `.wil` / `.wix`.
    WeMade,
    /// `.wtl`.
    WTL,
}

/// What std's `str::to_lowercase` makes of `s`.
pub uninterp spec fn lower_of(s: Seq<char>) -> Seq<char>;

/// Relies on std's `str::to_lowercase`: the lower-case form depends on the
/// characters alone.
#[verifier::external_body]
fn lowercase(s: &str) -> (r: String)
    ensures
        r@ == lower_of(s@),
{
    s.to_lowercase()
}

/// The format of a lower-case extension, dot included.
pub open spec fn extension_type(ext: Seq<char>) -> Option<LibraryType> {
    if ext == ".wzl"@ || ext == ".wzx"@ {
        Some(LibraryType::MLV1)
    } else if ext == ".lib"@ {
        Some(LibraryType::MLV2)
    } else if ext == ".wil"@ || ext == ".wix"@ {
        Some(LibraryType::WeMade)
    } else if ext == ".wtl"@ {
        Some(LibraryType::WTL)
    } else {
        None
    }
}

/// The main file extension of a format.
pub open spec fn main_extension_of(t: LibraryType) -> Seq<char> {
    match t {
        LibraryType::MLV1 => ".wzl"@,
        LibraryType::MLV2 => ".Lib"@,
        LibraryType::WeMade => ".wil"@,
        LibraryType::WTL => ".wtl"@,
        LibraryType::MLV0 => ".wil"@,
    }
}

/// The display name of a format.
pub open spec fn name_of(t: LibraryType) -> Seq<char> {
    match t {
        LibraryType::MLV0 => "MLibrary V0"@,
        LibraryType::MLV1 => "MLibrary V1"@,
        LibraryType::MLV2 => "MLibrary V2"@,
        LibraryType::WeMade => "WeMade Library"@,
        LibraryType::WTL => "WTL Library"@,
    }
}

fn same_text(a: &String, b: &str) -> (r: bool)
    ensures
        r == (a@ == b@),
{
    *a == String::from_str(b)
}

impl LibraryType {
    /// The format of an extension with its dot, in any letter case.
    pub fn from_extension(ext: &str) -> (r: Option<LibraryType>)
        ensures
            r == extension_type(lower_of(ext@)),
    {
        let lower = lowercase(ext);
        LibraryType::from_lower_extension(&lower)
    }

    /// The format of a lower-case extension with its dot.
    pub fn from_lower_extension(lower: &String) -> (r: Option<LibraryType>)
        ensures
            r == extension_type(lower@),
    {
        if same_text(lower, ".wzl") || same_text(lower, ".wzx") {
            Some(LibraryType::MLV1)
        } else if same_text(lower, ".lib") {
            Some(LibraryType::MLV2)
        } else if same_text(lower, ".wil") || same_text(lower, ".wix") {
            Some(LibraryType::WeMade)
        } else if same_text(lower, ".wtl") {
            Some(LibraryType::WTL)
        } else {
            None
        }
    }

    /// The extension of the file that holds the entries.
    pub fn main_extension(&self) -> (r: &'static str)
        ensures
            r@ == main_extension_of(*self),
    {
        match self {
            LibraryType::MLV1 => ".wzl",
            LibraryType::MLV2 => ".Lib",
            LibraryType::WeMade => ".wil",
            LibraryType::WTL => ".wtl",
            LibraryType::MLV0 => ".wil",
        }
    }

    /// The extension of the separate index file, for the two-file formats.
    pub fn index_extension(&self) -> (r: Option<&'static str>)
        ensures
            *self == LibraryType::MLV1 ==> (r matches Some(s) && s@ == ".wzx"@),
            *self == LibraryType::WeMade ==> (r matches Some(s) && s@ == ".wix"@),
            *self != LibraryType::MLV1 && *self != LibraryType::WeMade ==> r is None,
    {
        match self {
            LibraryType::MLV1 => Some(".wzx"),
            LibraryType::WeMade => Some(".wix"),
            _ => None,
        }
    }

    /// The display name of the format.
    pub fn name(&self) -> (r: &'static str)
        ensures
            r@ == name_of(*self),
    {
        match self {
            LibraryType::MLV0 => "MLibrary V0",
            LibraryType::MLV1 => "MLibrary V1",
            LibraryType::MLV2 => "MLibrary V2",
            LibraryType::WeMade => "WeMade Library",
            LibraryType::WTL => "WTL Library",
        }
    }
}

/// What the shell shows of an open library.
#[derive(Debug)]
pub struct LibraryInfo {
    /// Path without extension.
    pub base_path: String,
    pub file_name: String,
    pub library_type: LibraryType,
    pub image_count: usize,
    /// Selected entry, -1 for none.
    pub current_index: i32,
}

impl LibraryInfo {
    pub fn new(base_path: String, file_name: String, library_type: LibraryType, image_count: usize) -> (i: Self)
        ensures
            i.base_path == base_path && i.file_name == file_name && i.library_type == library_type,
            i.image_count == image_count && i.current_index == -1,
    {
        LibraryInfo { base_path, file_name, library_type, image_count, current_index: -1 }
    }

    /// The display name of the library's format.
    pub fn format_name(&self) -> (s: String)
        ensures
            s@ == name_of(self.library_type),
    {
        String::from_str(self.library_type.name())
    }
}

/// Shadow and mask fields of an entry.
#[derive(Debug, Clone, Copy, PartialEq, Eq, Structural)]
pub enum ShadowInfo {
    NoShadow,
    Simple { shadow: u8, shadow_x: i16, shadow_y: i16 },
    Mask { shadow: u8, shadow_x: i16, shadow_y: i16, mask_width: i16, mask_height: i16 },
}

/// What the shell shows of one entry.
#[derive(Debug, Clone, Copy, PartialEq, Eq, Structural)]
pub struct ImageInfo {
    pub index: usize,
    pub width: i32,
    pub height: i32,
    pub x: i32,
    pub y: i32,
    pub has_mask: ShadowInfo,
}

/// Decimal digits of a natural number.
pub open spec fn nat_text(n: nat) -> Seq<char>
    decreases n,
{
    if n < 10 {
        seq![digit_char(n as int)]
    } else {
        nat_text(n / 10) + seq![digit_char((n % 10) as int)]
    }
}

/// Decimal text of an integer, with a minus sign when negative.
pub open spec fn int_text(v: int) -> Seq<char> {
    if v < 0 {
        seq!['-'] + nat_text((-v) as nat)
    } else {
        nat_text(v as nat)
    }
}

/// Decimal digits of `n`.
fn nat_digits(n: u32) -> (s: String)
    ensures
        s@ == nat_text(n as nat),
    decreases n,
{
    if n < 10 {
        let s = String::from_str(upper_digit(n as u8));
        assert(s@ =~= nat_text(n as nat));
        s
    } else {
        let mut s = nat_digits(n / 10);
        push_str(&mut s, upper_digit((n % 10) as u8));
        assert(s@ =~= nat_text(n as nat));
        s
    }
}

/// Decimal text of an `i32`, with a minus sign when negative.
fn decimal_i32(v: i32) -> (s: String)
    ensures
        s@ == int_text(v as int),
{
    if v < 0 {
        let mut s = String::from_str("-");
        proof {
            reveal_strlit("-");
        }
        let magnitude = (-(v as i64)) as u32;
        push_str(&mut s, nat_digits(magnitude).as_str());
        assert(s@ =~= int_text(v as int));
        s
    } else {
        nat_digits(v as u32)
    }
}

impl ImageInfo {
    /// The fields of a `.wzl` or `.wtl` entry, without shadow information.
    pub fn from_v1_image(index: usize, image: &crate::image::bitmap::MImage) -> (i: Self)
        ensures
            i == (ImageInfo {
                index,
                width: image.width as i32,
                height: image.height as i32,
                x: image.x as i32,
                y: image.y as i32,
                has_mask: ShadowInfo::NoShadow,
            }),
    {
        ImageInfo {
            index,
            width: image.width as i32,
            height: image.height as i32,
            x: image.x as i32,
            y: image.y as i32,
            has_mask: ShadowInfo::NoShadow,
        }
    }

    /// The fields of a `.Lib` entry, with its shadow and, if any, mask size.
    pub fn from_v2_image(index: usize, image: &mlibrary_v2::MImage) -> (i: Self)
        ensures
            i.index == index && i.width == image.width as i32 && i.height == image.height as i32,
            i.x == image.x as i32 && i.y == image.y as i32,
            image.has_mask ==> i.has_mask == (ShadowInfo::Mask {
                shadow: image.shadow,
                shadow_x: image.shadow_x,
                shadow_y: image.shadow_y,
                mask_width: image.mask_width,
                mask_height: image.mask_height,
            }),
            !image.has_mask ==> i.has_mask == (ShadowInfo::Simple {
                shadow: image.shadow,
                shadow_x: image.shadow_x,
                shadow_y: image.shadow_y,
            }),
    {
        let shadow_info = if image.has_mask {
            ShadowInfo::Mask {
                shadow: image.shadow,
                shadow_x: image.shadow_x,
                shadow_y: image.shadow_y,
                mask_width: image.mask_width,
                mask_height: image.mask_height,
            }
        } else {
            ShadowInfo::Simple { shadow: image.shadow, shadow_x: image.shadow_x, shadow_y: image.shadow_y }
        };
        ImageInfo {
            index,
            width: image.width as i32,
            height: image.height as i32,
            x: image.x as i32,
            y: image.y as i32,
            has_mask: shadow_info,
        }
    }

    /// `"<width> x <height>"`.
    pub fn size_string(&self) -> (s: String)
        ensures
            s@ == int_text(self.width as int) + " x "@ + int_text(self.height as int),
    {
        let mut s = decimal_i32(self.width);
        s.append(" x ");
        s.append(decimal_i32(self.height).as_str());
        s
    }
}

} // verus!

verus! {

/// One open library behind a single surface: the format is picked from the
/// file extension.
pub struct LibraryLoader {
    pub info: Option<LibraryInfo>,
    pub library_v1: Option<MLibraryV1>,
    pub library_v2: Option<MLibraryV2>,
}

/// The error for an operation on a loader with no library.
pub open spec fn not_loaded(e: LibraryError) -> bool {
    e is ParseError
}

fn not_loaded_error() -> (e: LibraryError)
    ensures
        not_loaded(e),
{
    LibraryError::ParseError(String::from_str("library not loaded"))
}

/// `"."` followed by `ext`.
pub open spec fn dotted(ext: Seq<char>) -> Seq<char> {
    seq!['.'] + ext
}

impl LibraryLoader {
    pub open spec fn wf(&self) -> bool {
        &&& self.library_v1 matches Some(l) ==> l.wf()
        &&& self.library_v2 matches Some(l) ==> l.wf()
    }

    /// A loader with no library.
    pub fn new() -> (l: Self)
        ensures
            l.wf(),
            l.info is None && l.library_v1 is None && l.library_v2 is None,
    {
        LibraryLoader { info: None, library_v1: None, library_v2: None }
    }

    /// Opens a library from its extension (without the dot), its path
    /// without extension, its file name, and the bytes of its main and index
    /// files where they exist.
    pub fn load(
        extension: &str,
        base_path: String,
        file_name: String,
        main_data: Option<Vec<u8>>,
        index_data: Option<Vec<u8>>,
    ) -> (r: Result<(LibraryInfo, Self)>)
        ensures
            extension_type(lower_of(dotted(extension@))) is None ==> r == Err::<(LibraryInfo, Self), LibraryError>(
                LibraryError::InvalidFormat,
            ),
            extension_type(lower_of(dotted(extension@))) matches Some(t) && t != LibraryType::MLV1 && t
                != LibraryType::MLV2 ==> r == Err::<(LibraryInfo, Self), LibraryError>(LibraryError::InvalidFormat),
            extension_type(lower_of(dotted(extension@))) == Some(LibraryType::MLV1) ==> (
            (index_data is None || main_data is None) <==> (r matches Err(e) && e is FileNotFound)),
            extension_type(lower_of(dotted(extension@))) == Some(LibraryType::MLV1) && index_data is Some
                && main_data is Some ==> (r matches Ok((info, loader)) && loader.library_v1 matches Some(l)
                && l.data is Some && l.data->0@ == main_data->0@ && mlibrary_v1::wzx_loaded(
                l.entries,
                index_data->0@,
            )),
            extension_type(lower_of(dotted(extension@))) == Some(LibraryType::MLV2) && main_data is None ==> r is Ok,
            extension_type(lower_of(dotted(extension@))) == Some(LibraryType::MLV2) && main_data is Some ==> (r is Ok
                <==> mlibrary_v2::lib_header_ok(main_data->0@)),
            extension_type(lower_of(dotted(extension@))) == Some(LibraryType::MLV2) && main_data is Some && r is Ok
                ==> (r matches Ok((info, loader)) && loader.library_v2 matches Some(l) && l.source() == Some(
                main_data->0@,
            ) && mlibrary_v2::offsets_loaded(l.entries, main_data->0@, 8) && l.entries.count as int
                == crate::formats::bytes::i32_le(main_data->0@, 4)),
            r matches Ok((info, loader)) ==> loader.wf() && loader.info is Some && info.base_path@ == base_path@
                && info.file_name@ == file_name@ && Some(info.library_type) == extension_type(
                lower_of(dotted(extension@)),
            ) && (info.library_type == LibraryType::MLV2 ==> (loader.library_v2 matches Some(l)
                && info.image_count == l.entries.count)) && (info.library_type == LibraryType::MLV1
                ==> (loader.library_v1 matches Some(l) && info.image_count == l.entries.count)),
    {
        let mut dotted_ext = String::from_str(".");
        proof {
            reveal_strlit(".");
        }
        dotted_ext.append(extension);
        assert(dotted_ext@ == dotted(extension@));
        let lib_type = match LibraryType::from_extension(dotted_ext.as_str()) {
            Some(t) => t,
            None => {
                return Err(LibraryError::InvalidFormat);
            },
        };
        match lib_type {
            LibraryType::MLV1 => {
                let (index, main) = match (index_data, main_data) {
                    (Some(i), Some(m)) => (i, m),
                    (None, _) => {
                        return Err(LibraryError::FileNotFound(mlibrary_v1::path_with(&base_path, ".wzx")));
                    },
                    (_, None) => {
                        return Err(LibraryError::FileNotFound(mlibrary_v1::path_with(&base_path, ".wzl")));
                    },
                };
                let library = MLibraryV1::open(base_path.clone(), index, main)?;
                let count = library.count();
                let info = LibraryInfo::new(base_path.clone(), file_name.clone(), lib_type, count);
                let kept = LibraryInfo::new(base_path, file_name, lib_type, count);
                Ok((info, LibraryLoader { info: Some(kept), library_v1: Some(library), library_v2: None }))
            },
            LibraryType::MLV2 => {
                let library = match main_data {
                    Some(d) => MLibraryV2::open(base_path.clone(), d)?,
                    None => MLibraryV2::new(base_path.clone())?,
                };
                let count = library.count();
                let info = LibraryInfo::new(base_path.clone(), file_name.clone(), lib_type, count);
                let kept = LibraryInfo::new(base_path, file_name, lib_type, count);
                Ok((info, LibraryLoader { info: Some(kept), library_v1: None, library_v2: Some(library) }))
            },
            _ => Err(LibraryError::InvalidFormat),
        }
    }

    pub fn info(&self) -> (r: Option<&LibraryInfo>)
        ensures
            self.info is None ==> r is None,
            self.info is Some ==> (r is Some && *r->0 == self.info->0),
    {
        self.info.as_ref()
    }

    /// The fields of entry `index` of the open library.
    pub fn get_image_info(&mut self, index: usize) -> (r: Result<ImageInfo>)
        requires
            old(self).wf(),
        ensures
            final(self).wf(),
            old(self).library_v2 is None && old(self).library_v1 is None ==> (r matches Err(e) && not_loaded(e)),
            r matches Ok(i) ==> i.index == index,
            old(self).library_v2 is Some ==> (r matches Ok(i) ==> final(self).library_v2 matches Some(l)
                && l.entries.images@[index as int] matches Some(m) && i == ImageInfo::from_v2_image_spec(index, m)),
            old(self).library_v2 is None && old(self).library_v1 is Some ==> (r matches Ok(i) ==> final(self).library_v1 matches Some(l) && l.entries.images@[index as int] matches Some(m) && i == (ImageInfo {
                index,
                width: m.width as i32,
                height: m.height as i32,
                x: m.x as i32,
                y: m.y as i32,
                has_mask: ShadowInfo::NoShadow,
            })),
    {
        if let Some(lib) = &mut self.library_v2 {
            let image = lib.get_image(index)?;
            Ok(ImageInfo::from_v2_image(index, image))
        } else if let Some(lib) = &mut self.library_v1 {
            let image = lib.get_image(index)?;
            Ok(ImageInfo::from_v1_image(index, image))
        } else {
            Err(not_loaded_error())
        }
    }

    /// A copy of the decoded raster of entry `index`, if it has one.
    pub fn get_preview(&mut self, index: usize) -> (r: Result<Option<Raster>>)
        requires
            old(self).wf(),
        ensures
            final(self).wf(),
            old(self).library_v2 is None && old(self).library_v1 is None ==> (r matches Err(e) && not_loaded(e)),
            old(self).library_v2 is Some ==> (r matches Ok(Some(p)) ==> final(self).library_v2 matches Some(l)
                && l.entries.images@[index as int] matches Some(m) && m.image matches Some(img) && img@ == p@),
            old(self).library_v2 is None && old(self).library_v1 is Some ==> (r matches Ok(Some(p)) ==> final(self).library_v1 matches Some(l) && l.entries.images@[index as int] matches Some(m) && m.image matches Some(img)
                && img@ == p@),
    {
        if let Some(lib) = &mut self.library_v2 {
            let preview = lib.get_preview(index)?;
            return Ok(
                match preview {
                    Some(img) => Some(img.copy()),
                    None => None,
                },
            );
        }
        if let Some(lib) = &mut self.library_v1 {
            let preview = lib.get_preview(index)?;
            return Ok(
                match preview {
                    Some(img) => Some(img.copy()),
                    None => None,
                },
            );
        }
        Err(not_loaded_error())
    }

    /// Number of entries of the open library, 0 without one.
    pub fn image_count(&self) -> (n: usize)
        ensures
            self.info matches Some(i) ==> n == i.image_count,
            self.info is None ==> n == 0,
    {
        match &self.info {
            Some(i) => i.image_count,
            None => 0,
        }
    }

    /// The bytes of the `.Lib` file of the open library.
    pub fn save(&mut self) -> (r: Result<Vec<u8>>)
        requires
            old(self).wf(),
        ensures
            final(self).wf(),
            old(self).library_v2 is None ==> (r matches Err(e) && not_loaded(e)),
            r matches Ok(bytes) ==> final(self).library_v2 matches Some(l) && mlibrary_v2::all_loaded(
                l.entries.images@,
            ) && bytes@ == mlibrary_v2::lib_file(mlibrary_v2::loaded_entries(l.entries.images@)),
            old(self).library_v2 is Some && mlibrary_v2::unread_readable(old(self).library_v2->0) ==> (
            final(self).library_v2 matches Some(l) && mlibrary_v2::all_loaded(l.entries.images@) && (
            mlibrary_v2::lib_fits(mlibrary_v2::loaded_entries(l.entries.images@)) ==> r is Ok)),
    {
        match &mut self.library_v2 {
            Some(lib) => lib.save(),
            None => Err(not_loaded_error()),
        }
    }

    /// Replaces entry `index` of the open `.Lib` library.
    pub fn replace_image(&mut self, index: usize, image: mlibrary_v2::MImage) -> (r: Result<()>)
        requires
            old(self).wf(),
        ensures
            final(self).wf(),
            old(self).library_v2 is None ==> (r matches Err(e) && not_loaded(e)),
            old(self).library_v2 matches Some(l) ==> (index < l.entries.count <==> r is Ok),
            old(self).library_v2 matches Some(l) ==> (index < l.entries.count ==> (final(self).library_v2 matches Some(
                n,
            ) && n.entries.images@ == l.entries.images@.update(index as int, Some(image)))),
    {
        match &mut self.library_v2 {
            Some(lib) => lib.replace_image(index, image),
            None => Err(not_loaded_error()),
        }
    }

    /// Appends an entry to the open `.Lib` library.
    pub fn add_image(&mut self, image: mlibrary_v2::MImage) -> (r: Result<()>)
        requires
            old(self).wf(),
        ensures
            final(self).wf(),
            old(self).library_v2 is None ==> (r matches Err(e) && not_loaded(e)),
            old(self).library_v2 matches Some(l) ==> r is Ok && (final(self).library_v2 matches Some(n)
                && n.entries.images@ == l.entries.images@.push(Some(image))),
    {
        match &mut self.library_v2 {
            Some(lib) => {
                lib.add_image(image);
                Ok(())
            },
            None => Err(not_loaded_error()),
        }
    }

    /// Removes entry `index` of the open `.Lib` library.
    pub fn remove_image(&mut self, index: usize) -> (r: Result<()>)
        requires
            old(self).wf(),
        ensures
            final(self).wf(),
            old(self).library_v2 is None ==> (r matches Err(e) && not_loaded(e)),
            old(self).library_v2 matches Some(l) ==> (r is Ok <==> (l.entries.count <= 1 || index < l.entries.count)),
    {
        match &mut self.library_v2 {
            Some(lib) => lib.remove_image(index),
            None => Err(not_loaded_error()),
        }
    }
}

impl ImageInfo {
    /// What `from_v2_image` returns.
    pub open spec fn from_v2_image_spec(index: usize, image: mlibrary_v2::MImage) -> ImageInfo {
        ImageInfo {
            index,
            width: image.width as i32,
            height: image.height as i32,
            x: image.x as i32,
            y: image.y as i32,
            has_mask: if image.has_mask {
                ShadowInfo::Mask {
                    shadow: image.shadow,
                    shadow_x: image.shadow_x,
                    shadow_y: image.shadow_y,
                    mask_width: image.mask_width,
                    mask_height: image.mask_height,
                }
            } else {
                ShadowInfo::Simple { shadow: image.shadow, shadow_x: image.shadow_x, shadow_y: image.shadow_y }
            },
        }
    }
}

impl Default for LibraryLoader {
    fn default() -> (l: Self)
        ensures
            l.wf(),
            l.info is None && l.library_v1 is None && l.library_v2 is None,
    {
        LibraryLoader::new()
    }
}

} // verus!
