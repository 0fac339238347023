//! The entry type shared by the `.wzl` and `.wtl` codecs.

use vstd::prelude::*;

use crate::error::{LibraryError, Result};
use crate::formats::mlibrary_v2::{decode_layer, decoded_payload};
use crate::image::compression::{compress_gzip, gunzip_of, gzip_of};
use crate::image::raster::{
    bgra_encoding, center_preview, encode_bgra_rows, pad_raster, padded, preview_of, Raster,
};

verus! {

/// One sprite entry: placement, shadow and mask fields, its stored payload
/// and, once decoded, its raster and preview.
#[derive(Debug)]
pub struct MImage {
    pub width: i16,
    pub height: i16,
    pub x: i16,
    pub y: i16,
    pub shadow_x: i16,
    pub shadow_y: i16,
    pub shadow: u8,
    /// Stored pixel payload.
    pub fbytes: Vec<u8>,
    /// `image` holds the decoded pixels.
    pub texture_valid: bool,
    pub image: Option<Raster>,
    pub preview: Option<Raster>,
    pub has_mask: bool,
    pub mask_width: i16,
    pub mask_height: i16,
    pub mask_x: i16,
    pub mask_y: i16,
    pub mask_fbytes: Vec<u8>,
    pub mask_image: Option<Raster>,
}

/// `n` rounded up to a multiple of 4.
pub open spec fn round_up4(n: int) -> int {
    n + (4 - n % 4) % 4
}

impl MImage {
    /// An entry with no pixels.
    pub fn new() -> (m: Self)
        ensures
            m.width == 0 && m.height == 0 && m.x == 0 && m.y == 0,
            m.shadow_x == 0 && m.shadow_y == 0 && m.shadow == 0,
            m.fbytes@.len() == 0 && m.mask_fbytes@.len() == 0,
            !m.texture_valid && !m.has_mask,
            m.image is None && m.preview is None && m.mask_image is None,
            m.mask_width == 0 && m.mask_height == 0 && m.mask_x == 0 && m.mask_y == 0,
    {
        MImage {
            width: 0,
            height: 0,
            x: 0,
            y: 0,
            shadow_x: 0,
            shadow_y: 0,
            shadow: 0,
            fbytes: Vec::new(),
            texture_valid: false,
            image: None,
            preview: None,
            has_mask: false,
            mask_width: 0,
            mask_height: 0,
            mask_x: 0,
            mask_y: 0,
            mask_fbytes: Vec::new(),
            mask_image: None,
        }
    }

    /// An entry for a raster placed at `(x, y)`: the raster is extended with
    /// transparent pixels to a width and height that are multiples of 4, then
    /// written as bottom-up B, G, R, A rows with black made transparent and
    /// gzip-compressed. Fails where compression fails.
    pub fn from_image(image: &Raster, x: i16, y: i16) -> (r: Result<Self>)
        requires
            image.wf(),
            image.width <= 32764,
            image.height <= 32764,
        ensures
            r matches Ok(m) ==> {
                &&& m.width as int == round_up4(image.width as int)
                &&& m.height as int == round_up4(image.height as int)
                &&& m.x == x && m.y == y
                &&& m.image is Some
                &&& {
                    let fixed = m.image->0;
                    &&& fixed.wf() && fixed.width as int == m.width && fixed.height as int == m.height
                    &&& padded(
                        fixed.data@,
                        image.data@,
                        image.width as int,
                        image.height as int,
                        m.width as int,
                        m.height as int,
                    )
                    &&& m.fbytes@ == gzip_of(bgra_encoding(fixed.data@, m.width as int, m.height as int))
                    &&& gunzip_of(m.fbytes@) == Some(
                        bgra_encoding(fixed.data@, m.width as int, m.height as int),
                    )
                }
                &&& m.texture_valid
                &&& !m.has_mask && m.shadow == 0 && m.shadow_x == 0 && m.shadow_y == 0
                &&& m.preview is None && m.mask_image is None && m.mask_fbytes@.len() == 0
            },
            r matches Err(e) ==> e is Compression,
    {
        let width = image.width as i16;
        let height = image.height as i16;
        let fixed_width = width + (4 - width % 4) % 4;
        let fixed_height = height + (4 - height % 4) % 4;
        assert(fixed_width as int * fixed_height as int * 4 <= 32767 * 32767 * 4) by (nonlinear_arith)
            requires
                0 <= fixed_width <= 32767,
                0 <= fixed_height <= 32767,
        ;
        let fixed = pad_raster(image, fixed_width as u32, fixed_height as u32);
        let pixels = encode_bgra_rows(fixed.data.as_slice(), fixed_width as usize, fixed_height as usize);
        let fbytes = compress_gzip(pixels.as_slice())?;
        let mut m = MImage::new();
        m.width = fixed_width;
        m.height = fixed_height;
        m.x = x;
        m.y = y;
        m.fbytes = fbytes;
        m.texture_valid = true;
        m.image = Some(fixed);
        Ok(m)
    }

    /// Decodes a gzip payload of bottom-up B, G, R, A rows of this entry's
    /// size into `image`.
    pub fn create_texture(&mut self, data: &[u8]) -> (r: Result<()>)
        ensures
            (old(self).width <= 0 || old(self).height <= 0) ==> r == Err::<(), LibraryError>(
                LibraryError::InvalidImageData,
            ),
            (old(self).width > 0 && old(self).height > 0 && gunzip_of(data@) is None) ==> (r matches Err(e)
                && e is Compression),
            (old(self).width > 0 && old(self).height > 0 && gunzip_of(data@) is Some && decoded_payload(
                data@,
                old(self).width as int,
                old(self).height as int,
            ) is None) ==> r == Err::<(), LibraryError>(LibraryError::InvalidImageData),
            (old(self).width > 0 && old(self).height > 0 && decoded_payload(
                data@,
                old(self).width as int,
                old(self).height as int,
            ) is Some) ==> (r is Ok && final(self).texture_valid && (final(self).image matches Some(img)
                && img.width as int == old(self).width as int && img.height as int == old(self).height as int && img.data@
                == decoded_payload(data@, old(self).width as int, old(self).height as int)->0)),
            final(self).width == old(self).width && final(self).height == old(self).height,
            final(self).x == old(self).x && final(self).y == old(self).y,
            final(self).fbytes@ == old(self).fbytes@,
            r is Err ==> *final(self) == *old(self),
    {
        if self.width <= 0 || self.height <= 0 {
            return Err(LibraryError::InvalidImageData);
        }
        let img = decode_layer(data, self.width, self.height)?;
        self.image = Some(img);
        self.texture_valid = true;
        Ok(())
    }

    /// Builds the 64 by 64 preview of the decoded raster, if there is one.
    pub fn create_preview(&mut self)
        ensures
            final(self).image == old(self).image,
            final(self).fbytes@ == old(self).fbytes@,
            old(self).image is Some && old(self).image->0.wf() ==> (final(self).preview is Some
                && preview_of(final(self).preview->0, old(self).image->0)),
            !(old(self).image is Some && old(self).image->0.wf()) ==> *final(self) == *old(self),
            *final(self) == (MImage { preview: final(self).preview, ..*old(self) }),
    {
        let preview = match &self.image {
            Some(img) => {
                if img.is_valid() {
                    Some(center_preview(img))
                } else {
                    None
                }
            },
            None => None,
        };
        if preview.is_some() {
            self.preview = preview;
        }
    }

    /// The preview, built on first request.
    pub fn get_preview(&mut self) -> (r: Option<&Raster>)
        ensures
            final(self).image == old(self).image,
            old(self).preview is Some ==> (r is Some && *r->0 == old(self).preview->0),
            old(self).preview is None && old(self).image is Some && old(self).image->0.wf() ==> (r is Some
                && preview_of(*r->0, old(self).image->0)),
            r is Some ==> final(self).preview == Some(*r->0),
            *final(self) == (MImage { preview: final(self).preview, ..*old(self) }),
    {
        if self.preview.is_none() {
            self.create_preview();
        }
        self.preview.as_ref()
    }
}

impl Default for MImage {
    fn default() -> (m: Self)
        ensures
            m.width == 0 && m.height == 0 && m.fbytes@.len() == 0 && m.image is None && !m.has_mask,
    {
        MImage::new()
    }
}

} // verus!
