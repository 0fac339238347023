use library_editor::error::LibraryError;
use library_editor::formats::mlibrary_v0::{self, detect_wix_layout, find_closest_palette_color, MLibraryV0};
use library_editor::formats::mlibrary_v1::MLibraryV1;
use library_editor::formats::mlibrary_v2::{self, MLibraryV2};
use library_editor::formats::wemade_library::WeMadeLibrary;
use library_editor::formats::wtl_library::WTLLibrary;
use library_editor::formats::{ImageInfo, LibraryLoader, LibraryType, ShadowInfo};
use library_editor::image::compression::{compress_gzip, decompress_gzip};
use library_editor::image::raster::Raster;
use library_editor::APP_NAME;

fn le16(v: i16) -> [u8; 2] {
    v.to_le_bytes()
}

fn le32(v: u32) -> [u8; 4] {
    v.to_le_bytes()
}

/// A `.Lib` file with one entry of the given size and gzip payload.
fn lib_file(w: i16, h: i16, payload: &[u8]) -> Vec<u8> {
    let mut d = Vec::new();
    d.extend_from_slice(&2i32.to_le_bytes());
    d.extend_from_slice(&1i32.to_le_bytes());
    d.extend_from_slice(&le32(12));
    for v in [w, h, 0, 0, 0, 0] {
        d.extend_from_slice(&le16(v));
    }
    d.push(0);
    d.extend_from_slice(&(payload.len() as i32).to_le_bytes());
    d.extend_from_slice(payload);
    d
}

#[test]
fn mlibrary_v0_test_create_library() {
    let lib = MLibraryV0::new("nonexistent_file".to_string());
    assert!(lib.is_ok());
}

#[test]
fn mlibrary_v0_test_mimage_creation() {
    let img = mlibrary_v0::MImage::new();
    assert_eq!(img.width, 0);
    assert_eq!(img.height, 0);
}

#[test]
fn test_palette_color_matching() {
    let mut palette = [[0u8; 4]; 256];
    palette[1] = [0, 0, 255, 255];
    palette[2] = [0, 255, 0, 255];
    palette[3] = [255, 0, 0, 255];

    let idx = find_closest_palette_color(255, 0, 0, 255, &palette);
    assert_eq!(idx, 1);

    let idx = find_closest_palette_color(0, 255, 0, 255, &palette);
    assert_eq!(idx, 2);

    let idx = find_closest_palette_color(0, 0, 255, 255, &palette);
    assert_eq!(idx, 3);

    let idx = find_closest_palette_color(255, 0, 0, 0, &palette);
    assert_eq!(idx, 0);
}

#[test]
fn mlibrary_v1_test_create_library() {
    let lib = MLibraryV1::new("test".to_string());
    assert!(lib.is_err());
}

#[test]
fn mlibrary_v2_test_create_library() {
    let lib = MLibraryV2::new("test".to_string());
    assert!(lib.is_ok());
}

#[test]
fn mlibrary_v2_test_mimage_creation() {
    let img = mlibrary_v2::MImage::new();
    assert_eq!(img.width, 0);
    assert_eq!(img.height, 0);
    assert!(!img.has_mask);
}

#[test]
fn wemade_library_test_create_library() {
    let lib = WeMadeLibrary::new("test".to_string());
    assert!(lib.is_err());
}

#[test]
fn wtl_library_test_create_library() {
    let lib = WTLLibrary::new("test".to_string());
    assert!(lib.is_err());
}

#[test]
fn test_app_info() {
    assert_eq!(APP_NAME, "Library Editor");
}

#[test]
fn v2_entry_is_flipped_and_reordered() {
    let mut raw = vec![0u8; 64];
    raw[0] = 0;
    raw[1] = 0;
    raw[2] = 255;
    raw[3] = 255;
    let payload = compress_gzip(&raw).unwrap();
    let mut lib = MLibraryV2::open("x".to_string(), lib_file(4, 4, &payload)).unwrap();
    assert_eq!(lib.count(), 1);
    let entry = lib.get_image(0).unwrap();
    let img = entry.image.as_ref().unwrap();
    assert_eq!((img.width, img.height), (4, 4));
    for y in 0..4 {
        for x in 0..4 {
            let px = img.get_pixel(x, y);
            if x == 0 && y == 3 {
                assert_eq!(px, [255, 0, 0, 255]);
            } else {
                assert_eq!(px, [0, 0, 0, 0]);
            }
        }
    }
}

#[test]
fn v2_repeated_get_image_is_identical() {
    let raw: Vec<u8> = (0..64u32).map(|i| (i * 7 % 251) as u8).collect();
    let payload = compress_gzip(&raw).unwrap();
    let mut lib = MLibraryV2::open("x".to_string(), lib_file(4, 4, &payload)).unwrap();
    let first = lib.get_image(0).unwrap().image.as_ref().unwrap().data.clone();
    let second = lib.get_image(0).unwrap().image.as_ref().unwrap().data.clone();
    assert_eq!(first, second);
}

#[test]
fn v2_wrong_version_is_rejected() {
    let mut d = lib_file(4, 4, &[]);
    d[0] = 3;
    assert_eq!(MLibraryV2::open("x".to_string(), d).err(), Some(LibraryError::UnsupportedVersion(3)));
}

#[test]
fn v2_truncated_file_is_an_io_error() {
    let payload = compress_gzip(&[1u8; 64]).unwrap();
    let d = lib_file(4, 4, &payload);
    let short = d[..6].to_vec();
    assert!(matches!(MLibraryV2::open("x".to_string(), short), Err(LibraryError::Io(_))));
    let cut = d[..d.len() - 3].to_vec();
    let mut lib = MLibraryV2::open("x".to_string(), cut).unwrap();
    assert!(matches!(lib.get_image(0), Err(LibraryError::Io(_))));
}

#[test]
fn v2_size_mismatch_is_invalid_image_data() {
    let payload = compress_gzip(&[1u8; 60]).unwrap();
    let mut lib = MLibraryV2::open("x".to_string(), lib_file(4, 4, &payload)).unwrap();
    assert!(matches!(lib.get_image(0), Err(LibraryError::InvalidImageData)));
}

#[test]
fn v2_bad_stream_is_compression_error() {
    let mut lib = MLibraryV2::open("x".to_string(), lib_file(4, 4, &[1, 2, 3, 4])).unwrap();
    assert!(matches!(lib.get_image(0), Err(LibraryError::Compression(_))));
}

#[test]
fn v2_index_out_of_bounds() {
    let mut lib = MLibraryV2::new("x".to_string()).unwrap();
    assert!(matches!(lib.get_image(0), Err(LibraryError::IndexOutOfBounds(0))));
    assert_eq!(lib.replace_image(2, mlibrary_v2::MImage::new()), Err(LibraryError::IndexOutOfBounds(2)));
}

#[test]
fn v2_round_trip_through_save() {
    let mut img = Raster::new(5, 3);
    for y in 0..3u32 {
        for x in 0..5u32 {
            img.put_pixel(x, y, [(10 + x * 40) as u8, (20 + y * 50) as u8, (x * y) as u8, 200]);
        }
    }
    img.put_pixel(1, 1, [0, 0, 0, 0]);
    let entry = mlibrary_v2::MImage::from_image(&img, 7, -3).unwrap();
    let mut lib = MLibraryV2::new("x".to_string()).unwrap();
    lib.add_image(mlibrary_v2::MImage::from_image(&Raster::new(2, 2), 1, 1).unwrap());
    lib.add_image(entry);
    let bytes = lib.save().unwrap();
    let mut reopened = MLibraryV2::open("x".to_string(), bytes).unwrap();
    assert_eq!(reopened.count(), 2);
    let got = reopened.get_image(1).unwrap();
    assert_eq!((got.x, got.y), (7, -3));
    let decoded = got.image.as_ref().unwrap();
    assert_eq!((decoded.width, decoded.height), (5, 3));
    assert_eq!(decoded.data, img.data);
}

#[test]
fn v2_encoding_makes_black_transparent() {
    let mut img = Raster::new(1, 1);
    img.put_pixel(0, 0, [0, 0, 0, 255]);
    let entry = mlibrary_v2::MImage::from_image(&img, 0, 0).unwrap();
    let raw = decompress_gzip(&entry.fbytes).unwrap();
    assert_eq!(raw, vec![0, 0, 0, 0]);
}

#[test]
fn v2_mask_round_trip() {
    let mut img = Raster::new(2, 2);
    img.put_pixel(0, 0, [9, 9, 9, 255]);
    let mut mask = Raster::new(1, 1);
    mask.put_pixel(0, 0, [1, 2, 3, 4]);
    let entry = mlibrary_v2::MImage::from_image_with_mask(&img, &mask, 0, 0).unwrap();
    let mut lib = MLibraryV2::new("x".to_string()).unwrap();
    lib.add_image(entry);
    let bytes = lib.save().unwrap();
    let mut reopened = MLibraryV2::open("x".to_string(), bytes).unwrap();
    let got = reopened.get_image(0).unwrap();
    assert!(got.has_mask);
    assert_eq!(got.mask_image.as_ref().unwrap().data, vec![1, 2, 3, 4]);
}

#[test]
fn removing_the_only_entry_empties_the_library() {
    let mut lib = MLibraryV2::new("x".to_string()).unwrap();
    lib.add_image(mlibrary_v2::MImage::new());
    assert_eq!(lib.count(), 1);
    assert!(lib.remove_image(0).is_ok());
    assert_eq!(lib.count(), 0);
    assert!(lib.entries.images.is_empty());
    assert!(lib.entries.index_list.is_empty());
}

#[test]
fn counts_stay_aligned_through_mutations() {
    let mut lib = MLibraryV2::new("x".to_string()).unwrap();
    lib.add_image(mlibrary_v2::MImage::new());
    lib.add_image(mlibrary_v2::MImage::new());
    lib.insert_image(1, mlibrary_v2::MImage::new()).unwrap();
    assert!(lib.insert_image(9, mlibrary_v2::MImage::new()).is_err());
    lib.remove_image(0).unwrap();
    assert!(lib.remove_image(7).is_err());
    lib.replace_image(1, mlibrary_v2::MImage::new()).unwrap();
    assert_eq!(lib.count(), 2);
    assert_eq!(lib.entries.images.len(), 2);
    assert_eq!(lib.entries.index_list.len(), 2);
}

#[test]
fn v1_sixteen_bit_black_is_transparent() {
    let mut wzx = vec![0u8; 48];
    wzx.extend_from_slice(&le32(4));
    let mut wzl = vec![0u8; 4];
    wzl.extend_from_slice(&[5, 0, 0, 0]);
    for v in [2i16, 2, 0, 0] {
        wzl.extend_from_slice(&le16(v));
    }
    wzl.extend_from_slice(&0i32.to_le_bytes());
    wzl.extend_from_slice(&[0u8; 8]);
    let mut lib = MLibraryV1::open("x".to_string(), wzx, wzl).unwrap();
    assert_eq!(lib.count(), 1);
    let img = lib.get_image(0).unwrap().image.as_ref().unwrap();
    assert_eq!((img.width, img.height), (2, 2));
    assert!(img.data.iter().all(|b| *b == 0));
}

#[test]
fn v1_sixteen_bit_colour_and_palette_entries() {
    let mut wzx = vec![0u8; 48];
    wzx.extend_from_slice(&le32(4));
    wzx.extend_from_slice(&le32(28));
    let mut wzl = vec![0u8; 4];
    wzl.extend_from_slice(&[5, 0, 0, 0]);
    for v in [2i16, 2, 0, 0] {
        wzl.extend_from_slice(&le16(v));
    }
    wzl.extend_from_slice(&0i32.to_le_bytes());
    wzl.extend_from_slice(&[0x00, 0xF8, 0, 0, 0, 0, 0, 0]);
    wzl.extend_from_slice(&[3, 0, 0, 0]);
    for v in [2i16, 2, 0, 0] {
        wzl.extend_from_slice(&le16(v));
    }
    wzl.extend_from_slice(&0i32.to_le_bytes());
    wzl.extend_from_slice(&[1, 0, 0, 0, 0, 0, 0, 0]);
    let mut lib = MLibraryV1::open("x".to_string(), wzx, wzl).unwrap();
    let red = lib.get_image(0).unwrap().image.as_ref().unwrap();
    assert_eq!(red.get_pixel(0, 1), [248, 0, 0, 255]);
    assert_eq!(red.get_pixel(1, 1), [0, 0, 0, 0]);
    let indexed = lib.get_image(1).unwrap().image.as_ref().unwrap();
    assert_eq!(indexed.get_pixel(0, 1), [128, 0, 0, 255]);
    assert!(matches!(lib.get_image(2), Err(LibraryError::IndexOutOfBounds(2))));
}

#[test]
fn v1_small_entries_are_placeholders() {
    let mut wzx = vec![0u8; 48];
    wzx.extend_from_slice(&le32(4));
    let mut wzl = vec![0u8; 4];
    wzl.extend_from_slice(&[3, 0, 0, 0]);
    for v in [1i16, 1, 5, 5] {
        wzl.extend_from_slice(&le16(v));
    }
    wzl.extend_from_slice(&0i32.to_le_bytes());
    let mut lib = MLibraryV1::open("x".to_string(), wzx, wzl).unwrap();
    let img = lib.get_image(0).unwrap();
    assert_eq!((img.width, img.height), (0, 0));
    assert!(img.image.is_none());
}

#[test]
fn wix_offsets_found_by_probing() {
    let mut wix = vec![b'x'; 44];
    wix.extend_from_slice(&le32(7));
    for v in [2000u32, 2400, 2800, 3200, 3600] {
        wix.extend_from_slice(&le32(v));
    }
    let (count, header) = detect_wix_layout(&wix).unwrap();
    assert_eq!(header, 48);
    assert_eq!(count, (wix.len() - 48) / 4);
    assert_eq!(count, 5);
}

#[test]
fn wix_probe_falls_back_to_52_then_44() {
    let mut wix = vec![b'x'; 48];
    wix.extend_from_slice(&le32(5));
    wix.extend_from_slice(&le32(2000));
    let (_, header) = detect_wix_layout(&wix).unwrap();
    assert_eq!(header, 52);
    let junk = vec![b'y'; 60];
    let (count, header) = detect_wix_layout(&junk).unwrap();
    assert_eq!((count, header), (4, 44));
}

#[test]
fn wix_standard_signature_reads_count() {
    let mut wix = b"#INDX v1.0-WEMADE Entertainment inc.".to_vec();
    wix.resize(44, 0);
    wix.extend_from_slice(&le32(2));
    wix.extend_from_slice(&le32(1080));
    wix.extend_from_slice(&le32(1080));
    wix.extend_from_slice(&le32(1090));
    assert_eq!(detect_wix_layout(&wix).unwrap(), (2, 52));
    assert!(matches!(detect_wix_layout(&wix[..50]), Err(LibraryError::Io(_))));
}

#[test]
fn quantizer_picks_exact_red() {
    let mut palette = [[0u8; 4]; 256];
    palette[3] = [0, 0, 255, 255];
    assert_eq!(find_closest_palette_color(255, 0, 0, 255, &palette), 3);
}

#[test]
fn quantizer_low_alpha_is_index_zero() {
    let palette = [[7u8; 4]; 256];
    for a in [0u8, 1, 64, 127] {
        assert_eq!(find_closest_palette_color(7, 7, 7, a, &palette), 0);
    }
    assert_eq!(find_closest_palette_color(7, 7, 7, 128, &palette), 1);
}

#[test]
fn v0_round_trip_through_save() {
    let mut lib = MLibraryV0::new("x".to_string()).unwrap();
    let mut palette = [[0u8; 4]; 256];
    palette[1] = [0, 0, 255, 0];
    palette[2] = [255, 0, 0, 255];
    lib.set_palette(palette.to_vec());
    let mut img = Raster::new(3, 2);
    img.put_pixel(0, 0, [250, 5, 5, 255]);
    img.put_pixel(1, 0, [0, 0, 240, 255]);
    img.put_pixel(2, 1, [9, 9, 9, 10]);
    let entry = mlibrary_v0::MImage::from_image(&img, 0, 0, &palette);
    lib.add_image(entry);
    let mut second = Raster::new(2, 2);
    second.put_pixel(1, 1, [0, 0, 255, 255]);
    lib.add_image(mlibrary_v0::MImage::from_image(&second, 0, 0, &palette));
    let (wix, wil) = lib.save().unwrap();
    let mut reopened = MLibraryV0::open("x".to_string(), wix, wil).unwrap();
    assert_eq!(reopened.count(), 2);
    let other = reopened.get_image(1).unwrap().image.as_ref().unwrap();
    assert_eq!((other.width, other.height), (2, 2));
    assert_eq!(other.get_pixel(1, 1), [0, 0, 255, 255]);
    let got = reopened.get_image(0).unwrap().image.as_ref().unwrap();
    assert_eq!(got.get_pixel(0, 0), [255, 0, 0, 255]);
    assert_eq!(got.get_pixel(1, 0), [0, 0, 255, 255]);
    assert_eq!(got.get_pixel(2, 1), [0, 0, 0, 0]);
}

#[test]
fn v0_truncated_data_file_is_an_io_error() {
    let mut lib = MLibraryV0::new("x".to_string()).unwrap();
    lib.add_image(mlibrary_v0::MImage::new());
    let (wix, wil) = lib.save().unwrap();
    assert!(matches!(MLibraryV0::open("x".to_string(), wix, wil[..500].to_vec()), Err(LibraryError::Io(_))));
}

#[test]
fn v0_zero_size_entry_is_invalid_image_data() {
    let mut lib = MLibraryV0::new("x".to_string()).unwrap();
    lib.add_image(mlibrary_v0::MImage::new());
    let (wix, wil) = lib.save().unwrap();
    let mut reopened = MLibraryV0::open("x".to_string(), wix, wil).unwrap();
    assert!(matches!(reopened.get_image(0), Err(LibraryError::InvalidImageData)));
}

#[test]
fn wtl_signature_and_save() {
    let mut d = b"WTL\x00".to_vec();
    d.extend_from_slice(&le32(1));
    d.extend_from_slice(&le32(12));
    for v in [2i16, 1, 3, 4] {
        d.extend_from_slice(&le16(v));
    }
    d.extend_from_slice(&0i32.to_le_bytes());
    let mut lib = WTLLibrary::open("x".to_string(), d.clone()).unwrap();
    let img = lib.get_image(0).unwrap();
    assert_eq!((img.width, img.height, img.x, img.y), (2, 1, 3, 4));
    let saved = lib.save().unwrap();
    assert_eq!(&saved[..4], b"WTL\x00");
    assert_eq!(saved[8..12], le32(12));
    let mut bad = d.clone();
    bad[3] = 2;
    assert!(matches!(WTLLibrary::open("x".to_string(), bad), Err(LibraryError::InvalidFormat)));
}

#[test]
fn wemade_reads_entry_headers() {
    let mut wix = vec![0u8; 48];
    wix.extend_from_slice(&le32(0));
    let mut wil = Vec::new();
    for v in [3i16, 4, -1, 2] {
        wil.extend_from_slice(&le16(v));
    }
    let mut lib = WeMadeLibrary::open("x".to_string(), 0, wix, wil).unwrap();
    let img = lib.get_image(0).unwrap();
    assert_eq!((img.width, img.height, img.x, img.y, img.n_size), (3, 4, -1, 2, 12));
    let v2 = lib.to_mlibrary_v2().unwrap();
    assert_eq!(v2.count(), 1);
}

#[test]
fn extension_table() {
    assert_eq!(LibraryType::from_extension(".WZL"), Some(LibraryType::MLV1));
    assert_eq!(LibraryType::from_extension(".Lib"), Some(LibraryType::MLV2));
    assert_eq!(LibraryType::from_extension(".wix"), Some(LibraryType::WeMade));
    assert_eq!(LibraryType::from_extension(".wtl"), Some(LibraryType::WTL));
    assert_eq!(LibraryType::from_extension(".png"), None);
    assert_eq!(LibraryType::MLV2.main_extension(), ".Lib");
    assert_eq!(LibraryType::MLV1.index_extension(), Some(".wzx"));
    assert_eq!(LibraryType::WeMade.name(), "WeMade Library");
}

#[test]
fn loader_opens_lib_and_reports_info() {
    let raw = vec![9u8; 16];
    let payload = compress_gzip(&raw).unwrap();
    let (info, mut loader) =
        LibraryLoader::load("LIB", "dir/a".to_string(), "a.Lib".to_string(), Some(lib_file(2, 2, &payload)), None)
            .unwrap();
    assert_eq!(info.image_count, 1);
    assert_eq!(info.format_name(), "MLibrary V2");
    let image_info = loader.get_image_info(0).unwrap();
    assert_eq!(image_info.size_string(), "2 x 2");
    assert_eq!(image_info.has_mask, ShadowInfo::Simple { shadow: 0, shadow_x: 0, shadow_y: 0 });
    assert!(loader.get_preview(0).unwrap().is_some());
    assert!(matches!(
        LibraryLoader::load("png", "a".to_string(), "a.png".to_string(), None, None),
        Err(LibraryError::InvalidFormat)
    ));
    assert!(matches!(LibraryLoader::new().save(), Err(LibraryError::ParseError(_))));
}

#[test]
fn size_string_of_negative_values() {
    let info = ImageInfo { index: 0, width: -12, height: 305, x: 0, y: 0, has_mask: ShadowInfo::NoShadow };
    assert_eq!(info.size_string(), "-12 x 305");
}

#[test]
fn preview_centres_small_images() {
    let mut img = Raster::new(2, 2);
    img.put_pixel(0, 0, [1, 2, 3, 4]);
    let mut entry = mlibrary_v2::MImage::new();
    entry.image = Some(img);
    let p = entry.get_preview().unwrap();
    assert_eq!((p.width, p.height), (64, 64));
    assert_eq!(p.get_pixel(31, 31), [1, 2, 3, 4]);
    assert_eq!(p.get_pixel(0, 0), [0, 0, 0, 0]);
}

#[test]
fn gzip_round_trip() {
    let data = b"some pixels".to_vec();
    let packed = compress_gzip(&data).unwrap();
    assert_ne!(packed, data);
    assert_eq!(decompress_gzip(&packed).unwrap(), data);
}

#[test]
fn v1_round_trip_through_save() {
    let mut wzx = vec![0u8; 48];
    wzx.extend_from_slice(&le32(4));
    wzx.extend_from_slice(&le32(28));
    let mut wzl = vec![0u8; 4];
    wzl.extend_from_slice(&[5, 0, 0, 0]);
    for v in [2i16, 2, 1, -1] {
        wzl.extend_from_slice(&le16(v));
    }
    wzl.extend_from_slice(&0i32.to_le_bytes());
    wzl.extend_from_slice(&[0x00, 0xF8, 0xE0, 0x07, 0x1F, 0x00, 0, 0]);
    wzl.extend_from_slice(&[3, 0, 0, 0]);
    for v in [4i16, 1, 0, 0] {
        wzl.extend_from_slice(&le16(v));
    }
    wzl.extend_from_slice(&0i32.to_le_bytes());
    wzl.extend_from_slice(&[1, 2, 3, 4]);
    let mut lib = MLibraryV1::open("x".to_string(), wzx, wzl).unwrap();
    let before: Vec<Vec<u8>> = (0..2).map(|i| lib.get_image(i).unwrap().image.as_ref().unwrap().data.clone()).collect();
    let (wzx2, wzl2) = lib.save().unwrap();
    let mut reopened = MLibraryV1::open("x".to_string(), wzx2, wzl2).unwrap();
    assert_eq!(reopened.count(), 2);
    for i in 0..2 {
        let img = reopened.get_image(i).unwrap();
        assert_eq!(img.image.as_ref().unwrap().data, before[i]);
    }
    let moved = reopened.get_image(0).unwrap();
    assert_eq!((moved.x, moved.y), (1, -1));
}

#[test]
fn preview_scales_large_images_down() {
    let mut img = Raster::new(128, 32);
    for y in 0..32u32 {
        for x in 0..128u32 {
            img.put_pixel(x, y, [10, 20, 30, 255]);
        }
    }
    let mut entry = library_editor::image::bitmap::MImage::new();
    entry.image = Some(img);
    let p = entry.get_preview().unwrap();
    assert_eq!((p.width, p.height), (64, 64));
    assert_eq!(p.get_pixel(0, 15), [0, 0, 0, 0]);
    assert_eq!(p.get_pixel(0, 16)[3], 255);
    assert_eq!(p.get_pixel(63, 47)[3], 255);
    assert_eq!(p.get_pixel(63, 48), [0, 0, 0, 0]);
}

#[test]
fn blank_added_wil_entry_is_returned_as_is() {
    let mut lib = MLibraryV0::new("x".to_string()).unwrap();
    lib.add_image(mlibrary_v0::MImage::new());
    let img = lib.get_image(0).unwrap();
    assert_eq!((img.width, img.height), (0, 0));
}

#[test]
fn lib_preview_shows_the_top_left_window() {
    let mut img = Raster::new(100, 10);
    img.put_pixel(0, 0, [1, 2, 3, 4]);
    img.put_pixel(70, 0, [9, 9, 9, 9]);
    let mut entry = mlibrary_v2::MImage::new();
    entry.image = Some(img);
    let p = entry.get_preview().unwrap();
    assert_eq!(p.get_pixel(0, 27), [1, 2, 3, 4]);
    assert!(p.data.iter().all(|b| *b != 9));
}

#[test]
fn bitmap_entry_round_trip() {
    let mut img = Raster::new(4, 4);
    img.put_pixel(1, 2, [200, 100, 50, 255]);
    let mut entry = library_editor::image::bitmap::MImage::from_image(&img, 0, 0).unwrap();
    let data = entry.fbytes.clone();
    entry.image = None;
    entry.create_texture(&data).unwrap();
    assert_eq!(entry.image.as_ref().unwrap().data, img.data);
}
