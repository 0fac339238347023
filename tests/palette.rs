use library_editor::image::palette::{
    create_default_palette, get_color, get_color_u32, BrightnessSortedPalette, Color, PaletteManager,
};

#[test]
fn test_color_conversion() {
    let color = Color::new(255, 128, 64, 32);
    let u32_val = color.to_u32();
    let color2 = Color::from_u32(u32_val);
    assert_eq!(color, color2);
}

#[test]
fn test_transparent_check() {
    let transparent = Color::new(0, 255, 0, 0);
    assert!(transparent.is_transparent());
    assert!(!transparent.is_opaque());

    let opaque = Color::new(255, 128, 64, 32);
    assert!(!opaque.is_transparent());
    assert!(opaque.is_opaque());
}

#[test]
fn test_palette_size() {
    assert_eq!(create_default_palette().len(), 256);
}

#[test]
fn test_get_color() {
    let color = get_color(1);
    assert_eq!(color.a, 255);
    assert_eq!(color.r, 128);
    assert_eq!(color.g, 0);
    assert_eq!(color.b, 0);
}

#[test]
fn test_brightness() {
    let white = Color::white();
    assert_eq!(white.brightness(), 255);

    let black = Color::black();
    assert_eq!(black.brightness(), 0);
}

#[test]
fn test_brightness_sorted() {
    let sorted = BrightnessSortedPalette::new();
    let dark_range = sorted.get_range(0, 50);
    let light_range = sorted.get_range(200, 255);
    assert!(!dark_range.is_empty());
    assert!(!light_range.is_empty());
}

#[test]
fn test_palette_manager() {
    let manager = PaletteManager::new();
    assert_eq!(manager.palette().len(), 256);

    let color = Color::new(255, 128, 64, 32);
    let closest = manager.find_closest(color);
    assert!(closest < 256);
}

#[test]
fn test_blend() {
    let color1 = Color::new(255, 255, 0, 0);
    let color2 = Color::new(255, 0, 255, 0);
    let blended = color1.blend(color2, 128);
    assert_eq!(blended.r, 127);
    assert_eq!(blended.g, 128);
    assert_eq!(blended.b, 0);
}

#[test]
fn test_format_hex() {
    let red = Color::new(255, 255, 0, 0);
    assert_eq!(red.to_hex_string(false), "#FF0000");
    assert_eq!(red.to_hex_string(true), "#FF0000FF");

    let semi_transparent = Color::new(128, 255, 0, 0);
    assert_eq!(semi_transparent.to_hex_string(false), "#FF0000");
    assert_eq!(semi_transparent.to_hex_string(true), "#FF000080");
}

#[test]
fn test_format_rgb_string() {
    let color = Color::new(255, 128, 64, 32);
    assert_eq!(color.to_rgb_string(), "rgb(128, 64, 32)");
    assert_eq!(color.to_rgba_string(), "rgba(128, 64, 32, 255)");
}

#[test]
fn test_format_css_string() {
    let opaque = Color::new(255, 255, 0, 0);
    assert_eq!(opaque.to_css_string(), "#FF0000");

    let transparent = Color::new(128, 255, 0, 0);
    assert_eq!(transparent.to_css_string(), "rgba(255, 0, 0, 128)");
}

#[test]
fn test_display() {
    let red = Color::new(255, 255, 0, 0);
    assert_eq!(red.display_string(), "Color(#FF0000)");

    let semi_transparent = Color::new(128, 255, 0, 0);
    assert_eq!(semi_transparent.display_string(), "Color(#FF000080)");
}

#[test]
fn test_lower_hex() {
    let color = Color::new(255, 255, 0, 0);
    assert_eq!(color.lower_hex_string(), "ff0000");

    let transparent = Color::new(128, 255, 0, 0);
    assert_eq!(transparent.lower_hex_string(), "ff000080");
}

#[test]
fn test_upper_hex() {
    let color = Color::new(255, 255, 0, 0);
    assert_eq!(color.upper_hex_string(), "FF0000");

    let transparent = Color::new(128, 255, 0, 0);
    assert_eq!(transparent.upper_hex_string(), "FF000080");
}

#[test]
fn exact_palette_color_finds_its_own_index() {
    let manager = PaletteManager::new();
    let c = get_color(249);
    assert_eq!(manager.find_closest(c), 249);
    assert_eq!(manager.find_closest(get_color(1)), 1);
}

#[test]
fn closest_prefers_lowest_index_on_ties() {
    let mut colors = vec![Color::new(255, 0, 0, 0); 256];
    colors[5] = Color::new(255, 10, 10, 10);
    colors[9] = Color::new(255, 10, 10, 10);
    let manager = PaletteManager::with_palette(colors);
    assert_eq!(manager.find_closest(Color::new(255, 11, 10, 10)), 5);
}

#[test]
fn packed_palette_word_matches_color() {
    assert_eq!(get_color_u32(1), 0xFF000080);
    assert_eq!(get_color_u32(0), 0);
}

#[test]
fn brightness_order_is_sorted_and_complete() {
    let sorted = BrightnessSortedPalette::new();
    let idx = sorted.indices();
    assert_eq!(idx.len(), 256);
    let mut seen = vec![false; 256];
    for w in idx.windows(2) {
        assert!(get_color(w[0]).brightness() <= get_color(w[1]).brightness());
    }
    for &i in idx.iter() {
        seen[i] = true;
    }
    assert!(seen.iter().all(|s| *s));
    let mid = sorted.get_range(100, 100);
    assert!(mid.iter().all(|&i| get_color(i).brightness() == 100));
}

#[test]
fn blend_endpoints() {
    let a = Color::new(10, 20, 30, 40);
    let b = Color::new(250, 240, 230, 220);
    assert_eq!(a.blend(b, 0), a);
    assert_eq!(a.blend(b, 255), b);
}

#[test]
fn low_alpha_colour_maps_to_index_zero() {
    let manager = PaletteManager::new();
    assert_eq!(manager.find_closest(Color::new(127, 128, 0, 0)), 0);
    assert_eq!(manager.find_closest(Color::new(128, 128, 0, 0)), 1);
}
