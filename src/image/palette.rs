//! Colours, the built-in palette, and nearest-colour search.

use vstd::prelude::*;

use crate::image::palette_data::{default_color, default_palette_entry};

verus! {

/// A colour with 8-bit alpha, red, green and blue channels.
#[derive(Debug, Clone, Copy, PartialEq, Eq, Structural)]
pub struct Color {
    pub a: u8,
    pub r: u8,
    pub g: u8,
    pub b: u8,
}

/// The packed form of a colour: alpha in the top byte, then blue, green, red.
pub open spec fn packed_abgr(c: Color) -> int {
    c.a as int * 0x1000000 + c.b as int * 0x10000 + c.g as int * 0x100 + c.r as int
}

/// The colour whose packed form is `v`.
pub open spec fn unpacked_abgr(v: u32) -> Color {
    Color {
        a: (v as int / 0x1000000) as u8,
        b: (v as int / 0x10000 % 0x100) as u8,
        g: (v as int / 0x100 % 0x100) as u8,
        r: (v as int % 0x100) as u8,
    }
}

/// Perceived brightness, `(299 R + 587 G + 114 B) / 1000`.
pub open spec fn brightness_of(c: Color) -> int {
    (299 * c.r as int + 587 * c.g as int + 114 * c.b as int) / 1000
}

/// One channel of a blend: `(x (255 - f) + y f) / 255`.
pub open spec fn blend_channel(x: u8, y: u8, f: u8) -> int {
    (x as int * (255 - f as int) + y as int * f as int) / 255
}

/// Squared Euclidean distance between two colours over red, green and blue.
pub open spec fn rgb_distance(p: Color, c: Color) -> int {
    (p.r as int - c.r as int) * (p.r as int - c.r as int)
        + (p.g as int - c.g as int) * (p.g as int - c.g as int)
        + (p.b as int - c.b as int) * (p.b as int - c.b as int)
}

/// `i` is the first index of `pal` at the least distance from `c`.
pub open spec fn is_closest_index(pal: Seq<Color>, c: Color, i: int) -> bool {
    &&& 0 <= i < pal.len()
    &&& forall|j: int| 0 <= j < pal.len() ==> rgb_distance(pal[j], c) >= rgb_distance(pal[i], c)
    &&& forall|j: int| 0 <= j < i ==> rgb_distance(pal[j], c) > rgb_distance(pal[i], c)
}

/// Upper-case hexadecimal digit of `n < 16`.
pub open spec fn hex_digit_upper(n: int) -> char {
    if n < 10 {
        digit_char(n)
    } else {
        if n == 10 { 'A' } else if n == 11 { 'B' } else if n == 12 { 'C' } else if n == 13 { 'D' } else if n == 14 { 'E' } else { 'F' }
    }
}

/// Lower-case hexadecimal digit of `n < 16`.
pub open spec fn hex_digit_lower(n: int) -> char {
    if n < 10 {
        digit_char(n)
    } else {
        if n == 10 { 'a' } else if n == 11 { 'b' } else if n == 12 { 'c' } else if n == 13 { 'd' } else if n == 14 { 'e' } else { 'f' }
    }
}

/// Decimal digit of `n < 10`.
pub open spec fn digit_char(n: int) -> char {
    if n == 0 { '0' } else if n == 1 { '1' } else if n == 2 { '2' } else if n == 3 { '3' } else if n == 4 { '4' }
    else if n == 5 { '5' } else if n == 6 { '6' } else if n == 7 { '7' } else if n == 8 { '8' } else { '9' }
}

/// Two upper-case hexadecimal digits of a byte.
pub open spec fn hex2_upper(v: u8) -> Seq<char> {
    seq![hex_digit_upper(v as int / 16), hex_digit_upper(v as int % 16)]
}

/// Two lower-case hexadecimal digits of a byte.
pub open spec fn hex2_lower(v: u8) -> Seq<char> {
    seq![hex_digit_lower(v as int / 16), hex_digit_lower(v as int % 16)]
}

/// Decimal digits of a byte, without leading zeros.
pub open spec fn decimal_of(v: u8) -> Seq<char> {
    if v < 10 {
        seq![digit_char(v as int)]
    } else if v < 100 {
        seq![digit_char(v as int / 10), digit_char(v as int % 10)]
    } else {
        seq![digit_char(v as int / 100), digit_char(v as int / 10 % 10), digit_char(v as int % 10)]
    }
}

pub(crate) fn upper_digit(n: u8) -> (s: &'static str)
    requires
        n < 16,
    ensures
        s@ == seq![hex_digit_upper(n as int)],
{
    proof {
        reveal_strlit("0");
        reveal_strlit("1");
        reveal_strlit("2");
        reveal_strlit("3");
        reveal_strlit("4");
        reveal_strlit("5");
        reveal_strlit("6");
        reveal_strlit("7");
        reveal_strlit("8");
        reveal_strlit("9");
        reveal_strlit("A");
        reveal_strlit("B");
        reveal_strlit("C");
        reveal_strlit("D");
        reveal_strlit("E");
        reveal_strlit("F");
    }
    match n {
        0 => "0",
        1 => "1",
        2 => "2",
        3 => "3",
        4 => "4",
        5 => "5",
        6 => "6",
        7 => "7",
        8 => "8",
        9 => "9",
        10 => "A",
        11 => "B",
        12 => "C",
        13 => "D",
        14 => "E",
        _ => "F",
    }
}

fn lower_digit(n: u8) -> (s: &'static str)
    requires
        n < 16,
    ensures
        s@ == seq![hex_digit_lower(n as int)],
{
    proof {
        reveal_strlit("0");
        reveal_strlit("1");
        reveal_strlit("2");
        reveal_strlit("3");
        reveal_strlit("4");
        reveal_strlit("5");
        reveal_strlit("6");
        reveal_strlit("7");
        reveal_strlit("8");
        reveal_strlit("9");
        reveal_strlit("a");
        reveal_strlit("b");
        reveal_strlit("c");
        reveal_strlit("d");
        reveal_strlit("e");
        reveal_strlit("f");
    }
    match n {
        0 => "0",
        1 => "1",
        2 => "2",
        3 => "3",
        4 => "4",
        5 => "5",
        6 => "6",
        7 => "7",
        8 => "8",
        9 => "9",
        10 => "a",
        11 => "b",
        12 => "c",
        13 => "d",
        14 => "e",
        _ => "f",
    }
}

/// Two upper-case hex digits of a byte.
fn hex_upper(v: u8) -> (s: String)
    ensures
        s@ == hex2_upper(v),
{
    let mut s = String::from_str(upper_digit(v / 16));
    push_str(&mut s, upper_digit(v % 16));
    assert(s@ =~= hex2_upper(v));
    s
}

/// Two lower-case hex digits of a byte.
fn hex_lower(v: u8) -> (s: String)
    ensures
        s@ == hex2_lower(v),
{
    let mut s = String::from_str(lower_digit(v / 16));
    push_str(&mut s, lower_digit(v % 16));
    assert(s@ =~= hex2_lower(v));
    s
}

/// Decimal digits of a byte, without leading zeros.
fn decimal(v: u8) -> (s: String)
    ensures
        s@ == decimal_of(v),
{
    proof {
        assert(forall|n: int| 0 <= n < 10 ==> hex_digit_upper(n) == digit_char(n));
    }
    if v < 10 {
        String::from_str(upper_digit(v))
    } else if v < 100 {
        let mut s = String::from_str(upper_digit(v / 10));
        push_str(&mut s, upper_digit(v % 10));
        assert(s@ =~= decimal_of(v));
        s
    } else {
        let mut s = String::from_str(upper_digit(v / 100));
        push_str(&mut s, upper_digit(v / 10 % 10));
        push_str(&mut s, upper_digit(v % 10));
        assert(s@ =~= decimal_of(v));
        s
    }
}

/// `#RRGGBB` in upper-case hex.
pub open spec fn hex_rgb_text(c: Color) -> Seq<char> {
    seq!['#'] + hex2_upper(c.r) + hex2_upper(c.g) + hex2_upper(c.b)
}

/// `rgb(R, G, B)` in decimal.
pub open spec fn rgb_text(c: Color) -> Seq<char> {
    seq!['r', 'g', 'b', '('] + decimal_of(c.r) + seq![',', ' '] + decimal_of(c.g) + seq![',', ' ']
        + decimal_of(c.b) + seq![')']
}

/// `rgba(R, G, B, A)` in decimal.
pub open spec fn rgba_text(c: Color) -> Seq<char> {
    seq!['r', 'g', 'b', 'a', '('] + decimal_of(c.r) + seq![',', ' '] + decimal_of(c.g) + seq![
        ',',
        ' ',
    ] + decimal_of(c.b) + seq![',', ' '] + decimal_of(c.a) + seq![')']
}

/// Hex digits of a colour in upper case: `RRGGBB`, with `AA` appended unless opaque.
pub open spec fn upper_hex_text(c: Color) -> Seq<char> {
    if c.a == 255 {
        hex2_upper(c.r) + hex2_upper(c.g) + hex2_upper(c.b)
    } else {
        hex2_upper(c.r) + hex2_upper(c.g) + hex2_upper(c.b) + hex2_upper(c.a)
    }
}

/// Hex digits of a colour in lower case: `rrggbb`, with `aa` appended unless opaque.
pub open spec fn lower_hex_text(c: Color) -> Seq<char> {
    if c.a == 255 {
        hex2_lower(c.r) + hex2_lower(c.g) + hex2_lower(c.b)
    } else {
        hex2_lower(c.r) + hex2_lower(c.g) + hex2_lower(c.b) + hex2_lower(c.a)
    }
}

pub(crate) fn push_str(s: &mut String, t: &str)
    ensures
        final(s)@ == old(s)@ + t@,
{
    s.append(t);
}

impl Color {
    pub fn new(a: u8, r: u8, g: u8, b: u8) -> (c: Color)
        ensures
            c == (Color { a, r, g, b }),
    {
        Color { a, r, g, b }
    }

    /// Packs the colour as `A B G R` from the top byte down.
    pub fn to_u32(self) -> (v: u32)
        ensures
            v as int == packed_abgr(self),
    {
        let (a, b, g, r) = (self.a as u32, self.b as u32, self.g as u32, self.r as u32);
        let v = a << 24 | b << 16 | g << 8 | r;
        assert(v == a * 0x1000000 + b * 0x10000 + g * 0x100 + r) by (bit_vector)
            requires
                a < 256 && b < 256 && g < 256 && r < 256,
                v == a << 24 | b << 16 | g << 8 | r,
        ;
        v
    }

    /// Unpacks a colour packed by `to_u32`.
    pub fn from_u32(value: u32) -> (c: Color)
        ensures
            c == unpacked_abgr(value),
    {
        let a = (value >> 24) & 0xFF;
        let b = (value >> 16) & 0xFF;
        let g = (value >> 8) & 0xFF;
        let r = value & 0xFF;
        assert(a == value / 0x1000000 && b == value / 0x10000 % 0x100 && g == value / 0x100 % 0x100
            && r == value % 0x100) by (bit_vector)
            requires
                a == (value >> 24) & 0xFF,
                b == (value >> 16) & 0xFF,
                g == (value >> 8) & 0xFF,
                r == value & 0xFF,
        ;
        Color { a: a as u8, b: b as u8, g: g as u8, r: r as u8 }
    }

    pub fn from_argb(a: u8, r: u8, g: u8, b: u8) -> (c: Color)
        ensures
            c == (Color { a, r, g, b }),
    {
        Color { a, r, g, b }
    }

    /// Opaque black.
    pub fn black() -> (c: Color)
        ensures
            c == (Color { a: 255, r: 0, g: 0, b: 0 }),
    {
        Color { a: 255, r: 0, g: 0, b: 0 }
    }

    /// Opaque white.
    pub fn white() -> (c: Color)
        ensures
            c == (Color { a: 255, r: 255, g: 255, b: 255 }),
    {
        Color { a: 255, r: 255, g: 255, b: 255 }
    }

    pub fn is_transparent(self) -> (t: bool)
        ensures
            t == (self.a == 0),
    {
        self.a == 0
    }

    pub fn is_opaque(self) -> (t: bool)
        ensures
            t == (self.a == 255),
    {
        self.a == 255
    }

    pub fn brightness(self) -> (v: u8)
        ensures
            v as int == brightness_of(self),
    {
        let sum = 299 * self.r as u32 + 587 * self.g as u32 + 114 * self.b as u32;
        assert(sum / 1000 <= 255) by (nonlinear_arith)
            requires
                sum == 299 * self.r as u32 + 587 * self.g as u32 + 114 * self.b as u32,
                self.r <= 255 && self.g <= 255 && self.b <= 255,
        ;
        (sum / 1000) as u8
    }

    /// Mixes `other` into `self` with weight `factor / 255`.
    pub fn blend(self, other: Color, factor: u8) -> (c: Color)
        ensures
            c.a as int == blend_channel(self.a, other.a, factor),
            c.r as int == blend_channel(self.r, other.r, factor),
            c.g as int == blend_channel(self.g, other.g, factor),
            c.b as int == blend_channel(self.b, other.b, factor),
    {
        Color {
            a: mix(self.a, other.a, factor),
            r: mix(self.r, other.r, factor),
            g: mix(self.g, other.g, factor),
            b: mix(self.b, other.b, factor),
        }
    }

    /// `#RRGGBB`, or `#RRGGBBAA` when `with_alpha`.
    pub fn to_hex_string(self, with_alpha: bool) -> (s: String)
        ensures
            s@ == if with_alpha {
                hex_rgb_text(self) + hex2_upper(self.a)
            } else {
                hex_rgb_text(self)
            },
    {
        let mut s = String::from_str("#");
        proof {
            reveal_strlit("#");
        }
        push_str(&mut s, hex_upper(self.r).as_str());
        push_str(&mut s, hex_upper(self.g).as_str());
        push_str(&mut s, hex_upper(self.b).as_str());
        if with_alpha {
            push_str(&mut s, hex_upper(self.a).as_str());
        }
        s
    }

    /// `rgb(R, G, B)`.
    pub fn to_rgb_string(self) -> (s: String)
        ensures
            s@ == rgb_text(self),
    {
        let mut s = String::from_str("rgb(");
        proof {
            reveal_strlit("rgb(");
            reveal_strlit(", ");
            reveal_strlit(")");
        }
        push_str(&mut s, decimal(self.r).as_str());
        push_str(&mut s, ", ");
        push_str(&mut s, decimal(self.g).as_str());
        push_str(&mut s, ", ");
        push_str(&mut s, decimal(self.b).as_str());
        push_str(&mut s, ")");
        s
    }

    /// `rgba(R, G, B, A)`.
    pub fn to_rgba_string(self) -> (s: String)
        ensures
            s@ == rgba_text(self),
    {
        let mut s = String::from_str("rgba(");
        proof {
            reveal_strlit("rgba(");
            reveal_strlit(", ");
            reveal_strlit(")");
        }
        push_str(&mut s, decimal(self.r).as_str());
        push_str(&mut s, ", ");
        push_str(&mut s, decimal(self.g).as_str());
        push_str(&mut s, ", ");
        push_str(&mut s, decimal(self.b).as_str());
        push_str(&mut s, ", ");
        push_str(&mut s, decimal(self.a).as_str());
        push_str(&mut s, ")");
        s
    }

    /// `#RRGGBB` for an opaque colour, `rgba(R, G, B, A)` otherwise.
    pub fn to_css_string(self) -> (s: String)
        ensures
            s@ == if self.a == 255 {
                hex_rgb_text(self)
            } else {
                rgba_text(self)
            },
    {
        if self.a == 255 {
            self.to_hex_string(false)
        } else {
            self.to_rgba_string()
        }
    }

    /// `Color(#RRGGBB)`, or `Color(#RRGGBBAA)` unless opaque.
    pub fn display_string(self) -> (s: String)
        ensures
            s@ == seq!['C', 'o', 'l', 'o', 'r', '(', '#'] + upper_hex_text(self) + seq![')'],
    {
        let mut s = String::from_str("Color(#");
        proof {
            reveal_strlit("Color(#");
            reveal_strlit(")");
        }
        push_str(&mut s, self.upper_hex_string().as_str());
        push_str(&mut s, ")");
        s
    }

    /// `rrggbb`, or `rrggbbaa` unless opaque.
    pub fn lower_hex_string(self) -> (s: String)
        ensures
            s@ == lower_hex_text(self),
    {
        let mut s = hex_lower(self.r);
        push_str(&mut s, hex_lower(self.g).as_str());
        push_str(&mut s, hex_lower(self.b).as_str());
        if self.a != 255 {
            push_str(&mut s, hex_lower(self.a).as_str());
        }
        s
    }

    /// `RRGGBB`, or `RRGGBBAA` unless opaque.
    pub fn upper_hex_string(self) -> (s: String)
        ensures
            s@ == upper_hex_text(self),
    {
        let mut s = hex_upper(self.r);
        push_str(&mut s, hex_upper(self.g).as_str());
        push_str(&mut s, hex_upper(self.b).as_str());
        if self.a != 255 {
            push_str(&mut s, hex_upper(self.a).as_str());
        }
        s
    }
}

fn mix(x: u8, y: u8, f: u8) -> (v: u8)
    ensures
        v as int == blend_channel(x, y, f),
{
    let (x, y, f) = (x as u32, y as u32, f as u32);
    assert(x * (255 - f) + y * f <= 255 * 255) by (nonlinear_arith)
        requires
            x <= 255 && y <= 255 && f <= 255,
    ;
    ((x * (255 - f) + y * f) / 255) as u8
}

/// The built-in palette: 256 colours.
pub fn create_default_palette() -> (p: Vec<Color>)
    ensures
        p@.len() == 256,
        forall|i: int| 0 <= i < 256 ==> p@[i] == default_color(i),
{
    let mut p: Vec<Color> = Vec::new();
    let mut i: usize = 0;
    while i < 256
        invariant
            i <= 256,
            p@.len() == i,
            forall|k: int| 0 <= k < i ==> p@[k] == default_color(k),
        decreases 256 - i,
    {
        p.push(default_palette_entry(i));
        i = i + 1;
    }
    p
}

/// Entry `index` of the built-in palette.
pub fn get_color(index: usize) -> (c: Color)
    requires
        index < 256,
    ensures
        c == default_color(index as int),
{
    default_palette_entry(index)
}

/// Entry `index` of the built-in palette, packed as by `Color::to_u32`.
pub fn get_color_u32(index: usize) -> (v: u32)
    requires
        index < 256,
    ensures
        v as int == packed_abgr(default_color(index as int)),
{
    default_palette_entry(index).to_u32()
}

/// The colours of the built-in palette in index order.
pub fn iter_palette() -> (p: Vec<Color>)
    ensures
        p@.len() == 256,
        forall|i: int| 0 <= i < 256 ==> p@[i] == default_color(i),
{
    create_default_palette()
}

/// First index of `pal` at the least squared RGB distance from `color`.
pub fn closest_in(pal: &Vec<Color>, color: Color) -> (best: usize)
    requires
        pal@.len() > 0,
    ensures
        is_closest_index(pal@, color, best as int),
{
    let mut best: usize = 0;
    let mut best_distance: u32 = distance(pal[0], color);
    let mut i: usize = 1;
    while i < pal.len()
        invariant
            1 <= i <= pal@.len(),
            best < i,
            best_distance as int == rgb_distance(pal@[best as int], color),
            forall|j: int| 0 <= j < i ==> rgb_distance(pal@[j], color) >= best_distance,
            forall|j: int| 0 <= j < best ==> rgb_distance(pal@[j], color) > best_distance,
        decreases pal@.len() - i,
    {
        let d = distance(pal[i], color);
        if d < best_distance {
            best_distance = d;
            best = i;
        }
        i = i + 1;
    }
    best
}

/// Squared RGB distance, which is at most `3 * 255 * 255`.
pub fn distance(p: Color, c: Color) -> (d: u32)
    ensures
        d as int == rgb_distance(p, c),
{
    let dr = p.r as i32 - c.r as i32;
    let dg = p.g as i32 - c.g as i32;
    let db = p.b as i32 - c.b as i32;
    assert(0 <= dr * dr <= 65025) by (nonlinear_arith)
        requires
            -255 <= dr <= 255,
    ;
    assert(0 <= dg * dg <= 65025) by (nonlinear_arith)
        requires
            -255 <= dg <= 255,
    ;
    assert(0 <= db * db <= 65025) by (nonlinear_arith)
        requires
            -255 <= db <= 255,
    ;
    (dr * dr + dg * dg + db * db) as u32
}

/// The indices of the built-in palette in order of brightness; equal
/// brightness keeps index order.
pub struct BrightnessSortedPalette {
    indices: Vec<usize>,
}

/// Brightness of entry `i` of the built-in palette.
pub open spec fn default_brightness(i: int) -> int {
    brightness_of(default_color(i))
}

/// `s` lists indices of the built-in palette by brightness, then by index.
pub open spec fn brightness_ordered(s: Seq<usize>) -> bool {
    forall|j: int, k: int|
        0 <= j < k < s.len() ==> (default_brightness(s[j] as int) < default_brightness(s[k] as int)
            || (default_brightness(s[j] as int) == default_brightness(s[k] as int) && s[j] < s[k]))
}

impl BrightnessSortedPalette {
    pub closed spec fn view(&self) -> Seq<usize> {
        self.indices@
    }

    /// Every palette index once, ordered by brightness and then by index.
    pub open spec fn wf(&self) -> bool {
        &&& self@.len() == 256
        &&& forall|j: int| 0 <= j < 256 ==> self@[j] < 256
        &&& brightness_ordered(self@)
    }

    pub fn new() -> (p: Self)
        ensures
            p.wf(),
    {
        let mut indices: Vec<usize> = Vec::new();
        let mut level: u32 = 0;
        while level < 256
            invariant
                level <= 256,
                indices@.len() == count_below(level as int, 256),
                forall|j: int| 0 <= j < indices@.len() ==> indices@[j] < 256,
                forall|j: int| 0 <= j < indices@.len() ==> default_brightness(indices@[j] as int) < level,
                brightness_ordered(indices@),
            decreases 256 - level,
        {
            let start_len = indices.len();
            let mut i: usize = 0;
            while i < 256
                invariant
                    level < 256,
                    i <= 256,
                    start_len == count_below(level as int, 256),
                    indices@.len() == start_len + count_at(level as int, i as int),
                    forall|j: int| 0 <= j < indices@.len() ==> indices@[j] < 256,
                    forall|j: int| 0 <= j < start_len ==> default_brightness(indices@[j] as int) < level,
                    forall|j: int|
                        start_len <= j < indices@.len() ==> default_brightness(indices@[j] as int) == level
                            && indices@[j] < i,
                    brightness_ordered(indices@),
                decreases 256 - i,
            {
                let c = default_palette_entry(i);
                if c.brightness() as u32 == level {
                    indices.push(i);
                }
                proof {
                    lemma_count_at_step(level as int, i as int);
                }
                i = i + 1;
            }
            proof {
                lemma_count_below_step(level as int, 256);
            }
            level = level + 1;
        }
        proof {
            lemma_count_below_all(256);
        }
        BrightnessSortedPalette { indices }
    }

    /// Indices whose brightness lies in `min_brightness..=max_brightness`, in order.
    pub fn get_range(&self, min_brightness: u8, max_brightness: u8) -> (r: Vec<usize>)
        requires
            self.wf(),
        ensures
            r@ == self@.filter(
                |i: usize| min_brightness <= default_brightness(i as int) <= max_brightness,
            ),
    {
        let mut r: Vec<usize> = Vec::new();
        let mut k: usize = 0;
        while k < self.indices.len()
            invariant
                self.wf(),
                k <= self@.len(),
                r@ == self@.take(k as int).filter(
                    |i: usize| min_brightness <= default_brightness(i as int) <= max_brightness,
                ),
            decreases self@.len() - k,
        {
            let i = self.indices[k];
            let b = default_palette_entry(i).brightness();
            proof {
                assert(self@.take(k + 1).drop_last() =~= self@.take(k as int));
                assert(self@.take(k + 1).last() == i);
                reveal(Seq::filter);
            }
            if min_brightness <= b && b <= max_brightness {
                r.push(i);
            }
            k = k + 1;
        }
        proof {
            assert(self@.take(self@.len() as int) == self@);
        }
        r
    }

    /// All 256 indices in brightness order.
    pub fn indices(&self) -> (r: &Vec<usize>)
        ensures
            r@ == self@,
    {
        &self.indices
    }
}

/// Number of palette indices below `n` whose brightness is `level`.
pub open spec fn count_at(level: int, n: int) -> nat
    decreases n,
{
    if n <= 0 {
        0
    } else {
        count_at(level, n - 1) + if default_brightness(n - 1) == level {
            1nat
        } else {
            0nat
        }
    }
}

/// Number of palette indices below `n` whose brightness is below `level`.
pub open spec fn count_below(level: int, n: int) -> nat
    decreases level,
{
    if level <= 0 {
        0
    } else {
        count_below(level - 1, n) + count_at(level - 1, n)
    }
}

proof fn lemma_count_at_step(level: int, i: int)
    requires
        0 <= i,
    ensures
        count_at(level, i + 1) == count_at(level, i) + if default_brightness(i) == level {
            1nat
        } else {
            0nat
        },
{
}

proof fn lemma_count_below_step(level: int, n: int)
    requires
        0 <= level,
    ensures
        count_below(level + 1, n) == count_below(level, n) + count_at(level, n),
{
}

/// Counting every brightness level below 256 counts every index once.
proof fn lemma_count_below_all(n: int)
    requires
        0 <= n <= 256,
    ensures
        count_below(256, n) == n,
    decreases n,
{
    if n > 0 {
        lemma_count_below_all(n - 1);
        lemma_count_below_split(256, n);
    } else {
        lemma_count_below_none(256);
    }
}

proof fn lemma_count_below_none(level: int)
    requires
        0 <= level,
    ensures
        count_below(level, 0) == 0,
    decreases level,
{
    if level > 0 {
        lemma_count_below_none(level - 1);
    }
}

proof fn lemma_count_below_split(level: int, n: int)
    requires
        0 <= level <= 256,
        1 <= n <= 256,
    ensures
        count_below(level, n) == count_below(level, n - 1) + if default_brightness(n - 1) < level {
            1nat
        } else {
            0nat
        },
    decreases level,
{
    if level > 0 {
        lemma_count_below_split(level - 1, n);
    }
    lemma_brightness_range(n - 1);
}

proof fn lemma_brightness_range(i: int)
    ensures
        0 <= default_brightness(i) < 256,
{
    let c = default_color(i);
    assert(0 <= 299 * c.r as int + 587 * c.g as int + 114 * c.b as int <= 255000) by (nonlinear_arith)
        requires
            0 <= c.r <= 255 && 0 <= c.g <= 255 && 0 <= c.b <= 255,
    ;
}

/// A palette together with the brightness ordering of the built-in one.
pub struct PaletteManager {
    pub palette: Vec<Color>,
    pub brightness_sorted: BrightnessSortedPalette,
}

impl PaletteManager {
    pub open spec fn view(&self) -> Seq<Color> {
        self.palette@
    }

    pub open spec fn wf(&self) -> bool {
        self.palette@.len() == 256 && self.brightness_sorted.wf()
    }

    /// A manager of the built-in palette.
    pub fn new() -> (m: Self)
        ensures
            m.wf(),
            forall|i: int| 0 <= i < 256 ==> m@[i] == default_color(i),
    {
        PaletteManager { palette: create_default_palette(), brightness_sorted: BrightnessSortedPalette::new() }
    }

    /// A manager of a palette of 256 colours.
    pub fn with_palette(palette: Vec<Color>) -> (m: Self)
        requires
            palette@.len() == 256,
        ensures
            m.wf(),
            m@ == palette@,
    {
        PaletteManager { palette, brightness_sorted: BrightnessSortedPalette::new() }
    }

    pub fn palette(&self) -> (p: &Vec<Color>)
        ensures
            p@ == self@,
    {
        &self.palette
    }

    pub fn get(&self, index: usize) -> (c: Color)
        requires
            self.wf(),
            index < 256,
        ensures
            c == self@[index as int],
    {
        self.palette[index]
    }

    pub fn brightness_sorted(&self) -> (b: &BrightnessSortedPalette)
        requires
            self.wf(),
        ensures
            b.wf(),
    {
        &self.brightness_sorted
    }

    /// Index 0 (transparent) for a colour with alpha below 128, else the
    /// first palette index at the least squared RGB distance from `color`.
    pub fn find_closest(&self, color: Color) -> (i: usize)
        requires
            self.wf(),
        ensures
            color.a < 128 ==> i == 0,
            color.a >= 128 ==> is_closest_index(self@, color, i as int),
    {
        if color.a < 128 {
            return 0;
        }
        closest_in(&self.palette, color)
    }
}

/// An exact colour of a palette is found at its own index, provided that no
/// earlier index holds the same red, green and blue; `find_closest` returns
/// such an index for every colour with alpha of 128 or more.
pub proof fn lemma_exact_color_found(pal: Seq<Color>, i: int, found: int)
    requires
        0 <= i < pal.len(),
        forall|j: int|
            0 <= j < i ==> !(pal[j].r == pal[i].r && pal[j].g == pal[i].g && pal[j].b == pal[i].b),
        is_closest_index(pal, pal[i], found),
    ensures
        found == i,
{
    let c = pal[i];
    assert(rgb_distance(c, c) == 0);
    let f = pal[found];
    assert(rgb_distance(f, c) >= 0) by (nonlinear_arith);
    assert(rgb_distance(f, c) == 0);
    assert(f.r == c.r && f.g == c.g && f.b == c.b) by (nonlinear_arith)
        requires
            (f.r as int - c.r as int) * (f.r as int - c.r as int) + (f.g as int - c.g as int) * (
            f.g as int - c.g as int) + (f.b as int - c.b as int) * (f.b as int - c.b as int) == 0,
    ;
    if found > i {
        assert(rgb_distance(pal[i], c) > rgb_distance(f, c));
    }
}

impl Default for BrightnessSortedPalette {
    fn default() -> (p: Self)
        ensures
            p.wf(),
    {
        BrightnessSortedPalette::new()
    }
}

impl Default for PaletteManager {
    fn default() -> (m: Self)
        ensures
            m.wf(),
            forall|i: int| 0 <= i < 256 ==> m@[i] == default_color(i),
    {
        PaletteManager::new()
    }
}

} // verus!
