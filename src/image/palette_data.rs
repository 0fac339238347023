//! The built-in 256-colour palette of the game's asset libraries.

use vstd::prelude::*;

use crate::image::palette::Color;

verus! {

/// Entry `i` of the built-in palette, for `0 <= i < 256`.
pub open spec fn default_color(i: int) -> Color {
    default_color_at(i as usize)
}

/// Entry `i` of the built-in palette; the last entry for `i >= 255`.
pub open spec fn default_color_at(i: usize) -> Color {
    match i {
        0 => Color { a: 0, r: 0, g: 0, b: 0 },
        1 => Color { a: 255, r: 128, g: 0, b: 0 },
        2 => Color { a: 255, r: 0, g: 128, b: 0 },
        3 => Color { a: 255, r: 128, g: 128, b: 0 },
        4 => Color { a: 255, r: 0, g: 0, b: 128 },
        5 => Color { a: 255, r: 128, g: 0, b: 128 },
        6 => Color { a: 255, r: 0, g: 128, b: 128 },
        7 => Color { a: 255, r: 192, g: 192, b: 192 },
        8 => Color { a: 255, r: 85, g: 128, b: 151 },
        9 => Color { a: 255, r: 157, g: 185, b: 200 },
        10 => Color { a: 255, r: 123, g: 115, b: 115 },
        11 => Color { a: 255, r: 45, g: 41, b: 41 },
        12 => Color { a: 255, r: 90, g: 82, b: 82 },
        13 => Color { a: 255, r: 99, g: 90, b: 90 },
        14 => Color { a: 255, r: 66, g: 57, b: 57 },
        15 => Color { a: 255, r: 29, g: 24, b: 24 },
        16 => Color { a: 255, r: 24, g: 16, b: 16 },
        17 => Color { a: 255, r: 41, g: 24, b: 24 },
        18 => Color { a: 255, r: 16, g: 8, b: 8 },
        19 => Color { a: 255, r: 242, g: 121, b: 113 },
        20 => Color { a: 255, r: 225, g: 103, b: 95 },
        21 => Color { a: 255, r: 255, g: 90, b: 90 },
        22 => Color { a: 255, r: 255, g: 49, b: 49 },
        23 => Color { a: 255, r: 214, g: 90, b: 82 },
        24 => Color { a: 255, r: 148, g: 16, b: 0 },
        25 => Color { a: 255, r: 148, g: 41, b: 24 },
        26 => Color { a: 255, r: 57, g: 8, b: 0 },
        27 => Color { a: 255, r: 115, g: 16, b: 0 },
        28 => Color { a: 255, r: 181, g: 24, b: 0 },
        29 => Color { a: 255, r: 189, g: 99, b: 82 },
        30 => Color { a: 255, r: 66, g: 24, b: 16 },
        31 => Color { a: 255, r: 255, g: 170, b: 153 },
        32 => Color { a: 255, r: 90, g: 16, b: 0 },
        33 => Color { a: 255, r: 115, g: 57, b: 41 },
        34 => Color { a: 255, r: 165, g: 74, b: 49 },
        35 => Color { a: 255, r: 148, g: 123, b: 115 },
        36 => Color { a: 255, r: 189, g: 82, b: 49 },
        37 => Color { a: 255, r: 82, g: 33, b: 16 },
        38 => Color { a: 255, r: 123, g: 49, b: 24 },
        39 => Color { a: 255, r: 45, g: 24, b: 16 },
        40 => Color { a: 255, r: 140, g: 74, b: 49 },
        41 => Color { a: 255, r: 148, g: 41, b: 0 },
        42 => Color { a: 255, r: 189, g: 49, b: 0 },
        43 => Color { a: 255, r: 198, g: 115, b: 82 },
        44 => Color { a: 255, r: 107, g: 49, b: 24 },
        45 => Color { a: 255, r: 198, g: 107, b: 66 },
        46 => Color { a: 255, r: 206, g: 74, b: 0 },
        47 => Color { a: 255, r: 165, g: 99, b: 57 },
        48 => Color { a: 255, r: 90, g: 49, b: 24 },
        49 => Color { a: 255, r: 42, g: 16, b: 0 },
        50 => Color { a: 255, r: 21, g: 8, b: 0 },
        51 => Color { a: 255, r: 58, g: 24, b: 0 },
        52 => Color { a: 255, r: 8, g: 0, b: 0 },
        53 => Color { a: 255, r: 41, g: 0, b: 0 },
        54 => Color { a: 255, r: 74, g: 0, b: 0 },
        55 => Color { a: 255, r: 157, g: 0, b: 0 },
        56 => Color { a: 255, r: 220, g: 0, b: 0 },
        57 => Color { a: 255, r: 222, g: 0, b: 0 },
        58 => Color { a: 255, r: 251, g: 0, b: 0 },
        59 => Color { a: 255, r: 156, g: 115, b: 82 },
        60 => Color { a: 255, r: 148, g: 107, b: 74 },
        61 => Color { a: 255, r: 115, g: 74, b: 41 },
        62 => Color { a: 255, r: 82, g: 49, b: 24 },
        63 => Color { a: 255, r: 140, g: 74, b: 24 },
        64 => Color { a: 255, r: 136, g: 68, b: 17 },
        65 => Color { a: 255, r: 74, g: 33, b: 0 },
        66 => Color { a: 255, r: 33, g: 24, b: 16 },
        67 => Color { a: 255, r: 214, g: 148, b: 90 },
        68 => Color { a: 255, r: 198, g: 107, b: 33 },
        69 => Color { a: 255, r: 239, g: 107, b: 0 },
        70 => Color { a: 255, r: 255, g: 119, b: 0 },
        71 => Color { a: 255, r: 165, g: 148, b: 132 },
        72 => Color { a: 255, r: 66, g: 49, b: 33 },
        73 => Color { a: 255, r: 24, g: 16, b: 8 },
        74 => Color { a: 255, r: 41, g: 24, b: 8 },
        75 => Color { a: 255, r: 33, g: 16, b: 0 },
        76 => Color { a: 255, r: 57, g: 41, b: 24 },
        77 => Color { a: 255, r: 140, g: 99, b: 57 },
        78 => Color { a: 255, r: 66, g: 41, b: 16 },
        79 => Color { a: 255, r: 107, g: 66, b: 24 },
        80 => Color { a: 255, r: 123, g: 74, b: 24 },
        81 => Color { a: 255, r: 148, g: 74, b: 0 },
        82 => Color { a: 255, r: 140, g: 132, b: 123 },
        83 => Color { a: 255, r: 107, g: 99, b: 90 },
        84 => Color { a: 255, r: 74, g: 66, b: 57 },
        85 => Color { a: 255, r: 41, g: 33, b: 24 },
        86 => Color { a: 255, r: 70, g: 57, b: 41 },
        87 => Color { a: 255, r: 181, g: 165, b: 148 },
        88 => Color { a: 255, r: 123, g: 107, b: 90 },
        89 => Color { a: 255, r: 206, g: 177, b: 148 },
        90 => Color { a: 255, r: 165, g: 140, b: 115 },
        91 => Color { a: 255, r: 140, g: 115, b: 90 },
        92 => Color { a: 255, r: 181, g: 148, b: 115 },
        93 => Color { a: 255, r: 214, g: 165, b: 115 },
        94 => Color { a: 255, r: 239, g: 165, b: 74 },
        95 => Color { a: 255, r: 239, g: 198, b: 140 },
        96 => Color { a: 255, r: 123, g: 99, b: 66 },
        97 => Color { a: 255, r: 107, g: 86, b: 57 },
        98 => Color { a: 255, r: 189, g: 148, b: 90 },
        99 => Color { a: 255, r: 99, g: 57, b: 0 },
        100 => Color { a: 255, r: 214, g: 198, b: 173 },
        101 => Color { a: 255, r: 82, g: 66, b: 41 },
        102 => Color { a: 255, r: 148, g: 99, b: 24 },
        103 => Color { a: 255, r: 239, g: 214, b: 173 },
        104 => Color { a: 255, r: 165, g: 140, b: 99 },
        105 => Color { a: 255, r: 99, g: 90, b: 74 },
        106 => Color { a: 255, r: 189, g: 165, b: 123 },
        107 => Color { a: 255, r: 90, g: 66, b: 24 },
        108 => Color { a: 255, r: 189, g: 140, b: 49 },
        109 => Color { a: 255, r: 53, g: 49, b: 41 },
        110 => Color { a: 255, r: 148, g: 132, b: 99 },
        111 => Color { a: 255, r: 123, g: 107, b: 74 },
        112 => Color { a: 255, r: 165, g: 140, b: 90 },
        113 => Color { a: 255, r: 90, g: 74, b: 41 },
        114 => Color { a: 255, r: 156, g: 123, b: 57 },
        115 => Color { a: 255, r: 66, g: 49, b: 16 },
        116 => Color { a: 255, r: 239, g: 173, b: 33 },
        117 => Color { a: 255, r: 24, g: 16, b: 0 },
        118 => Color { a: 255, r: 41, g: 33, b: 0 },
        119 => Color { a: 255, r: 156, g: 107, b: 0 },
        120 => Color { a: 255, r: 148, g: 132, b: 90 },
        121 => Color { a: 255, r: 82, g: 66, b: 24 },
        122 => Color { a: 255, r: 107, g: 90, b: 41 },
        123 => Color { a: 255, r: 123, g: 99, b: 33 },
        124 => Color { a: 255, r: 156, g: 123, b: 33 },
        125 => Color { a: 255, r: 222, g: 165, b: 0 },
        126 => Color { a: 255, r: 90, g: 82, b: 57 },
        127 => Color { a: 255, r: 49, g: 41, b: 16 },
        128 => Color { a: 255, r: 206, g: 189, b: 123 },
        129 => Color { a: 255, r: 99, g: 90, b: 57 },
        130 => Color { a: 255, r: 148, g: 132, b: 74 },
        131 => Color { a: 255, r: 198, g: 165, b: 41 },
        132 => Color { a: 255, r: 16, g: 156, b: 24 },
        133 => Color { a: 255, r: 66, g: 140, b: 74 },
        134 => Color { a: 255, r: 49, g: 140, b: 66 },
        135 => Color { a: 255, r: 16, g: 148, b: 41 },
        136 => Color { a: 255, r: 8, g: 24, b: 16 },
        137 => Color { a: 255, r: 8, g: 24, b: 24 },
        138 => Color { a: 255, r: 8, g: 41, b: 16 },
        139 => Color { a: 255, r: 24, g: 66, b: 41 },
        140 => Color { a: 255, r: 165, g: 181, b: 173 },
        141 => Color { a: 255, r: 107, g: 115, b: 115 },
        142 => Color { a: 255, r: 24, g: 41, b: 41 },
        143 => Color { a: 255, r: 24, g: 66, b: 74 },
        144 => Color { a: 255, r: 49, g: 66, b: 74 },
        145 => Color { a: 255, r: 99, g: 198, b: 222 },
        146 => Color { a: 255, r: 68, g: 221, b: 255 },
        147 => Color { a: 255, r: 140, g: 214, b: 239 },
        148 => Color { a: 255, r: 115, g: 107, b: 57 },
        149 => Color { a: 255, r: 247, g: 222, b: 57 },
        150 => Color { a: 255, r: 247, g: 239, b: 140 },
        151 => Color { a: 255, r: 247, g: 231, b: 0 },
        152 => Color { a: 255, r: 107, g: 107, b: 90 },
        153 => Color { a: 255, r: 90, g: 140, b: 165 },
        154 => Color { a: 255, r: 57, g: 181, b: 239 },
        155 => Color { a: 255, r: 74, g: 156, b: 206 },
        156 => Color { a: 255, r: 49, g: 132, b: 181 },
        157 => Color { a: 255, r: 49, g: 82, b: 107 },
        158 => Color { a: 255, r: 222, g: 222, b: 214 },
        159 => Color { a: 255, r: 189, g: 189, b: 181 },
        160 => Color { a: 255, r: 140, g: 140, b: 132 },
        161 => Color { a: 255, r: 247, g: 247, b: 222 },
        162 => Color { a: 255, r: 0, g: 8, b: 24 },
        163 => Color { a: 255, r: 8, g: 24, b: 57 },
        164 => Color { a: 255, r: 8, g: 16, b: 41 },
        165 => Color { a: 255, r: 8, g: 24, b: 0 },
        166 => Color { a: 255, r: 8, g: 41, b: 0 },
        167 => Color { a: 255, r: 0, g: 82, b: 165 },
        168 => Color { a: 255, r: 0, g: 123, b: 222 },
        169 => Color { a: 255, r: 16, g: 41, b: 74 },
        170 => Color { a: 255, r: 16, g: 57, b: 107 },
        171 => Color { a: 255, r: 16, g: 82, b: 140 },
        172 => Color { a: 255, r: 33, g: 90, b: 165 },
        173 => Color { a: 255, r: 16, g: 49, b: 90 },
        174 => Color { a: 255, r: 16, g: 66, b: 132 },
        175 => Color { a: 255, r: 49, g: 82, b: 132 },
        176 => Color { a: 255, r: 24, g: 33, b: 49 },
        177 => Color { a: 255, r: 74, g: 90, b: 123 },
        178 => Color { a: 255, r: 82, g: 107, b: 165 },
        179 => Color { a: 255, r: 41, g: 57, b: 99 },
        180 => Color { a: 255, r: 16, g: 74, b: 222 },
        181 => Color { a: 255, r: 41, g: 41, b: 33 },
        182 => Color { a: 255, r: 74, g: 74, b: 57 },
        183 => Color { a: 255, r: 41, g: 41, b: 24 },
        184 => Color { a: 255, r: 74, g: 74, b: 41 },
        185 => Color { a: 255, r: 123, g: 123, b: 66 },
        186 => Color { a: 255, r: 156, g: 156, b: 74 },
        187 => Color { a: 255, r: 90, g: 90, b: 41 },
        188 => Color { a: 255, r: 66, g: 66, b: 20 },
        189 => Color { a: 255, r: 57, g: 57, b: 0 },
        190 => Color { a: 255, r: 89, g: 89, b: 0 },
        191 => Color { a: 255, r: 202, g: 53, b: 44 },
        192 => Color { a: 255, r: 107, g: 115, b: 33 },
        193 => Color { a: 255, r: 41, g: 49, b: 0 },
        194 => Color { a: 255, r: 49, g: 57, b: 16 },
        195 => Color { a: 255, r: 49, g: 57, b: 24 },
        196 => Color { a: 255, r: 66, g: 74, b: 0 },
        197 => Color { a: 255, r: 82, g: 99, b: 24 },
        198 => Color { a: 255, r: 90, g: 115, b: 41 },
        199 => Color { a: 255, r: 49, g: 74, b: 24 },
        200 => Color { a: 255, r: 24, g: 33, b: 0 },
        201 => Color { a: 255, r: 24, g: 49, b: 0 },
        202 => Color { a: 255, r: 24, g: 57, b: 16 },
        203 => Color { a: 255, r: 99, g: 132, b: 74 },
        204 => Color { a: 255, r: 107, g: 189, b: 74 },
        205 => Color { a: 255, r: 99, g: 181, b: 74 },
        206 => Color { a: 255, r: 99, g: 189, b: 74 },
        207 => Color { a: 255, r: 90, g: 156, b: 74 },
        208 => Color { a: 255, r: 74, g: 140, b: 57 },
        209 => Color { a: 255, r: 99, g: 198, b: 74 },
        210 => Color { a: 255, r: 99, g: 214, b: 74 },
        211 => Color { a: 255, r: 82, g: 132, b: 74 },
        212 => Color { a: 255, r: 49, g: 115, b: 41 },
        213 => Color { a: 255, r: 99, g: 198, b: 90 },
        214 => Color { a: 255, r: 82, g: 189, b: 74 },
        215 => Color { a: 255, r: 16, g: 255, b: 0 },
        216 => Color { a: 255, r: 24, g: 41, b: 24 },
        217 => Color { a: 255, r: 74, g: 136, b: 74 },
        218 => Color { a: 255, r: 74, g: 231, b: 74 },
        219 => Color { a: 255, r: 0, g: 90, b: 0 },
        220 => Color { a: 255, r: 0, g: 136, b: 0 },
        221 => Color { a: 255, r: 0, g: 148, b: 0 },
        222 => Color { a: 255, r: 0, g: 222, b: 0 },
        223 => Color { a: 255, r: 0, g: 238, b: 0 },
        224 => Color { a: 255, r: 0, g: 251, b: 0 },
        225 => Color { a: 255, r: 74, g: 90, b: 148 },
        226 => Color { a: 255, r: 99, g: 115, b: 181 },
        227 => Color { a: 255, r: 123, g: 140, b: 214 },
        228 => Color { a: 255, r: 107, g: 123, b: 214 },
        229 => Color { a: 255, r: 119, g: 136, b: 255 },
        230 => Color { a: 255, r: 198, g: 198, b: 206 },
        231 => Color { a: 255, r: 148, g: 148, b: 156 },
        232 => Color { a: 255, r: 156, g: 148, b: 198 },
        233 => Color { a: 255, r: 49, g: 49, b: 57 },
        234 => Color { a: 255, r: 41, g: 24, b: 132 },
        235 => Color { a: 255, r: 24, g: 0, b: 132 },
        236 => Color { a: 255, r: 74, g: 66, b: 82 },
        237 => Color { a: 255, r: 82, g: 66, b: 123 },
        238 => Color { a: 255, r: 99, g: 90, b: 115 },
        239 => Color { a: 255, r: 206, g: 181, b: 247 },
        240 => Color { a: 255, r: 140, g: 123, b: 156 },
        241 => Color { a: 255, r: 119, g: 34, b: 204 },
        242 => Color { a: 255, r: 221, g: 170, b: 255 },
        243 => Color { a: 255, r: 240, g: 180, b: 42 },
        244 => Color { a: 255, r: 223, g: 0, b: 159 },
        245 => Color { a: 255, r: 227, g: 23, b: 179 },
        246 => Color { a: 255, r: 255, g: 251, b: 240 },
        247 => Color { a: 255, r: 160, g: 160, b: 164 },
        248 => Color { a: 255, r: 128, g: 128, b: 128 },
        249 => Color { a: 255, r: 255, g: 0, b: 0 },
        250 => Color { a: 255, r: 0, g: 255, b: 0 },
        251 => Color { a: 255, r: 255, g: 255, b: 0 },
        252 => Color { a: 255, r: 0, g: 0, b: 255 },
        253 => Color { a: 255, r: 255, g: 0, b: 255 },
        254 => Color { a: 255, r: 0, g: 255, b: 255 },
        _ => Color { a: 255, r: 255, g: 255, b: 255 },
    }
}

/// Entry `index` of the built-in palette.
pub fn default_palette_entry(index: usize) -> (c: Color)
    requires
        index < 256,
    ensures
        c == default_color(index as int),
{
    match index {
        0 => Color { a: 0, r: 0, g: 0, b: 0 },
        1 => Color { a: 255, r: 128, g: 0, b: 0 },
        2 => Color { a: 255, r: 0, g: 128, b: 0 },
        3 => Color { a: 255, r: 128, g: 128, b: 0 },
        4 => Color { a: 255, r: 0, g: 0, b: 128 },
        5 => Color { a: 255, r: 128, g: 0, b: 128 },
        6 => Color { a: 255, r: 0, g: 128, b: 128 },
        7 => Color { a: 255, r: 192, g: 192, b: 192 },
        8 => Color { a: 255, r: 85, g: 128, b: 151 },
        9 => Color { a: 255, r: 157, g: 185, b: 200 },
        10 => Color { a: 255, r: 123, g: 115, b: 115 },
        11 => Color { a: 255, r: 45, g: 41, b: 41 },
        12 => Color { a: 255, r: 90, g: 82, b: 82 },
        13 => Color { a: 255, r: 99, g: 90, b: 90 },
        14 => Color { a: 255, r: 66, g: 57, b: 57 },
        15 => Color { a: 255, r: 29, g: 24, b: 24 },
        16 => Color { a: 255, r: 24, g: 16, b: 16 },
        17 => Color { a: 255, r: 41, g: 24, b: 24 },
        18 => Color { a: 255, r: 16, g: 8, b: 8 },
        19 => Color { a: 255, r: 242, g: 121, b: 113 },
        20 => Color { a: 255, r: 225, g: 103, b: 95 },
        21 => Color { a: 255, r: 255, g: 90, b: 90 },
        22 => Color { a: 255, r: 255, g: 49, b: 49 },
        23 => Color { a: 255, r: 214, g: 90, b: 82 },
        24 => Color { a: 255, r: 148, g: 16, b: 0 },
        25 => Color { a: 255, r: 148, g: 41, b: 24 },
        26 => Color { a: 255, r: 57, g: 8, b: 0 },
        27 => Color { a: 255, r: 115, g: 16, b: 0 },
        28 => Color { a: 255, r: 181, g: 24, b: 0 },
        29 => Color { a: 255, r: 189, g: 99, b: 82 },
        30 => Color { a: 255, r: 66, g: 24, b: 16 },
        31 => Color { a: 255, r: 255, g: 170, b: 153 },
        32 => Color { a: 255, r: 90, g: 16, b: 0 },
        33 => Color { a: 255, r: 115, g: 57, b: 41 },
        34 => Color { a: 255, r: 165, g: 74, b: 49 },
        35 => Color { a: 255, r: 148, g: 123, b: 115 },
        36 => Color { a: 255, r: 189, g: 82, b: 49 },
        37 => Color { a: 255, r: 82, g: 33, b: 16 },
        38 => Color { a: 255, r: 123, g: 49, b: 24 },
        39 => Color { a: 255, r: 45, g: 24, b: 16 },
        40 => Color { a: 255, r: 140, g: 74, b: 49 },
        41 => Color { a: 255, r: 148, g: 41, b: 0 },
        42 => Color { a: 255, r: 189, g: 49, b: 0 },
        43 => Color { a: 255, r: 198, g: 115, b: 82 },
        44 => Color { a: 255, r: 107, g: 49, b: 24 },
        45 => Color { a: 255, r: 198, g: 107, b: 66 },
        46 => Color { a: 255, r: 206, g: 74, b: 0 },
        47 => Color { a: 255, r: 165, g: 99, b: 57 },
        48 => Color { a: 255, r: 90, g: 49, b: 24 },
        49 => Color { a: 255, r: 42, g: 16, b: 0 },
        50 => Color { a: 255, r: 21, g: 8, b: 0 },
        51 => Color { a: 255, r: 58, g: 24, b: 0 },
        52 => Color { a: 255, r: 8, g: 0, b: 0 },
        53 => Color { a: 255, r: 41, g: 0, b: 0 },
        54 => Color { a: 255, r: 74, g: 0, b: 0 },
        55 => Color { a: 255, r: 157, g: 0, b: 0 },
        56 => Color { a: 255, r: 220, g: 0, b: 0 },
        57 => Color { a: 255, r: 222, g: 0, b: 0 },
        58 => Color { a: 255, r: 251, g: 0, b: 0 },
        59 => Color { a: 255, r: 156, g: 115, b: 82 },
        60 => Color { a: 255, r: 148, g: 107, b: 74 },
        61 => Color { a: 255, r: 115, g: 74, b: 41 },
        62 => Color { a: 255, r: 82, g: 49, b: 24 },
        63 => Color { a: 255, r: 140, g: 74, b: 24 },
        64 => Color { a: 255, r: 136, g: 68, b: 17 },
        65 => Color { a: 255, r: 74, g: 33, b: 0 },
        66 => Color { a: 255, r: 33, g: 24, b: 16 },
        67 => Color { a: 255, r: 214, g: 148, b: 90 },
        68 => Color { a: 255, r: 198, g: 107, b: 33 },
        69 => Color { a: 255, r: 239, g: 107, b: 0 },
        70 => Color { a: 255, r: 255, g: 119, b: 0 },
        71 => Color { a: 255, r: 165, g: 148, b: 132 },
        72 => Color { a: 255, r: 66, g: 49, b: 33 },
        73 => Color { a: 255, r: 24, g: 16, b: 8 },
        74 => Color { a: 255, r: 41, g: 24, b: 8 },
        75 => Color { a: 255, r: 33, g: 16, b: 0 },
        76 => Color { a: 255, r: 57, g: 41, b: 24 },
        77 => Color { a: 255, r: 140, g: 99, b: 57 },
        78 => Color { a: 255, r: 66, g: 41, b: 16 },
        79 => Color { a: 255, r: 107, g: 66, b: 24 },
        80 => Color { a: 255, r: 123, g: 74, b: 24 },
        81 => Color { a: 255, r: 148, g: 74, b: 0 },
        82 => Color { a: 255, r: 140, g: 132, b: 123 },
        83 => Color { a: 255, r: 107, g: 99, b: 90 },
        84 => Color { a: 255, r: 74, g: 66, b: 57 },
        85 => Color { a: 255, r: 41, g: 33, b: 24 },
        86 => Color { a: 255, r: 70, g: 57, b: 41 },
        87 => Color { a: 255, r: 181, g: 165, b: 148 },
        88 => Color { a: 255, r: 123, g: 107, b: 90 },
        89 => Color { a: 255, r: 206, g: 177, b: 148 },
        90 => Color { a: 255, r: 165, g: 140, b: 115 },
        91 => Color { a: 255, r: 140, g: 115, b: 90 },
        92 => Color { a: 255, r: 181, g: 148, b: 115 },
        93 => Color { a: 255, r: 214, g: 165, b: 115 },
        94 => Color { a: 255, r: 239, g: 165, b: 74 },
        95 => Color { a: 255, r: 239, g: 198, b: 140 },
        96 => Color { a: 255, r: 123, g: 99, b: 66 },
        97 => Color { a: 255, r: 107, g: 86, b: 57 },
        98 => Color { a: 255, r: 189, g: 148, b: 90 },
        99 => Color { a: 255, r: 99, g: 57, b: 0 },
        100 => Color { a: 255, r: 214, g: 198, b: 173 },
        101 => Color { a: 255, r: 82, g: 66, b: 41 },
        102 => Color { a: 255, r: 148, g: 99, b: 24 },
        103 => Color { a: 255, r: 239, g: 214, b: 173 },
        104 => Color { a: 255, r: 165, g: 140, b: 99 },
        105 => Color { a: 255, r: 99, g: 90, b: 74 },
        106 => Color { a: 255, r: 189, g: 165, b: 123 },
        107 => Color { a: 255, r: 90, g: 66, b: 24 },
        108 => Color { a: 255, r: 189, g: 140, b: 49 },
        109 => Color { a: 255, r: 53, g: 49, b: 41 },
        110 => Color { a: 255, r: 148, g: 132, b: 99 },
        111 => Color { a: 255, r: 123, g: 107, b: 74 },
        112 => Color { a: 255, r: 165, g: 140, b: 90 },
        113 => Color { a: 255, r: 90, g: 74, b: 41 },
        114 => Color { a: 255, r: 156, g: 123, b: 57 },
        115 => Color { a: 255, r: 66, g: 49, b: 16 },
        116 => Color { a: 255, r: 239, g: 173, b: 33 },
        117 => Color { a: 255, r: 24, g: 16, b: 0 },
        118 => Color { a: 255, r: 41, g: 33, b: 0 },
        119 => Color { a: 255, r: 156, g: 107, b: 0 },
        120 => Color { a: 255, r: 148, g: 132, b: 90 },
        121 => Color { a: 255, r: 82, g: 66, b: 24 },
        122 => Color { a: 255, r: 107, g: 90, b: 41 },
        123 => Color { a: 255, r: 123, g: 99, b: 33 },
        124 => Color { a: 255, r: 156, g: 123, b: 33 },
        125 => Color { a: 255, r: 222, g: 165, b: 0 },
        126 => Color { a: 255, r: 90, g: 82, b: 57 },
        127 => Color { a: 255, r: 49, g: 41, b: 16 },
        128 => Color { a: 255, r: 206, g: 189, b: 123 },
        129 => Color { a: 255, r: 99, g: 90, b: 57 },
        130 => Color { a: 255, r: 148, g: 132, b: 74 },
        131 => Color { a: 255, r: 198, g: 165, b: 41 },
        132 => Color { a: 255, r: 16, g: 156, b: 24 },
        133 => Color { a: 255, r: 66, g: 140, b: 74 },
        134 => Color { a: 255, r: 49, g: 140, b: 66 },
        135 => Color { a: 255, r: 16, g: 148, b: 41 },
        136 => Color { a: 255, r: 8, g: 24, b: 16 },
        137 => Color { a: 255, r: 8, g: 24, b: 24 },
        138 => Color { a: 255, r: 8, g: 41, b: 16 },
        139 => Color { a: 255, r: 24, g: 66, b: 41 },
        140 => Color { a: 255, r: 165, g: 181, b: 173 },
        141 => Color { a: 255, r: 107, g: 115, b: 115 },
        142 => Color { a: 255, r: 24, g: 41, b: 41 },
        143 => Color { a: 255, r: 24, g: 66, b: 74 },
        144 => Color { a: 255, r: 49, g: 66, b: 74 },
        145 => Color { a: 255, r: 99, g: 198, b: 222 },
        146 => Color { a: 255, r: 68, g: 221, b: 255 },
        147 => Color { a: 255, r: 140, g: 214, b: 239 },
        148 => Color { a: 255, r: 115, g: 107, b: 57 },
        149 => Color { a: 255, r: 247, g: 222, b: 57 },
        150 => Color { a: 255, r: 247, g: 239, b: 140 },
        151 => Color { a: 255, r: 247, g: 231, b: 0 },
        152 => Color { a: 255, r: 107, g: 107, b: 90 },
        153 => Color { a: 255, r: 90, g: 140, b: 165 },
        154 => Color { a: 255, r: 57, g: 181, b: 239 },
        155 => Color { a: 255, r: 74, g: 156, b: 206 },
        156 => Color { a: 255, r: 49, g: 132, b: 181 },
        157 => Color { a: 255, r: 49, g: 82, b: 107 },
        158 => Color { a: 255, r: 222, g: 222, b: 214 },
        159 => Color { a: 255, r: 189, g: 189, b: 181 },
        160 => Color { a: 255, r: 140, g: 140, b: 132 },
        161 => Color { a: 255, r: 247, g: 247, b: 222 },
        162 => Color { a: 255, r: 0, g: 8, b: 24 },
        163 => Color { a: 255, r: 8, g: 24, b: 57 },
        164 => Color { a: 255, r: 8, g: 16, b: 41 },
        165 => Color { a: 255, r: 8, g: 24, b: 0 },
        166 => Color { a: 255, r: 8, g: 41, b: 0 },
        167 => Color { a: 255, r: 0, g: 82, b: 165 },
        168 => Color { a: 255, r: 0, g: 123, b: 222 },
        169 => Color { a: 255, r: 16, g: 41, b: 74 },
        170 => Color { a: 255, r: 16, g: 57, b: 107 },
        171 => Color { a: 255, r: 16, g: 82, b: 140 },
        172 => Color { a: 255, r: 33, g: 90, b: 165 },
        173 => Color { a: 255, r: 16, g: 49, b: 90 },
        174 => Color { a: 255, r: 16, g: 66, b: 132 },
        175 => Color { a: 255, r: 49, g: 82, b: 132 },
        176 => Color { a: 255, r: 24, g: 33, b: 49 },
        177 => Color { a: 255, r: 74, g: 90, b: 123 },
        178 => Color { a: 255, r: 82, g: 107, b: 165 },
        179 => Color { a: 255, r: 41, g: 57, b: 99 },
        180 => Color { a: 255, r: 16, g: 74, b: 222 },
        181 => Color { a: 255, r: 41, g: 41, b: 33 },
        182 => Color { a: 255, r: 74, g: 74, b: 57 },
        183 => Color { a: 255, r: 41, g: 41, b: 24 },
        184 => Color { a: 255, r: 74, g: 74, b: 41 },
        185 => Color { a: 255, r: 123, g: 123, b: 66 },
        186 => Color { a: 255, r: 156, g: 156, b: 74 },
        187 => Color { a: 255, r: 90, g: 90, b: 41 },
        188 => Color { a: 255, r: 66, g: 66, b: 20 },
        189 => Color { a: 255, r: 57, g: 57, b: 0 },
        190 => Color { a: 255, r: 89, g: 89, b: 0 },
        191 => Color { a: 255, r: 202, g: 53, b: 44 },
        192 => Color { a: 255, r: 107, g: 115, b: 33 },
        193 => Color { a: 255, r: 41, g: 49, b: 0 },
        194 => Color { a: 255, r: 49, g: 57, b: 16 },
        195 => Color { a: 255, r: 49, g: 57, b: 24 },
        196 => Color { a: 255, r: 66, g: 74, b: 0 },
        197 => Color { a: 255, r: 82, g: 99, b: 24 },
        198 => Color { a: 255, r: 90, g: 115, b: 41 },
        199 => Color { a: 255, r: 49, g: 74, b: 24 },
        200 => Color { a: 255, r: 24, g: 33, b: 0 },
        201 => Color { a: 255, r: 24, g: 49, b: 0 },
        202 => Color { a: 255, r: 24, g: 57, b: 16 },
        203 => Color { a: 255, r: 99, g: 132, b: 74 },
        204 => Color { a: 255, r: 107, g: 189, b: 74 },
        205 => Color { a: 255, r: 99, g: 181, b: 74 },
        206 => Color { a: 255, r: 99, g: 189, b: 74 },
        207 => Color { a: 255, r: 90, g: 156, b: 74 },
        208 => Color { a: 255, r: 74, g: 140, b: 57 },
        209 => Color { a: 255, r: 99, g: 198, b: 74 },
        210 => Color { a: 255, r: 99, g: 214, b: 74 },
        211 => Color { a: 255, r: 82, g: 132, b: 74 },
        212 => Color { a: 255, r: 49, g: 115, b: 41 },
        213 => Color { a: 255, r: 99, g: 198, b: 90 },
        214 => Color { a: 255, r: 82, g: 189, b: 74 },
        215 => Color { a: 255, r: 16, g: 255, b: 0 },
        216 => Color { a: 255, r: 24, g: 41, b: 24 },
        217 => Color { a: 255, r: 74, g: 136, b: 74 },
        218 => Color { a: 255, r: 74, g: 231, b: 74 },
        219 => Color { a: 255, r: 0, g: 90, b: 0 },
        220 => Color { a: 255, r: 0, g: 136, b: 0 },
        221 => Color { a: 255, r: 0, g: 148, b: 0 },
        222 => Color { a: 255, r: 0, g: 222, b: 0 },
        223 => Color { a: 255, r: 0, g: 238, b: 0 },
        224 => Color { a: 255, r: 0, g: 251, b: 0 },
        225 => Color { a: 255, r: 74, g: 90, b: 148 },
        226 => Color { a: 255, r: 99, g: 115, b: 181 },
        227 => Color { a: 255, r: 123, g: 140, b: 214 },
        228 => Color { a: 255, r: 107, g: 123, b: 214 },
        229 => Color { a: 255, r: 119, g: 136, b: 255 },
        230 => Color { a: 255, r: 198, g: 198, b: 206 },
        231 => Color { a: 255, r: 148, g: 148, b: 156 },
        232 => Color { a: 255, r: 156, g: 148, b: 198 },
        233 => Color { a: 255, r: 49, g: 49, b: 57 },
        234 => Color { a: 255, r: 41, g: 24, b: 132 },
        235 => Color { a: 255, r: 24, g: 0, b: 132 },
        236 => Color { a: 255, r: 74, g: 66, b: 82 },
        237 => Color { a: 255, r: 82, g: 66, b: 123 },
        238 => Color { a: 255, r: 99, g: 90, b: 115 },
        239 => Color { a: 255, r: 206, g: 181, b: 247 },
        240 => Color { a: 255, r: 140, g: 123, b: 156 },
        241 => Color { a: 255, r: 119, g: 34, b: 204 },
        242 => Color { a: 255, r: 221, g: 170, b: 255 },
        243 => Color { a: 255, r: 240, g: 180, b: 42 },
        244 => Color { a: 255, r: 223, g: 0, b: 159 },
        245 => Color { a: 255, r: 227, g: 23, b: 179 },
        246 => Color { a: 255, r: 255, g: 251, b: 240 },
        247 => Color { a: 255, r: 160, g: 160, b: 164 },
        248 => Color { a: 255, r: 128, g: 128, b: 128 },
        249 => Color { a: 255, r: 255, g: 0, b: 0 },
        250 => Color { a: 255, r: 0, g: 255, b: 0 },
        251 => Color { a: 255, r: 255, g: 255, b: 0 },
        252 => Color { a: 255, r: 0, g: 0, b: 255 },
        253 => Color { a: 255, r: 255, g: 0, b: 255 },
        254 => Color { a: 255, r: 0, g: 255, b: 255 },
        _ => Color { a: 255, r: 255, g: 255, b: 255 },
    }
}

} // verus!
