//! Colour ramps.
//!
//! A palette is a ramp of [`PALETTE_LEN`] colours, from the coolest level to
//! the hottest. The ramps that are made of powers and square roots of the
//! level are computed here, exactly, in integers. The ramps that are made of
//! sines, cosines and fractional powers are tabulated. One variant is
//! animated: its table is the ramp at phase zero, and the ramps of its later
//! phases come from the caller.

use crate::fire_types::FireType;
use vstd::prelude::*;

verus! {

/// Number of colours of a palette, and so of heat levels of a grid.
pub const PALETTE_LEN: usize = 37;

/// The hottest level.
pub const HOTTEST: u8 = 36;

/// Whether `r` is `scale * sqrt(index / 36)` rounded down.
pub open spec fn is_root_level(r: int, scale: int, index: int) -> bool {
    &&& 0 <= r
    &&& 36 * (r * r) <= (scale * scale) * index
    &&& (scale * scale) * index < 36 * ((r + 1) * (r + 1))
}

/// `scale * sqrt(index / 36)`, rounded down.
pub open spec fn root_level(scale: int, index: int) -> int {
    choose|r: int| is_root_level(r, scale, index)
}

/// `scale * (index / 36)^2`, rounded down.
pub open spec fn square_level(scale: int, index: int) -> int {
    (scale * (index * index)) / 1296
}

/// `scale * (index / 36)^3`, rounded down.
pub open spec fn cube_level(scale: int, index: int) -> int {
    (scale * (index * index * index)) / 46656
}

/// A channel blended toward full brightness: `level` at index 0, 255 at
/// index 36, rounded down in between.
pub open spec fn whitened(level: int, index: int) -> int {
    ((36 - index) * level + 255 * index) / 36
}

/// The ramp of `Rainbow`. With `t` for the level divided by 36, the channels
/// are `55 + 200 * (0.5 + 0.5 * sin(8t + s))` for `s` = 0, 2 and 4, computed
/// in single precision and rounded down.
pub const RAINBOW_RAMP: [[u8; 3]; 37] = [
    [155, 245, 79], [177, 234, 66], [197, 219, 58], [216, 200, 55],
    [232, 180, 56], [244, 158, 62], [252, 135, 73], [254, 114, 88],
    [252, 95, 106], [245, 79, 127], [234, 66, 148], [219, 58, 171],
    [200, 55, 192], [180, 56, 211], [158, 62, 228], [135, 73, 241],
    [114, 88, 250], [95, 106, 254], [79, 127, 253], [66, 148, 248],
    [58, 171, 238], [55, 192, 223], [56, 211, 206], [62, 228, 185],
    [73, 241, 164], [88, 250, 141], [106, 254, 120], [127, 253, 100],
    [148, 248, 83], [171, 238, 69], [192, 223, 60], [211, 206, 55],
    [228, 185, 55], [241, 164, 60], [250, 141, 70], [254, 120, 84],
    [253, 100, 101],
];

/// The ramp of `FireAndIce`. With `t` for the level divided by 36, red is
/// `255 * t^1.2 + 60t`, capped at 255, green is `80t + 60 * (1 - t)` and blue
/// is `255 * (1 - t) + 20t`, computed in single precision and rounded down.
pub const FIRE_AND_ICE_RAMP: [[u8; 3]; 37] = [
    [0, 60, 255], [5, 60, 248], [11, 61, 241], [17, 61, 235],
    [24, 62, 228], [32, 62, 222], [39, 63, 215], [47, 63, 209],
    [55, 64, 202], [63, 65, 196], [71, 65, 189], [79, 66, 183],
    [88, 66, 176], [96, 67, 170], [105, 67, 163], [114, 68, 157],
    [123, 68, 150], [131, 69, 144], [140, 70, 137], [150, 70, 130],
    [159, 71, 124], [168, 71, 117], [177, 72, 111], [187, 72, 104],
    [196, 73, 98], [206, 73, 91], [215, 74, 85], [225, 75, 78],
    [235, 75, 72], [245, 76, 65], [254, 76, 59], [255, 77, 52],
    [255, 77, 46], [255, 78, 39], [255, 78, 33], [255, 79, 26],
    [255, 80, 20],
];

/// The ramp of `ChemicalFire`. With `t` for the level divided by 36, green is
/// `80 * (1 - t) + 120t`; below `t` = 0.3 red is `180 + 75t / 0.3` and blue is
/// `120 + 135 * (0.3 - t) / 0.3`, from there on red is `255t` and blue is
/// `180 * (1 - t)^2`; all computed in single precision and rounded down.
pub const CHEMICAL_FIRE_RAMP: [[u8; 3]; 37] = [
    [180, 80, 255], [186, 81, 242], [193, 82, 230], [200, 83, 217],
    [207, 84, 205], [214, 85, 192], [221, 86, 180], [228, 87, 167],
    [235, 88, 155], [242, 90, 142], [249, 91, 130], [77, 92, 86],
    [85, 93, 79], [92, 94, 73], [99, 95, 67], [106, 96, 61],
    [113, 97, 55], [120, 98, 50], [127, 100, 45], [134, 101, 40],
    [141, 102, 35], [148, 103, 31], [155, 104, 27], [162, 105, 23],
    [170, 106, 19], [177, 107, 16], [184, 108, 13], [191, 110, 11],
    [198, 111, 8], [205, 112, 6], [212, 113, 5], [219, 114, 3],
    [226, 115, 2], [233, 116, 1], [240, 117, 0], [247, 118, 0],
    [255, 120, 0],
];

/// The ramp of `Cyberpunk`. With `t` for the level divided by 36, red is
/// `255 * (0.5 + 0.5 * sin(2t))`, green is 0 and blue is
/// `255 * (0.5 + 0.5 * sin(2t + 2))`, computed in single precision and rounded
/// down.
pub const CYBERPUNK_RAMP: [[u8; 3]; 37] = [
    [127, 0, 243], [134, 0, 240], [141, 0, 236], [148, 0, 233],
    [155, 0, 228], [162, 0, 224], [169, 0, 219], [175, 0, 214],
    [182, 0, 209], [188, 0, 203], [194, 0, 198], [200, 0, 192],
    [206, 0, 185], [211, 0, 179], [216, 0, 172], [221, 0, 166],
    [226, 0, 159], [230, 0, 152], [234, 0, 145], [238, 0, 138],
    [241, 0, 131], [244, 0, 124], [247, 0, 117], [249, 0, 110],
    [251, 0, 103], [252, 0, 96], [253, 0, 89], [254, 0, 82],
    [254, 0, 76], [254, 0, 69], [254, 0, 63], [253, 0, 57],
    [252, 0, 51], [250, 0, 46], [248, 0, 40], [246, 0, 35],
    [243, 0, 31],
];

/// The ramp of `Aurora` at phase zero. With `t` for the level divided by 36,
/// red is `60 * (0.5 + 0.5 * sin(6t + 1))`, green is
/// `60 + 180 * (0.5 + 0.5 * sin(2.5t + 2))` and blue is
/// `200 * (0.5 + 0.5 * cos(3.5t + 4))`, computed in single precision and
/// rounded down.
pub const AURORA_RAMP: [[u8; 3]; 37] = [
    [55, 231, 34], [57, 229, 42], [59, 225, 50], [59, 222, 59],
    [59, 218, 68], [58, 214, 77], [57, 209, 87], [54, 204, 96],
    [51, 199, 106], [47, 194, 116], [43, 188, 125], [39, 183, 134],
    [34, 177, 143], [29, 171, 152], [24, 165, 160], [19, 158, 167],
    [14, 152, 174], [10, 146, 180], [7, 140, 186], [4, 134, 190],
    [2, 127, 194], [0, 121, 197], [0, 116, 198], [0, 110, 199],
    [1, 104, 199], [3, 99, 198], [5, 94, 197], [8, 89, 194],
    [12, 85, 190], [16, 81, 185], [21, 77, 180], [26, 73, 174],
    [31, 70, 167], [36, 67, 160], [41, 65, 152], [45, 63, 143],
    [49, 62, 134],
];

/// The ramp of `Plasma`. With `t` for the level divided by 36, the colour is
/// black below `t` = 0.08 and white where `|sin(8t)|` exceeds 0.85 or
/// `|cos(4t)|` exceeds 0.95; elsewhere red is `180 * (0.5 + 0.5 * sin(6t))`,
/// green is `80 * (0.5 + 0.5 * cos(4t + 1))` and blue is
/// `200 + 55 * (0.5 + 0.5 * sin(8t))`, computed in single precision and
/// rounded down.
pub const PLASMA_RAMP: [[u8; 3]; 37] = [
    [0, 0, 0], [0, 0, 0], [0, 0, 0], [133, 49, 244],
    [145, 45, 248], [255, 255, 255], [255, 255, 255], [255, 255, 255],
    [255, 255, 255], [255, 255, 255], [179, 19, 249], [176, 15, 245],
    [171, 12, 240], [164, 9, 234], [155, 6, 228], [143, 4, 222],
    [131, 2, 216], [117, 1, 211], [102, 0, 206], [255, 255, 255],
    [255, 255, 255], [255, 255, 255], [255, 255, 255], [255, 255, 255],
    [21, 5, 205], [13, 7, 209], [255, 255, 255], [255, 255, 255],
    [255, 255, 255], [255, 255, 255], [255, 255, 255], [255, 255, 255],
    [16, 33, 247], [255, 255, 255], [255, 255, 255], [255, 255, 255],
    [255, 255, 255],
];

/// The ramp of `Candy`. With `t` for the level divided by 36, the channels
/// are `255 * (0.5 + 0.5 * sin(3t + s))` for `s` = 0, 2 and 4, computed in
/// single precision and rounded down.
pub const CANDY_RAMP: [[u8; 3]; 37] = [
    [127, 243, 31], [138, 238, 24], [148, 233, 18], [159, 226, 13],
    [169, 219, 9], [179, 212, 5], [188, 203, 2], [197, 195, 1],
    [206, 185, 0], [214, 176, 0], [221, 166, 0], [228, 155, 2],
    [234, 145, 5], [240, 134, 8], [244, 124, 12], [248, 113, 17],
    [251, 103, 23], [253, 92, 30], [254, 82, 37], [254, 72, 45],
    [254, 63, 53], [252, 54, 62], [250, 46, 72], [247, 38, 81],
    [243, 31, 91], [238, 24, 102], [233, 18, 112], [226, 13, 123],
    [219, 9, 133], [212, 5, 144], [203, 2, 154], [195, 1, 165],
    [185, 0, 175], [176, 0, 184], [166, 0, 194], [155, 2, 202],
    [145, 5, 211],
];

/// Red, green and blue of one tabulated colour.
pub open spec fn rgb_of(color: [u8; 3]) -> (int, int, int) {
    (color[0] as int, color[1] as int, color[2] as int)
}

/// Red, green and blue of level `index` in the ramp of a variant.
pub open spec fn ramp_rgb(fire_type: FireType, index: int) -> (int, int, int) {
    match fire_type {
        FireType::Original => (root_level(255, index), cube_level(255, index), 0),
        FireType::WhiteHot => (
            whitened(root_level(255, index), index),
            whitened(cube_level(255, index), index),
            (255 * index) / 36,
        ),
        FireType::White => (root_level(255, index), root_level(255, index), root_level(255, index)),
        FireType::Blue => (0, square_level(128, index), root_level(255, index)),
        FireType::Green => (0, root_level(255, index), square_level(128, index)),
        FireType::Purple => (root_level(128, index), 0, square_level(255, index)),
        FireType::Ice => (
            cube_level(180, index),
            square_level(220, index),
            200 + (55 * index) / 36,
        ),
        FireType::Toxic => (
            square_level(128, index),
            root_level(255, index),
            (64 * (36 - index)) / 36,
        ),
        FireType::Void => (
            (10 * (36 - index)) / 36,
            (10 * (36 - index)) / 36,
            40 + square_level(80, index),
        ),
        FireType::Rainbow => rgb_of(RAINBOW_RAMP[index]),
        FireType::FireAndIce => rgb_of(FIRE_AND_ICE_RAMP[index]),
        FireType::ChemicalFire => rgb_of(CHEMICAL_FIRE_RAMP[index]),
        FireType::Cyberpunk => rgb_of(CYBERPUNK_RAMP[index]),
        FireType::Aurora => rgb_of(AURORA_RAMP[index]),
        FireType::Plasma => rgb_of(PLASMA_RAMP[index]),
        FireType::Candy => rgb_of(CANDY_RAMP[index]),
    }
}

/// Whether a colour has the given red, green and blue.
pub open spec fn has_rgb(color: [u8; 3], rgb: (int, int, int)) -> bool {
    &&& color[0] == rgb.0
    &&& color[1] == rgb.1
    &&& color[2] == rgb.2
}

/// Whether `palette` is the palette of a variant: the ramp of the variant,
/// with the background colour, if there is one, in place of the coolest
/// colour.
pub open spec fn is_palette_of(
    palette: Seq<[u8; 3]>,
    fire_type: FireType,
    background_colour: Option<[u8; 3]>,
) -> bool {
    &&& palette.len() == PALETTE_LEN
    &&& forall|i: int|
        1 <= i < PALETTE_LEN ==> has_rgb(#[trigger] palette[i], ramp_rgb(fire_type, i))
    &&& match background_colour {
        Some(colour) => palette[0] == colour,
        None => has_rgb(palette[0], ramp_rgb(fire_type, 0)),
    }
}

/// A ramp with the background colour, if there is one, in place of its
/// coolest colour.
pub open spec fn backed(ramp: Seq<[u8; 3]>, background_colour: Option<[u8; 3]>) -> Seq<[u8; 3]> {
    match background_colour {
        Some(colour) => if ramp.len() > 0 {
            ramp.update(0, colour)
        } else {
            ramp
        },
        None => ramp,
    }
}

/// There is one rounded root and no other.
pub proof fn lemma_root_level(r: int, scale: int, index: int)
    requires
        is_root_level(r, scale, index),
    ensures
        root_level(scale, index) == r,
{
    let other = root_level(scale, index);
    assert(is_root_level(other, scale, index));
    let target = (scale * scale) * index;
    assert(other == r) by (nonlinear_arith)
        requires
            0 <= r,
            0 <= other,
            36 * (r * r) <= target,
            target < 36 * ((r + 1) * (r + 1)),
            36 * (other * other) <= target,
            target < 36 * ((other + 1) * (other + 1)),
    ;
}

/// Computes `scale * sqrt(index / 36)`, rounded down.
pub fn root_level_of(scale: u8, index: u8) -> (r: u8)
    requires
        index <= 36,
    ensures
        r as int == root_level(scale as int, index as int),
        r <= scale,
{
    let ghost s = scale as int;
    let ghost i = index as int;
    assert(0 <= s * s <= 65025 && 0 <= (s * s) * i <= 65025 * 36 && (s * s) * i <= 36 * (s * s))
        by (nonlinear_arith)
        requires
            0 <= s <= 255,
            0 <= i <= 36,
    ;
    let target: u32 = (scale as u32 * scale as u32) * index as u32;
    let mut r: u32 = 0;
    let mut found = false;
    while !found
        invariant
            0 <= r <= 255,
            36 * (r * r) <= target,
            target == (s * s) * i,
            target <= 65025 * 36,
            found ==> r == 255 || target < 36 * ((r + 1) * (r + 1)),
        decreases 256 - r - (if found { 1int } else { 0int }),
    {
        if r < 255 {
            assert((r + 1) * (r + 1) <= 65536) by (nonlinear_arith)
                requires
                    0 <= r < 255,
            ;
            if 36 * ((r + 1) * (r + 1)) <= target {
                r += 1;
            } else {
                found = true;
            }
        } else {
            found = true;
        }
    }
    proof {
        let root = r as int;
        if root == 255 {
            assert((root + 1) * (root + 1) == 65536) by (nonlinear_arith)
                requires
                    root == 255,
            ;
        }
        assert((root + 1) * (root + 1) <= 65536) by (nonlinear_arith)
            requires
                0 <= root <= 255,
        ;
        assert(is_root_level(root, s, i));
        lemma_root_level(root, s, i);
        assert(root <= s) by (nonlinear_arith)
            requires
                0 <= root,
                0 <= s,
                36 * (root * root) <= 36 * (s * s),
        ;
    }
    r as u8
}

/// Computes `scale * (index / 36)^2`, rounded down.
pub fn square_level_of(scale: u8, index: u8) -> (r: u8)
    requires
        index <= 36,
    ensures
        r as int == square_level(scale as int, index as int),
        r <= scale,
{
    let ghost s = scale as int;
    let ghost i = index as int;
    assert(0 <= i * i <= 1296 && 0 <= s * (i * i) <= s * 1296) by (nonlinear_arith)
        requires
            0 <= s <= 255,
            0 <= i <= 36,
    ;
    let level: u32 = (scale as u32 * (index as u32 * index as u32)) / 1296;
    level as u8
}

/// Computes `scale * (index / 36)^3`, rounded down.
pub fn cube_level_of(scale: u8, index: u8) -> (r: u8)
    requires
        index <= 36,
    ensures
        r as int == cube_level(scale as int, index as int),
        r <= scale,
{
    let ghost s = scale as int;
    let ghost i = index as int;
    assert(0 <= i * i <= 1296 && 0 <= i * i * i <= 46656 && 0 <= s * (i * i * i) <= s * 46656)
        by (nonlinear_arith)
        requires
            0 <= s <= 255,
            0 <= i <= 36,
    ;
    let level: u32 = (scale as u32 * (index as u32 * index as u32 * index as u32)) / 46656;
    level as u8
}

/// Blends a channel toward full brightness; see [`whitened`].
pub fn whitened_of(level: u8, index: u8) -> (r: u8)
    requires
        index <= 36,
    ensures
        r as int == whitened(level as int, index as int),
{
    let ghost l = level as int;
    let ghost i = index as int;
    assert(0 <= (36 - i) * l <= (36 - i) * 255) by (nonlinear_arith)
        requires
            0 <= l <= 255,
            0 <= i <= 36,
    ;
    let blend: u32 = ((36 - index as u32) * level as u32 + 255 * index as u32) / 36;
    blend as u8
}

/// Computes the colour of level `index` in the ramp of a variant.
pub fn ramp_color(fire_type: FireType, index: u8) -> (r: [u8; 3])
    requires
        index <= 36,
    ensures
        has_rgb(r, ramp_rgb(fire_type, index as int)),
{
    let wide: u32 = index as u32;
    let at: usize = index as usize;
    match fire_type {
        FireType::Original => [root_level_of(255, index), cube_level_of(255, index), 0],
        FireType::WhiteHot => [
            whitened_of(root_level_of(255, index), index),
            whitened_of(cube_level_of(255, index), index),
            ((255 * wide) / 36) as u8,
        ],
        FireType::White => {
            let v = root_level_of(255, index);
            [v, v, v]
        },
        FireType::Blue => [0, square_level_of(128, index), root_level_of(255, index)],
        FireType::Green => [0, root_level_of(255, index), square_level_of(128, index)],
        FireType::Purple => [root_level_of(128, index), 0, square_level_of(255, index)],
        FireType::Ice => [
            cube_level_of(180, index),
            square_level_of(220, index),
            (200 + (55 * wide) / 36) as u8,
        ],
        FireType::Toxic => [
            square_level_of(128, index),
            root_level_of(255, index),
            ((64 * (36 - wide)) / 36) as u8,
        ],
        FireType::Void => {
            let dim = ((10 * (36 - wide)) / 36) as u8;
            [dim, dim, 40 + square_level_of(80, index)]
        },
        FireType::Rainbow => RAINBOW_RAMP[at],
        FireType::FireAndIce => FIRE_AND_ICE_RAMP[at],
        FireType::ChemicalFire => CHEMICAL_FIRE_RAMP[at],
        FireType::Cyberpunk => CYBERPUNK_RAMP[at],
        FireType::Aurora => AURORA_RAMP[at],
        FireType::Plasma => PLASMA_RAMP[at],
        FireType::Candy => CANDY_RAMP[at],
    }
}

/// Puts the background colour, if there is one, in place of the coolest
/// colour of a ramp. Every other colour stays as it is.
pub fn with_background(ramp: Vec<[u8; 3]>, background_colour: Option<[u8; 3]>) -> (r: Vec<[u8; 3]>)
    ensures
        r@ == backed(ramp@, background_colour),
{
    let mut palette = ramp;
    match background_colour {
        Some(colour) => {
            if palette.len() > 0 {
                palette[0] = colour;
            }
        },
        None => {},
    }
    palette
}

/// Builds the palette of a variant: its ramp of [`PALETTE_LEN`] colours, with
/// the background colour, if there is one, in place of the coolest. For the
/// animated variant this is the palette at phase zero.
pub fn generate_palette(fire_type: FireType, background_colour: Option<[u8; 3]>) -> (r: Vec<
    [u8; 3],
>)
    ensures
        is_palette_of(r@, fire_type, background_colour),
{
    let mut ramp: Vec<[u8; 3]> = Vec::new();
    let mut index: u8 = 0;
    while index <= HOTTEST
        invariant
            index <= HOTTEST + 1,
            ramp@.len() == index,
            forall|i: int| 0 <= i < index ==> has_rgb(#[trigger] ramp@[i], ramp_rgb(fire_type, i)),
        decreases HOTTEST + 1 - index,
    {
        ramp.push(ramp_color(fire_type, index));
        index += 1;
    }
    with_background(ramp, background_colour)
}

/// The palette of a variant is determined by the variant and the background
/// colour: two palettes that both are the palette of the same variant and
/// background agree in every channel of every colour.
pub proof fn lemma_palette_is_determined(
    first: Seq<[u8; 3]>,
    second: Seq<[u8; 3]>,
    fire_type: FireType,
    background_colour: Option<[u8; 3]>,
)
    requires
        is_palette_of(first, fire_type, background_colour),
        is_palette_of(second, fire_type, background_colour),
    ensures
        first == second,
{
    assert forall|i: int| 0 <= i < first.len() implies first[i] == second[i] by {
        if i > 0 {
            assert(has_rgb(first[i], ramp_rgb(fire_type, i)));
            assert(has_rgb(second[i], ramp_rgb(fire_type, i)));
        }
        assert(first[i]@ =~= second[i]@);
    }
    assert(first =~= second);
}

/// A background colour replaces the coolest colour and nothing else.
pub proof fn lemma_background_only_at_zero(ramp: Seq<[u8; 3]>, colour: [u8; 3])
    requires
        ramp.len() > 0,
    ensures
        backed(ramp, Some(colour)).len() == ramp.len(),
        backed(ramp, Some(colour))[0] == colour,
        forall|i: int| 1 <= i < ramp.len() ==> #[trigger] backed(ramp, Some(colour))[i] == ramp[i],
        backed(ramp, None) == ramp,
{
}

} // verus!
