use doom_fire::fire_types::{FireType, FIRE_TYPE_COUNT};
use doom_fire::palette::{
    cube_level_of, generate_palette, ramp_color, root_level_of, square_level_of, whitened_of,
    with_background, HOTTEST, PALETTE_LEN,
};

fn all_types() -> Vec<FireType> {
    (0..FIRE_TYPE_COUNT).map(FireType::nth).collect()
}

fn float_ramp(fire_type: FireType, i: usize, phase: f32) -> [u8; 3] {
    let t = i as f32 / 36.0;
    match fire_type {
        FireType::FireAndIce => {
            let r = (255.0 * t.powf(1.2) + 60.0 * t).min(255.0) as u8;
            let g = (80.0 * t + 60.0 * (1.0 - t)).min(140.0) as u8;
            let b = (255.0 * (1.0 - t) + 20.0 * t).min(255.0) as u8;
            [r, g, b]
        }
        FireType::ChemicalFire => {
            let r = (255.0 * t).min(255.0) as u8;
            let g = (80.0 * (1.0 - t) + 120.0 * t).min(200.0) as u8;
            let b = (180.0 * (1.0 - t).powi(2)).min(180.0) as u8;
            let r = if t < 0.3 { (180.0 + 75.0 * t / 0.3) as u8 } else { r };
            let b = if t < 0.3 { (120.0 + 135.0 * (0.3 - t) / 0.3) as u8 } else { b };
            [r, g, b]
        }
        FireType::Candy => {
            let r = (255.0 * (0.5 + 0.5 * (t * 3.0).sin())).min(255.0) as u8;
            let g = (255.0 * (0.5 + 0.5 * (t * 3.0 + 2.0).sin())).min(255.0) as u8;
            let b = (255.0 * (0.5 + 0.5 * (t * 3.0 + 4.0).sin())).min(255.0) as u8;
            [r, g, b]
        }
        FireType::Cyberpunk => {
            let r = (255.0 * (0.5 + 0.5 * (t * 2.0).sin())).min(255.0) as u8;
            let b = (255.0 * (0.5 + 0.5 * (t * 2.0 + 2.0).sin())).min(255.0) as u8;
            [r, 0, b]
        }
        FireType::Aurora => {
            let r = (60.0 * (0.5 + 0.5 * ((t * 6.0 + 1.0 + phase).sin()))).max(0.0) as u8;
            let g = (180.0 * (0.5 + 0.5 * ((t * 2.5 + 2.0 + phase * 0.7).sin())) + 60.0)
                .min(255.0) as u8;
            let b = (200.0 * (0.5 + 0.5 * ((t * 3.5 + 4.0 + phase * 1.3).cos()))).min(255.0) as u8;
            [r, g, b]
        }
        FireType::Plasma => {
            if t < 0.08 {
                [0, 0, 0]
            } else {
                let plasma_white =
                    ((t * 8.0).sin().abs() > 0.85) || ((t * 4.0).cos().abs() > 0.95);
                if plasma_white {
                    [255, 255, 255]
                } else {
                    let r = (180.0 * (0.5 + 0.5 * (t * 6.0).sin())).min(255.0) as u8;
                    let g = (80.0 * (0.5 + 0.5 * (t * 4.0 + 1.0).cos())).min(255.0) as u8;
                    let b = (200.0 + 55.0 * (0.5 + 0.5 * (t * 8.0).sin())).min(255.0) as u8;
                    [r, g, b]
                }
            }
        }
        FireType::Rainbow => {
            let r = (200.0 * (0.5 + 0.5 * (t * 8.0).sin()) + 55.0).min(255.0) as u8;
            let g = (200.0 * (0.5 + 0.5 * (t * 8.0 + 2.0).sin()) + 55.0).min(255.0) as u8;
            let b = (200.0 * (0.5 + 0.5 * (t * 8.0 + 4.0).sin()) + 55.0).min(255.0) as u8;
            [r, g, b]
        }
        FireType::Original => {
            let r = (255.0 * t.sqrt()).min(255.0) as u8;
            let g = (255.0 * t.powi(3)).min(255.0) as u8;
            [r, g, 0]
        }
        FireType::WhiteHot => {
            let r = (255.0 * t.sqrt()).min(255.0) as u8;
            let g = (255.0 * t.powi(3)).min(255.0) as u8;
            let blend = t;
            let r = ((1.0 - blend) * r as f32 + blend * 255.0) as u8;
            let g = ((1.0 - blend) * g as f32 + blend * 255.0) as u8;
            let b = (blend * 255.0) as u8;
            [r, g, b]
        }
        FireType::White => {
            let v = (255.0 * t.sqrt()).min(255.0) as u8;
            [v, v, v]
        }
        FireType::Blue => {
            let b = (255.0 * t.sqrt()).min(255.0) as u8;
            let g = (128.0 * t.powi(2)).min(128.0) as u8;
            [0, g, b]
        }
        FireType::Green => {
            let g = (255.0 * t.sqrt()).min(255.0) as u8;
            let b = (128.0 * t.powi(2)).min(128.0) as u8;
            [0, g, b]
        }
        FireType::Purple => {
            let r = (128.0 * t.sqrt()).min(128.0) as u8;
            let b = (255.0 * t.powi(2)).min(255.0) as u8;
            [r, 0, b]
        }
        FireType::Ice => {
            let b = (200.0 + 55.0 * t).min(255.0) as u8;
            let g = (220.0 * t.powi(2)).min(220.0) as u8;
            let r = (180.0 * t.powi(3)).min(180.0) as u8;
            [r, g, b]
        }
        FireType::Toxic => {
            let g = (255.0 * t.sqrt()).min(255.0) as u8;
            let r = (128.0 * t.powi(2)).min(128.0) as u8;
            let b = (64.0 * (1.0 - t)).max(0.0) as u8;
            [r, g, b]
        }
        FireType::Void => {
            let r = (10.0 * (1.0 - t)).max(0.0) as u8;
            let g = (10.0 * (1.0 - t)).max(0.0) as u8;
            let b = (40.0 + 80.0 * t.powi(2)).min(120.0) as u8;
            [r, g, b]
        }
    }
}

#[test]
fn palette_has_thirty_seven_colors() {
    assert_eq!(PALETTE_LEN, 37);
    assert_eq!(HOTTEST, 36);
    for fire_type in all_types() {
        assert_eq!(generate_palette(fire_type, None).len(), 37);
        assert_eq!(generate_palette(fire_type, Some([1, 2, 3])).len(), 37);
    }
}

#[test]
fn ramps_agree_with_floating_point_ramps() {
    for fire_type in all_types() {
        let palette = generate_palette(fire_type, None);
        for i in 0..37usize {
            assert_eq!(palette[i], float_ramp(fire_type, i, 0.0), "{:?} at {}", fire_type, i);
        }
    }
}

#[test]
fn ramp_color_agrees_with_palette() {
    for fire_type in all_types() {
        let palette = generate_palette(fire_type, None);
        for i in 0..37u8 {
            assert_eq!(ramp_color(fire_type, i), palette[i as usize]);
        }
    }
}

#[test]
fn original_ramp_known_colors() {
    let palette = generate_palette(FireType::Original, None);
    assert_eq!(palette[0], [0, 0, 0]);
    assert_eq!(palette[1], [42, 0, 0]);
    assert_eq!(palette[9], [127, 3, 0]);
    assert_eq!(palette[18], [180, 31, 0]);
    assert_eq!(palette[35], [251, 234, 0]);
    assert_eq!(palette[36], [255, 255, 0]);
}

#[test]
fn white_hot_ramp_ends_in_white() {
    let palette = generate_palette(FireType::WhiteHot, None);
    assert_eq!(palette[0], [0, 0, 0]);
    assert_eq!(palette[36], [255, 255, 255]);
    assert_eq!(palette[18], [217, 143, 127]);
}

#[test]
fn ice_and_void_ramps_known_colors() {
    let ice = generate_palette(FireType::Ice, None);
    assert_eq!(ice[0], [0, 0, 200]);
    assert_eq!(ice[36], [180, 220, 255]);
    assert_eq!(ice[18], [22, 55, 227]);
    let void = generate_palette(FireType::Void, None);
    assert_eq!(void[0], [10, 10, 40]);
    assert_eq!(void[36], [0, 0, 120]);
    assert_eq!(void[18], [5, 5, 60]);
}

#[test]
fn level_formulas_exact_values() {
    assert_eq!(root_level_of(255, 0), 0);
    assert_eq!(root_level_of(255, 9), 127);
    assert_eq!(root_level_of(255, 4), 85);
    assert_eq!(root_level_of(255, 36), 255);
    assert_eq!(root_level_of(128, 4), 42);
    assert_eq!(root_level_of(0, 20), 0);
    assert_eq!(square_level_of(128, 18), 32);
    assert_eq!(square_level_of(255, 36), 255);
    assert_eq!(square_level_of(220, 35), 207);
    assert_eq!(cube_level_of(255, 18), 31);
    assert_eq!(cube_level_of(180, 36), 180);
    assert_eq!(cube_level_of(255, 1), 0);
    assert_eq!(whitened_of(0, 0), 0);
    assert_eq!(whitened_of(0, 36), 255);
    assert_eq!(whitened_of(100, 18), 177);
    assert_eq!(whitened_of(255, 7), 255);
}

#[test]
fn palette_is_deterministic() {
    let backgrounds: Vec<Option<[u8; 3]>> = vec![None, Some([1, 2, 3])];
    for index in 0..FIRE_TYPE_COUNT {
        let fire_type = FireType::nth(index);
        for background in backgrounds.iter() {
            let first = generate_palette(fire_type, *background);
            let second = generate_palette(fire_type, *background);
            assert_eq!(first, second);
        }
    }
}

#[test]
fn background_overrides_only_the_coolest_color() {
    let plain = generate_palette(FireType::Original, None);
    let backed = generate_palette(FireType::Original, Some([10, 20, 30]));
    assert_eq!(backed[0], [10, 20, 30]);
    assert_eq!(backed.len(), plain.len());
    for i in 1..plain.len() {
        assert_eq!(backed[i], plain[i]);
    }
}

#[test]
fn tabulated_ramps_known_colors() {
    let rainbow = generate_palette(FireType::Rainbow, None);
    assert_eq!(rainbow[0], [155, 245, 79]);
    assert_eq!(rainbow[36], [253, 100, 101]);
    let fire_and_ice = generate_palette(FireType::FireAndIce, None);
    assert_eq!(fire_and_ice[0], [0, 60, 255]);
    assert_eq!(fire_and_ice[36], [255, 80, 20]);
    let chemical = generate_palette(FireType::ChemicalFire, None);
    assert_eq!(chemical[0], [180, 80, 255]);
    assert_eq!(chemical[12], [85, 93, 79]);
    assert_eq!(chemical[36], [255, 120, 0]);
    let cyberpunk = generate_palette(FireType::Cyberpunk, None);
    assert_eq!(cyberpunk[0], [127, 0, 243]);
    assert_eq!(cyberpunk[36], [243, 0, 31]);
    let aurora = generate_palette(FireType::Aurora, None);
    assert_eq!(aurora[0], [55, 231, 34]);
    assert_eq!(aurora[36], [49, 62, 134]);
    let plasma = generate_palette(FireType::Plasma, None);
    assert_eq!(plasma[0], [0, 0, 0]);
    assert_eq!(plasma[2], [0, 0, 0]);
    assert_eq!(plasma[3], [133, 49, 244]);
    assert_eq!(plasma[5], [255, 255, 255]);
    assert_eq!(plasma[36], [255, 255, 255]);
    let candy = generate_palette(FireType::Candy, None);
    assert_eq!(candy[0], [127, 243, 31]);
    assert_eq!(candy[36], [145, 5, 211]);
}

#[test]
fn background_overrides_the_coolest_color_of_every_variant() {
    for fire_type in all_types() {
        let plain = generate_palette(fire_type, None);
        let backed = generate_palette(fire_type, Some([200, 100, 50]));
        assert_eq!(backed[0], [200, 100, 50]);
        assert_eq!(&backed[1..], &plain[1..]);
    }
}

#[test]
fn with_background_on_a_supplied_ramp() {
    let ramp: Vec<[u8; 3]> = (0..37u8).map(|i| [i, i, i]).collect();
    let same = with_background(ramp.clone(), None);
    assert_eq!(same, ramp);
    let backed = with_background(ramp.clone(), Some([7, 8, 9]));
    assert_eq!(backed[0], [7, 8, 9]);
    assert_eq!(&backed[1..], &ramp[1..]);
    let empty: Vec<[u8; 3]> = Vec::new();
    assert_eq!(with_background(empty, Some([1, 1, 1])), Vec::<[u8; 3]>::new());
}
