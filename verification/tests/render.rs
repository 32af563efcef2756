use doom_fire::doom_fire::DoomFire;
use doom_fire::fire_types::FireType;
use doom_fire::render::{
    frame_shape, render_fire_frame, render_fire_frame_to_image, render_row, FrameShape,
    RenderError, BYTES_PER_PIXEL,
};
use rand::rngs::StdRng;
use rand::SeedableRng;

fn burning(width: usize, height: usize, fire_type: FireType, ticks: usize) -> DoomFire {
    let mut rng = StdRng::seed_from_u64(31);
    let mut fire = DoomFire::new(width, height, fire_type, Some([10, 20, 30]), &mut rng).unwrap();
    for _ in 0..ticks {
        fire.update(0, &mut rng);
    }
    fire
}

#[test]
fn a_fresh_fire_renders_background_over_a_hot_base() {
    let fire = burning(3, 2, FireType::Original, 0);
    let frame = render_fire_frame_to_image(&fire).unwrap();
    assert_eq!(BYTES_PER_PIXEL, 3);
    assert_eq!((frame.width, frame.height), (3, 2));
    assert_eq!(
        frame.bytes,
        vec![10, 20, 30, 10, 20, 30, 10, 20, 30, 255, 255, 0, 255, 255, 0, 255, 255, 0]
    );
}

#[test]
fn every_pixel_has_the_color_of_its_cell() {
    let fire = burning(17, 13, FireType::Ice, 40);
    let frame = render_fire_frame_to_image(&fire).unwrap();
    assert_eq!((frame.width, frame.height), (17, 13));
    assert_eq!(frame.bytes.len(), 17 * 13 * 3);
    for y in 0..13 {
        for x in 0..17 {
            let color = fire.palette[fire.pixel_buffer[y * 17 + x] as usize];
            let at = (y * 17 + x) * 3;
            assert_eq!(&frame.bytes[at..at + 3], &color[..]);
        }
    }
}

#[test]
fn upscaling_by_three_gives_uniform_blocks() {
    let fire = burning(11, 7, FireType::Toxic, 60);
    let frame = render_fire_frame(&fire, 3).unwrap();
    assert_eq!((frame.width, frame.height), (33, 21));
    assert_eq!(frame.bytes.len(), 33 * 21 * 3);
    for y in 0..7 {
        for x in 0..11 {
            let color = fire.palette[fire.pixel_buffer[y * 11 + x] as usize];
            for dy in 0..3 {
                for dx in 0..3 {
                    let at = ((y * 3 + dy) * 33 + x * 3 + dx) * 3;
                    assert_eq!(&frame.bytes[at..at + 3], &color[..]);
                }
            }
        }
    }
}

#[test]
fn scale_one_is_the_plain_frame() {
    let fire = burning(8, 8, FireType::Purple, 25);
    let plain = render_fire_frame_to_image(&fire).unwrap();
    let scaled = render_fire_frame(&fire, 1).unwrap();
    assert_eq!(plain.bytes, scaled.bytes);
    assert_eq!((plain.width, plain.height), (scaled.width, scaled.height));
}

#[test]
fn rows_of_a_frame_are_the_rendered_rows() {
    let fire = burning(6, 5, FireType::Green, 30);
    let frame = render_fire_frame(&fire, 2).unwrap();
    let row_len = 6 * 2 * 3;
    for oy in 0..10 {
        let row = render_row(&fire, 2, oy / 2);
        assert_eq!(row.len(), row_len);
        assert_eq!(&frame.bytes[oy * row_len..(oy + 1) * row_len], &row[..]);
    }
}

#[test]
fn render_row_replicates_each_cell() {
    let fire = burning(2, 2, FireType::Original, 0);
    assert_eq!(render_row(&fire, 1, 0), vec![10, 20, 30, 10, 20, 30]);
    assert_eq!(render_row(&fire, 1, 1), vec![255, 255, 0, 255, 255, 0]);
    assert_eq!(
        render_row(&fire, 2, 1),
        vec![255, 255, 0, 255, 255, 0, 255, 255, 0, 255, 255, 0]
    );
}

#[test]
fn a_zero_scale_is_refused() {
    let fire = burning(4, 4, FireType::Original, 3);
    assert!(matches!(render_fire_frame(&fire, 0), Err(RenderError::ZeroScale)));
}

#[test]
fn a_frame_beyond_the_address_space_is_refused() {
    let fire = burning(4, 4, FireType::Original, 3);
    assert!(matches!(render_fire_frame(&fire, usize::MAX), Err(RenderError::TooLarge)));
    assert!(matches!(render_fire_frame(&fire, usize::MAX / 4), Err(RenderError::TooLarge)));
    assert!(matches!(render_fire_frame(&fire, 1 << 31), Err(RenderError::TooLarge)));
}

#[test]
fn rendering_leaves_the_fire_as_it_is() {
    let fire = burning(9, 9, FireType::Void, 20);
    let grid = fire.pixel_buffer.clone();
    let palette = fire.palette.clone();
    let first = render_fire_frame(&fire, 2).unwrap();
    let second = render_fire_frame(&fire, 2).unwrap();
    assert_eq!(first.bytes, second.bytes);
    assert_eq!(fire.pixel_buffer, grid);
    assert_eq!(fire.palette, palette);
}

#[test]
fn frame_shape_of_a_scaled_grid() {
    assert_eq!(frame_shape(480, 270, 4), Ok(FrameShape { width: 1920, height: 1080, row_len: 5760 }));
    assert_eq!(frame_shape(1, 1, 1), Ok(FrameShape { width: 1, height: 1, row_len: 3 }));
    assert_eq!(frame_shape(7, 5, 3), Ok(FrameShape { width: 21, height: 15, row_len: 63 }));
}

#[test]
fn frame_shape_refuses_what_cannot_be_rendered() {
    assert_eq!(frame_shape(4, 4, 0), Err(RenderError::ZeroScale));
    assert_eq!(frame_shape(usize::MAX, 1, 1), Err(RenderError::TooLarge));
    assert_eq!(frame_shape(usize::MAX / 3, 1, 1).map(|s| s.row_len), Ok(usize::MAX));
    assert_eq!(frame_shape(usize::MAX / 3, 2, 1), Err(RenderError::TooLarge));
    assert_eq!(frame_shape(2, 2, usize::MAX), Err(RenderError::TooLarge));
    assert_eq!(frame_shape(1, usize::MAX, 1), Err(RenderError::TooLarge));
}
