use doom_fire::spread::{spread_fire, spread_from, Draw, DECAY_ODDS, FAR_ODDS};
use rand::rngs::StdRng;
use rand::SeedableRng;

fn numbered(width: usize, height: usize) -> Vec<u8> {
    (0..width * height).map(|i| (i % 37) as u8).collect()
}

#[test]
fn odds_of_the_pass() {
    assert_eq!(DECAY_ODDS, (3, 10));
    assert_eq!(FAR_ODDS, (3, 10));
}

#[test]
fn step_straight_up_without_decay() {
    let mut grid = vec![0u8; 4 * 4];
    grid[3 * 4 + 1] = 20;
    spread_from(&mut grid, 4, 1, 3, 0, Draw { decay: false, drift: 1, far: false });
    let mut expected = vec![0u8; 16];
    expected[3 * 4 + 1] = 20;
    expected[2 * 4 + 1] = 20;
    assert_eq!(grid, expected);
}

#[test]
fn step_with_decay_drift_and_a_far_landing() {
    let mut grid = vec![9u8; 4 * 4];
    grid[3 * 4 + 1] = 20;
    spread_from(&mut grid, 4, 1, 3, 0, Draw { decay: true, drift: 2, far: true });
    let mut expected = vec![9u8; 16];
    expected[3 * 4 + 1] = 20;
    expected[1 * 4 + 2] = 19;
    assert_eq!(grid, expected);
    spread_from(&mut grid, 4, 1, 3, 0, Draw { decay: true, drift: 0, far: false });
    expected[2 * 4 + 0] = 19;
    assert_eq!(grid, expected);
}

#[test]
fn cold_cells_do_not_cool_below_zero() {
    let mut grid = vec![5u8; 3 * 3];
    grid[2 * 3 + 1] = 0;
    spread_from(&mut grid, 3, 1, 2, 0, Draw { decay: true, drift: 1, far: false });
    assert_eq!(grid[1 * 3 + 1], 0);
}

#[test]
fn heat_that_leaves_the_grid_is_dropped() {
    let start = numbered(3, 4);
    let mut grid = start.clone();
    spread_from(&mut grid, 3, 0, 3, 0, Draw { decay: false, drift: 0, far: false });
    assert_eq!(grid, start);
    spread_from(&mut grid, 3, 2, 3, 0, Draw { decay: false, drift: 2, far: true });
    assert_eq!(grid, start);
    spread_from(&mut grid, 3, 1, 2, 2, Draw { decay: false, drift: 1, far: false });
    assert_eq!(grid, start);
    spread_from(&mut grid, 3, 1, 2, -2, Draw { decay: false, drift: 1, far: false });
    assert_eq!(grid, start);
    spread_from(&mut grid, 3, 1, 2, isize::MAX, Draw { decay: false, drift: 2, far: false });
    assert_eq!(grid, start);
    spread_from(&mut grid, 3, 1, 2, isize::MIN, Draw { decay: false, drift: 0, far: false });
    assert_eq!(grid, start);
    spread_from(&mut grid, 3, 1, 2, 0, Draw { decay: false, drift: usize::MAX, far: false });
    assert_eq!(grid, start);
}

#[test]
fn wind_shifts_the_landing_column() {
    let mut grid = vec![0u8; 5 * 3];
    grid[2 * 5 + 2] = 30;
    spread_from(&mut grid, 5, 2, 2, 2, Draw { decay: false, drift: 1, far: false });
    assert_eq!(grid[1 * 5 + 4], 30);
    spread_from(&mut grid, 5, 2, 2, -1, Draw { decay: true, drift: 0, far: true });
    assert_eq!(grid[0], 29);
    let lit = grid.iter().filter(|level| **level != 0).count();
    assert_eq!(lit, 3);
}

fn cone_peak(grid: &[u8], width: usize, height: usize, x: usize, y: usize, reach: usize) -> u8 {
    let mut peak: u8 = 0;
    for sy in y..height {
        let spread = (sy - y) * reach;
        let low = x.saturating_sub(spread);
        let high = (x + spread).min(width - 1);
        for sx in low..=high {
            peak = peak.max(grid[sy * width + sx]);
        }
    }
    peak
}

#[test]
fn without_wind_heat_never_grows_on_its_way_up() {
    for seed in 0..20u64 {
        let mut rng = StdRng::seed_from_u64(seed);
        let width: usize = 9;
        let height: usize = 8;
        let start: Vec<u8> = (0..width * height).map(|i| ((i * 7 + seed as usize * 5) % 37) as u8).collect();
        let mut grid = start.clone();
        spread_fire(&mut grid, width, height, 0, &mut rng);
        assert_eq!(grid.len(), start.len());
        for y in 0..height {
            for x in 0..width {
                let peak = cone_peak(&start, width, height, x, y, 1);
                assert!(grid[y * width + x] <= peak, "seed {} cell {} {}", seed, x, y);
            }
        }
    }
}

#[test]
fn under_wind_heat_stays_inside_the_wider_cone() {
    for wind in [-3isize, -1, 1, 2] {
        let mut rng = StdRng::seed_from_u64(77);
        let width: usize = 12;
        let height: usize = 7;
        let start: Vec<u8> = (0..width * height).map(|i| ((i * 11) % 37) as u8).collect();
        let mut grid = start.clone();
        spread_fire(&mut grid, width, height, wind, &mut rng);
        let reach = 1 + wind.unsigned_abs();
        for y in 0..height {
            for x in 0..width {
                let peak = cone_peak(&start, width, height, x, y, reach);
                assert!(grid[y * width + x] <= peak);
            }
        }
    }
}

#[test]
fn the_pass_never_writes_the_base_row() {
    for seed in 0..10u64 {
        let mut rng = StdRng::seed_from_u64(seed);
        let start = numbered(6, 5);
        let mut grid = start.clone();
        spread_fire(&mut grid, 6, 5, (seed as isize) - 5, &mut rng);
        assert_eq!(&grid[4 * 6..], &start[4 * 6..]);
    }
}

#[test]
fn the_pass_works_in_place() {
    let mut rng = StdRng::seed_from_u64(12);
    let width: usize = 200;
    let height: usize = 12;
    let mut grid = vec![0u8; width * height];
    for x in 0..width {
        grid[(height - 1) * width + x] = 36;
    }
    spread_fire(&mut grid, width, height, 0, &mut rng);
    for y in (height - 5)..height {
        let lit = (0..width).filter(|x| grid[y * width + x] > 0).count();
        assert!(lit > 0, "row {}", y);
    }
    assert!(grid.iter().all(|level| *level <= 36));
    assert!(grid.iter().any(|level| *level < 36 && *level > 0));
    assert!(grid[(height - 2) * width..(height - 1) * width].iter().all(|level| *level == 0 || *level >= 35));
}

#[test]
fn a_strong_wind_blows_all_heat_away() {
    let mut rng = StdRng::seed_from_u64(13);
    let start = numbered(5, 6);
    let mut grid = start.clone();
    spread_fire(&mut grid, 5, 6, 7, &mut rng);
    assert_eq!(grid, start);
    spread_fire(&mut grid, 5, 6, isize::MIN, &mut rng);
    assert_eq!(grid, start);
}

#[test]
fn low_grids_have_no_source_rows() {
    let mut rng = StdRng::seed_from_u64(14);
    for height in 0..3usize {
        let start = numbered(4, height);
        let mut grid = start.clone();
        spread_fire(&mut grid, 4, height, 0, &mut rng);
        assert_eq!(grid, start);
    }
    let mut grid = vec![0u8, 0, 0, 5, 5, 5, 9, 9, 9];
    spread_fire(&mut grid, 3, 3, 0, &mut rng);
    assert_eq!(&grid[6..], &[9, 9, 9]);
    assert!(grid[..6].iter().all(|level| *level == 0 || *level == 5 || *level == 8 || *level == 9));
}
