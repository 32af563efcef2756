use doom_fire::config::{Config, ConfigError, DEFAULT_SCREEN_HEIGHT, DEFAULT_SCREEN_WIDTH};
use doom_fire::fire_types::{FireChoice, FireType};

fn empty() -> Config {
    Config {
        screen_width: None,
        screen_height: None,
        scale: None,
        fps: None,
        output: None,
        fire_type: None,
        background: None,
        restart_on_pause: None,
        pause_on_cover: None,
    }
}

#[test]
fn default_config_values() {
    let config = Config::default();
    assert_eq!(config.screen_width, Some(1920));
    assert_eq!(config.screen_height, Some(1080));
    assert_eq!(config.scale, Some(4));
    assert_eq!(config.fps, Some(23));
    assert_eq!(config.output, Some(String::new()));
    assert_eq!(config.fire_type, Some(String::from("Original")));
    assert_eq!(config.background, None);
    assert_eq!(config.restart_on_pause, Some(true));
    assert_eq!(config.pause_on_cover, Some(true));
}

#[test]
fn merged_fills_absent_settings_only() {
    let mut partial = empty();
    partial.screen_width = Some(800);
    partial.fire_type = Some(String::from("Ice"));
    partial.pause_on_cover = Some(false);
    let merged = partial.merged(Config::default());
    assert_eq!(merged.screen_width, Some(800));
    assert_eq!(merged.screen_height, Some(1080));
    assert_eq!(merged.scale, Some(4));
    assert_eq!(merged.fps, Some(23));
    assert_eq!(merged.output, Some(String::new()));
    assert_eq!(merged.fire_type, Some(String::from("Ice")));
    assert_eq!(merged.background, None);
    assert_eq!(merged.restart_on_pause, Some(true));
    assert_eq!(merged.pause_on_cover, Some(false));
}

#[test]
fn merged_with_nothing_changes_nothing() {
    let mut partial = empty();
    partial.background = Some([1, 2, 3]);
    partial.scale = Some(2);
    let merged = partial.merged(empty());
    assert_eq!(merged.background, Some([1, 2, 3]));
    assert_eq!(merged.scale, Some(2));
    assert_eq!(merged.screen_width, None);
    assert_eq!(merged.fire_type, None);
}

#[test]
fn grid_size_divides_the_screen_by_the_scale() {
    assert_eq!(Config::default().grid_size(), Ok((480, 270)));
    let mut config = empty();
    assert_eq!(DEFAULT_SCREEN_WIDTH, 1920);
    assert_eq!(DEFAULT_SCREEN_HEIGHT, 1080);
    assert_eq!(config.grid_size(), Ok((1920, 1080)));
    config.scale = Some(7);
    assert_eq!(config.grid_size(), Ok((274, 154)));
    config.screen_width = Some(100);
    config.screen_height = Some(50);
    config.scale = Some(50);
    assert_eq!(config.grid_size(), Ok((2, 1)));
}

#[test]
fn grid_size_refuses_a_zero_scale() {
    let mut config = Config::default();
    config.scale = Some(0);
    assert_eq!(config.grid_size(), Err(ConfigError::ZeroScale));
    config.screen_width = Some(0);
    assert_eq!(config.grid_size(), Err(ConfigError::ZeroScale));
}

#[test]
fn grid_size_refuses_a_grid_without_cells() {
    let mut config = Config::default();
    config.scale = Some(1081);
    assert_eq!(config.grid_size(), Err(ConfigError::EmptyGrid));
    config.scale = Some(1);
    config.screen_width = Some(0);
    assert_eq!(config.grid_size(), Err(ConfigError::EmptyGrid));
    config.screen_width = Some(10);
    config.screen_height = Some(0);
    assert_eq!(config.grid_size(), Err(ConfigError::EmptyGrid));
}

#[test]
fn fire_choice_reads_the_configured_name() {
    let mut config = Config::default();
    assert_eq!(config.fire_choice(), FireChoice::Fixed(FireType::Original));
    config.fire_type = Some(String::from("Plasma"));
    assert_eq!(config.fire_choice(), FireChoice::Fixed(FireType::Plasma));
    config.fire_type = Some(String::from("Random"));
    assert_eq!(config.fire_choice(), FireChoice::Random);
    config.fire_type = Some(String::from("no such fire"));
    assert_eq!(config.fire_choice(), FireChoice::Fixed(FireType::Original));
    config.fire_type = None;
    assert_eq!(config.fire_choice(), FireChoice::Fixed(FireType::Original));
}
