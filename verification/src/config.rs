//! What a configuration holds, and how it is turned into the size of a grid
//! and the choice of a variant.

use crate::fire_types::{choice_of_name, FireChoice, FireType};
use vstd::prelude::*;

verus! {

/// The settings of the animation. Every setting may be absent.
#[derive(Clone, Debug)]
pub struct Config {
    /// Width of the screen, in pixels.
    pub screen_width: Option<usize>,
    /// Height of the screen, in pixels.
    pub screen_height: Option<usize>,
    /// Side of the square of screen pixels that one cell of the grid covers.
    pub scale: Option<usize>,
    /// Ticks per second.
    pub fps: Option<u32>,
    /// Name of the output to draw on.
    pub output: Option<String>,
    /// Name of the variant, or `Random`.
    pub fire_type: Option<String>,
    /// Colour of the coolest level, in place of the one of the ramp.
    pub background: Option<[u8; 3]>,
    /// Whether the fire starts afresh when it resumes after a pause.
    pub restart_on_pause: Option<bool>,
    /// Whether the fire pauses while every output is covered.
    pub pause_on_cover: Option<bool>,
}

/// Why a configuration cannot give a grid.
#[derive(Clone, Copy, Debug, PartialEq, Eq, Structural)]
pub enum ConfigError {
    /// The scale is zero.
    ZeroScale,
    /// The grid would have no column or no row.
    EmptyGrid,
    /// The grid would have more cells than can be addressed.
    GridTooLarge,
}

/// Screen width that is assumed when none is configured.
pub const DEFAULT_SCREEN_WIDTH: usize = 1920;

/// Screen height that is assumed when none is configured.
pub const DEFAULT_SCREEN_HEIGHT: usize = 1080;

/// A setting, or the fallback where the setting is absent.
pub open spec fn or_else<T>(setting: Option<T>, fallback: Option<T>) -> Option<T> {
    if setting is Some {
        setting
    } else {
        fallback
    }
}

/// A number, or the fallback where it is absent.
pub open spec fn number_or(setting: Option<usize>, fallback: usize) -> usize {
    match setting {
        Some(n) => n,
        None => fallback,
    }
}

impl Config {
    /// Scale that the grid is built with: 1 where none is configured.
    pub open spec fn grid_scale(&self) -> usize {
        number_or(self.scale, 1)
    }

    /// Width of the grid, for a scale that is not zero: the screen width
    /// divided by the scale, rounded down.
    pub open spec fn grid_width(&self) -> int {
        number_or(self.screen_width, DEFAULT_SCREEN_WIDTH) as int / self.grid_scale() as int
    }

    /// Height of the grid, for a scale that is not zero: the screen height
    /// divided by the scale, rounded down.
    pub open spec fn grid_height(&self) -> int {
        number_or(self.screen_height, DEFAULT_SCREEN_HEIGHT) as int / self.grid_scale() as int
    }

    /// The variant that the configuration asks for.
    pub open spec fn chosen_fire(&self) -> FireChoice {
        match self.fire_type {
            Some(name) => choice_of_name(name@),
            None => FireChoice::Fixed(FireType::Original),
        }
    }

    /// Fills every absent setting from `fallback`.
    pub fn merged(self, fallback: Config) -> (r: Config)
        ensures
            r.screen_width == or_else(self.screen_width, fallback.screen_width),
            r.screen_height == or_else(self.screen_height, fallback.screen_height),
            r.scale == or_else(self.scale, fallback.scale),
            r.fps == or_else(self.fps, fallback.fps),
            r.output == or_else(self.output, fallback.output),
            r.fire_type == or_else(self.fire_type, fallback.fire_type),
            r.background == or_else(self.background, fallback.background),
            r.restart_on_pause == or_else(self.restart_on_pause, fallback.restart_on_pause),
            r.pause_on_cover == or_else(self.pause_on_cover, fallback.pause_on_cover),
    {
        Config {
            screen_width: match self.screen_width {
                Some(v) => Some(v),
                None => fallback.screen_width,
            },
            screen_height: match self.screen_height {
                Some(v) => Some(v),
                None => fallback.screen_height,
            },
            scale: match self.scale {
                Some(v) => Some(v),
                None => fallback.scale,
            },
            fps: match self.fps {
                Some(v) => Some(v),
                None => fallback.fps,
            },
            output: match self.output {
                Some(v) => Some(v),
                None => fallback.output,
            },
            fire_type: match self.fire_type {
                Some(v) => Some(v),
                None => fallback.fire_type,
            },
            background: match self.background {
                Some(v) => Some(v),
                None => fallback.background,
            },
            restart_on_pause: match self.restart_on_pause {
                Some(v) => Some(v),
                None => fallback.restart_on_pause,
            },
            pause_on_cover: match self.pause_on_cover {
                Some(v) => Some(v),
                None => fallback.pause_on_cover,
            },
        }
    }

    /// The size of the grid: the screen divided by the scale, each side
    /// rounded down. A zero scale is refused, and so is a screen smaller than
    /// the scale in either direction, which would leave no cell.
    pub fn grid_size(&self) -> (r: Result<(usize, usize), ConfigError>)
        ensures
            r matches Err(ConfigError::ZeroScale) <==> self.grid_scale() == 0,
            r matches Err(ConfigError::EmptyGrid) <==> self.grid_scale() != 0 && (self.grid_width()
                == 0 || self.grid_height() == 0),
            !(r matches Err(ConfigError::GridTooLarge)),
            r matches Ok(size) ==> size.0 == self.grid_width() && size.1 == self.grid_height(),
    {
        let scale = match self.scale {
            Some(n) => n,
            None => 1,
        };
        if scale == 0 {
            return Err(ConfigError::ZeroScale);
        }
        let screen_width = match self.screen_width {
            Some(n) => n,
            None => DEFAULT_SCREEN_WIDTH,
        };
        let screen_height = match self.screen_height {
            Some(n) => n,
            None => DEFAULT_SCREEN_HEIGHT,
        };
        let width = screen_width / scale;
        let height = screen_height / scale;
        if width == 0 || height == 0 {
            Err(ConfigError::EmptyGrid)
        } else {
            Ok((width, height))
        }
    }

    /// The variant that the configuration asks for. An absent name and an
    /// unknown one both give `Original`.
    pub fn fire_choice(&self) -> (r: FireChoice)
        ensures
            r == self.chosen_fire(),
    {
        match &self.fire_type {
            Some(name) => FireChoice::from_name(Some(name.as_str())),
            None => FireChoice::from_name(None),
        }
    }
}

impl Default for Config {
    /// A full-HD screen at scale 4 and 23 ticks per second, the `Original`
    /// variant on its own background, pausing while covered and starting
    /// afresh afterwards.
    fn default() -> (r: Config)
        ensures
            r.screen_width == Some(1920usize),
            r.screen_height == Some(1080usize),
            r.scale == Some(4usize),
            r.fps == Some(23u32),
            r.output matches Some(name) && name@ == Seq::<char>::empty(),
            r.fire_type matches Some(name) && name@ == "Original"@,
            r.background is None,
            r.restart_on_pause == Some(true),
            r.pause_on_cover == Some(true),
    {
        Config {
            screen_width: Some(1920),
            screen_height: Some(1080),
            scale: Some(4),
            fps: Some(23),
            output: Some(String::new()),
            fire_type: Some("Original".to_string()),
            background: None,
            restart_on_pause: Some(true),
            pause_on_cover: Some(true),
        }
    }
}

} // verus!
