use vstd::prelude::*;
use crate::compose::{MAX_DRAW_HEIGHT, MAX_DRAW_WIDTH};

verus! {

/// A key of the configuration file.
#[derive(Clone, Copy, Debug, PartialEq, Eq, Structural)]
pub enum Field {
    ViewWidth,
    ViewHeight,
    Width,
    Height,
    Depth,
    RotateSpeed,
    FocalLength,
    LegacyMode,
    ClearScreen,
    Fps,
    Color,
}

/// The text of each configuration key.
pub open spec fn field_key(f: Field) -> Seq<char> {
    match f {
        Field::ViewWidth => "VIEW_WIDTH"@,
        Field::ViewHeight => "VIEW_HEIGHT"@,
        Field::Width => "WIDTH"@,
        Field::Height => "HEIGHT"@,
        Field::Depth => "DEPTH"@,
        Field::RotateSpeed => "ROTATE_SPEED"@,
        Field::FocalLength => "FOCAL_LENGTH"@,
        Field::LegacyMode => "LEGACY_MODE"@,
        Field::ClearScreen => "CLEAR_SCREEN"@,
        Field::Fps => "FPS"@,
        Field::Color => "COLOR"@,
    }
}

impl Field {
    /// The key as written in the configuration file.
    pub fn key(&self) -> (r: &'static str)
        ensures
            r@ == field_key(*self),
    {
        match self {
            Field::ViewWidth => {
                proof {
                    reveal_strlit("VIEW_WIDTH");
                }
                "VIEW_WIDTH"
            },
            Field::ViewHeight => {
                proof {
                    reveal_strlit("VIEW_HEIGHT");
                }
                "VIEW_HEIGHT"
            },
            Field::Width => {
                proof {
                    reveal_strlit("WIDTH");
                }
                "WIDTH"
            },
            Field::Height => {
                proof {
                    reveal_strlit("HEIGHT");
                }
                "HEIGHT"
            },
            Field::Depth => {
                proof {
                    reveal_strlit("DEPTH");
                }
                "DEPTH"
            },
            Field::RotateSpeed => {
                proof {
                    reveal_strlit("ROTATE_SPEED");
                }
                "ROTATE_SPEED"
            },
            Field::FocalLength => {
                proof {
                    reveal_strlit("FOCAL_LENGTH");
                }
                "FOCAL_LENGTH"
            },
            Field::LegacyMode => {
                proof {
                    reveal_strlit("LEGACY_MODE");
                }
                "LEGACY_MODE"
            },
            Field::ClearScreen => {
                proof {
                    reveal_strlit("CLEAR_SCREEN");
                }
                "CLEAR_SCREEN"
            },
            Field::Fps => {
                proof {
                    reveal_strlit("FPS");
                }
                "FPS"
            },
            Field::Color => {
                proof {
                    reveal_strlit("COLOR");
                }
                "COLOR"
            },
        }
    }
}

/// Why a configuration cannot be used. Every such error is fatal at startup.
#[derive(Clone, Copy, Debug, PartialEq, Eq, Structural)]
pub enum ConfigError {
    /// The key is absent or does not hold a value of its type.
    Missing(Field),
    /// The key holds a value outside its range: a view size below zero, or,
    /// with cursor addressing, beyond what the terminal can address; or a
    /// frame rate below one.
    Invalid(Field),
}

/// The integer and boolean part of the render configuration, checked.
#[derive(Clone, Copy, Debug, PartialEq, Eq, Structural)]
pub struct Settings {
    pub view_width: usize,
    pub view_height: usize,
    pub legacy_mode: bool,
    pub clear_screen: bool,
    pub fps: u64,
    pub color: bool,
}

/// A view width the compositor can show: any size for the full reprint;
/// with cursor addressing, one whose columns all have a terminal position.
pub open spec fn view_width_ok(v: i64, legacy_mode: bool) -> bool {
    0 <= v && v <= usize::MAX && (legacy_mode || v <= MAX_DRAW_WIDTH)
}

/// A view height the compositor can show, in the same sense.
pub open spec fn view_height_ok(v: i64, legacy_mode: bool) -> bool {
    0 <= v && v <= usize::MAX && (legacy_mode || v <= MAX_DRAW_HEIGHT)
}

pub open spec fn fps_ok(v: i64) -> bool {
    v >= 1
}

/// The outcome of checking the values read for each key (`None` where a key
/// is absent or unreadable): first each key is looked for in the order
/// listed, then the view sizes and the frame rate are checked, in that order.
pub open spec fn settings_spec(
    view_width: Option<i64>,
    view_height: Option<i64>,
    legacy_mode: Option<bool>,
    clear_screen: Option<bool>,
    fps: Option<i64>,
    color: Option<bool>,
) -> Result<Settings, ConfigError> {
    if view_width is None {
        Err(ConfigError::Missing(Field::ViewWidth))
    } else if view_height is None {
        Err(ConfigError::Missing(Field::ViewHeight))
    } else if legacy_mode is None {
        Err(ConfigError::Missing(Field::LegacyMode))
    } else if clear_screen is None {
        Err(ConfigError::Missing(Field::ClearScreen))
    } else if fps is None {
        Err(ConfigError::Missing(Field::Fps))
    } else if color is None {
        Err(ConfigError::Missing(Field::Color))
    } else if !view_width_ok(view_width->0, legacy_mode->0) {
        Err(ConfigError::Invalid(Field::ViewWidth))
    } else if !view_height_ok(view_height->0, legacy_mode->0) {
        Err(ConfigError::Invalid(Field::ViewHeight))
    } else if !fps_ok(fps->0) {
        Err(ConfigError::Invalid(Field::Fps))
    } else {
        Ok(
            Settings {
                view_width: view_width->0 as usize,
                view_height: view_height->0 as usize,
                legacy_mode: legacy_mode->0,
                clear_screen: clear_screen->0,
                fps: fps->0 as u64,
                color: color->0,
            },
        )
    }
}

impl Settings {
    /// Checks the values read from the configuration (`None` where a key is
    /// absent or unreadable). Succeeds exactly when every value is present,
    /// both view sizes are in range and the frame rate is at least one.
    pub fn from_values(
        view_width: Option<i64>,
        view_height: Option<i64>,
        legacy_mode: Option<bool>,
        clear_screen: Option<bool>,
        fps: Option<i64>,
        color: Option<bool>,
    ) -> (r: Result<Settings, ConfigError>)
        ensures
            r == settings_spec(view_width, view_height, legacy_mode, clear_screen, fps, color),
            r is Ok <==> ({
                &&& legacy_mode is Some
                &&& view_width is Some && view_width_ok(view_width->0, legacy_mode->0)
                &&& view_height is Some && view_height_ok(view_height->0, legacy_mode->0)
                &&& clear_screen is Some
                &&& fps is Some && fps_ok(fps->0)
                &&& color is Some
            }),
            r matches Ok(s) ==> s.wf(),
    {
        let w = match view_width {
            None => return Err(ConfigError::Missing(Field::ViewWidth)),
            Some(w) => w,
        };
        let h = match view_height {
            None => return Err(ConfigError::Missing(Field::ViewHeight)),
            Some(h) => h,
        };
        let legacy = match legacy_mode {
            None => return Err(ConfigError::Missing(Field::LegacyMode)),
            Some(b) => b,
        };
        let clear = match clear_screen {
            None => return Err(ConfigError::Missing(Field::ClearScreen)),
            Some(b) => b,
        };
        let f = match fps {
            None => return Err(ConfigError::Missing(Field::Fps)),
            Some(f) => f,
        };
        let c = match color {
            None => return Err(ConfigError::Missing(Field::Color)),
            Some(c) => c,
        };
        if !(0 <= w && (w as u128) <= (usize::MAX as u128) && (legacy || w <= MAX_DRAW_WIDTH as i64)) {
            return Err(ConfigError::Invalid(Field::ViewWidth));
        }
        if !(0 <= h && (h as u128) <= (usize::MAX as u128) && (legacy || h <= MAX_DRAW_HEIGHT as i64)) {
            return Err(ConfigError::Invalid(Field::ViewHeight));
        }
        if f < 1 {
            return Err(ConfigError::Invalid(Field::Fps));
        }
        Ok(
            Settings {
                view_width: w as usize,
                view_height: h as usize,
                legacy_mode: legacy,
                clear_screen: clear,
                fps: f as u64,
                color: c,
            },
        )
    }

    /// A positive frame rate and, with cursor addressing, a view whose cells
    /// all have a terminal position.
    pub open spec fn wf(&self) -> bool {
        &&& self.fps >= 1
        &&& !self.legacy_mode ==> self.view_width <= MAX_DRAW_WIDTH
        &&& !self.legacy_mode ==> self.view_height <= MAX_DRAW_HEIGHT
    }

    /// The pause between two frames, in milliseconds: `1000 / fps`.
    pub fn frame_delay_ms(&self) -> (r: u64)
        requires
            self.wf(),
        ensures
            r == 1000u64 / self.fps,
    {
        1000 / self.fps
    }
}

/// How the screen is cleared between frames.
#[derive(Clone, Copy, Debug, PartialEq, Eq, Structural)]
pub enum ScreenClear {
    /// Leave the screen as it is.
    Keep,
    /// Print the escape sequence that erases the screen and homes the cursor.
    EscapeSequence,
    /// Ask the terminal backend to clear the whole screen.
    Terminal,
}

/// The way to clear the screen after a frame: none unless clearing is on;
/// the full-reprint mode prints an escape sequence, the cursor-addressed mode
/// asks the terminal.
pub fn screen_clear(legacy_mode: bool, clear_screen: bool) -> (r: ScreenClear)
    ensures
        r == if !clear_screen {
            ScreenClear::Keep
        } else if legacy_mode {
            ScreenClear::EscapeSequence
        } else {
            ScreenClear::Terminal
        },
{
    if !clear_screen {
        ScreenClear::Keep
    } else if legacy_mode {
        ScreenClear::EscapeSequence
    } else {
        ScreenClear::Terminal
    }
}

} // verus!
