//! A wireframe renderer for a character grid: rasterises the edges and
//! vertices of a projected solid into a grid of glyphs, composes frames for a
//! terminal, and steps the interactive controls from frame to frame.

mod compose;
mod control;
mod geometry;
mod grid;
mod raster;
mod render;
mod settings;

pub use compose::{
    frame_to_draws, frame_to_text, paint_of, CellDraw, Paint, MAX_DRAW_HEIGHT, MAX_DRAW_WIDTH,
};
pub use control::{action_for, control_step, Action, Key, Mode};
pub use geometry::{Edge, Vertex, Wireframe};
pub use grid::{change_cell, Glyph, Grid};
pub use raster::draw_line;
pub use render::{render_frame, Cell};
pub use settings::{screen_clear, ConfigError, Field, ScreenClear, Settings};
