//! Motion programs for CNC machines: a move algebra with its canonical text,
//! and a path walker that cuts only the part of a polyline inside a circle.
//!
//! Every length, angle and feed rate is a fixed-point number: an `i64` that
//! counts ten-thousandths of a unit, which is exactly the resolution of the
//! rendered text.
//!
//! - [`fixed`]: the text of a number.
//! - [`moves`]: move descriptors, their validation and their text.
//! - [`arcs`]: arc moves, full circles and helices.
//! - [`geometry`]: points, segments, circles, and trimming a segment to a circle.
//! - [`trim_laws`]: what is proved of every trimming.
//! - [`path`]: the walk along a path, and what is proved of every walk.
//! - [`program`]: the lines that open and close a program.
//! - [`patterns`]: which ticks of a ring are drawn.
//! - [`sqrt`]: integer square roots.

pub mod arcs;
pub mod fixed;
pub mod geometry;
pub mod moves;
pub mod path;
pub mod patterns;
pub mod program;
pub mod sqrt;
pub mod trim_laws;

pub use arcs::{g2, g2_circle, g2_helix, g3};
pub use moves::{
    a, g0, g1, g_move_linear, g_val, x, xaf, xf, xy, xyf, xyijf, xyr, xyrf, xyz, xyza, xyzf,
    xyzijf, xyzrf, xzf, yf, z, zaf, zf, AsGVals, InvalidMove, PosAndFeed, PosRadiusAndFeed,
    PosXYIJ,
};
pub use path::{trimmed_g1_path, trimmed_path_steps, PathStep};
pub use program::{
    gcode_comment, inv_feed_g93, preamble, standard_feed_g94, tool_change, trailer,
};
