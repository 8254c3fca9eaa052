//! Core of a tool that rewrites every raster tile of a tiled archive through a
//! per-tile pixel transform and writes the results to a new archive in a
//! deterministic order.
//!
//! The verified library holds the pixel remapping arithmetic, the PNG
//! transform built around the `png` codec, the coordinate sequencer, and the
//! reordering buffer that turns an out-of-order stream of transformed tiles
//! back into a strictly ascending one.

pub mod cli;
pub mod codec;
pub mod pixel;
pub mod reorder;
pub mod sequencer;
pub mod tile;
pub mod transform;
