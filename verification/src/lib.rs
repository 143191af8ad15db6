//! Border detection and tile-exact upscaling for images that carry their
//! resize regions as a one-pixel frame of marker colours, and the colour
//! handling of the documents that such images are drawn from.

pub mod bounds;
pub mod cli;
pub mod color;
pub mod edge;
pub mod map_colors;
pub mod parser;
pub mod pixel;
pub mod pixmap;
pub mod render;
pub mod roundtrip;
pub mod scale;
pub mod single;
