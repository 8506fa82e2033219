//! Turns a quantized raster image into a game-importable blueprint
//! string: a palette maps pixel colors to named placeable objects, a
//! partitioner splits the image into rectangular cells, an assembler
//! turns each cell into a blueprint record, and a codec serializes the
//! result as version-prefixed, compressed, base64 text.

pub mod codec;
pub mod color;
pub mod dithering;
pub mod json;
pub mod palette;
pub mod printer;
pub mod schema;
pub mod text;
