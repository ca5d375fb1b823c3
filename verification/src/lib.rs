//! Turns a decoded picture into a grid of printable characters.
//!
//! The picture is cut into a grid of tiles, one for each character
//! ([`tiler`]). The pixels of a tile are sampled and reduced to their mean
//! colour ([`sampler`]), the lightness of that colour is worked out
//! ([`luminance`], [`color`]), and the lightness picks a character from one of
//! two ramps ([`ramp`]). [`converter`] runs this for every tile of a picture
//! ([`raster`]) and hands back the grid.
//!
//! Nothing here reads a file or writes to a terminal: the picture comes in
//! decoded, and the grid goes out as plain values.

pub mod color;
pub mod converter;
pub mod luminance;
pub mod ramp;
pub mod raster;
pub mod sampler;
pub mod tiler;
