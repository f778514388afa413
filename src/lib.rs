//! Adapts an addressable LED strip, wired in an arbitrary physical order, to a
//! two-dimensional drawing surface.
//!
//! A [`layout::Layout`] maps logical `(x, y)` positions to physical indices, a
//! [`buffer::PixelBuffer`] holds one color per LED in physical order, and a
//! [`SmartLedMatrix`] draws pixels through the layout and flushes the buffer,
//! scaled by a global brightness, to a [`ColorTransport`].
pub mod buffer;
pub mod color;
pub mod geometry;
pub mod layout;
pub mod matrix;
pub mod paint;

pub use buffer::PixelBuffer;
pub use color::{Pixel, Rgb};
pub use geometry::{Point, Size};
pub use layout::{Layout, Rectangular, RowLayout};
pub use matrix::{ColorTransport, SmartLedMatrix};
