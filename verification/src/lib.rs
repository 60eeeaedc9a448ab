//! Compositing of RGBA8 pixel buffers: an image is copied into a canvas at an
//! offset, cropped to what the canvas has room for.

pub mod bounds;
pub mod compose;
pub mod geometry;
pub mod img;
pub mod laws;
pub mod raster;
