//! Native backend logic for a pixel-sprite editor.
//!
//! A sprite is an RGBA pixel buffer with a width and a height. The library
//! validates raw buffers handed over by the front end, performs
//! nearest-neighbor upscaling for raster export, holds the list of
//! sprites the commands share, and builds the exact status and error
//! messages that the commands report. File-system and image-encoding
//! calls live outside the library.

pub mod export;
pub mod messages;
pub mod scale;
pub mod sprite;
pub mod store;
