//! A dynamic glyph atlas: glyph images packed into one shared bitmap, with
//! resolution-independent metrics and dirty tracking for upload.

pub mod allocator;
pub mod bitmap;
pub mod cache;
pub mod charset;
pub mod font;
pub mod geometry;
pub mod metrics;
pub mod outline;
pub mod packing;
pub mod sdf;
