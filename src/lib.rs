//! Progress monitoring for a media-transcoding subprocess: field extraction
//! from its diagnostic stream, metric derivation and in-place line rendering.

pub mod fields;
pub mod format;
pub mod metrics;
pub mod monitor;
pub mod render;
pub mod text;
