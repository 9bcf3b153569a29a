//! A layout engine for converting a structured word-processing document
//! (paragraphs of styled text runs, plus embedded images) into a sequence of
//! page-relative placement commands with absolute positions.
//!
//! The engine is a pure, total transformation: it performs line wrapping by a
//! character budget, vertical flow with page breaks, and width-driven image
//! scaling.  All lengths are integers in micrometers (thousandths of a
//! millimeter), so every computation is exact.  Reading the source container,
//! decoding images and serializing the final pages are left to unverified
//! callers, which hand the engine plain values.

pub mod engine;
pub mod geometry;
pub mod media;
pub mod model;
pub mod style;
pub mod text;
pub mod wrap;
