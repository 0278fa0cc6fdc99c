//! Turns an RGBA pixel buffer into a sequence of text glyphs by mapping the
//! brightness of each pixel onto an ordered gradient of characters.
pub mod convert;
pub mod gradient;
pub mod pixel;
