//! Conversion of unsigned integers between bases 2 to 36, with the rules that
//! sort a loose command line into source base, number and target bases.

pub mod digits;
pub mod error;
pub mod radix;
pub mod render;
pub mod resolve;
pub mod separator;
pub mod text;
