//! Flip the two items around a separator token.
//!
//! Given a cursor position inside a parsed syntax tree, this library decides
//! whether the "flip the two items around this comma" edit applies, and if so
//! produces a minimal text edit that swaps the two neighboring items while
//! leaving everything else — whitespace, comments, the separator itself —
//! byte-for-byte unchanged.

pub mod tree;
pub mod navigate;
pub mod edit;
pub mod flip;
