//! Regex-LE: a small, verified extractor of Rust-like declarations.
//!
//! The library scans a byte text for declaration patterns of the shape
//! `kw\s+(\w+)` — a literal keyword such as `fn`, `struct` or `enum`,
//! one or more whitespace bytes, then a captured word — and returns the
//! captured names in the order a global, leftmost, non-overlapping
//! regex search finds them.  A small module of sample data accompanies
//! the scanner as a ready-made subject for it.

pub mod sample;
pub mod scan;
