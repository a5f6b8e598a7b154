//! Indexed large-file editing engine.
//!
//! The engine keeps, for each file, an ordered list of byte offsets at which
//! its lines start (a [`index::LineIndex`]).  On top of that index it offers
//! a range reader, which materialises exactly the bytes of a clamped line
//! range, and a range patcher, which splices replacement bytes over a line
//! range and re-derives the index for the new contents.  A small cache maps
//! file paths to their current index.
//!
//! Alongside the engine stand the two decisions the file classifier takes
//! before a file is admitted: the binary sniff and the size threshold.
//!
//! Everything here works on in-memory byte snapshots or terminator-split
//! segment streams; opening, reading and atomically renaming the real files
//! is left to the surrounding program.

pub mod cache;
pub mod classify;
pub mod index;
pub mod laws;
pub mod patch;
pub mod range;
