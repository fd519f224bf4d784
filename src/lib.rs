//! Hides a payload file inside the ID3v2 tag of an audio file, as a general
//! encapsulated object frame, and recovers it again.
//!
//! The library works on values: file contents as bytes, paths as strings.
//! Reading and writing the files is left to its caller.

pub mod classify;
pub mod engine;
pub mod paths;
pub mod random;
pub mod slot;
pub mod tag;
