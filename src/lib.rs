//! Reorganises a tree of audio files into an `Artist/Album/Title.ext` layout.
//!
//! The library holds the decisions of the pipeline: which paths count as
//! directories or files, which walked entries are audio files, what metadata
//! and destination each file gets, and how each copy proceeds and is counted.
//! Reading the disk, the tags and the terminal is left to the caller, which
//! hands the library plain values.

pub mod paths;
pub mod validate;
pub mod metadata;
pub mod run;
pub mod copier;
