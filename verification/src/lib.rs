//! Core logic of a metadata-preserving media transcoding front end.
//!
//! The library resolves user-facing presets into effective encoder settings,
//! computes collision-safe output paths, plans batch runs over a collected
//! set of media files, and builds the exact argument lists handed to the
//! external probe and transcode programs.  All decision logic lives here and
//! is verified; process spawning and filesystem access stay with the caller.

pub mod batch;
pub mod collect;
pub mod engine;
pub mod paths;
pub mod preset;
pub mod strutil;
