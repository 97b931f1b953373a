//! A personal media library's core: filename rules of the track store,
//! cover-art normalization and the lazily filled artwork cache, the
//! downloader's retry policy, metadata resolution, tag edits, the play
//! history and per-artist grouping.
pub mod names;
pub mod geometry;
pub mod artwork;
pub mod acquire;
pub mod metadata;
pub mod edit;
pub mod history;
pub mod listing;
