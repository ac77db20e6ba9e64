//! Archive extraction and inspection engine.
//!
//! The crate holds the decisions of an archive tool for ZIP and gzip-compressed
//! TAR containers: how an entry is classified, what its catalog row shows, where
//! it lands below the output directory, and which progress and status events a
//! job emits. It performs no I/O itself: a listing or an extraction is a state
//! machine that asks its driver for one operation at a time and is told how it
//! went.

pub mod category;
pub mod entry;
pub mod error;
pub mod event;
pub mod extraction;
pub mod extraction_laws;
pub mod format;
pub mod listing;
pub mod listing_laws;
pub mod path;
pub mod preview;
pub mod protocol;
pub mod session;
pub mod text;
