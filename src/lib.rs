//! Decoder for MusrRoot measurement files: muon-spin spectroscopy data
//! (decay histograms, slow-control readings and run metadata) read from a
//! byte buffer that is already in memory.
//!
//! Two on-disk encodings share one schema: a fixed-stride layout, where every
//! field occupies a slot of constant width, and a streaming layout, where text
//! is terminated by a zero byte and arrays run until an element fails.
pub mod cursor;
pub mod detector;
pub mod error;
pub mod histos;
pub mod musr_root_file;
pub mod round_trip;
pub mod run_header;
