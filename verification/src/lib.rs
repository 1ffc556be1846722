//! Decision logic of streaming package downloads.
//!
//! A Conda package is fetched over HTTP, or opened from a local file, and
//! handed to an archive extractor.  Every decision on the way is made here:
//! which source a package is read from, whether a download is split into
//! concurrent byte ranges, what each response means, when an extraction is
//! repeated from a buffer, and what a progress reporter is told.  The work
//! itself (requests, files, decompression) is done by the application: each
//! step of a run names the work that is due and holds the state that takes the
//! outcome and yields the next step.
#![allow(unused_imports)]

pub mod config;
pub mod ranges;
pub mod text;
pub mod probe;
pub mod archive;
pub mod location;
pub mod chunk;
pub mod error;
pub mod assembly;
pub mod download;
pub mod progress;
pub mod reader;
pub mod extract;
pub mod laws;
