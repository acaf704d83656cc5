//! Manifest-driven artifact installation: the manifest model, destination
//! path rules, the bounded-concurrency fetch scheduler and the run report.

pub mod fetch;
pub mod manifest;
pub mod paths;
pub mod report;
pub mod scheduler;
pub mod text;

pub use paths::{is_archive_file, sanitize_filename};
