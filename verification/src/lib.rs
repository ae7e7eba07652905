//! Directory-size scanning for per-application data directories.
//!
//! The crate models a directory tree as a plain value ([`fs_tree::FsNode`]),
//! computes cumulative sizes and file counts over it, and turns a scan of a
//! root directory into an ordered stream of events ([`scanner::ScanEvent`]):
//! one entry per immediate subdirectory, interleaved progress updates, and a
//! single terminal completion marker. A thin unverified shell reads the real
//! filesystem into the model and moves the events across a channel.

pub mod fs_tree;
pub mod scanner;
pub mod ui;
pub mod utils;
