//! Core logic of a segmented HTTP downloader.
//!
//! The library holds everything that can be decided or computed from plain
//! values: how the remaining byte range is split into segments, which
//! download strategy a probe result calls for, how resume and fallback are
//! chosen, and how the outcome of each fetch is judged. The surrounding
//! binary performs the network and file I/O and feeds the results back in.

pub mod fetch;
pub mod filemodel;
pub mod naming;
pub mod orchestrator;
pub mod resource;
pub mod segment;
