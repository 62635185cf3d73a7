//! A verified download-and-cache engine for remote media.
//!
//! The library turns a pair of remote URLs per item (a thumbnail and a media
//! file) into durably stored, content-addressed local files.  It keeps an
//! in-flight set guaranteeing at most one concurrent download per item,
//! resumes partial transfers from the byte offset already staged, honours
//! cooperative cancellation at chunk boundaries, and publishes finished
//! downloads atomically: both files are moved into the permanent tree before
//! the index document — the sole witness of completeness — is written.
//!
//! All control logic is verified here over an in-memory model of the
//! permanent and staging directory trees; the thin shell that performs real
//! network and file-system calls feeds the very same functions.

pub mod app_state;
pub mod audio;
pub mod config;
pub mod downloader;
pub mod event;
pub mod index_doc;
pub mod mime;
pub mod playlist;
pub mod queue;
pub mod storage;
pub mod store;
pub mod text;
pub mod ytdlp;
pub mod ytdlp_wrapper;

use vstd::prelude::*;

verus! {

} // verus!
