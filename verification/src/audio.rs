//! Tracks: the unit the playlist manages and the download engine works on.
//!
//! A track's identity is its numeric id, assigned once at creation and never
//! changed; the engine's in-flight set, directory layout and read path are
//! all keyed by it.

use vstd::prelude::*;
use vstd::string::*;

verus! {

/// Where a track's remote assets come from.
#[derive(Debug, Clone)]
pub enum Source {
    YouTube(String),
}

impl Source {
    /// The display name of the source platform.
    pub fn label(&self) -> (r: String)
        ensures
            r@ == "YouTube"@,
    {
        match self {
            Source::YouTube(_) => String::from_str("YouTube"),
        }
    }
}

/// One track: its identity, display metadata, and source.
#[derive(Debug, Clone)]
pub struct Audio {
    pub id: u32,
    pub title: String,
    pub author: String,
    pub source: Source,
}

/// Relies on rand::random: draws a value from the thread-local generator.
/// Nothing can be promised about a random value.
pub assume_specification<T>[ rand::random::<T> ]() -> (r: T)
    where
        rand::distr::StandardUniform: rand::distr::Distribution<T>,
;

impl Audio {
    /// Create a track under a freshly drawn id.
    pub fn create(title: String, author: String, source: Source) -> (r: Audio)
        ensures
            r.title == title,
            r.author == author,
            r.source == source,
    {
        Audio { id: rand::random::<u32>(), title, author, source }
    }
}

} // verus!
