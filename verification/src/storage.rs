//! The older fixed-extension storage manager.
//!
//! This layout published every item under the same two file names, so the
//! read side needs no index document; what is modelled and verified is its
//! bookkeeping: which items hold both files and which ids are queued.  The
//! engine in [`crate::downloader`] supersedes it with content-derived names
//! and the index-document protocol.

use vstd::prelude::*;

verus! {

/// The manager's bookkeeping: the permanent root, the queued ids, and the
/// items whose thumbnail and audio files are both in place.
pub struct Manager {
    pub audio_dir: String,
    pub queue: Vec<u32>,
    completed: Vec<u32>,
}

impl Manager {
    /// The ids whose two files are both present.
    pub closed spec fn spec_completed(&self) -> Seq<u32> {
        self.completed@
    }

    /// The permanent root.
    pub closed spec fn spec_audio_dir(&self) -> Seq<char> {
        self.audio_dir@
    }

    /// The queued ids.
    pub closed spec fn spec_queue(&self) -> Seq<u32> {
        self.queue@
    }

    pub fn new(audio_dir: String) -> (r: Self)
        ensures
            r.spec_audio_dir() == audio_dir@,
            r.spec_queue() == Seq::<u32>::empty(),
            r.spec_completed() == Seq::<u32>::empty(),
    {
        Manager { audio_dir, queue: Vec::new(), completed: Vec::new() }
    }

    /// Whether both of the item's files are in place.
    pub fn has_audio(&self, id: u32) -> (r: bool)
        ensures
            r == self.spec_completed().contains(id),
    {
        let mut i: usize = 0;
        while i < self.completed.len()
            invariant
                i <= self.completed.len(),
                forall|j: int| 0 <= j < i ==> self.completed@[j] != id,
            decreases self.completed.len() - i,
        {
            if self.completed[i] == id {
                return true;
            }
            i += 1;
        }
        false
    }

    /// Record that both of the item's files have been put in place.
    pub fn mark_downloaded(&mut self, id: u32)
        ensures
            final(self).spec_completed() == old(self).spec_completed().push(id),
            final(self).spec_audio_dir() == old(self).spec_audio_dir(),
            final(self).spec_queue() == old(self).spec_queue(),
    {
        self.completed.push(id);
    }
}

/// How the legacy download combined its two transfer results: publish only
/// when both succeeded, and surface the thumbnail's error ahead of the
/// audio's.
pub fn combine_results<E>(thumbnail: Result<(), E>, audio: Result<(), E>) -> (r: Result<(), E>)
    ensures
        ({
            match (thumbnail, audio) {
                (Ok(_), Ok(_)) => r is Ok,
                (Err(e), _) => r matches Err(e2) && e2 == e,
                (Ok(_), Err(e)) => r matches Err(e2) && e2 == e,
            }
        }),
{
    match thumbnail {
        Err(e) => Err(e),
        Ok(_) => match audio {
            Err(e) => Err(e),
            Ok(_) => Ok(()),
        },
    }
}

} // verus!
