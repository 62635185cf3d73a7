//! The playlist: the ordered collection of tracks.
//!
//! The collection logic is verified here; persisting the playlist document
//! is the shell's job, which hands the whole track list in and out through
//! [`Playlist::set_audios`] and [`Playlist::get_audios`].

use vstd::prelude::*;

use crate::audio::{Audio, Source};

verus! {

/// Why a persisted playlist failed to load.
#[derive(Debug, Clone)]
pub enum LoadError {
    NotFound,
    Unknown,
}

/// The location of the persisted playlist document, for the shell's
/// loader and saver.
#[derive(Debug)]
pub struct PlaylistIOImpl(pub String);

/// A copy of a track.
pub fn clone_audio(a: &Audio) -> (r: Audio)
    ensures
        r == *a,
{
    Audio {
        id: a.id,
        title: a.title.clone(),
        author: a.author.clone(),
        source: match &a.source {
            Source::YouTube(u) => Source::YouTube(u.clone()),
        },
    }
}

/// The collection with every track of the id dropped, the rest keeping
/// their order.
pub open spec fn without_audio(s: Seq<Audio>, id: u32) -> Seq<Audio> {
    s.filter(|a: Audio| a.id != id)
}

/// The first track with the id, if any.
pub open spec fn find_audio(s: Seq<Audio>, id: u32) -> Option<Audio>
    decreases s.len(),
{
    if s.len() == 0 {
        None
    } else if s[0].id == id {
        Some(s[0])
    } else {
        find_audio(s.drop_first(), id)
    }
}

/// The ordered track collection.
#[derive(Debug)]
pub struct Playlist {
    audios: Vec<Audio>,
}

impl View for Playlist {
    type V = Seq<Audio>;

    closed spec fn view(&self) -> Seq<Audio> {
        self.audios@
    }
}

impl Playlist {
    pub fn new() -> (r: Self)
        ensures
            r@ == Seq::<Audio>::empty(),
    {
        Playlist { audios: Vec::new() }
    }

    /// Append a track.
    pub fn add_audio(&mut self, audio: Audio)
        ensures
            final(self)@ == old(self)@.push(audio),
    {
        self.audios.push(audio);
    }

    /// The first track with the id, if any.
    pub fn get_audio(&self, id: u32) -> (r: Option<Audio>)
        ensures
            r == find_audio(self@, id),
    {
        let mut i: usize = 0;
        proof {
            assert(self@.skip(0) =~= self@);
        }
        while i < self.audios.len()
            invariant
                i <= self.audios.len(),
                find_audio(self@, id) == find_audio(self@.skip(i as int), id),
            decreases self.audios.len() - i,
        {
            let ghost rest = self@.skip(i as int);
            proof {
                assert(rest[0] == self@[i as int]);
                assert(rest.drop_first() =~= self@.skip(i + 1));
            }
            if self.audios[i].id == id {
                return Some(clone_audio(&self.audios[i]));
            }
            i += 1;
        }
        proof {
            assert(self@.skip(i as int).len() == 0);
        }
        None
    }

    /// Drop every track with the id; every other track keeps its place in
    /// the collection.
    pub fn remove_audio(&mut self, id: u32)
        ensures
            final(self)@ == without_audio(old(self)@, id),
            forall|a: Audio|
                final(self)@.contains(a) == (old(self)@.contains(a) && a.id != id),
            forall|i: int| 0 <= i < final(self)@.len() ==> final(self)@[i].id != id,
    {
        let ghost orig = self.audios@;
        let mut kept: Vec<Audio> = Vec::new();
        let mut i: usize = 0;
        proof {
            reveal_with_fuel(Seq::<Audio>::filter, 2);
            assert(orig.subrange(0, 0).len() == 0);
        }
        while i < self.audios.len()
            invariant
                i <= self.audios.len(),
                self.audios@ == orig,
                kept@ == without_audio(orig.subrange(0, i as int), id),
                forall|a: Audio|
                    kept@.contains(a) == (orig.subrange(0, i as int).contains(a) && a.id != id),
                forall|j: int| 0 <= j < kept@.len() ==> kept@[j].id != id,
            decreases self.audios.len() - i,
        {
            if self.audios[i].id != id {
                kept.push(clone_audio(&self.audios[i]));
            }
            proof {
                broadcast use vstd::seq_lib::lemma_seq_contains_after_push;

                reveal_with_fuel(Seq::<Audio>::filter, 2);
                let pre = orig.subrange(0, i as int);
                let post = orig.subrange(0, i + 1);
                assert(post =~= pre.push(orig[i as int]));
                assert(post.drop_last() == pre);
                assert(post.last() == orig[i as int]);
            }
            i += 1;
        }
        proof {
            assert(orig.subrange(0, orig.len() as int) == orig);
        }
        self.audios = kept;
    }

    /// A copy of the whole collection, in order.
    pub fn get_audios(&self) -> (r: Vec<Audio>)
        ensures
            r@ == self@,
    {
        let mut r: Vec<Audio> = Vec::new();
        let mut i: usize = 0;
        while i < self.audios.len()
            invariant
                i <= self.audios.len(),
                r@ =~= self.audios@.subrange(0, i as int),
            decreases self.audios.len() - i,
        {
            r.push(clone_audio(&self.audios[i]));
            proof {
                assert(self.audios@.subrange(0, i + 1) =~= self.audios@.subrange(
                    0,
                    i as int,
                ).push(self.audios@[i as int]));
            }
            i += 1;
        }
        proof {
            assert(self.audios@.subrange(0, self.audios@.len() as int) =~= self.audios@);
        }
        r
    }

    /// Replace the whole collection, as the shell's loader does.
    pub fn set_audios(&mut self, audios: Vec<Audio>)
        ensures
            final(self)@ == audios@,
    {
        self.audios = audios;
    }
}

} // verus!
