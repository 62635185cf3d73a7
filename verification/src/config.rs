//! The persisted data shapes: track metadata, loaded file contents, and the
//! simple playlist document built from them.

use vstd::prelude::*;

verus! {

/// The platform a track was taken from.
#[derive(Debug, Clone)]
pub enum Platform {
    YouTube(String),
}

/// A track's persisted metadata.
#[derive(Debug, Clone)]
pub struct Metadata {
    pub id: u32,
    pub title: String,
    pub author: String,
    pub platform: Platform,
}

/// One loaded file: its bytes and content type.
#[derive(Debug)]
pub struct File {
    pub bytes: Vec<u8>,
    pub mime: String,
}

/// Both of a track's files, loaded.
#[derive(Debug)]
pub struct LoadedData {
    pub thumbnail: File,
    pub audio: File,
}

/// Both of a track's remote URLs.
#[derive(Debug, Clone)]
pub struct UrledData {
    pub thumbnail: String,
    pub audio: String,
}

/// A track's content: local bytes, or the URLs to stream from.
#[derive(Debug)]
pub enum Data {
    Loaded(LoadedData),
    Urled(UrledData),
}

/// A track together with its content.
#[derive(Debug)]
pub struct Audio {
    pub metadata: Metadata,
    pub data: Data,
}

/// The first metadata record with the id, if any.
pub open spec fn find_metadata(s: Seq<Metadata>, id: u32) -> Option<Metadata>
    decreases s.len(),
{
    if s.len() == 0 {
        None
    } else if s[0].id == id {
        Some(s[0])
    } else {
        find_metadata(s.drop_first(), id)
    }
}

/// The playlist document: the ordered metadata records.
#[derive(Debug)]
pub struct Playlist {
    pub audios: Vec<Metadata>,
}

impl Playlist {
    pub fn new() -> (r: Self)
        ensures
            r.audios@ == Seq::<Metadata>::empty(),
    {
        Playlist { audios: Vec::new() }
    }

    /// Append a record.
    pub fn add_audio(&mut self, audio: Metadata)
        ensures
            final(self).audios@ == old(self).audios@.push(audio),
    {
        self.audios.push(audio);
    }

    /// The first record with the id, if any.
    pub fn get_audio(&self, id: u32) -> (r: Option<&Metadata>)
        ensures
            match r {
                Some(m) => find_metadata(self.audios@, id) == Some(*m),
                None => find_metadata(self.audios@, id) is None,
            },
    {
        let mut i: usize = 0;
        proof {
            assert(self.audios@.skip(0) =~= self.audios@);
        }
        while i < self.audios.len()
            invariant
                i <= self.audios.len(),
                find_metadata(self.audios@, id) == find_metadata(
                    self.audios@.skip(i as int),
                    id,
                ),
            decreases self.audios.len() - i,
        {
            let ghost rest = self.audios@.skip(i as int);
            proof {
                assert(rest[0] == self.audios@[i as int]);
                assert(rest.drop_first() =~= self.audios@.skip(i + 1));
            }
            if self.audios[i].id == id {
                return Some(&self.audios[i]);
            }
            i += 1;
        }
        proof {
            assert(self.audios@.skip(i as int).len() == 0);
        }
        None
    }
}

} // verus!
