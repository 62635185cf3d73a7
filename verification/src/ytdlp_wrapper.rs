//! The resolver over raw video metadata.
//!
//! Where [`crate::ytdlp`] works with ready-made details, this resolver keeps
//! the tool's whole metadata record and picks the audio stream out of it
//! itself.  Verified here: the link guard, the freshness of the metadata
//! cache, the classification of the tool's output, and the selection of the
//! audio-only stream; running the tool and parsing its JSON stay in the
//! shell, which hands the record back in.

use vstd::prelude::*;
use vstd::string::*;

use crate::text::{contains_sub, starts_with, spec_contains_sub, spec_starts_with};

verus! {

/// The metadata record the resolver tool emits for one video.
#[derive(Debug)]
pub struct YouTubeMetadata {
    pub id: String,
    pub title: String,
    pub thumbnail: String,
    pub formats: Vec<YouTubeFormat>,
    pub channel: String,
}

/// One downloadable stream of a video.
#[derive(Debug)]
pub struct YouTubeFormat {
    pub url: String,
    pub ext: String,
    pub resolution: String,
}

/// This resolver's failure kinds.
#[derive(Debug, Clone)]
pub enum Error {
    Unknown,
    NotFound,
    PrivateVideo,
    BadLink,
    NotAudio,
}

/// The two direct URLs a metadata record yields.
#[derive(Debug)]
pub struct YouTubeContentSource {
    pub thumbnail: String,
    pub media: String,
}

/// A copy of one stream record.
pub fn clone_format(f: &YouTubeFormat) -> (r: YouTubeFormat)
    ensures
        r == *f,
{
    YouTubeFormat { url: f.url.clone(), ext: f.ext.clone(), resolution: f.resolution.clone() }
}

/// The stream `get_content` picks: audio-only, in the webm container.
pub open spec fn is_audio_webm(f: YouTubeFormat) -> bool {
    f.resolution@ == "audio only"@ && f.ext@ == "webm"@
}

/// The first audio-only webm stream of the list, if any.
pub open spec fn first_audio_webm(s: Seq<YouTubeFormat>) -> Option<YouTubeFormat>
    decreases s.len(),
{
    if s.len() == 0 {
        None
    } else if is_audio_webm(s[0]) {
        Some(s[0])
    } else {
        first_audio_webm(s.drop_first())
    }
}

impl YouTubeMetadata {
    /// Pick the thumbnail URL and the first audio-only webm stream; a video
    /// without such a stream is no audio source.
    pub fn get_content(&self) -> (r: Result<YouTubeContentSource, Error>)
        ensures
            match first_audio_webm(self.formats@) {
                Some(f) => r matches Ok(c) && c.media@ == f.url@ && c.thumbnail@
                    == self.thumbnail@,
                None => r matches Err(e) && e is NotAudio,
            },
    {
        let audio_only = String::from_str("audio only");
        let webm = String::from_str("webm");
        let mut i: usize = 0;
        proof {
            assert(self.formats@.skip(0) =~= self.formats@);
        }
        while i < self.formats.len()
            invariant
                i <= self.formats.len(),
                audio_only@ == "audio only"@,
                webm@ == "webm"@,
                first_audio_webm(self.formats@) == first_audio_webm(self.formats@.skip(i as int)),
            decreases self.formats.len() - i,
        {
            let ghost rest = self.formats@.skip(i as int);
            proof {
                assert(rest[0] == self.formats@[i as int]);
                assert(rest.drop_first() =~= self.formats@.skip(i + 1));
            }
            let f = &self.formats[i];
            if f.resolution.eq(&audio_only) && f.ext.eq(&webm) {
                return Ok(YouTubeContentSource {
                    media: f.url.clone(),
                    thumbnail: self.thumbnail.clone(),
                });
            }
            i += 1;
        }
        proof {
            assert(self.formats@.skip(i as int).len() == 0);
        }
        Err(Error::NotAudio)
    }
}

/// The exact link shapes this resolver accepts; anything else is a bad
/// link.
pub open spec fn spec_link_supported(url: Seq<char>) -> bool {
    ||| spec_starts_with(url, "https://www.youtube.com/watch?v="@)
    ||| spec_starts_with(url, "https://youtu.be/"@)
    ||| spec_starts_with(url, "https://youtube.com/watch?v="@)
}

/// The link guard `fetch` applies before any outside work.
pub fn link_supported(url: &String) -> (r: bool)
    ensures
        r == spec_link_supported(url@),
{
    starts_with(url.as_str(), "https://www.youtube.com/watch?v=") || starts_with(
        url.as_str(),
        "https://youtu.be/",
    ) || starts_with(url.as_str(), "https://youtube.com/watch?v=")
}

/// How the tool's exit status and error stream classify: `None` means the
/// standard output is to be parsed as a metadata record.
pub open spec fn spec_classify_output(success: bool, stderr: Seq<char>) -> Option<Error> {
    if !success && stderr.len() > 0 {
        if spec_contains_sub(stderr, "Video unavailable"@) || spec_contains_sub(
            stderr,
            "Incomplete YouTube ID"@,
        ) {
            Some(Error::NotFound)
        } else if spec_contains_sub(stderr, "Private video"@) {
            Some(Error::PrivateVideo)
        } else {
            Some(Error::Unknown)
        }
    } else {
        None
    }
}

/// Classify one run of the resolver tool.
pub fn classify_output(success: bool, stderr: &String) -> (r: Option<Error>)
    ensures
        r == spec_classify_output(success, stderr@),
{
    if !success && stderr.as_str().unicode_len() > 0 {
        if contains_sub(stderr.as_str(), "Video unavailable") || contains_sub(
            stderr.as_str(),
            "Incomplete YouTube ID",
        ) {
            Some(Error::NotFound)
        } else if contains_sub(stderr.as_str(), "Private video") {
            Some(Error::PrivateVideo)
        } else {
            Some(Error::Unknown)
        }
    } else {
        None
    }
}

/// One cached metadata record and when it was fetched.
pub struct SavedMetadata {
    pub at_ms: u64,
    pub url: String,
    pub metadata: YouTubeMetadata,
}

/// A cached record answers for a query made now while it is fresh: the
/// freshness window matches [`crate::ytdlp::CACHE_TTL_MS`].
pub open spec fn saved_fresh(e: SavedMetadata, now_ms: u64) -> bool {
    e.at_ms <= now_ms && now_ms - e.at_ms < crate::ytdlp::CACHE_TTL_MS
}

/// Whether some fresh cached record for the url exists.
pub open spec fn saved_hit(s: Seq<SavedMetadata>, url: Seq<char>, now_ms: u64) -> bool {
    exists|i: int| 0 <= i < s.len() && s[i].url@ == url && saved_fresh(s[i], now_ms)
}

/// This resolver: the tool's path and the metadata cache.
pub struct YtDlp {
    path: String,
    cache: Vec<SavedMetadata>,
}

/// What `fetch` decides before any outside work.
pub enum FetchStep {
    /// The link shape is not accepted: fail with `BadLink`.
    Reject,
    /// A fresh cached record answers the query.
    Cached(YouTubeMetadata),
    /// Run the resolver tool.
    Run,
}

impl YtDlp {
    pub closed spec fn spec_cache(&self) -> Seq<SavedMetadata> {
        self.cache@
    }

    pub closed spec fn spec_path(&self) -> Seq<char> {
        self.path@
    }

    pub fn new(path: String) -> (r: Self)
        ensures
            r.spec_path() == path@,
            r.spec_cache() == Seq::<SavedMetadata>::empty(),
    {
        YtDlp { path, cache: Vec::new() }
    }

    pub fn path(&self) -> (r: &String)
        ensures
            r@ == self.spec_path(),
    {
        &self.path
    }

    /// Record a metadata record fetched now.
    pub fn save_cache(&mut self, url: String, metadata: YouTubeMetadata, now_ms: u64)
        ensures
            final(self).spec_path() == old(self).spec_path(),
            final(self).spec_cache() == old(self).spec_cache().push(
                (SavedMetadata { at_ms: now_ms, url: url, metadata: metadata }),
            ),
    {
        self.cache.push(SavedMetadata { at_ms: now_ms, url, metadata });
    }

    /// What `fetch` does for this query: reject the link, answer from the
    /// cache, or run the resolver tool.  A cached answer is a copy of some
    /// fresh record for this url.
    pub fn fetch_step(&self, url: &String, now_ms: u64) -> (r: FetchStep)
        ensures
            !spec_link_supported(url@) ==> r is Reject,
            spec_link_supported(url@) && saved_hit(self.spec_cache(), url@, now_ms) ==> (
            r matches FetchStep::Cached(c) && exists|i: int|
                0 <= i < self.spec_cache().len() && {
                    let e = #[trigger] self.spec_cache()[i];
                    &&& e.url@ == url@
                    &&& saved_fresh(e, now_ms)
                    &&& c.id@ == e.metadata.id@
                    &&& c.title@ == e.metadata.title@
                    &&& c.thumbnail@ == e.metadata.thumbnail@
                    &&& c.channel@ == e.metadata.channel@
                    &&& c.formats@ =~= e.metadata.formats@
                }),
            spec_link_supported(url@) && !saved_hit(self.spec_cache(), url@, now_ms) ==> r is Run,
    {
        if !link_supported(url) {
            return FetchStep::Reject;
        }
        let mut i: usize = 0;
        while i < self.cache.len()
            invariant
                spec_link_supported(url@),
                i <= self.cache.len(),
                forall|j: int|
                    0 <= j < i ==> !(#[trigger] self.spec_cache()[j].url@ == url@ && saved_fresh(
                        self.spec_cache()[j],
                        now_ms,
                    )),
            decreases self.cache.len() - i,
        {
            let entry = &self.cache[i];
            if entry.url.eq(url) && entry.at_ms <= now_ms && now_ms - entry.at_ms
                < crate::ytdlp::CACHE_TTL_MS {
                let m = &entry.metadata;
                let mut formats: Vec<YouTubeFormat> = Vec::new();
                let mut j: usize = 0;
                while j < m.formats.len()
                    invariant
                        j <= m.formats.len(),
                        formats@ =~= m.formats@.subrange(0, j as int),
                    decreases m.formats.len() - j,
                {
                    formats.push(clone_format(&m.formats[j]));
                    proof {
                        assert(m.formats@.subrange(0, j + 1) =~= m.formats@.subrange(
                            0,
                            j as int,
                        ).push(m.formats@[j as int]));
                    }
                    j += 1;
                }
                proof {
                    assert(m.formats@.subrange(0, m.formats@.len() as int) =~= m.formats@);
                    assert(self.spec_cache()[i as int].url@ == url@ && saved_fresh(
                        self.spec_cache()[i as int],
                        now_ms,
                    ));
                }
                return FetchStep::Cached(
                    YouTubeMetadata {
                        id: m.id.clone(),
                        title: m.title.clone(),
                        thumbnail: m.thumbnail.clone(),
                        formats,
                        channel: m.channel.clone(),
                    },
                );
            }
            i += 1;
        }
        FetchStep::Run
    }
}

} // verus!
