//! The link resolver's decision logic.
//!
//! Resolving a user link into direct media URLs is outside work: an external
//! tool is run and its output parsed.  What is verified here is everything
//! the resolver decides itself: which links it recognizes, how long a cached
//! answer stays fresh, and how the tool's output is classified into the
//! resolver's failure kinds.  The shell runs the tool and hands its exit
//! status and streams back in.

use vstd::prelude::*;
use vstd::string::*;

use crate::text::{contains_sub, spec_contains_sub};

verus! {

/// The resolver's failure kinds.
#[derive(Debug, Clone)]
pub enum FetchError {
    Unknown,
    NotFound,
    BadLink,
}

/// What a resolved link yields: display metadata and the two direct URLs.
#[derive(Debug, Clone)]
pub struct Details {
    pub url: String,
    pub title: String,
    pub author: String,
    pub thumbnail: String,
    pub media: String,
}

/// A copy of a details record.
pub fn clone_details(d: &Details) -> (r: Details)
    ensures
        r == *d,
{
    Details {
        url: d.url.clone(),
        title: d.title.clone(),
        author: d.author.clone(),
        thumbnail: d.thumbnail.clone(),
        media: d.media.clone(),
    }
}

/// One cached resolution and when it was made.
pub struct CacheEntry {
    pub at_ms: u64,
    pub url: String,
    pub details: Details,
}

/// How long a cached resolution stays fresh.
pub const CACHE_TTL_MS: u64 = 300000;

/// A cache entry answers for a query made now if it is not yet stale.
pub open spec fn cache_fresh(e: CacheEntry, now_ms: u64) -> bool {
    e.at_ms <= now_ms && now_ms - e.at_ms < CACHE_TTL_MS
}

/// The first fresh entry for the url, if any.
pub open spec fn cache_lookup(s: Seq<CacheEntry>, url: Seq<char>, now_ms: u64) -> Option<Details>
    decreases s.len(),
{
    if s.len() == 0 {
        None
    } else if s[0].url@ == url && cache_fresh(s[0], now_ms) {
        Some(s[0].details)
    } else {
        cache_lookup(s.drop_first(), url, now_ms)
    }
}

/// A link this resolver takes on at all.
pub open spec fn spec_is_youtube(url: Seq<char>) -> bool {
    spec_contains_sub(url, "youtube.com"@) || spec_contains_sub(url, "youtu.be"@)
}

/// How the tool's exit status and error stream map to a failure kind:
/// `None` means the output is to be parsed as a successful resolution.
pub open spec fn spec_classify(success: bool, stderr: Seq<char>) -> Option<FetchError> {
    if !success && stderr.len() > 0 {
        if spec_contains_sub(stderr, "Video unavailable"@) || spec_contains_sub(
            stderr,
            "Incomplete YouTube ID"@,
        ) {
            Some(FetchError::NotFound)
        } else if spec_contains_sub(stderr, "Private video"@) {
            Some(FetchError::NotFound)
        } else {
            Some(FetchError::Unknown)
        }
    } else {
        None
    }
}

/// Classify one run of the resolver tool.
pub fn classify_stderr(success: bool, stderr: &String) -> (r: Option<FetchError>)
    ensures
        r == spec_classify(success, stderr@),
{
    if !success && stderr.as_str().unicode_len() > 0 {
        if contains_sub(stderr.as_str(), "Video unavailable") || contains_sub(
            stderr.as_str(),
            "Incomplete YouTube ID",
        ) {
            Some(FetchError::NotFound)
        } else if contains_sub(stderr.as_str(), "Private video") {
            Some(FetchError::NotFound)
        } else {
            Some(FetchError::Unknown)
        }
    } else {
        None
    }
}

/// The canonical watch link rebuilt from a video id, as a resolved
/// record's own url.
pub fn watch_url(id: &String) -> (r: String)
    ensures
        r@ == "https://www.youtube.com/watch?v="@ + id@,
{
    let mut r = String::from_str("https://www.youtube.com/watch?v=");
    r.append(id.as_str());
    r
}

/// What `fetch` decides before any outside work is done.
pub enum FetchPlan {
    /// A fresh cached resolution answers the query.
    Cached(Details),
    /// The link is recognized: run the resolver tool.
    Resolve,
    /// The link is not recognized: fail with `BadLink`.
    Reject,
}

/// The resolver: the path of its external tool and its resolution cache.
pub struct YtDlp {
    path: String,
    cache: Vec<CacheEntry>,
}

impl YtDlp {
    /// The resolution cache, newest entries last.
    pub closed spec fn spec_cache(&self) -> Seq<CacheEntry> {
        self.cache@
    }

    /// The path of the external tool.
    pub closed spec fn spec_path(&self) -> Seq<char> {
        self.path@
    }

    pub fn new(path: String) -> (r: Self)
        ensures
            r.spec_path() == path@,
            r.spec_cache() == Seq::<CacheEntry>::empty(),
    {
        YtDlp { path, cache: Vec::new() }
    }

    pub fn path(&self) -> (r: &String)
        ensures
            r@ == self.spec_path(),
    {
        &self.path
    }

    /// Record a resolution made now.
    pub fn save_cache(&mut self, url: String, details: Details, now_ms: u64)
        ensures
            final(self).spec_path() == old(self).spec_path(),
            final(self).spec_cache() == old(self).spec_cache().push(
                (CacheEntry { at_ms: now_ms, url: url, details: details }),
            ),
    {
        self.cache.push(CacheEntry { at_ms: now_ms, url, details });
    }

    /// The first still-fresh cached resolution of the url, if any.
    pub fn get_cache(&self, url: &String, now_ms: u64) -> (r: Option<Details>)
        ensures
            r == cache_lookup(self.spec_cache(), url@, now_ms),
    {
        let mut i: usize = 0;
        proof {
            assert(self.spec_cache().skip(0) =~= self.spec_cache());
        }
        while i < self.cache.len()
            invariant
                i <= self.cache.len(),
                cache_lookup(self.spec_cache(), url@, now_ms) == cache_lookup(
                    self.spec_cache().skip(i as int),
                    url@,
                    now_ms,
                ),
            decreases self.cache.len() - i,
        {
            let ghost rest = self.spec_cache().skip(i as int);
            proof {
                assert(rest[0] == self.spec_cache()[i as int]);
                assert(rest.drop_first() =~= self.spec_cache().skip(i + 1));
            }
            let entry = &self.cache[i];
            if entry.url.eq(url) && entry.at_ms <= now_ms && now_ms - entry.at_ms < CACHE_TTL_MS {
                return Some(clone_details(&entry.details));
            }
            i += 1;
        }
        proof {
            assert(self.spec_cache().skip(i as int).len() == 0);
        }
        None
    }

    /// A link this resolver takes on at all.
    pub fn is_youtube(&self, url: String) -> (r: bool)
        ensures
            r == spec_is_youtube(url@),
    {
        contains_sub(url.as_str(), "youtube.com") || contains_sub(url.as_str(), "youtu.be")
    }

    /// What `fetch` does for this query: answer from the cache, run the
    /// resolver tool, or reject the link outright.
    pub fn fetch_plan(&self, url: &String, now_ms: u64) -> (r: FetchPlan)
        ensures
            match cache_lookup(self.spec_cache(), url@, now_ms) {
                Some(d) => r matches FetchPlan::Cached(c) && c == d,
                None => if spec_is_youtube(url@) {
                    r is Resolve
                } else {
                    r is Reject
                },
            },
    {
        match self.get_cache(url, now_ms) {
            Some(d) => FetchPlan::Cached(d),
            None => {
                if self.is_youtube(url.clone()) {
                    FetchPlan::Resolve
                } else {
                    FetchPlan::Reject
                }
            },
        }
    }
}

} // verus!
