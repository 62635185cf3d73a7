//! The application-facing layer: its error surface, the data shapes handed
//! up to the user interface, and the pure steps of its request handlers.
//!
//! The handlers themselves orchestrate the playlist, the resolver and the
//! download engine over network and disk; everything they compute — error
//! messages, track indexing, and the choice between local content and a
//! remote fallback — is verified here.

use vstd::prelude::*;
use vstd::string::*;

use crate::audio::{Audio, Source};
use crate::downloader::{self, ResponseFiles};
use crate::ytdlp::{self, Details};

verus! {

/// Everything a request handler can fail with.
#[derive(Debug, Clone)]
pub enum AppError {
    Downloader(downloader::Error),
    YtDlp(ytdlp::FetchError),
}

/// The user-facing message of each failure.
pub open spec fn spec_message(e: AppError) -> Seq<char> {
    match e {
        AppError::Downloader(err) => match err {
            downloader::Error::Unknown => "Unknown error"@,
            downloader::Error::Canceled => "Download canceled"@,
            downloader::Error::InQueue => "Audio is already in queue"@,
            downloader::Error::NotFound => "Audio not found"@,
            downloader::Error::Connection => "Connection error"@,
        },
        AppError::YtDlp(err) => match err {
            ytdlp::FetchError::Unknown => "Unknown error"@,
            ytdlp::FetchError::NotFound => "Video not found"@,
            ytdlp::FetchError::BadLink => "Bad link"@,
        },
    }
}

impl AppError {
    /// The message shown for this failure.
    pub fn message(&self) -> (r: String)
        ensures
            r@ == spec_message(*self),
    {
        match self {
            AppError::Downloader(err) => match err {
                downloader::Error::Unknown => String::from_str("Unknown error"),
                downloader::Error::Canceled => String::from_str("Download canceled"),
                downloader::Error::InQueue => String::from_str("Audio is already in queue"),
                downloader::Error::NotFound => String::from_str("Audio not found"),
                downloader::Error::Connection => String::from_str("Connection error"),
            },
            AppError::YtDlp(err) => match err {
                ytdlp::FetchError::Unknown => String::from_str("Unknown error"),
                ytdlp::FetchError::NotFound => String::from_str("Video not found"),
                ytdlp::FetchError::BadLink => String::from_str("Bad link"),
            },
        }
    }
}

/// Content handed to the interface: local bytes, or a URL to stream from.
#[derive(Debug)]
pub enum ContentDTO {
    Url(String),
    Local { bytes: Vec<u8>, mime: String },
}

/// A track's source, in the interface's shape.
#[derive(Debug, Clone)]
pub enum AudioSourceDTO {
    YouTube(String),
}

/// One playlist row handed to the interface.
#[derive(Debug, Clone)]
pub struct IndexedAudioDTO {
    pub id: u32,
    pub title: String,
    pub author: String,
    pub source: AudioSourceDTO,
}

/// The interface row a track maps to.
pub open spec fn spec_indexed(a: Audio) -> IndexedAudioDTO {
    IndexedAudioDTO {
        id: a.id,
        title: a.title,
        author: a.author,
        source: match a.source {
            Source::YouTube(url) => AudioSourceDTO::YouTube(url),
        },
    }
}

impl From<Audio> for IndexedAudioDTO {
    fn from(value: Audio) -> (r: Self) {
        IndexedAudioDTO {
            id: value.id,
            title: value.title,
            author: value.author,
            source: match value.source {
                Source::YouTube(url) => AudioSourceDTO::YouTube(url),
            },
        }
    }
}

impl vstd::std_specs::convert::FromSpecImpl<Audio> for IndexedAudioDTO {
    open spec fn obeys_from_spec() -> bool {
        true
    }

    open spec fn from_spec(v: Audio) -> Self {
        spec_indexed(v)
    }
}

/// Index a whole track list for the interface, keeping the order.
pub fn indexed_audios(audios: &Vec<Audio>) -> (r: Vec<IndexedAudioDTO>)
    ensures
        r@.len() == audios@.len(),
        forall|i: int| 0 <= i < audios@.len() ==> r@[i] == spec_indexed(#[trigger] audios@[i]),
{
    let mut r: Vec<IndexedAudioDTO> = Vec::new();
    let mut i: usize = 0;
    while i < audios.len()
        invariant
            i <= audios.len(),
            r@.len() == i,
            forall|j: int| 0 <= j < i ==> r@[j] == spec_indexed(#[trigger] audios@[j]),
        decreases audios.len() - i,
    {
        let a = &audios[i];
        r.push(IndexedAudioDTO {
            id: a.id,
            title: a.title.clone(),
            author: a.author.clone(),
            source: match &a.source {
                Source::YouTube(url) => AudioSourceDTO::YouTube(url.clone()),
            },
        });
        i += 1;
    }
    r
}

/// The content answer when the item's files are published locally.
pub fn local_thumbnail(files: ResponseFiles) -> (r: ContentDTO)
    ensures
        r matches ContentDTO::Local { bytes, mime } && bytes@ == files.thumbnail@ && mime@
            == files.thumbnail_mime@,
{
    ContentDTO::Local { bytes: files.thumbnail, mime: files.thumbnail_mime }
}

/// The content answer when the item's files are published locally.
pub fn local_media(files: ResponseFiles) -> (r: ContentDTO)
    ensures
        r matches ContentDTO::Local { bytes, mime } && bytes@ == files.media@ && mime@
            == files.media_mime@,
{
    ContentDTO::Local { bytes: files.media, mime: files.media_mime }
}

/// The fallback when nothing is published yet: hand the interface the
/// remote thumbnail URL the resolver found.
pub fn remote_thumbnail(details: &Details) -> (r: ContentDTO)
    ensures
        r matches ContentDTO::Url(u) && u@ == details.thumbnail@,
{
    ContentDTO::Url(details.thumbnail.clone())
}

/// The fallback when nothing is published yet: hand the interface the
/// remote media URL the resolver found.
pub fn remote_media(details: &Details) -> (r: ContentDTO)
    ensures
        r matches ContentDTO::Url(u) && u@ == details.media@,
{
    ContentDTO::Url(details.media.clone())
}

} // verus!
