use furplayer::app_state::{
    indexed_audios, local_media, local_thumbnail, remote_thumbnail, AppError, AudioSourceDTO,
    ContentDTO, IndexedAudioDTO,
};
use furplayer::audio::{Audio, Source};
use furplayer::config;
use furplayer::downloader::{self, ResponseFiles};
use furplayer::playlist::Playlist;
use furplayer::queue::InFlightQueue;
use furplayer::storage::{combine_results, Manager};
use furplayer::text::{contains_sub, starts_with};
use furplayer::ytdlp;

fn track(id: u32, title: &str) -> Audio {
    Audio {
        id,
        title: title.to_string(),
        author: "Artist".to_string(),
        source: Source::YouTube("https://www.youtube.com/watch?v=dQw4w9WgXcQ".to_string()),
    }
}

#[test]
fn playlist_add_get_remove() {
    let mut playlist = Playlist::new();
    playlist.add_audio(track(1, "One"));
    playlist.add_audio(track(2, "Two"));
    playlist.add_audio(track(3, "Three"));
    assert_eq!(playlist.get_audio(2).unwrap().title, "Two");
    assert!(playlist.get_audio(4).is_none());
    playlist.remove_audio(2);
    assert!(playlist.get_audio(2).is_none());
    let all = playlist.get_audios();
    assert_eq!(all.len(), 2);
    assert_eq!(all[0].title, "One");
    assert_eq!(all[1].title, "Three");
}

#[test]
fn playlist_set_replaces_everything() {
    let mut playlist = Playlist::new();
    playlist.add_audio(track(1, "One"));
    playlist.set_audios(vec![track(5, "Five")]);
    assert!(playlist.get_audio(1).is_none());
    assert_eq!(playlist.get_audio(5).unwrap().title, "Five");
}

#[test]
fn in_flight_queue_accepts_once() {
    let mut queue = InFlightQueue::new();
    assert!(queue.accept(11));
    assert!(!queue.accept(11));
    assert!(queue.accept(12));
    assert!(queue.contains(11));
    queue.evict(11);
    assert!(!queue.contains(11));
    assert!(queue.contains(12));
    assert!(queue.accept(11));
}

#[test]
fn manager_tracks_completed_items() {
    let mut manager = Manager::new("audios".to_string());
    assert!(!manager.has_audio(1));
    manager.mark_downloaded(1);
    assert!(manager.has_audio(1));
    assert!(!manager.has_audio(2));
}

#[test]
fn config_playlist_finds_by_id() {
    let mut playlist = config::Playlist::new();
    playlist.add_audio(config::Metadata {
        id: 9,
        title: "Nine".to_string(),
        author: "Artist".to_string(),
        platform: config::Platform::YouTube("url".to_string()),
    });
    assert_eq!(playlist.get_audio(9).unwrap().title, "Nine");
    assert!(playlist.get_audio(8).is_none());
}

#[test]
fn error_messages() {
    assert_eq!(
        AppError::Downloader(downloader::Error::InQueue).message(),
        "Audio is already in queue"
    );
    assert_eq!(
        AppError::Downloader(downloader::Error::Canceled).message(),
        "Download canceled"
    );
    assert_eq!(AppError::YtDlp(ytdlp::FetchError::BadLink).message(), "Bad link");
    assert_eq!(AppError::YtDlp(ytdlp::FetchError::NotFound).message(), "Video not found");
    assert_eq!(AppError::YtDlp(ytdlp::FetchError::Unknown).message(), "Unknown error");
}

#[test]
fn indexing_tracks_for_the_interface() {
    let dto = IndexedAudioDTO::from(track(21, "Song"));
    assert_eq!(dto.id, 21);
    assert_eq!(dto.title, "Song");
    let AudioSourceDTO::YouTube(url) = dto.source;
    assert_eq!(url, "https://www.youtube.com/watch?v=dQw4w9WgXcQ");

    let rows = indexed_audios(&vec![track(1, "One"), track(2, "Two")]);
    assert_eq!(rows.len(), 2);
    assert_eq!(rows[1].id, 2);
    assert_eq!(rows[1].title, "Two");
}

#[test]
fn content_answers() {
    let files = ResponseFiles {
        thumbnail: b"pic".to_vec(),
        thumbnail_mime: "image/jpeg".to_string(),
        media: b"snd".to_vec(),
        media_mime: "audio/webm".to_string(),
    };
    match local_thumbnail(files) {
        ContentDTO::Local { bytes, mime } => {
            assert_eq!(bytes, b"pic".to_vec());
            assert_eq!(mime, "image/jpeg");
        },
        _ => panic!("expected local content"),
    }
    let files = ResponseFiles {
        thumbnail: b"pic".to_vec(),
        thumbnail_mime: "image/jpeg".to_string(),
        media: b"snd".to_vec(),
        media_mime: "audio/webm".to_string(),
    };
    match local_media(files) {
        ContentDTO::Local { bytes, mime } => {
            assert_eq!(bytes, b"snd".to_vec());
            assert_eq!(mime, "audio/webm");
        },
        _ => panic!("expected local content"),
    }
    let details = ytdlp::Details {
        url: "u".to_string(),
        title: "t".to_string(),
        author: "a".to_string(),
        thumbnail: "https://img/t.jpg".to_string(),
        media: "https://a/m".to_string(),
    };
    match remote_thumbnail(&details) {
        ContentDTO::Url(u) => assert_eq!(u, "https://img/t.jpg"),
        _ => panic!("expected a url"),
    }
}

#[test]
fn legacy_result_combination() {
    let ok: Result<(), u8> = Ok(());
    assert!(combine_results(ok, Ok(())).is_ok());
    assert_eq!(combine_results::<u8>(Err(1), Err(2)), Err(1));
    assert_eq!(combine_results::<u8>(Err(1), Ok(())), Err(1));
    assert_eq!(combine_results::<u8>(Ok(()), Err(2)), Err(2));
}

#[test]
fn text_search() {
    assert!(contains_sub("https://www.youtube.com/watch", "youtube.com"));
    assert!(!contains_sub("https://www.example.com", "youtube.com"));
    assert!(contains_sub("abc", ""));
    assert!(starts_with("youtube.com/x", "youtube.com"));
    assert!(!starts_with("www.youtube.com", "youtube.com"));
}

#[test]
fn created_tracks_keep_their_metadata() {
    let a = Audio::create(
        "Test".to_string(),
        "Artist".to_string(),
        Source::YouTube("url".to_string()),
    );
    assert_eq!(a.title, "Test");
    assert_eq!(a.author, "Artist");
    assert_eq!(a.source.label(), "YouTube");
}
