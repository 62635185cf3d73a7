use furplayer::audio::{Audio, Source};
use furplayer::downloader::{
    attempt_from_transfer, Attempt, Content, DefaultContentRetriever, Error, FileDownloader,
    RemoteResponse, RequestFiles, SlotScripts,
};
use furplayer::mime::file_ext;
use furplayer::store::{Slot, Store};

fn audio(id: u32) -> Audio {
    Audio {
        id,
        title: "Test".to_string(),
        author: "Artist".to_string(),
        source: Source::YouTube("https://www.youtube.com/watch?v=dQw4w9WgXcQ".to_string()),
    }
}

fn engine() -> FileDownloader {
    FileDownloader::new("audios".to_string(), "downloading".to_string())
}

fn completed(bytes: Vec<u8>, mime: &str) -> Vec<Attempt> {
    let mut script = vec![Attempt::Completed { bytes, mime: mime.to_string() }];
    while script.len() < 5 {
        script.push(Attempt::Failed);
    }
    script
}

#[test]
fn end_to_end_scenario() {
    let mut engine = engine();
    let item = audio(42);
    let scripts = SlotScripts {
        thumbnail: completed(vec![7u8; 10_000], "image/jpeg"),
        media: completed(vec![9u8; 2_000_000], "audio/webm"),
    };
    let result = engine.save(&item, &scripts);
    assert!(result.is_ok());
    assert!(engine.has_file(&item));
    let files = engine.get_files(&item).unwrap();
    assert_eq!(files.thumbnail.len(), 10_000);
    assert_eq!(files.media.len(), 2_000_000);
    assert_eq!(files.thumbnail_mime, "image/jpeg");
    assert_eq!(files.media_mime, "audio/webm");
    assert!(!engine.is_in_queue(42));
}

#[test]
fn staging_empty_after_publish() {
    let mut engine = engine();
    let item = audio(42);
    let scripts = SlotScripts {
        thumbnail: completed(vec![1u8; 16], "image/jpeg"),
        media: completed(vec![2u8; 16], "audio/webm"),
    };
    engine.save(&item, &scripts).unwrap();
    assert!(!engine.has_staged(42, Slot::Thumbnail));
    assert!(!engine.has_staged(42, Slot::Media));
}

#[test]
fn duplicate_request_rejected() {
    let mut engine = engine();
    let item = audio(7);
    engine.push_queue(7).unwrap();
    assert!(matches!(engine.push_queue(7), Err(Error::InQueue)));
    let scripts = SlotScripts {
        thumbnail: completed(vec![1u8; 4], "image/png"),
        media: completed(vec![2u8; 4], "audio/webm"),
    };
    assert!(matches!(engine.save(&item, &scripts), Err(Error::InQueue)));
    assert!(!engine.has_file(&item));
    engine.anyway_pop_queue(7);
    assert!(engine.save(&item, &scripts).is_ok());
    assert!(engine.has_file(&item));
}

#[test]
fn resume_appends_without_gap_or_overlap() {
    let mut engine = engine();
    let item = audio(3);
    let thumbnail = vec![
        Attempt::Interrupted { partial: b"abc".to_vec() },
        Attempt::Interrupted { partial: b"de".to_vec() },
        Attempt::Completed { bytes: b"fgh".to_vec(), mime: "image/png".to_string() },
        Attempt::Failed,
        Attempt::Failed,
    ];
    let scripts = SlotScripts { thumbnail, media: completed(b"media".to_vec(), "audio/webm") };
    engine.save(&item, &scripts).unwrap();
    let files = engine.get_files(&item).unwrap();
    assert_eq!(files.thumbnail, b"abcdefgh".to_vec());
    assert_eq!(files.media, b"media".to_vec());
}

#[test]
fn connection_failures_exhaust_retries() {
    let mut engine = engine();
    let item = audio(4);
    let thumbnail = vec![
        Attempt::Interrupted { partial: b"x".to_vec() },
        Attempt::Interrupted { partial: b"y".to_vec() },
        Attempt::Interrupted { partial: vec![] },
        Attempt::Interrupted { partial: vec![] },
        Attempt::Interrupted { partial: vec![] },
    ];
    let scripts = SlotScripts { thumbnail, media: completed(b"m".to_vec(), "audio/webm") };
    assert!(matches!(engine.save(&item, &scripts), Err(Error::Connection)));
    assert!(!engine.has_file(&item));
    assert!(matches!(engine.get_files(&item), Err(Error::NotFound)));
}

#[test]
fn local_write_failure_is_unknown() {
    let mut engine = engine();
    let item = audio(5);
    let thumbnail = vec![
        Attempt::Failed,
        Attempt::Failed,
        Attempt::Failed,
        Attempt::Failed,
        Attempt::Failed,
    ];
    let scripts = SlotScripts { thumbnail, media: completed(b"m".to_vec(), "audio/webm") };
    assert!(matches!(engine.save(&item, &scripts), Err(Error::Unknown)));
}

#[test]
fn cancellation_short_circuits_and_is_acknowledged() {
    let mut engine = engine();
    let item = audio(6);
    let thumbnail = vec![
        Attempt::Interrupted { partial: b"par".to_vec() },
        Attempt::Canceled { partial: b"ti".to_vec() },
        Attempt::Failed,
        Attempt::Failed,
        Attempt::Failed,
    ];
    // the media slot would succeed, but must never be attempted
    let scripts = SlotScripts { thumbnail, media: completed(b"m".to_vec(), "audio/webm") };
    assert!(!engine.cancel_acknowledged(6));
    assert!(matches!(engine.save(&item, &scripts), Err(Error::Canceled)));
    assert!(engine.cancel_acknowledged(6));
    assert!(!engine.has_file(&item));
    assert!(!engine.is_in_queue(6));
}

#[test]
fn remove_is_idempotent_on_absent_items() {
    let mut engine = engine();
    assert!(engine.remove(99).is_ok());
    assert!(engine.remove(99).is_ok());
    let item = audio(8);
    let scripts = SlotScripts {
        thumbnail: completed(b"t".to_vec(), "image/png"),
        media: completed(b"m".to_vec(), "audio/webm"),
    };
    engine.save(&item, &scripts).unwrap();
    assert!(engine.has_file(&item));
    assert!(engine.remove(8).is_ok());
    assert!(!engine.has_file(&item));
    assert!(matches!(engine.get_files(&item), Err(Error::NotFound)));
    assert!(engine.remove(8).is_ok());
}

#[test]
fn index_document_is_written_last() {
    // the state just before the index write: both trees exist, the
    // thumbnail is already renamed into place, the index is not yet written
    let mut store = Store::new();
    store.ensure_item(42);
    store.start_staging(42, Slot::Thumbnail);
    store.append_staged(42, Slot::Thumbnail, &b"picture".to_vec());
    store.publish_file(42, Slot::Thumbnail, "jpg".to_string());
    assert!(!store.has_index(42));
    assert!(store.read_index(42).is_none());
}

#[test]
fn retriever_streams_all_chunks() {
    let retriever = DefaultContentRetriever;
    let response = RemoteResponse {
        mime: "text/plain".to_string(),
        total: 9,
        chunks: vec![b"abc".to_vec(), b"def".to_vec(), b"ghi".to_vec()],
        complete: true,
    };
    let conts = vec![true, true, true];
    let mut sink: Vec<u8> = Vec::new();
    let content = retriever.download(&response, &mut sink, &conts, 0).unwrap();
    assert_eq!(content.mime, "text/plain");
    assert_eq!(sink, b"abcdefghi".to_vec());
}

#[test]
fn retriever_cancels_within_one_chunk() {
    let retriever = DefaultContentRetriever;
    let response = RemoteResponse {
        mime: "text/plain".to_string(),
        total: 9,
        chunks: vec![b"abc".to_vec(), b"def".to_vec(), b"ghi".to_vec()],
        complete: true,
    };
    // the id is evicted after the first chunk: the second decision refuses
    let conts = vec![true, false, true];
    let mut sink: Vec<u8> = Vec::new();
    let result = retriever.download(&response, &mut sink, &conts, 0);
    assert!(matches!(result, Err(Error::Canceled)));
    assert_eq!(sink, b"abcdef".to_vec());
}

#[test]
fn retriever_reports_lost_connection() {
    let retriever = DefaultContentRetriever;
    let response = RemoteResponse {
        mime: "text/plain".to_string(),
        total: 100,
        chunks: vec![b"abc".to_vec()],
        complete: false,
    };
    let conts = vec![true];
    let mut sink: Vec<u8> = Vec::new();
    let result = retriever.download(&response, &mut sink, &conts, 0);
    assert!(matches!(result, Err(Error::Connection)));
    assert_eq!(sink, b"abc".to_vec());
}

#[test]
fn retriever_resumes_from_offset() {
    let retriever = DefaultContentRetriever;
    let mut sink: Vec<u8> = b"abc".to_vec();
    let response = RemoteResponse {
        mime: "text/plain".to_string(),
        total: 3,
        chunks: vec![b"def".to_vec()],
        complete: true,
    };
    let conts = vec![true];
    let offset = sink.len();
    retriever.download(&response, &mut sink, &conts, offset).unwrap();
    assert_eq!(sink, b"abcdef".to_vec());
}

#[test]
fn published_extension_derived_from_mime() {
    // examples documented by the extension table
    assert_eq!(file_ext(&"image/png".to_string()), "png");
    assert_eq!(file_ext(&"application/octet-stream".to_string()), "bin");
    // an unrecognized type falls back to the generic binary extension
    assert_eq!(file_ext(&"notareal/mimetype".to_string()), "bin");
}

#[test]
fn transfers_wrap_into_attempt_outcomes() {
    let done = attempt_from_transfer(
        Ok(Content { mime: "image/png".to_string() }),
        b"pic".to_vec(),
    );
    assert!(
        matches!(done, Attempt::Completed { bytes, mime } if bytes == b"pic".to_vec() && mime == "image/png")
    );
    let lost = attempt_from_transfer(Err(Error::Connection), b"par".to_vec());
    assert!(matches!(lost, Attempt::Interrupted { partial } if partial == b"par".to_vec()));
    let stopped = attempt_from_transfer(Err(Error::Canceled), b"pa".to_vec());
    assert!(matches!(stopped, Attempt::Canceled { partial } if partial == b"pa".to_vec()));
    assert!(matches!(
        attempt_from_transfer(Err(Error::Unknown), b"x".to_vec()),
        Attempt::Failed
    ));
}

#[test]
fn request_files_keeps_urls() {
    let files = RequestFiles::new("thumb-url".to_string(), "media-url".to_string());
    assert_eq!(files.thumbnail, "thumb-url");
    assert_eq!(files.media, "media-url");
}
