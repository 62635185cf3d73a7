use furplayer::ytdlp::{self, classify_stderr, FetchError, FetchPlan};
use furplayer::ytdlp_wrapper::{
    classify_output, link_supported, Error, FetchStep, YouTubeFormat, YouTubeMetadata, YtDlp,
};

fn format(url: &str, ext: &str, resolution: &str) -> YouTubeFormat {
    YouTubeFormat { url: url.to_string(), ext: ext.to_string(), resolution: resolution.to_string() }
}

fn metadata(formats: Vec<YouTubeFormat>) -> YouTubeMetadata {
    YouTubeMetadata {
        id: "dQw4w9WgXcQ".to_string(),
        title: "Test".to_string(),
        thumbnail: "https://img.example/thumb.jpg".to_string(),
        formats,
        channel: "Artist".to_string(),
    }
}

#[test]
fn get_content_picks_first_audio_webm() {
    let m = metadata(vec![
        format("https://a/video", "mp4", "1080p"),
        format("https://a/audio-m4a", "m4a", "audio only"),
        format("https://a/audio-webm-1", "webm", "audio only"),
        format("https://a/audio-webm-2", "webm", "audio only"),
    ]);
    let content = m.get_content().unwrap();
    assert_eq!(content.media, "https://a/audio-webm-1");
    assert_eq!(content.thumbnail, "https://img.example/thumb.jpg");
}

#[test]
fn get_content_without_audio_stream_is_not_audio() {
    let m = metadata(vec![format("https://a/video", "mp4", "1080p")]);
    assert!(matches!(m.get_content(), Err(Error::NotAudio)));
}

#[test]
fn link_guard_accepts_the_three_shapes() {
    assert!(link_supported(&"https://www.youtube.com/watch?v=dQw4w9WgXcQ".to_string()));
    assert!(link_supported(&"https://youtu.be/dQw4w9WgXcQ".to_string()));
    assert!(link_supported(&"https://youtube.com/watch?v=123".to_string()));
    assert!(!link_supported(&"https://www.some.com/watch?v=123".to_string()));
    assert!(!link_supported(&"http://www.youtube.com/watch?v=123".to_string()));
}

#[test]
fn classification_of_resolver_output() {
    assert!(classify_output(true, &"".to_string()).is_none());
    assert!(classify_output(false, &"".to_string()).is_none());
    assert!(matches!(
        classify_output(false, &"ERROR: Video unavailable".to_string()),
        Some(Error::NotFound)
    ));
    assert!(matches!(
        classify_output(false, &"ERROR: Incomplete YouTube ID".to_string()),
        Some(Error::NotFound)
    ));
    assert!(matches!(
        classify_output(false, &"ERROR: Private video".to_string()),
        Some(Error::PrivateVideo)
    ));
    assert!(matches!(
        classify_output(false, &"something else went wrong".to_string()),
        Some(Error::Unknown)
    ));
}

#[test]
fn fetch_step_rejects_then_runs_then_caches() {
    let mut resolver = YtDlp::new("yt-dlp".to_string());
    let url = "https://www.youtube.com/watch?v=dQw4w9WgXcQ".to_string();
    assert!(matches!(
        resolver.fetch_step(&"https://www.some.com/watch?v=123".to_string(), 1_000),
        FetchStep::Reject
    ));
    assert!(matches!(resolver.fetch_step(&url, 1_000), FetchStep::Run));
    resolver.save_cache(url.clone(), metadata(vec![]), 1_000);
    match resolver.fetch_step(&url, 2_000) {
        FetchStep::Cached(m) => assert_eq!(m.id, "dQw4w9WgXcQ"),
        _ => panic!("expected a cached answer"),
    }
    // five minutes later the record is stale
    assert!(matches!(resolver.fetch_step(&url, 1_000 + 300_000), FetchStep::Run));
}

#[test]
fn details_cache_expires() {
    let mut resolver = ytdlp::YtDlp::new("yt-dlp".to_string());
    let url = "https://www.youtube.com/watch?v=dQw4w9WgXcQ".to_string();
    let details = ytdlp::Details {
        url: url.clone(),
        title: "Test".to_string(),
        author: "Artist".to_string(),
        thumbnail: "https://img.example/t.jpg".to_string(),
        media: "https://a/audio".to_string(),
    };
    assert!(resolver.get_cache(&url, 10_000).is_none());
    resolver.save_cache(url.clone(), details, 10_000);
    let hit = resolver.get_cache(&url, 10_000 + 299_999).unwrap();
    assert_eq!(hit.title, "Test");
    assert!(resolver.get_cache(&url, 10_000 + 300_000).is_none());
}

#[test]
fn fetch_plan_rejects_unrecognized_links() {
    let resolver = ytdlp::YtDlp::new("yt-dlp".to_string());
    assert!(matches!(
        resolver.fetch_plan(&"https://www.some.com/watch?v=123".to_string(), 0),
        FetchPlan::Reject
    ));
    assert!(matches!(
        resolver.fetch_plan(&"https://www.youtube.com/watch?v=123".to_string(), 0),
        FetchPlan::Resolve
    ));
    assert!(matches!(
        resolver.fetch_plan(&"https://youtu.be/abc".to_string(), 0),
        FetchPlan::Resolve
    ));
}

#[test]
fn is_youtube_looks_for_the_domains() {
    let resolver = ytdlp::YtDlp::new("yt-dlp".to_string());
    assert!(resolver.is_youtube("https://www.youtube.com/watch?v=123".to_string()));
    assert!(resolver.is_youtube("https://youtu.be/abc".to_string()));
    assert!(!resolver.is_youtube("https://www.some.com/watch?v=123".to_string()));
}

#[test]
fn watch_links_are_rebuilt_from_ids() {
    assert_eq!(
        ytdlp::watch_url(&"dQw4w9WgXcQ".to_string()),
        "https://www.youtube.com/watch?v=dQw4w9WgXcQ"
    );
}

#[test]
fn stderr_classification_for_details_resolver() {
    assert!(matches!(
        classify_stderr(false, &"ERROR: Private video".to_string()),
        Some(FetchError::NotFound)
    ));
    assert!(matches!(
        classify_stderr(false, &"ERROR: Video unavailable".to_string()),
        Some(FetchError::NotFound)
    ));
    assert!(matches!(
        classify_stderr(false, &"boom".to_string()),
        Some(FetchError::Unknown)
    ));
    assert!(classify_stderr(true, &"".to_string()).is_none());
}
