use furplayer::index_doc::{encode_index, parse_index, Index};

fn index(media: &str, thumbnail: &str) -> Index {
    Index { media_mime: media.to_string(), thumbnail_mime: thumbnail.to_string() }
}

#[test]
fn encode_produces_the_json_object() {
    let doc = encode_index(&index("audio/webm", "image/jpeg"));
    assert_eq!(
        doc,
        br#"{"media_mime":"audio/webm","thumbnail_mime":"image/jpeg"}"#.to_vec()
    );
}

#[test]
fn parse_inverts_encode() {
    let doc = encode_index(&index("audio/webm", "image/jpeg"));
    let parsed = parse_index(&doc).unwrap();
    assert_eq!(parsed.media_mime, "audio/webm");
    assert_eq!(parsed.thumbnail_mime, "image/jpeg");
}

#[test]
fn parse_inverts_encode_with_escapes() {
    let doc = encode_index(&index("a\"b\\c", "plain"));
    assert_eq!(doc, b"{\"media_mime\":\"a\\\"b\\\\c\",\"thumbnail_mime\":\"plain\"}".to_vec());
    let parsed = parse_index(&doc).unwrap();
    assert_eq!(parsed.media_mime, "a\"b\\c");
    assert_eq!(parsed.thumbnail_mime, "plain");
}

#[test]
fn parse_inverts_encode_outside_ascii() {
    let doc = encode_index(&index("audio/wébm", "ımage/jpeg"));
    let parsed = parse_index(&doc).unwrap();
    assert_eq!(parsed.media_mime, "audio/wébm");
    assert_eq!(parsed.thumbnail_mime, "ımage/jpeg");
}

#[test]
fn parse_rejects_other_documents() {
    assert!(parse_index(&b"".to_vec()).is_none());
    assert!(parse_index(&b"{}".to_vec()).is_none());
    assert!(parse_index(&b"not json at all".to_vec()).is_none());
    // well-formed JSON, but not this document's canonical shape
    assert!(parse_index(&br#"{"thumbnail_mime":"a","media_mime":"b"}"#.to_vec()).is_none());
    // truncated document
    assert!(parse_index(&br#"{"media_mime":"audio/webm","thumbnail_mime":"image"#.to_vec())
        .is_none());
    // a stray unescaped backslash
    assert!(parse_index(&br#"{"media_mime":"a\b","thumbnail_mime":"c"}"#.to_vec()).is_none());
}

#[test]
fn parse_rejects_invalid_utf8_content() {
    let mut doc = Vec::new();
    doc.extend_from_slice(b"{\"media_mime\":\"");
    doc.push(0xff);
    doc.extend_from_slice(b"\",\"thumbnail_mime\":\"x\"}");
    assert!(parse_index(&doc).is_none());
}
