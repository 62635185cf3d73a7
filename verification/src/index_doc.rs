//! The per-item index document.
//!
//! The index document is the last artifact written when an item is
//! published, after both files have been moved into the permanent tree, and
//! its existence is the sole witness that the item is fully downloaded.  It
//! is a small JSON object mapping each slot to the content type discovered
//! during the transfer.
//!
//! Encoding and parsing are verified functions on bytes: the parser accepts
//! exactly the documents the encoder produces, and parsing inverts encoding.

use vstd::prelude::*;
use vstd::string::*;
use vstd::utf8::{encode_utf8, valid_utf8, encode_utf8_valid_utf8, encode_utf8_decode_utf8};

verus! {

/// Per-item index record: the content type of each published slot.
pub struct Index {
    pub media_mime: String,
    pub thumbnail_mime: String,
}

/// Bytes that must be escaped inside a JSON string: the quote and the
/// backslash.
pub open spec fn needs_escape(b: u8) -> bool {
    b == 0x22 || b == 0x5c
}

/// JSON string escaping of a byte sequence: quotes and backslashes get a
/// backslash prefix, everything else passes through.
pub open spec fn escape(s: Seq<u8>) -> Seq<u8>
    decreases s.len(),
{
    if s.len() == 0 {
        Seq::empty()
    } else {
        let head = if needs_escape(s[0]) {
            seq![0x5cu8, s[0]]
        } else {
            seq![s[0]]
        };
        head + escape(s.drop_first())
    }
}

/// `{"media_mime":"` — the opening of the document.
pub open spec fn doc_open() -> Seq<u8> {
    seq![0x7bu8, 0x22, 0x6d, 0x65, 0x64, 0x69, 0x61, 0x5f, 0x6d, 0x69, 0x6d, 0x65, 0x22, 0x3a, 0x22]
}

/// `,"thumbnail_mime":"` — between the two fields (the quote closing the
/// first field is accounted to that field's string).
pub open spec fn doc_mid() -> Seq<u8> {
    seq![0x2cu8, 0x22, 0x74, 0x68, 0x75, 0x6d, 0x62, 0x6e, 0x61, 0x69, 0x6c, 0x5f, 0x6d, 0x69, 0x6d, 0x65, 0x22, 0x3a, 0x22]
}

/// The document encoding two mime byte strings.
pub open spec fn doc_bytes(media: Seq<u8>, thumbnail: Seq<u8>) -> Seq<u8> {
    doc_open() + escape(media) + seq![0x22u8] + doc_mid() + escape(thumbnail) + seq![
        0x22u8,
        0x7d,
    ]
}

/// The document recording the given content types, whose bytes are the
/// UTF-8 encodings of the mime strings.
pub open spec fn index_doc(media_mime: Seq<char>, thumbnail_mime: Seq<char>) -> Seq<u8> {
    doc_bytes(encode_utf8(media_mime), encode_utf8(thumbnail_mime))
}

/// Relies on String::from_utf8: succeeds exactly on valid UTF-8 and returns
/// the string whose UTF-8 encoding is the given bytes.
#[verifier::external_body]
fn string_from_utf8(bytes: Vec<u8>) -> (r: Option<String>)
    ensures
        r matches Some(s) ==> valid_utf8(bytes@) && encode_utf8(s@) == bytes@,
        r is None ==> !valid_utf8(bytes@),
{
    String::from_utf8(bytes).ok()
}

/// Scanning one JSON string component: the unescaped content and the number
/// of bytes consumed, including the closing quote; `None` when no
/// well-formed component starts here.
pub open spec fn scan_component(s: Seq<u8>) -> Option<(Seq<u8>, int)>
    decreases s.len(),
{
    if s.len() == 0 {
        None
    } else if s[0] == 0x22 {
        Some((Seq::empty(), 1))
    } else if s[0] == 0x5c {
        if s.len() >= 2 && needs_escape(s[1]) {
            match scan_component(s.subrange(2, s.len() as int)) {
                Some(t) => Some((seq![s[1]] + t.0, t.1 + 2)),
                None => None,
            }
        } else {
            None
        }
    } else {
        match scan_component(s.drop_first()) {
            Some(t) => Some((seq![s[0]] + t.0, t.1 + 1)),
            None => None,
        }
    }
}

/// Scanning is complete: an escaped content followed by a closing quote is
/// recognized, whatever follows.
proof fn lemma_scan_escape(c: Seq<u8>, rest: Seq<u8>)
    ensures
        scan_component(escape(c) + seq![0x22u8] + rest) == Some((c, escape(c).len() + 1 as int)),
    decreases c.len(),
{
    let s = escape(c) + seq![0x22u8] + rest;
    if c.len() == 0 {
        assert(escape(c) =~= Seq::<u8>::empty());
        assert(s[0] == 0x22);
        assert(scan_component(s) == Some((Seq::<u8>::empty(), 1 as int)));
        assert(c =~= Seq::<u8>::empty());
    } else {
        let cdf = c.drop_first();
        lemma_scan_escape(cdf, rest);
        let inner = escape(cdf) + seq![0x22u8] + rest;
        if needs_escape(c[0]) {
            assert(escape(c) =~= seq![0x5cu8, c[0]] + escape(cdf));
            assert(s[0] == 0x5c);
            assert(s[1] == c[0]);
            assert(s.len() >= 2);
            assert(s.subrange(2, s.len() as int) =~= inner);
            assert(scan_component(s) == Some(
                (seq![c[0]] + cdf, escape(cdf).len() + 1 + 2 as int),
            ));
            assert(seq![c[0]] + cdf =~= c);
            assert(escape(c).len() == escape(cdf).len() + 2);
        } else {
            assert(escape(c) =~= seq![c[0]] + escape(cdf));
            assert(s[0] == c[0]);
            assert(s[0] != 0x22 && s[0] != 0x5c);
            assert(s.drop_first() =~= inner);
            assert(scan_component(s) == Some(
                (seq![c[0]] + cdf, escape(cdf).len() + 1 + 1 as int),
            ));
            assert(seq![c[0]] + cdf =~= c);
            assert(escape(c).len() == escape(cdf).len() + 1);
        }
    }
}

/// Scanning is sound: whatever it accepts is an escaped content followed by
/// its closing quote.
proof fn lemma_scan_sound(s: Seq<u8>)
    ensures
        scan_component(s) matches Some(t) ==> {
            &&& 1 <= t.1 <= s.len()
            &&& s.subrange(0, t.1) == escape(t.0) + seq![0x22u8]
        },
    decreases s.len(),
{
    if s.len() == 0 {
    } else if s[0] == 0x22 {
        assert(s.subrange(0, 1) =~= escape(Seq::<u8>::empty()) + seq![0x22u8]);
    } else if s[0] == 0x5c {
        if s.len() >= 2 && needs_escape(s[1]) {
            let tail = s.subrange(2, s.len() as int);
            lemma_scan_sound(tail);
            match scan_component(tail) {
                Some(t) => {
                    let c = seq![s[1]] + t.0;
                    assert(c.drop_first() =~= t.0);
                    assert(escape(c) =~= seq![0x5cu8, s[1]] + escape(t.0));
                    assert(s.subrange(0, t.1 + 2) =~= seq![s[0], s[1]] + tail.subrange(0, t.1));
                    assert(s.subrange(0, t.1 + 2) =~= escape(c) + seq![0x22u8]);
                },
                None => {},
            }
        }
    } else {
        let tail = s.drop_first();
        lemma_scan_sound(tail);
        match scan_component(tail) {
            Some(t) => {
                let c = seq![s[0]] + t.0;
                assert(c.drop_first() =~= t.0);
                assert(escape(c) =~= seq![s[0]] + escape(t.0));
                assert(s.subrange(0, t.1 + 1) =~= seq![s[0]] + tail.subrange(0, t.1));
                assert(s.subrange(0, t.1 + 1) =~= escape(c) + seq![0x22u8]);
            },
            None => {},
        }
    }
}

/// Escaping distributes over appending one byte.
proof fn lemma_escape_snoc(s: Seq<u8>, x: u8)
    ensures
        escape(s.push(x)) == escape(s) + (if needs_escape(x) {
            seq![0x5cu8, x]
        } else {
            seq![x]
        }),
    decreases s.len(),
{
    let tail = if needs_escape(x) {
        seq![0x5cu8, x]
    } else {
        seq![x]
    };
    if s.len() == 0 {
        assert(s.push(x)[0] == x);
        assert(s.push(x).drop_first() =~= Seq::<u8>::empty());
        assert(escape(Seq::<u8>::empty()) == Seq::<u8>::empty());
        assert(escape(s.push(x)) =~= tail);
        assert(escape(s) =~= Seq::<u8>::empty());
        assert(escape(s) + tail =~= tail);
    } else {
        assert(s.push(x)[0] == s[0]);
        assert(s.push(x).drop_first() =~= s.drop_first().push(x));
        lemma_escape_snoc(s.drop_first(), x);
        let head = if needs_escape(s[0]) {
            seq![0x5cu8, s[0]]
        } else {
            seq![s[0]]
        };
        assert(escape(s.push(x)) == head + (escape(s.drop_first()) + tail));
        assert(escape(s) == head + escape(s.drop_first()));
        assert(head + (escape(s.drop_first()) + tail) =~= (head + escape(s.drop_first())) + tail);
    }
}

/// Append the escaped UTF-8 bytes of a string to the output.
fn push_escaped(out: &mut Vec<u8>, s: &String)
    ensures
        final(out)@ == old(out)@ + escape(encode_utf8(s@)),
{
    let bytes = s.as_str().as_bytes_vec();
    proof {
        broadcast use vstd::string::is_ascii_spec_bytes;
    }
    assert(bytes@ == encode_utf8(s@));
    let ghost base = out@;
    let mut i: usize = 0;
    while i < bytes.len()
        invariant
            i <= bytes.len(),
            bytes@ == encode_utf8(s@),
            out@ == base + escape(bytes@.subrange(0, i as int)),
        decreases bytes.len() - i,
    {
        let b = bytes[i];
        if b == 0x22 || b == 0x5c {
            out.push(0x5c);
            out.push(b);
        } else {
            out.push(b);
        }
        proof {
            let pre = bytes@.subrange(0, i as int);
            let post = bytes@.subrange(0, i + 1);
            assert(post =~= pre.push(b));
            lemma_escape_snoc(pre, b);
            if needs_escape(b) {
                assert(base + escape(pre) + seq![0x5cu8] + seq![b] =~= base + escape(post));
            } else {
                assert(base + escape(pre) + seq![b] =~= base + escape(post));
            }
        }
        i += 1;
    }
    proof {
        assert(bytes@.subrange(0, bytes@.len() as int) =~= bytes@);
    }
}

/// The fixed bytes of `{"media_mime":"`.
fn doc_open_exec() -> (r: Vec<u8>)
    ensures
        r@ == doc_open(),
{
    let mut v: Vec<u8> = Vec::new();
    v.push(0x7b);
    v.push(0x22);
    v.push(0x6d);
    v.push(0x65);
    v.push(0x64);
    v.push(0x69);
    v.push(0x61);
    v.push(0x5f);
    v.push(0x6d);
    v.push(0x69);
    v.push(0x6d);
    v.push(0x65);
    v.push(0x22);
    v.push(0x3a);
    v.push(0x22);
    proof {
        assert(v@ =~= doc_open());
    }
    v
}

/// The fixed bytes of `,"thumbnail_mime":"`.
fn doc_mid_exec() -> (r: Vec<u8>)
    ensures
        r@ == doc_mid(),
{
    let mut v: Vec<u8> = Vec::new();
    v.push(0x2c);
    v.push(0x22);
    v.push(0x74);
    v.push(0x68);
    v.push(0x75);
    v.push(0x6d);
    v.push(0x62);
    v.push(0x6e);
    v.push(0x61);
    v.push(0x69);
    v.push(0x6c);
    v.push(0x5f);
    v.push(0x6d);
    v.push(0x69);
    v.push(0x6d);
    v.push(0x65);
    v.push(0x22);
    v.push(0x3a);
    v.push(0x22);
    proof {
        assert(v@ =~= doc_mid());
    }
    v
}

/// Encode an index record as its document bytes.
pub fn encode_index(index: &Index) -> (r: Vec<u8>)
    ensures
        r@ == index_doc(index.media_mime@, index.thumbnail_mime@),
{
    let mut out = doc_open_exec();
    push_escaped(&mut out, &index.media_mime);
    out.push(0x22);
    let mut mid = doc_mid_exec();
    out.append(&mut mid);
    push_escaped(&mut out, &index.thumbnail_mime);
    out.push(0x22);
    out.push(0x7d);
    proof {
        assert(out@ =~= index_doc(index.media_mime@, index.thumbnail_mime@));
    }
    out
}

/// Scan one JSON string component starting at `start`: the unescaped
/// content and the position just past the closing quote.
fn scan_component_exec(bytes: &Vec<u8>, start: usize) -> (r: Option<(Vec<u8>, usize)>)
    requires
        start <= bytes.len(),
    ensures
        match r {
            Some(t) => {
                &&& start < t.1 <= bytes.len()
                &&& scan_component(bytes@.subrange(start as int, bytes@.len() as int)) == Some(
                    (t.0@, t.1 - start),
                )
            },
            None => scan_component(bytes@.subrange(start as int, bytes@.len() as int)) is None,
        },
{
    let ghost full = bytes@.subrange(start as int, bytes@.len() as int);
    let mut content: Vec<u8> = Vec::new();
    let mut i: usize = start;
    while i < bytes.len()
        invariant
            start <= i <= bytes.len(),
            full == bytes@.subrange(start as int, bytes@.len() as int),
            match scan_component(bytes@.subrange(i as int, bytes@.len() as int)) {
                Some(t) => scan_component(full) == Some((content@ + t.0, i - start + t.1)),
                None => scan_component(full) is None,
            },
        decreases bytes.len() - i,
    {
        let ghost cur = bytes@.subrange(i as int, bytes@.len() as int);
        let b = bytes[i];
        proof {
            assert(cur[0] == b);
        }
        if b == 0x22 {
            proof {
                assert(scan_component(cur) == Some((Seq::<u8>::empty(), 1 as int)));
                assert(content@ + Seq::<u8>::empty() =~= content@);
            }
            return Some((content, i + 1));
        } else if b == 0x5c {
            if i + 1 < bytes.len() {
                let b1 = bytes[i + 1];
                if b1 == 0x22 || b1 == 0x5c {
                    proof {
                        assert(cur.len() >= 2);
                        assert(cur[1] == b1);
                        assert(cur.subrange(2, cur.len() as int) =~= bytes@.subrange(
                            i + 2,
                            bytes@.len() as int,
                        ));
                        match scan_component(bytes@.subrange(i + 2, bytes@.len() as int)) {
                            Some(t) => {
                                assert(scan_component(cur) == Some((seq![b1] + t.0, t.1 + 2)));
                                assert(content@.push(b1) + t.0 =~= content@ + (seq![b1] + t.0));
                            },
                            None => {},
                        }
                    }
                    content.push(b1);
                    i += 2;
                } else {
                    proof {
                        assert(cur.len() >= 2);
                        assert(cur[1] == b1);
                        assert(!needs_escape(cur[1]));
                        assert(scan_component(cur) is None);
                    }
                    return None;
                }
            } else {
                proof {
                    assert(cur.len() == 1);
                    assert(scan_component(cur) is None);
                }
                return None;
            }
        } else {
            proof {
                assert(cur.drop_first() =~= bytes@.subrange(i + 1, bytes@.len() as int));
                match scan_component(bytes@.subrange(i + 1, bytes@.len() as int)) {
                    Some(t) => {
                        assert(scan_component(cur) == Some((seq![b] + t.0, t.1 + 1)));
                        assert(content@.push(b) + t.0 =~= content@ + (seq![b] + t.0));
                    },
                    None => {},
                }
            }
            content.push(b);
            i += 1;
        }
    }
    proof {
        assert(bytes@.subrange(i as int, bytes@.len() as int).len() == 0);
    }
    None
}

/// Whether the bytes at `at` are exactly `seg`.
fn has_seg(bytes: &Vec<u8>, at: usize, seg: &Vec<u8>) -> (r: bool)
    requires
        at <= bytes.len(),
    ensures
        r == (at + seg@.len() <= bytes@.len() && bytes@.subrange(
            at as int,
            at + seg@.len(),
        ) == seg@),
{
    if bytes.len() - at < seg.len() {
        return false;
    }
    let mut j: usize = 0;
    while j < seg.len()
        invariant
            j <= seg.len(),
            at + seg.len() <= bytes.len(),
            forall|k: int| 0 <= k < j ==> bytes@[at + k] == seg@[k],
        decreases seg.len() - j,
    {
        if bytes[at + j] != seg[j] {
            proof {
                assert(bytes@.subrange(at as int, at + seg@.len())[j as int] != seg@[j as int]);
            }
            return false;
        }
        j += 1;
    }
    proof {
        assert(bytes@.subrange(at as int, at + seg@.len()) =~= seg@);
    }
    true
}

/// Parse an index document.
///
/// The parser accepts exactly the canonical documents that [`encode_index`]
/// produces: it returns a record exactly when the bytes are the document of
/// some pair of content types, and then returns that pair.
pub fn parse_index(bytes: &Vec<u8>) -> (r: Option<Index>)
    ensures
        r matches Some(ix) ==> bytes@ == index_doc(ix.media_mime@, ix.thumbnail_mime@),
        forall|m: Seq<char>, t: Seq<char>|
            bytes@ == #[trigger] index_doc(m, t) ==> (r matches Some(ix) && ix.media_mime@ == m
                && ix.thumbnail_mime@ == t),
{
    let opening = doc_open_exec();
    let mid = doc_mid_exec();
    proof {
        lemma_parse_shape(bytes@);
    }
    if !has_seg(bytes, 0, &opening) {
        return None;
    }
    let m_scan = scan_component_exec(bytes, 15);
    let (m_bytes, m_end) = match m_scan {
        Some(t) => t,
        None => {
            return None;
        },
    };
    if !has_seg(bytes, m_end, &mid) {
        return None;
    }
    let t_scan = scan_component_exec(bytes, m_end + 19);
    let (t_bytes, t_end) = match t_scan {
        Some(t) => t,
        None => {
            return None;
        },
    };
    if !(t_end == bytes.len() - 1 && bytes[t_end] == 0x7d) {
        return None;
    }
    proof {
        lemma_scan_sound(bytes@.subrange(15, bytes@.len() as int));
        lemma_scan_sound(bytes@.subrange(m_end + 19, bytes@.len() as int));
    }
    let ghost mb = m_bytes@;
    let ghost tb = t_bytes@;
    proof {
        lemma_subrange_of_subrange(bytes@, 15, m_end as int);
        lemma_subrange_of_subrange(bytes@, m_end + 19, t_end as int);
        let l = bytes@.len() as int;
        assert(bytes@ =~= bytes@.subrange(0, 15) + bytes@.subrange(15, m_end as int)
            + bytes@.subrange(m_end as int, m_end + 19) + bytes@.subrange(
            m_end + 19,
            t_end as int,
        ) + bytes@.subrange(t_end as int, l));
        assert(bytes@.subrange(t_end as int, l) =~= seq![0x7du8]);
        assert(doc_bytes(mb, tb) =~= doc_open() + (escape(mb) + seq![0x22u8]) + doc_mid() + (
        escape(tb) + seq![0x22u8]) + seq![0x7du8]);
        assert(bytes@ =~= doc_bytes(mb, tb));
    }
    let media_mime = match string_from_utf8(m_bytes) {
        Some(s) => s,
        None => {
            proof {
                lemma_doc_none_ok(bytes@, mb, tb);
            }
            return None;
        },
    };
    let thumbnail_mime = match string_from_utf8(t_bytes) {
        Some(s) => s,
        None => {
            proof {
                lemma_doc_none_ok(bytes@, mb, tb);
            }
            return None;
        },
    };
    proof {
        broadcast use encode_utf8_decode_utf8;

        assert forall|m: Seq<char>, t: Seq<char>| bytes@ == #[trigger] index_doc(m, t) implies {
            &&& media_mime@ == m
            &&& thumbnail_mime@ == t
        } by {
            lemma_doc_bytes_injective(mb, tb, encode_utf8(m), encode_utf8(t));
            assert(vstd::utf8::decode_utf8(encode_utf8(m)) == m);
            assert(vstd::utf8::decode_utf8(encode_utf8(media_mime@)) == media_mime@);
            assert(vstd::utf8::decode_utf8(encode_utf8(t)) == t);
            assert(vstd::utf8::decode_utf8(encode_utf8(thumbnail_mime@)) == thumbnail_mime@);
        }
    }
    Some(Index { media_mime, thumbnail_mime })
}

/// A subrange of a trailing subrange, restated on the base sequence.
proof fn lemma_subrange_of_subrange(s: Seq<u8>, from: int, to: int)
    requires
        0 <= from <= to <= s.len(),
    ensures
        s.subrange(from, s.len() as int).subrange(0, to - from) == s.subrange(from, to),
{
    assert(s.subrange(from, s.len() as int).subrange(0, to - from) =~= s.subrange(from, to));
}

/// If a document's bytes are canonical for some pair, the parser's scans
/// land exactly on that pair's components: used to justify returning `None`
/// only off the canonical shape.
proof fn lemma_parse_shape(s: Seq<u8>)
    ensures
        forall|m: Seq<char>, t: Seq<char>|
            s == #[trigger] index_doc(m, t) ==> {
                let em = encode_utf8(m);
                let et = encode_utf8(t);
                &&& s.len() >= 15 && s.subrange(0, 15) == doc_open()
                &&& scan_component(s.subrange(15, s.len() as int)) == Some(
                    (em, escape(em).len() + 1 as int),
                )
                &&& {
                    let m_end = 15 + escape(em).len() + 1;
                    &&& m_end + 19 <= s.len()
                    &&& s.subrange(m_end as int, m_end + 19 as int) == doc_mid()
                    &&& scan_component(s.subrange(m_end + 19 as int, s.len() as int)) == Some(
                        (et, escape(et).len() + 1 as int),
                    )
                    &&& m_end + 19 + escape(et).len() + 1 + 1 == s.len()
                    &&& s[s.len() - 1] == 0x7d
                }
            },
{
    assert forall|m: Seq<char>, t: Seq<char>| s == #[trigger] index_doc(m, t) implies {
        let em = encode_utf8(m);
        let et = encode_utf8(t);
        &&& s.len() >= 15 && s.subrange(0, 15) == doc_open()
        &&& scan_component(s.subrange(15, s.len() as int)) == Some(
            (em, escape(em).len() + 1 as int),
        )
        &&& {
            let m_end = 15 + escape(em).len() + 1;
            &&& m_end + 19 <= s.len()
            &&& s.subrange(m_end as int, m_end + 19 as int) == doc_mid()
            &&& scan_component(s.subrange(m_end + 19 as int, s.len() as int)) == Some(
                (et, escape(et).len() + 1 as int),
            )
            &&& m_end + 19 + escape(et).len() + 1 + 1 == s.len()
            &&& s[s.len() - 1] == 0x7d
        }
    } by {
        let em = encode_utf8(m);
        let et = encode_utf8(t);
        assert(s.subrange(0, 15) =~= doc_open());
        let after_open = s.subrange(15, s.len() as int);
        assert(after_open =~= escape(em) + seq![0x22u8] + (doc_mid() + escape(et) + seq![
            0x22u8,
            0x7d,
        ]));
        lemma_scan_escape(em, doc_mid() + escape(et) + seq![0x22u8, 0x7d]);
        let m_end = 15 + escape(em).len() + 1;
        assert(s.subrange(m_end as int, m_end + 19 as int) =~= doc_mid());
        let after_mid = s.subrange(m_end + 19 as int, s.len() as int);
        assert(after_mid =~= escape(et) + seq![0x22u8] + seq![0x7du8]);
        lemma_scan_escape(et, seq![0x7du8]);
        assert(s[s.len() - 1] == 0x7d);
    }
}

/// When the scanned components fail UTF-8 decoding, no canonical document
/// matches the bytes, so `None` is the right answer.
proof fn lemma_doc_none_ok(s: Seq<u8>, mb: Seq<u8>, tb: Seq<u8>)
    requires
        s == doc_bytes(mb, tb),
        !valid_utf8(mb) || !valid_utf8(tb),
    ensures
        forall|m: Seq<char>, t: Seq<char>| s != #[trigger] index_doc(m, t),
{
    broadcast use encode_utf8_valid_utf8;

    assert forall|m: Seq<char>, t: Seq<char>| s != #[trigger] index_doc(m, t) by {
        if s == index_doc(m, t) {
            lemma_doc_bytes_injective(mb, tb, encode_utf8(m), encode_utf8(t));
        }
    }
}

/// The document determines its components: two canonical documents with the
/// same bytes carry the same pair.
proof fn lemma_doc_bytes_injective(m1: Seq<u8>, t1: Seq<u8>, m2: Seq<u8>, t2: Seq<u8>)
    requires
        doc_bytes(m1, t1) == doc_bytes(m2, t2),
    ensures
        m1 == m2,
        t1 == t2,
{
    let s = doc_bytes(m1, t1);
    let rest1 = doc_mid() + escape(t1) + seq![0x22u8, 0x7d];
    let rest2 = doc_mid() + escape(t2) + seq![0x22u8, 0x7d];
    assert(s.subrange(15, s.len() as int) =~= escape(m1) + seq![0x22u8] + rest1);
    assert(s.subrange(15, s.len() as int) =~= escape(m2) + seq![0x22u8] + rest2);
    lemma_scan_escape(m1, rest1);
    lemma_scan_escape(m2, rest2);
    assert(m1 == m2);
    assert(escape(m1) == escape(m2));
    let m_end = 15 + escape(m1).len() + 1;
    assert(s.subrange(m_end + 19 as int, s.len() as int) =~= escape(t1) + seq![0x22u8] + seq![0x7du8]);
    assert(s.subrange(m_end + 19 as int, s.len() as int) =~= escape(t2) + seq![0x22u8] + seq![0x7du8]);
    lemma_scan_escape(t1, seq![0x7du8]);
    lemma_scan_escape(t2, seq![0x7du8]);
    assert(t1 == t2);
}

/// A document pins its content types down: two documents with the same
/// bytes record the same pair, so whatever a parse of an encoded record
/// returns under [`parse_index`]'s contract is that record itself.
pub proof fn lemma_index_doc_injective(m1: Seq<char>, t1: Seq<char>, m2: Seq<char>, t2: Seq<char>)
    requires
        index_doc(m1, t1) == index_doc(m2, t2),
    ensures
        m1 == m2,
        t1 == t2,
{
    broadcast use encode_utf8_decode_utf8;

    lemma_doc_bytes_injective(encode_utf8(m1), encode_utf8(t1), encode_utf8(m2), encode_utf8(t2));
    assert(vstd::utf8::decode_utf8(encode_utf8(m1)) == m1);
    assert(vstd::utf8::decode_utf8(encode_utf8(m2)) == m2);
    assert(vstd::utf8::decode_utf8(encode_utf8(t1)) == t1);
    assert(vstd::utf8::decode_utf8(encode_utf8(t2)) == t2);
}

} // verus!
