//! The download engine.
//!
//! One `save` turns a pair of remote URLs into durably stored local files:
//! the item id is test-and-inserted into the in-flight set (a duplicate
//! request fails at once with `InQueue`), each slot is retrieved through a
//! bounded retry loop that resumes from the byte length already staged, and
//! only on full success are the staged files renamed into the permanent
//! directory and the index document written — files first, index last.
//!
//! The transport is scripted: what the network did on each attempt, and how
//! each progress decision went, are inputs, so every branch of the control
//! logic is verified for every behaviour of the network.  The shell that
//! performs real HTTP turns each finished attempt into exactly such an
//! outcome.

use vstd::prelude::*;
use vstd::string::*;

use crate::audio::Audio;
use crate::index_doc::{Index, index_doc, encode_index, parse_index};
use crate::mime::{file_ext, spec_file_ext};
use crate::queue::InFlightQueue;
use crate::store::{Store, Slot, ItemDirs, staged_view, staged_of, published_of, flip};

verus! {

/// What one finished retrieval reports: the content type the server
/// declared.
#[derive(Debug)]
pub struct Content {
    pub mime: String,
}

/// The engine's error surface.
#[derive(Debug, Clone)]
pub enum Error {
    /// Unclassified local failure: I/O or a malformed index document.
    Unknown,
    /// Network-layer failure that survived every retry.
    Connection,
    /// Cooperative cancellation was observed.
    Canceled,
    /// A download for the same item id is already in flight.
    InQueue,
    /// A requested published artifact does not exist.
    NotFound,
}

/// The remote files requested for one item.
#[derive(Debug)]
pub struct RequestFiles {
    pub thumbnail: String,
    pub media: String,
}

impl RequestFiles {
    pub fn new(thumbnail: String, media: String) -> (r: Self)
        ensures
            r.thumbnail == thumbnail,
            r.media == media,
    {
        RequestFiles { thumbnail, media }
    }
}

/// Everything the read path returns for one item.
#[derive(Debug)]
pub struct ResponseFiles {
    pub thumbnail: Vec<u8>,
    pub thumbnail_mime: String,
    pub media: Vec<u8>,
    pub media_mime: String,
}

/// One scripted remote response: the content type and total length the
/// server declared, the body chunks in order, and whether the body ended
/// cleanly or the connection was lost after them.
pub struct RemoteResponse {
    pub mime: String,
    pub total: u64,
    pub chunks: Vec<Vec<u8>>,
    pub complete: bool,
}

/// The views of a response's chunks.
pub open spec fn chunk_views(chunks: Seq<Vec<u8>>) -> Seq<Seq<u8>> {
    chunks.map_values(|c: Vec<u8>| c@)
}

/// The bytes of the first `n` chunks, in order.
pub open spec fn flatten_prefix(chunks: Seq<Seq<u8>>, n: int) -> Seq<u8>
    decreases n,
{
    if n <= 0 {
        Seq::empty()
    } else {
        flatten_prefix(chunks, n - 1) + chunks[n - 1]
    }
}

/// The first of the `n` progress decisions that said stop, if any.
pub open spec fn first_refusal(conts: Seq<bool>, n: int) -> Option<int> {
    first_refusal_from(conts, 0, n)
}

pub open spec fn first_refusal_from(conts: Seq<bool>, i: int, n: int) -> Option<int>
    decreases n - i,
{
    if i >= n {
        None
    } else if !conts[i] {
        Some(i)
    } else {
        first_refusal_from(conts, i + 1, n)
    }
}

proof fn lemma_first_refusal_at(conts: Seq<bool>, n: int, k: int)
    requires
        0 <= k < n,
        !conts[k],
        forall|j: int| 0 <= j < k ==> conts[j],
    ensures
        first_refusal(conts, n) == Some(k),
{
    lemma_first_refusal_from(conts, 0, n, k);
}

proof fn lemma_first_refusal_from(conts: Seq<bool>, i: int, n: int, k: int)
    requires
        0 <= i <= k < n,
        !conts[k],
        forall|j: int| i <= j < k ==> conts[j],
    ensures
        first_refusal_from(conts, i, n) == Some(k),
    decreases k - i,
{
    if i < k {
        lemma_first_refusal_from(conts, i + 1, n, k);
    }
}

proof fn lemma_no_refusal(conts: Seq<bool>, i: int, n: int)
    requires
        0 <= i,
        forall|j: int| i <= j < n ==> conts[j],
    ensures
        first_refusal_from(conts, i, n) is None,
    decreases n - i,
{
    if i < n {
        lemma_no_refusal(conts, i + 1, n);
    }
}

/// The content retriever: streams one scripted response into the sink,
/// chunk by chunk, consulting one progress decision after each chunk is
/// written; a refusal aborts the transfer at that chunk boundary.
#[derive(Debug)]
pub struct DefaultContentRetriever;

impl DefaultContentRetriever {
    /// One HTTP GET, streamed.  `skip` is the resume offset the request
    /// carried: the bytes already in the sink, which the scripted response
    /// continues.  After every chunk the next progress decision is
    /// consulted; `false` ends the transfer with `Canceled` within that one
    /// chunk.  A body that ends before completion is a `Connection`
    /// failure; a complete body yields the declared content type.
    pub fn download(
        &self,
        response: &RemoteResponse,
        sink: &mut Vec<u8>,
        conts: &Vec<bool>,
        skip: usize,
    ) -> (r: Result<Content, Error>)
        requires
            conts@.len() >= response.chunks@.len(),
            skip == old(sink)@.len(),
        ensures
            ({
                let n = response.chunks@.len() as int;
                let views = chunk_views(response.chunks@);
                match first_refusal(conts@, n) {
                    Some(k) => r matches Err(e) && e is Canceled && final(sink)@ == old(sink)@
                        + flatten_prefix(views, k + 1),
                    None => {
                        if response.complete {
                            r matches Ok(c) && c.mime == response.mime && final(sink)@ == old(sink)@ + flatten_prefix(views, n)
                        } else {
                            r matches Err(e) && e is Connection && final(sink)@ == old(sink)@
                                + flatten_prefix(views, n)
                        }
                    },
                }
            }),
    {
        let ghost views = chunk_views(response.chunks@);
        let ghost n = response.chunks@.len() as int;
        let ghost base = sink@;
        let mut i: usize = 0;
        while i < response.chunks.len()
            invariant
                i <= response.chunks.len(),
                conts@.len() >= response.chunks@.len(),
                views == chunk_views(response.chunks@),
                n == response.chunks@.len() as int,
                base == old(sink)@,
                sink@ == base + flatten_prefix(views, i as int),
                forall|j: int| 0 <= j < i ==> conts@[j],
            decreases response.chunks.len() - i,
        {
            let mut chunk = crate::store::copy_bytes(&response.chunks[i]);
            sink.append(&mut chunk);
            proof {
                assert(views[i as int] == response.chunks@[i as int]@);
                assert(flatten_prefix(views, i + 1) == flatten_prefix(views, i as int)
                    + views[i as int]);
                assert(base + flatten_prefix(views, i + 1) =~= (base + flatten_prefix(
                    views,
                    i as int,
                )) + response.chunks@[i as int]@);
            }
            if !conts[i] {
                proof {
                    lemma_first_refusal_at(conts@, n, i as int);
                }
                return Err(Error::Canceled);
            }
            i += 1;
        }
        proof {
            lemma_no_refusal(conts@, 0, n);
        }
        if response.complete {
            Ok(Content { mime: response.mime.clone() })
        } else {
            Err(Error::Connection)
        }
    }
}

/// The progress decision the engine closes over: keep going exactly while
/// the item is still in the in-flight set, so evicting the id is how an
/// external cancellation reaches the transfer.
pub open spec fn spec_should_continue(q: Seq<u32>, id: u32) -> bool {
    q.contains(id)
}

/// The engine-side progress decision for one item.
pub fn should_continue(queue: &InFlightQueue, id: u32) -> (r: bool)
    ensures
        r == spec_should_continue(queue@, id),
{
    queue.contains(id)
}

/// Cancellation propagation: once the id has been evicted from the
/// in-flight set, the next progress decision is `false`, so the transfer's
/// first refusal is that very tick — by `download`'s contract the transfer
/// then ends `Canceled` having written exactly the chunks up to and
/// including that one: within one chunk's latency.
pub proof fn lemma_eviction_cancels(conts: Seq<bool>, q: Seq<u32>, id: u32, k: int, n: int)
    requires
        0 <= k < n,
        conts[k] == spec_should_continue(q, id),
        !q.contains(id),
        forall|j: int| 0 <= j < k ==> conts[j],
    ensures
        first_refusal(conts, n) == Some(k),
{
    lemma_first_refusal_at(conts, n, k);
}

/// What the transport reported for one retry attempt of one slot.
pub enum Attempt {
    /// The remainder of the file arrived and the transfer finished; the
    /// server declared this content type.
    Completed { bytes: Vec<u8>, mime: String },
    /// The connection was lost after these bytes had been written.
    Interrupted { partial: Vec<u8> },
    /// Writing to the local sink failed.
    Failed,
    /// A progress decision stopped the transfer after these bytes.
    Canceled { partial: Vec<u8> },
}

/// The bytes an attempt appended to the staging file.
pub open spec fn attempt_bytes(a: Attempt) -> Seq<u8> {
    match a {
        Attempt::Completed { bytes, .. } => bytes@,
        Attempt::Interrupted { partial } => partial@,
        Attempt::Failed => Seq::empty(),
        Attempt::Canceled { partial } => partial@,
    }
}

/// Terminal attempts end the retry loop at once: a finished transfer, or an
/// observed cancellation.  Everything else is retried.
pub open spec fn attempt_terminal(a: Attempt) -> bool {
    a is Completed || a is Canceled
}

/// The error an attempt stands for when the retry budget ends on it.
pub open spec fn attempt_error(a: Attempt) -> Error {
    match a {
        Attempt::Completed { .. } => Error::Unknown,
        Attempt::Interrupted { .. } => Error::Connection,
        Attempt::Failed => Error::Unknown,
        Attempt::Canceled { .. } => Error::Canceled,
    }
}

/// The retry cap: how many attempts one slot is given.
pub const RETRY_LIMIT: usize = 5;

/// The result of the bounded retry loop over a script of attempt outcomes:
/// the first terminal attempt decides; with the budget exhausted the last
/// error is propagated.
pub open spec fn slot_result(script: Seq<Attempt>, cap: int) -> Result<Seq<char>, Error>
    decreases cap,
{
    if cap <= 0 || script.len() == 0 {
        Err(Error::Unknown)
    } else {
        match script[0] {
            Attempt::Completed { mime, .. } => Ok(mime@),
            Attempt::Canceled { .. } => Err(Error::Canceled),
            _ => if cap == 1 {
                Err(attempt_error(script[0]))
            } else {
                slot_result(script.drop_first(), cap - 1)
            },
        }
    }
}

/// The bytes the retry loop stages: every consumed attempt appends what it
/// retrieved, each attempt resuming where the previous one stopped.
pub open spec fn slot_appended(script: Seq<Attempt>, cap: int) -> Seq<u8>
    decreases cap,
{
    if cap <= 0 || script.len() == 0 {
        Seq::empty()
    } else if attempt_terminal(script[0]) || cap == 1 {
        attempt_bytes(script[0])
    } else {
        attempt_bytes(script[0]) + slot_appended(script.drop_first(), cap - 1)
    }
}

/// The bytes appended by the first `k` attempts.
pub open spec fn appended_before(script: Seq<Attempt>, k: int) -> Seq<u8>
    decreases k,
{
    if k <= 0 {
        Seq::empty()
    } else {
        appended_before(script, k - 1) + attempt_bytes(script[k - 1])
    }
}

proof fn lemma_appended_before_front(script: Seq<Attempt>, k: int)
    requires
        1 <= k <= script.len(),
    ensures
        appended_before(script, k) == attempt_bytes(script[0]) + appended_before(
            script.drop_first(),
            k - 1,
        ),
    decreases k,
{
    if k == 1 {
        assert(appended_before(script, 1) == appended_before(script, 0) + attempt_bytes(
            script[0],
        ));
        assert(appended_before(script, 0) + attempt_bytes(script[0]) =~= attempt_bytes(script[0]));
        assert(attempt_bytes(script[0]) + appended_before(script.drop_first(), 0) =~= attempt_bytes(
            script[0],
        ));
    } else {
        lemma_appended_before_front(script, k - 1);
        assert(script.drop_first()[k - 2] == script[k - 1]);
        assert((attempt_bytes(script[0]) + appended_before(script.drop_first(), k - 2))
            + attempt_bytes(script[k - 1]) =~= attempt_bytes(script[0]) + (appended_before(
            script.drop_first(),
            k - 2,
        ) + attempt_bytes(script[k - 1])));
    }
}

/// The retry loop's prefix law: after `k` non-terminal attempts, what is
/// left to decide is the same loop over the remaining script with the
/// remaining budget, and the staged bytes split at exactly the resume
/// offset.
proof fn lemma_slot_skip(script: Seq<Attempt>, cap: int, k: int)
    requires
        0 <= k < cap <= script.len(),
        forall|j: int| 0 <= j < k ==> !attempt_terminal(#[trigger] script[j]),
    ensures
        slot_result(script, cap) == slot_result(script.skip(k), cap - k),
        slot_appended(script, cap) == appended_before(script, k) + slot_appended(
            script.skip(k),
            cap - k,
        ),
    decreases k,
{
    if k == 0 {
        assert(script.skip(0) =~= script);
        assert(appended_before(script, 0) + slot_appended(script, cap) =~= slot_appended(
            script,
            cap,
        ));
    } else {
        let tail = script.drop_first();
        assert(!attempt_terminal(script[0]));
        assert(forall|j: int|
            0 <= j < k - 1 ==> !attempt_terminal(#[trigger] tail[j]) || attempt_terminal(
                script[j + 1],
            ));
        assert forall|j: int| 0 <= j < k - 1 implies !attempt_terminal(#[trigger] tail[j]) by {
            assert(tail[j] == script[j + 1]);
        }
        lemma_slot_skip(tail, cap - 1, k - 1);
        assert(script.skip(k) =~= tail.skip(k - 1));
        assert(slot_result(script, cap) == slot_result(tail, cap - 1));
        assert(slot_appended(script, cap) == attempt_bytes(script[0]) + slot_appended(
            tail,
            cap - 1,
        ));
        lemma_appended_before_front(script, k);
        assert((attempt_bytes(script[0]) + appended_before(tail, k - 1)) + (slot_appended(
            script.skip(k),
            cap - k,
        )) =~= attempt_bytes(script[0]) + (appended_before(tail, k - 1) + slot_appended(
            script.skip(k),
            cap - k,
        )));
    }
}

/// Resume correctness: when the retry loop succeeds, the staged bytes are
/// exactly the partial bytes of the failed attempts followed by the bytes
/// of the final, completed attempt — each attempt resumed at the byte
/// length already staged, so nothing is duplicated and nothing is missing.
/// When the final attempt delivers exactly the remainder of the remote
/// content, the staged file's length is exactly that content length.
pub proof fn lemma_resume_correctness(script: Seq<Attempt>, cap: int, u: int, total: int)
    requires
        0 < cap <= script.len(),
        0 < u <= cap,
        forall|j: int| 0 <= j < u - 1 ==> !attempt_terminal(#[trigger] script[j]),
        script[u - 1] is Completed,
        attempt_bytes(script[u - 1]).len() == total - appended_before(script, u - 1).len(),
    ensures
        slot_result(script, cap) is Ok,
        slot_appended(script, cap) == appended_before(script, u - 1) + attempt_bytes(
            script[u - 1],
        ),
        slot_appended(script, cap).len() == total,
{
    lemma_slot_skip(script, cap, u - 1);
    let rest = script.skip(u - 1);
    assert(rest[0] == script[u - 1]);
    assert(rest.len() > 0);
    assert(attempt_terminal(rest[0]));
    assert(slot_appended(rest, cap - (u - 1)) == attempt_bytes(script[u - 1]));
}

/// Wrap one finished transfer as the retry loop's attempt outcome: the
/// bytes the transfer appended and how it ended.  A local write failure
/// stages nothing.
pub fn attempt_from_transfer(result: Result<Content, Error>, appended: Vec<u8>) -> (r: Attempt)
    ensures
        match result {
            Ok(c) => r matches Attempt::Completed { bytes, mime } && bytes@ == appended@ && mime
                == c.mime,
            Err(e) => match e {
                Error::Canceled => r matches Attempt::Canceled { partial } && partial@
                    == appended@,
                Error::Connection => r matches Attempt::Interrupted { partial } && partial@
                    == appended@,
                _ => r is Failed,
            },
        },
{
    match result {
        Ok(c) => Attempt::Completed { bytes: appended, mime: c.mime },
        Err(Error::Canceled) => Attempt::Canceled { partial: appended },
        Err(Error::Connection) => Attempt::Interrupted { partial: appended },
        Err(_) => Attempt::Failed,
    }
}

/// What the network delivered for one item: the attempt outcomes each
/// slot's retry loop would see, in order.  Scripts carry at least the full
/// retry budget: a real transport yields an outcome for every attempt made.
pub struct SlotScripts {
    pub thumbnail: Vec<Attempt>,
    pub media: Vec<Attempt>,
}

/// The overall outcome `save` owes for given slot scripts: the thumbnail
/// slot decides first — on its failure the media slot is never attempted —
/// then the media slot; on double success the discovered content types.
pub open spec fn save_outcome(thumb: Seq<Attempt>, media: Seq<Attempt>) -> Result<
    (Seq<char>, Seq<char>),
    Error,
> {
    match slot_result(thumb, RETRY_LIMIT as int) {
        Ok(tm) => match slot_result(media, RETRY_LIMIT as int) {
            Ok(mm) => Ok((tm, mm)),
            Err(e) => Err(e),
        },
        Err(e) => Err(e),
    }
}

/// The download engine: the in-flight set, the cancellation bus, and the
/// store it publishes into.
pub struct FileDownloader {
    audio_dir: String,
    downloading_dir: String,
    content_retriever: DefaultContentRetriever,
    queue: InFlightQueue,
    store: Store,
    cancel_events: Vec<u32>,
}

impl FileDownloader {
    /// The in-flight set.
    pub closed spec fn spec_queue(&self) -> Seq<u32> {
        self.queue@
    }

    /// What the store holds for an item.
    pub closed spec fn spec_item(&self, id: u32) -> Option<ItemDirs> {
        self.store.spec_get(id)
    }

    /// The cancellation-completed signals published so far, in order.
    pub closed spec fn spec_cancel_events(&self) -> Seq<u32> {
        self.cancel_events@
    }

    /// The engine is well-formed when its store is: every item satisfies
    /// the atomicity invariant.
    pub closed spec fn wf(&self) -> bool {
        self.store.wf()
    }

    /// Atomic visibility: while either published file of an item is
    /// missing, a well-formed engine cannot hold its index document, so the
    /// completeness check answers `false` and the read path `NotFound`.
    pub proof fn lemma_atomic_visibility(&self, id: u32)
        requires
            self.wf(),
            self.spec_item(id) matches Some(d) && (published_of(d, Slot::Thumbnail) is None
                || published_of(d, Slot::Media) is None),
        ensures
            self.spec_item(id) matches Some(d) && d.index is None,
    {
        self.store.lemma_wf_complete(id);
    }

    pub fn new(audio_dir: String, downloading_dir: String) -> (r: Self)
        ensures
            r.wf(),
            r.spec_queue() == Seq::<u32>::empty(),
            r.spec_cancel_events() == Seq::<u32>::empty(),
            forall|x: u32| r.spec_item(x) is None,
            r.spec_audio_dir() == audio_dir@,
            r.spec_downloading_dir() == downloading_dir@,
    {
        FileDownloader {
            audio_dir,
            downloading_dir,
            content_retriever: DefaultContentRetriever,
            queue: InFlightQueue::new(),
            store: Store::new(),
            cancel_events: Vec::new(),
        }
    }

    /// The root of the permanent tree.
    pub closed spec fn spec_audio_dir(&self) -> Seq<char> {
        self.audio_dir@
    }

    /// The root of the staging tree.
    pub closed spec fn spec_downloading_dir(&self) -> Seq<char> {
        self.downloading_dir@
    }

    pub fn audio_dir(&self) -> (r: &String)
        ensures
            r@ == self.spec_audio_dir(),
    {
        &self.audio_dir
    }

    pub fn downloading_dir(&self) -> (r: &String)
        ensures
            r@ == self.spec_downloading_dir(),
    {
        &self.downloading_dir
    }

    /// Whether a download for the id is in flight right now.
    pub fn is_in_queue(&self, id: u32) -> (r: bool)
        ensures
            r == self.spec_queue().contains(id),
    {
        self.queue.contains(id)
    }

    /// Whether a cancellation-completed signal for the id has been
    /// published on the bus: what a `remove` caller waits for.
    pub fn cancel_acknowledged(&self, id: u32) -> (r: bool)
        ensures
            r == self.spec_cancel_events().contains(id),
    {
        let mut i: usize = 0;
        while i < self.cancel_events.len()
            invariant
                i <= self.cancel_events.len(),
                forall|j: int| 0 <= j < i ==> self.cancel_events@[j] != id,
            decreases self.cancel_events.len() - i,
        {
            if self.cancel_events[i] == id {
                return true;
            }
            i += 1;
        }
        false
    }

    /// Test-and-insert into the in-flight set: the at-most-one guard.
    /// `save` runs it first; the shell that spawns one task per request
    /// calls it through `save` and relies on the same rejection.
    pub fn push_queue(&mut self, id: u32) -> (r: Result<(), Error>)
        ensures
            self_unchanged_but_queue(*old(self), *final(self)),
            old(self).spec_queue().contains(id) ==> (r matches Err(e) && e is InQueue && final(self).spec_queue() == old(self).spec_queue()),
            !old(self).spec_queue().contains(id) ==> (r is Ok && final(self).spec_queue() == old(self).spec_queue().push(id)),
    {
        if self.queue.accept(id) {
            Ok(())
        } else {
            Err(Error::InQueue)
        }
    }

    /// Evict the id from the in-flight set, whatever state it is in.
    pub fn anyway_pop_queue(&mut self, id: u32)
        ensures
            self_unchanged_but_queue(*old(self), *final(self)),
            final(self).spec_queue() == crate::queue::without_id(old(self).spec_queue(), id),
            forall|x: u32|
                final(self).spec_queue().contains(x) == (old(self).spec_queue().contains(x) && x
                    != id),
            !old(self).spec_queue().contains(id) ==> final(self).spec_queue() == old(self).spec_queue(),
    {
        self.queue.evict(id);
    }

    /// One slot's bounded retry loop.
    ///
    /// Each attempt resumes at the byte length already staged; the loop
    /// stops early on a completed transfer or an observed cancellation and
    /// otherwise spends the whole budget, propagating the last error.  An
    /// observed cancellation is published on the cancellation bus.
    fn download_slot(&mut self, id: u32, slot: Slot, script: &Vec<Attempt>) -> (r: Result<
        Content,
        Error,
    >)
        requires
            old(self).wf(),
            old(self).spec_item(id) is Some,
            script@.len() >= RETRY_LIMIT,
        ensures
            final(self).wf(),
            final(self).spec_queue() == old(self).spec_queue(),
            forall|x: u32| x != id ==> final(self).spec_item(x) == old(self).spec_item(x),
            (final(self).spec_item(id) matches Some(d) && old(self).spec_item(id) matches Some(od)
                && {
                &&& staged_of(d, slot) is Some
                &&& staged_view(d, slot) == slot_appended(script@, RETRY_LIMIT as int)
                &&& staged_of(d, flip(slot)) == staged_of(od, flip(slot))
                &&& d.thumbnail == od.thumbnail
                &&& d.media == od.media
                &&& d.index == od.index
            }),
            match slot_result(script@, RETRY_LIMIT as int) {
                Ok(m) => r matches Ok(c) && c.mime@ == m,
                Err(e) => r matches Err(e2) && e2 == e,
            },
            (r matches Err(e) && e is Canceled) ==> final(self).spec_cancel_events() == old(self).spec_cancel_events().push(id),
            !(r matches Err(e) && e is Canceled) ==> final(self).spec_cancel_events() == old(self).spec_cancel_events(),
    {
        self.store.start_staging(id, slot);
        let ghost sc = script@;
        let ghost cap = RETRY_LIMIT as int;
        let mut outcome: Result<Content, Error> = Err(Error::Unknown);
        let mut k: usize = 0;
        let mut done = false;
        while !done && k < RETRY_LIMIT
            invariant
                self.wf(),
                self.spec_item(id) is Some,
                sc == script@,
                cap == RETRY_LIMIT as int,
                script@.len() >= RETRY_LIMIT,
                k <= RETRY_LIMIT,
                !done ==> k < RETRY_LIMIT,
                self.spec_queue() == old(self).spec_queue(),
                self.spec_cancel_events() == old(self).spec_cancel_events(),
                forall|x: u32| x != id ==> self.spec_item(x) == old(self).spec_item(x),
                (self.spec_item(id) matches Some(d) && old(self).spec_item(id) matches Some(od)
                    && {
                    &&& staged_of(d, slot) is Some
                    &&& staged_of(d, flip(slot)) == staged_of(od, flip(slot))
                    &&& d.thumbnail == od.thumbnail
                    &&& d.media == od.media
                    &&& d.index == od.index
                }),
                !done ==> {
                    &&& staged_view(self.spec_item(id)->Some_0, slot) == appended_before(
                        sc,
                        k as int,
                    )
                    &&& forall|j: int| 0 <= j < k ==> !attempt_terminal(#[trigger] sc[j])
                    &&& k > 0 ==> outcome == Err::<Content, Error>(attempt_error(sc[k - 1]))
                    &&& k > 0 ==> !(outcome matches Err(e) && e is Canceled)
                },
                done ==> {
                    &&& staged_view(self.spec_item(id)->Some_0, slot) == slot_appended(sc, cap)
                    &&& match slot_result(sc, cap) {
                        Ok(m) => outcome matches Ok(c) && c.mime@ == m,
                        Err(e) => outcome matches Err(e2) && e2 == e,
                    }
                },
            decreases RETRY_LIMIT - k,
        {
            // the resume offset this attempt's request would carry
            let offset = self.store.staged_len(id, slot);
            proof {
                assert(offset == appended_before(sc, k as int).len());
                lemma_slot_skip(sc, cap, k as int);
                assert(sc.skip(k as int)[0] == sc[k as int]);
            }
            match &script[k] {
                Attempt::Completed { bytes, mime } => {
                    self.store.append_staged(id, slot, bytes);
                    outcome = Ok(Content { mime: mime.clone() });
                    done = true;
                    proof {
                        assert(slot_appended(sc.skip(k as int), cap - k) == attempt_bytes(
                            sc[k as int],
                        ));
                    }
                },
                Attempt::Canceled { partial } => {
                    self.store.append_staged(id, slot, partial);
                    outcome = Err(Error::Canceled);
                    done = true;
                    proof {
                        assert(slot_appended(sc.skip(k as int), cap - k) == attempt_bytes(
                            sc[k as int],
                        ));
                    }
                },
                Attempt::Interrupted { partial } => {
                    self.store.append_staged(id, slot, partial);
                    outcome = Err(Error::Connection);
                    proof {
                        if k + 1 == RETRY_LIMIT {
                            assert(slot_result(sc.skip(k as int), 1) == Err::<Seq<char>, Error>(
                                attempt_error(sc[k as int]),
                            ));
                            assert(slot_appended(sc.skip(k as int), 1) == attempt_bytes(
                                sc[k as int],
                            ));
                        }
                    }
                    if k + 1 == RETRY_LIMIT {
                        done = true;
                    }
                },
                Attempt::Failed => {
                    let empty: Vec<u8> = Vec::new();
                    self.store.append_staged(id, slot, &empty);
                    outcome = Err(Error::Unknown);
                    proof {
                        if k + 1 == RETRY_LIMIT {
                            assert(slot_result(sc.skip(k as int), 1) == Err::<Seq<char>, Error>(
                                attempt_error(sc[k as int]),
                            ));
                            assert(slot_appended(sc.skip(k as int), 1) == attempt_bytes(
                                sc[k as int],
                            ));
                        }
                    }
                    if k + 1 == RETRY_LIMIT {
                        done = true;
                    }
                },
            }
            k += 1;
        }
        proof {
            if !done {
                assert(false);
            }
        }
        match &outcome {
            Err(Error::Canceled) => {
                self.cancel_events.push(id);
            },
            _ => {},
        }
        outcome
    }

    /// Retrieve both slots into staging, then publish: rename each staged
    /// file under its derived extension, files first, and write the index
    /// document last.
    fn download_files(&mut self, audio: &Audio, scripts: &SlotScripts) -> (r: Result<(), Error>)
        requires
            old(self).wf(),
            scripts.thumbnail@.len() >= RETRY_LIMIT,
            scripts.media@.len() >= RETRY_LIMIT,
        ensures
            final(self).wf(),
            final(self).spec_queue() == old(self).spec_queue(),
            forall|x: u32| x != audio.id ==> final(self).spec_item(x) == old(self).spec_item(x),
            save_effect(
                *old(self),
                *final(self),
                audio.id,
                scripts.thumbnail@,
                scripts.media@,
                r,
            ),
    {
        let id = audio.id;
        let ghost s0 = *self;
        self.store.ensure_item(id);
        proof {
            assert(forall|x: u32| x != id ==> self.spec_item(x) == s0.spec_item(x));
        }
        let thumbnail_content = match self.download_slot(id, Slot::Thumbnail, &scripts.thumbnail) {
            Ok(c) => c,
            Err(e) => {
                return Err(e);
            },
        };
        let media_content = match self.download_slot(id, Slot::Media, &scripts.media) {
            Ok(c) => c,
            Err(e) => {
                return Err(e);
            },
        };
        let thumbnail_ext = file_ext(&thumbnail_content.mime);
        self.store.publish_file(id, Slot::Thumbnail, thumbnail_ext);
        let media_ext = file_ext(&media_content.mime);
        self.store.publish_file(id, Slot::Media, media_ext);
        let index = Index {
            media_mime: media_content.mime,
            thumbnail_mime: thumbnail_content.mime,
        };
        let doc = encode_index(&index);
        self.store.write_index(id, doc);
        Ok(())
    }

    /// Download and publish one item.
    ///
    /// The id is test-and-inserted into the in-flight set first: a
    /// duplicate concurrent request fails immediately with `InQueue` and no
    /// side effects.  The id is popped again, success or failure, before
    /// returning.
    pub fn save(&mut self, audio: &Audio, scripts: &SlotScripts) -> (r: Result<(), Error>)
        requires
            old(self).wf(),
            scripts.thumbnail@.len() >= RETRY_LIMIT,
            scripts.media@.len() >= RETRY_LIMIT,
        ensures
            final(self).wf(),
            forall|x: u32|
                final(self).spec_queue().contains(x) == old(self).spec_queue().contains(x),
            forall|x: u32| x != audio.id ==> final(self).spec_item(x) == old(self).spec_item(x),
            old(self).spec_queue().contains(audio.id) ==> (r matches Err(e) && e is InQueue
                && self_unchanged_but_queue(*old(self), *final(self)) && final(self).spec_queue()
                == old(self).spec_queue()),
            !old(self).spec_queue().contains(audio.id) ==> save_effect(
                *old(self),
                *final(self),
                audio.id,
                scripts.thumbnail@,
                scripts.media@,
                r,
            ),
    {
        let id = audio.id;
        proof {
            broadcast use vstd::seq_lib::lemma_seq_contains_after_push;

        }
        match self.push_queue(id) {
            Ok(_) => {},
            Err(e) => {
                return Err(e);
            },
        }
        let result = self.download_files(audio, scripts);
        self.anyway_pop_queue(id);
        result
    }

    /// Whether a staging file for the slot exists: consumers never read
    /// staging, this is for inspecting the engine's state.
    pub fn has_staged(&self, id: u32, slot: Slot) -> (r: bool)
        requires
            self.wf(),
        ensures
            r == (self.spec_item(id) matches Some(d) && staged_of(d, slot) is Some),
    {
        self.store.has_staged(id, slot)
    }

    /// Whether the item is fully downloaded: the existence check of its
    /// index document, the last artifact the publish step writes.
    pub fn has_file(&self, audio: &Audio) -> (r: bool)
        requires
            self.wf(),
        ensures
            r == (self.spec_item(audio.id) matches Some(d) && d.index is Some),
    {
        self.store.has_index(audio.id)
    }

    /// Read both published files and their content types.
    ///
    /// Succeeds exactly when the index document exists, parses, and both
    /// files are found under the names derived from the recorded content
    /// types; a missing index or file is `NotFound`, an unparseable index
    /// `Unknown`.
    pub fn get_files(&self, audio: &Audio) -> (r: Result<ResponseFiles, Error>)
        requires
            self.wf(),
        ensures
            get_files_post(*self, audio.id, r),
    {
        let id = audio.id;
        let doc = match self.store.read_index(id) {
            Some(doc) => doc,
            None => {
                return Err(Error::NotFound);
            },
        };
        let index = match parse_index(&doc) {
            Some(ix) => ix,
            None => {
                return Err(Error::Unknown);
            },
        };
        let thumbnail_ext = file_ext(&index.thumbnail_mime);
        let thumbnail = match self.store.read_published(id, Slot::Thumbnail, &thumbnail_ext) {
            Some(bytes) => bytes,
            None => {
                return Err(Error::NotFound);
            },
        };
        let media_ext = file_ext(&index.media_mime);
        let media = match self.store.read_published(id, Slot::Media, &media_ext) {
            Some(bytes) => bytes,
            None => {
                return Err(Error::NotFound);
            },
        };
        Ok(ResponseFiles {
            thumbnail,
            thumbnail_mime: index.thumbnail_mime,
            media,
            media_mime: index.media_mime,
        })
    }

    /// Cancel and delete one item.
    ///
    /// An in-flight id is first evicted from the set, which makes the
    /// running transfer's next progress decision `false`; the shell then
    /// waits for the matching cancellation-completed signal before deleting
    /// (see [`cancel_ack_matches`]).  Both directory trees are deleted;
    /// removing an item with no files and not in flight is a no-op that
    /// succeeds.
    pub fn remove(&mut self, id: u32) -> (r: Result<(), Error>)
        requires
            old(self).wf(),
        ensures
            final(self).wf(),
            r is Ok,
            final(self).spec_item(id) is None,
            forall|x: u32| x != id ==> final(self).spec_item(x) == old(self).spec_item(x),
            forall|x: u32|
                final(self).spec_queue().contains(x) == (old(self).spec_queue().contains(x) && x
                    != id),
            final(self).spec_cancel_events() == old(self).spec_cancel_events(),
    {
        if self.is_in_queue(id) {
            self.anyway_pop_queue(id);
        }
        self.store.remove_item(id);
        Ok(())
    }
}

/// Whether a signal received from the cancellation bus is the one a
/// `remove` caller is waiting for: every waiter wakes on every signal and
/// must re-check the id.
pub fn cancel_ack_matches(received: u32, waiting_for: u32) -> (r: bool)
    ensures
        r == (received == waiting_for),
{
    received == waiting_for
}

/// Everything `save` does to the engine once the id has been accepted:
/// the result owed for the scripts, the staged or published state of the
/// item, and the cancellation signal.
pub open spec fn save_effect(
    pre: FileDownloader,
    post: FileDownloader,
    id: u32,
    thumb: Seq<Attempt>,
    media: Seq<Attempt>,
    r: Result<(), Error>,
) -> bool {
    let cap = RETRY_LIMIT as int;
    let outcome = save_outcome(thumb, media);
    &&& (match outcome {
        Ok(_) => r is Ok,
        Err(e) => r matches Err(e2) && e2 == e,
    })
    &&& ((r matches Err(e) && e is Canceled) ==> post.spec_cancel_events()
        == pre.spec_cancel_events().push(id))
    &&& (!(r matches Err(e) && e is Canceled) ==> post.spec_cancel_events()
        == pre.spec_cancel_events())
    &&& post.spec_item(id) is Some
    &&& (match outcome {
        Ok(mimes) => {
            let d = post.spec_item(id)->Some_0;
            &&& published_of(d, Slot::Thumbnail) matches Some(tf) && tf.ext@ == spec_file_ext(
                mimes.0,
            ) && tf.bytes@ == slot_appended(thumb, cap)
            &&& published_of(d, Slot::Media) matches Some(mf) && mf.ext@ == spec_file_ext(mimes.1)
                && mf.bytes@ == slot_appended(media, cap)
            &&& d.index matches Some(v) && v@ == index_doc(mimes.1, mimes.0)
            &&& staged_of(d, Slot::Thumbnail) is None
            &&& staged_of(d, Slot::Media) is None
        },
        Err(_) => {
            let d = post.spec_item(id)->Some_0;
            // no publish happened: the permanent directory keeps exactly
            // what it had, staging keeps the partial bytes
            &&& (match pre.spec_item(id) {
                Some(od) => d.thumbnail == od.thumbnail && d.media == od.media && d.index
                    == od.index,
                None => d.thumbnail is None && d.media is None && d.index is None,
            })
            &&& staged_view(d, Slot::Thumbnail) == slot_appended(thumb, cap)
            &&& (slot_result(thumb, cap) is Ok ==> staged_view(d, Slot::Media) == slot_appended(
                media,
                cap,
            ))
            &&& (slot_result(thumb, cap) is Err ==> staged_of(d, Slot::Media) == (match pre
                .spec_item(id) {
                Some(od) => staged_of(od, Slot::Media),
                None => None::<Vec<u8>>,
            }))
        },
    })
}


/// Everything `get_files` promises: success exactly when the index
/// document exists, parses as a canonical record, and both files are found
/// under the names derived from the recorded content types; `NotFound` for
/// a missing index or file, `Unknown` for an unparseable index.
pub open spec fn get_files_post(eng: FileDownloader, id: u32, r: Result<
    ResponseFiles,
    Error,
>) -> bool {
    let item = eng.spec_item(id);
    match r {
        Ok(f) => item matches Some(d) && {
            &&& d.index matches Some(v) && v@ == index_doc(f.media_mime@, f.thumbnail_mime@)
            &&& published_of(d, Slot::Thumbnail) matches Some(tf) && tf.ext@ == spec_file_ext(
                f.thumbnail_mime@,
            ) && f.thumbnail@ == tf.bytes@
            &&& published_of(d, Slot::Media) matches Some(mf) && mf.ext@ == spec_file_ext(
                f.media_mime@,
            ) && f.media@ == mf.bytes@
        },
        Err(e) => match e {
            Error::NotFound => !(item matches Some(d) && d.index is Some) || (item matches Some(d)
                && d.index matches Some(v) && exists|m: Seq<char>, t: Seq<char>|
                v@ == #[trigger] index_doc(m, t) && !((published_of(
                    d,
                    Slot::Thumbnail,
                ) matches Some(tf) && tf.ext@ == spec_file_ext(t)) && (published_of(
                    d,
                    Slot::Media,
                ) matches Some(mf) && mf.ext@ == spec_file_ext(m)))),
            Error::Unknown => item matches Some(d) && d.index matches Some(v) && forall|
                m: Seq<char>,
                t: Seq<char>,
            | v@ != #[trigger] index_doc(m, t),
            _ => false,
        },
    }
}

/// A fully published item is owed a successful read: any answer that meets
/// `get_files`' contract on such an engine is `Ok` and returns exactly the
/// recorded content types and the published bytes.
pub proof fn lemma_published_item_reads_back(
    eng: FileDownloader,
    id: u32,
    media_mime: Seq<char>,
    thumbnail_mime: Seq<char>,
    r: Result<ResponseFiles, Error>,
)
    requires
        eng.spec_item(id) matches Some(d) && {
            &&& d.index matches Some(v) && v@ == index_doc(media_mime, thumbnail_mime)
            &&& published_of(d, Slot::Thumbnail) matches Some(tf) && tf.ext@ == spec_file_ext(
                thumbnail_mime,
            )
            &&& published_of(d, Slot::Media) matches Some(mf) && mf.ext@ == spec_file_ext(
                media_mime,
            )
        },
        get_files_post(eng, id, r),
    ensures
        r matches Ok(f) && {
            &&& f.media_mime@ == media_mime
            &&& f.thumbnail_mime@ == thumbnail_mime
            &&& f.thumbnail@ == (published_of(
                eng.spec_item(id)->Some_0,
                Slot::Thumbnail,
            )->Some_0).bytes@
            &&& f.media@ == (published_of(eng.spec_item(id)->Some_0, Slot::Media)->Some_0).bytes@
        },
{
    let d = eng.spec_item(id)->Some_0;
    let v = d.index->Some_0;
    match r {
        Ok(f) => {
            crate::index_doc::lemma_index_doc_injective(
                f.media_mime@,
                f.thumbnail_mime@,
                media_mime,
                thumbnail_mime,
            );
        },
        Err(e) => match e {
            Error::NotFound => {
                let (m, t) = choose|m: Seq<char>, t: Seq<char>|
                    v@ == #[trigger] index_doc(m, t) && !((published_of(
                        d,
                        Slot::Thumbnail,
                    ) matches Some(tf) && tf.ext@ == spec_file_ext(t)) && (published_of(
                        d,
                        Slot::Media,
                    ) matches Some(mf) && mf.ext@ == spec_file_ext(m)));
                crate::index_doc::lemma_index_doc_injective(m, t, media_mime, thumbnail_mime);
                assert(false);
            },
            Error::Unknown => {
                assert(v@ != index_doc(media_mime, thumbnail_mime));
                assert(false);
            },
            _ => {
                assert(false);
            },
        },
    }
}

/// Atomic visibility on the read path: while the index document does not
/// exist, any answer that meets `get_files`' contract is `NotFound` — no
/// reader ever observes a partially published item.
pub proof fn lemma_unpublished_item_not_found(
    eng: FileDownloader,
    id: u32,
    r: Result<ResponseFiles, Error>,
)
    requires
        !(eng.spec_item(id) matches Some(d) && d.index is Some),
        get_files_post(eng, id, r),
    ensures
        r matches Err(e) && e is NotFound,
{
}

/// The pieces of the engine a queue operation leaves alone.
pub open spec fn self_unchanged_but_queue(pre: FileDownloader, post: FileDownloader) -> bool {
    &&& post.wf() == pre.wf()
    &&& post.spec_cancel_events() == pre.spec_cancel_events()
    &&& forall|x: u32| post.spec_item(x) == pre.spec_item(x)
}

} // verus!
