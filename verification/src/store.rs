//! An in-memory model of the permanent and staging directory trees.
//!
//! Each item owns one staging directory (slot files without extension,
//! written incrementally, never read by consumers) and one permanent
//! directory (slot files named with an extension derived from the content
//! type, plus the index document).  The store's well-formedness carries the
//! core atomicity invariant: an index document is only ever present when
//! both published files are, so a reader that finds the index is guaranteed
//! a complete item.

use vstd::prelude::*;

verus! {

/// The two slots every item owns.
#[derive(Clone, Copy, PartialEq, Eq, Structural)]
pub enum Slot {
    Thumbnail,
    Media,
}

/// A file in the permanent tree: the extension it was published under and
/// its content.
pub struct PublishedFile {
    pub ext: String,
    pub bytes: Vec<u8>,
}

/// Everything stored for one item: the staging slot files and the permanent
/// slot files plus index document.
pub struct ItemDirs {
    pub staged_thumbnail: Option<Vec<u8>>,
    pub staged_media: Option<Vec<u8>>,
    pub thumbnail: Option<PublishedFile>,
    pub media: Option<PublishedFile>,
    pub index: Option<Vec<u8>>,
}

/// The staging file of a slot.
pub open spec fn staged_of(d: ItemDirs, slot: Slot) -> Option<Vec<u8>> {
    match slot {
        Slot::Thumbnail => d.staged_thumbnail,
        Slot::Media => d.staged_media,
    }
}

/// The bytes staged for a slot; an absent staging file stages nothing.
pub open spec fn staged_view(d: ItemDirs, slot: Slot) -> Seq<u8> {
    match staged_of(d, slot) {
        Some(v) => v@,
        None => Seq::empty(),
    }
}

/// The published file of a slot.
pub open spec fn published_of(d: ItemDirs, slot: Slot) -> Option<PublishedFile> {
    match slot {
        Slot::Thumbnail => d.thumbnail,
        Slot::Media => d.media,
    }
}

/// The atomicity invariant of one item: the index document, the witness of
/// completeness, exists only when both files are published.
pub open spec fn dirs_complete(d: ItemDirs) -> bool {
    d.index is Some ==> d.thumbnail is Some && d.media is Some
}

struct Entry {
    id: u32,
    dirs: ItemDirs,
}

spec fn has_id(s: Seq<Entry>, id: u32) -> bool {
    exists|i: int| 0 <= i < s.len() && s[i].id == id
}

spec fn spec_get_seq(s: Seq<Entry>, id: u32) -> Option<ItemDirs> {
    if has_id(s, id) {
        let i = choose|i: int| 0 <= i < s.len() && s[i].id == id;
        Some(s[i].dirs)
    } else {
        None
    }
}

spec fn unique_ids(s: Seq<Entry>) -> bool {
    forall|i: int, j: int| 0 <= i < j < s.len() ==> s[i].id != s[j].id
}

/// The permanent and staging trees, keyed by item id.
pub struct Store {
    entries: Vec<Entry>,
}

impl Store {
    /// What the store holds for an item, if anything at all is on disk for
    /// it.
    pub closed spec fn spec_get(&self, id: u32) -> Option<ItemDirs> {
        spec_get_seq(self.entries@, id)
    }

    /// Well-formedness: one directory pair per id, and every item satisfies
    /// the atomicity invariant.
    pub closed spec fn wf(&self) -> bool {
        &&& unique_ids(self.entries@)
        &&& forall|i: int|
            0 <= i < self.entries@.len() ==> dirs_complete(#[trigger] self.entries@[i].dirs)
    }

    /// A well-formed store only ever shows complete items behind an index
    /// document.
    pub proof fn lemma_wf_complete(&self, id: u32)
        requires
            self.wf(),
        ensures
            self.spec_get(id) matches Some(d) ==> dirs_complete(d),
    {
    }

    pub fn new() -> (s: Self)
        ensures
            s.wf(),
            forall|x: u32| s.spec_get(x) is None,
    {
        Store { entries: Vec::new() }
    }

    /// The index of the entry for the id, if one exists.
    fn find(&self, id: u32) -> (r: Option<usize>)
        requires
            self.wf(),
        ensures
            match r {
                Some(i) => i < self.entries@.len() && self.entries@[i as int].id == id
                    && self.spec_get(id) == Some(self.entries@[i as int].dirs),
                None => self.spec_get(id) is None,
            },
    {
        let mut i: usize = 0;
        while i < self.entries.len()
            invariant
                self.wf(),
                i <= self.entries.len(),
                forall|j: int| 0 <= j < i ==> self.entries@[j].id != id,
            decreases self.entries.len() - i,
        {
            if self.entries[i].id == id {
                proof {
                    let s = self.entries@;
                    assert(has_id(s, id));
                    let w = choose|w: int| 0 <= w < s.len() && s[w].id == id;
                    if w < i as int {
                        assert(s[w].id != s[i as int].id);
                    }
                    if w > i as int {
                        assert(s[i as int].id != s[w].id);
                    }
                }
                return Some(i);
            }
            i += 1;
        }
        None
    }

    /// Make sure the directories for the item exist; an item already
    /// present keeps everything it has.
    pub fn ensure_item(&mut self, id: u32)
        requires
            old(self).wf(),
        ensures
            final(self).wf(),
            final(self).spec_get(id) is Some,
            old(self).spec_get(id) is Some ==> final(self).spec_get(id) == old(self).spec_get(id),
            old(self).spec_get(id) is None ==> (final(self).spec_get(id) matches Some(d) && {
                &&& staged_of(d, Slot::Thumbnail) is None
                &&& staged_of(d, Slot::Media) is None
                &&& published_of(d, Slot::Thumbnail) is None
                &&& published_of(d, Slot::Media) is None
                &&& d.index is None
            }),
            forall|x: u32| x != id ==> final(self).spec_get(x) == old(self).spec_get(x),
    {
        match self.find(id) {
            Some(_) => {},
            None => {
                let dirs = ItemDirs {
                    staged_thumbnail: None,
                    staged_media: None,
                    thumbnail: None,
                    media: None,
                    index: None,
                };
                let entry = Entry { id, dirs };
                proof {
                    lemma_get_push(self.entries@, Entry { id, dirs: entry.dirs });
                }
                self.entries.push(entry);
            },
        }
    }

    /// Create (or truncate) the staging file of a slot, as the transfer
    /// does before its first attempt.
    pub fn start_staging(&mut self, id: u32, slot: Slot)
        requires
            old(self).wf(),
            old(self).spec_get(id) is Some,
        ensures
            final(self).wf(),
            (final(self).spec_get(id) matches Some(d) && old(self).spec_get(id) matches Some(od)
                && {
                &&& staged_of(d, slot) is Some
                &&& staged_view(d, slot) == Seq::<u8>::empty()
                &&& staged_of(d, flip(slot)) == staged_of(od, flip(slot))
                &&& d.thumbnail == od.thumbnail
                &&& d.media == od.media
                &&& d.index == od.index
            }),
            forall|x: u32| x != id ==> final(self).spec_get(x) == old(self).spec_get(x),
    {
        let i = match self.find(id) {
            Some(i) => i,
            None => {
                proof {
                    assert(false);
                }
                return ;
            },
        };
        let ghost pre = self.entries@;
        match slot {
            Slot::Thumbnail => {
                self.entries[i].dirs.staged_thumbnail = Some(Vec::new());
            },
            Slot::Media => {
                self.entries[i].dirs.staged_media = Some(Vec::new());
            },
        }
        proof {
            assert(self.entries@ =~= pre.update(i as int, self.entries@[i as int]));
            lemma_get_update(pre, i as int, self.entries@[i as int]);
        }
    }

    /// How many bytes the slot's staging file already holds: the resume
    /// offset of the next transfer attempt.
    pub fn staged_len(&self, id: u32, slot: Slot) -> (r: usize)
        requires
            self.wf(),
            self.spec_get(id) is Some,
        ensures
            r == staged_view(self.spec_get(id)->Some_0, slot).len(),
    {
        let i = match self.find(id) {
            Some(i) => i,
            None => {
                proof {
                    assert(false);
                }
                return 0;
            },
        };
        let staged = match slot {
            Slot::Thumbnail => &self.entries[i].dirs.staged_thumbnail,
            Slot::Media => &self.entries[i].dirs.staged_media,
        };
        match staged {
            Some(v) => v.len(),
            None => 0,
        }
    }

    /// Append freshly retrieved bytes to the slot's staging file.
    pub fn append_staged(&mut self, id: u32, slot: Slot, data: &Vec<u8>)
        requires
            old(self).wf(),
            old(self).spec_get(id) is Some,
        ensures
            final(self).wf(),
            (final(self).spec_get(id) matches Some(d) && old(self).spec_get(id) matches Some(od)
                && {
                &&& staged_of(d, slot) is Some
                &&& staged_view(d, slot) == staged_view(od, slot) + data@
                &&& staged_of(d, flip(slot)) == staged_of(od, flip(slot))
                &&& d.thumbnail == od.thumbnail
                &&& d.media == od.media
                &&& d.index == od.index
            }),
            forall|x: u32| x != id ==> final(self).spec_get(x) == old(self).spec_get(x),
    {
        let i = match self.find(id) {
            Some(i) => i,
            None => {
                proof {
                    assert(false);
                }
                return ;
            },
        };
        let ghost pre = self.entries@;
        let mut appended = copy_bytes(data);
        match slot {
            Slot::Thumbnail => {
                match &mut self.entries[i].dirs.staged_thumbnail {
                    Some(v) => {
                        v.append(&mut appended);
                    },
                    None => {
                        self.entries[i].dirs.staged_thumbnail = Some(appended);
                    },
                }
            },
            Slot::Media => {
                match &mut self.entries[i].dirs.staged_media {
                    Some(v) => {
                        v.append(&mut appended);
                    },
                    None => {
                        self.entries[i].dirs.staged_media = Some(appended);
                    },
                }
            },
        }
        proof {
            assert(Seq::<u8>::empty() + data@ =~= data@);
            assert(self.entries@ =~= pre.update(i as int, self.entries@[i as int]));
            lemma_get_update(pre, i as int, self.entries@[i as int]);
        }
    }

    /// Move the slot's staging file into the permanent directory under the
    /// extension derived from its content type: the rename of the publish
    /// step.
    pub fn publish_file(&mut self, id: u32, slot: Slot, ext: String)
        requires
            old(self).wf(),
            old(self).spec_get(id) is Some,
            staged_of(old(self).spec_get(id)->Some_0, slot) is Some,
        ensures
            final(self).wf(),
            (final(self).spec_get(id) matches Some(d) && old(self).spec_get(id) matches Some(od)
                && {
                &&& published_of(d, slot) matches Some(f) && f.ext == ext && f.bytes@
                    == staged_view(od, slot)
                &&& staged_of(d, slot) is None
                &&& staged_of(d, flip(slot)) == staged_of(od, flip(slot))
                &&& published_of(d, flip(slot)) == published_of(od, flip(slot))
                &&& d.index == od.index
            }),
            forall|x: u32| x != id ==> final(self).spec_get(x) == old(self).spec_get(x),
    {
        let i = match self.find(id) {
            Some(i) => i,
            None => {
                proof {
                    assert(false);
                }
                return ;
            },
        };
        let ghost pre = self.entries@;
        match slot {
            Slot::Thumbnail => {
                let staged = self.entries[i].dirs.staged_thumbnail.take();
                let bytes = match staged {
                    Some(v) => v,
                    None => {
                        proof {
                            assert(false);
                        }
                        Vec::new()
                    },
                };
                self.entries[i].dirs.thumbnail = Some(PublishedFile { ext, bytes });
            },
            Slot::Media => {
                let staged = self.entries[i].dirs.staged_media.take();
                let bytes = match staged {
                    Some(v) => v,
                    None => {
                        proof {
                            assert(false);
                        }
                        Vec::new()
                    },
                };
                self.entries[i].dirs.media = Some(PublishedFile { ext, bytes });
            },
        }
        proof {
            assert(self.entries@ =~= pre.update(i as int, self.entries@[i as int]));
            lemma_get_update(pre, i as int, self.entries@[i as int]);
        }
    }

    /// Write the index document.  It is the last artifact of the publish
    /// step: both files must already be in place, which is what keeps the
    /// atomicity invariant.
    pub fn write_index(&mut self, id: u32, doc: Vec<u8>)
        requires
            old(self).wf(),
            old(self).spec_get(id) is Some,
            published_of(old(self).spec_get(id)->Some_0, Slot::Thumbnail) is Some,
            published_of(old(self).spec_get(id)->Some_0, Slot::Media) is Some,
        ensures
            final(self).wf(),
            (final(self).spec_get(id) matches Some(d) && old(self).spec_get(id) matches Some(od)
                && {
                &&& d.index matches Some(v) && v@ == doc@
                &&& d.thumbnail == od.thumbnail
                &&& d.media == od.media
                &&& d.staged_thumbnail == od.staged_thumbnail
                &&& d.staged_media == od.staged_media
            }),
            forall|x: u32| x != id ==> final(self).spec_get(x) == old(self).spec_get(x),
    {
        let i = match self.find(id) {
            Some(i) => i,
            None => {
                proof {
                    assert(false);
                }
                return ;
            },
        };
        let ghost pre = self.entries@;
        self.entries[i].dirs.index = Some(doc);
        proof {
            assert(self.entries@ =~= pre.update(i as int, self.entries@[i as int]));
            lemma_get_update(pre, i as int, self.entries@[i as int]);
        }
    }

    /// Whether the item's index document exists: the O(1) completeness
    /// check of the read path.
    pub fn has_index(&self, id: u32) -> (r: bool)
        requires
            self.wf(),
        ensures
            r == (self.spec_get(id) matches Some(d) && d.index is Some),
    {
        match self.find(id) {
            Some(i) => self.entries[i].dirs.index.is_some(),
            None => false,
        }
    }

    /// Read the item's index document.
    pub fn read_index(&self, id: u32) -> (r: Option<Vec<u8>>)
        requires
            self.wf(),
        ensures
            match r {
                Some(v) => self.spec_get(id) matches Some(d) && d.index matches Some(w) && v@
                    == w@,
                None => !(self.spec_get(id) matches Some(d) && d.index is Some),
            },
    {
        match self.find(id) {
            Some(i) => {
                match &self.entries[i].dirs.index {
                    Some(v) => Some(copy_bytes(v)),
                    None => None,
                }
            },
            None => None,
        }
    }

    /// Read a published slot file by the name it would have been given for
    /// this extension; a file published under another extension is not
    /// found.
    pub fn read_published(&self, id: u32, slot: Slot, ext: &String) -> (r: Option<Vec<u8>>)
        requires
            self.wf(),
        ensures
            match r {
                Some(v) => self.spec_get(id) matches Some(d) && published_of(d, slot) matches Some(
                    f,
                ) && f.ext@ == ext@ && v@ == f.bytes@,
                None => !(self.spec_get(id) matches Some(d) && published_of(d, slot) matches Some(
                    f,
                ) && f.ext@ == ext@),
            },
    {
        match self.find(id) {
            Some(i) => {
                let file = match slot {
                    Slot::Thumbnail => &self.entries[i].dirs.thumbnail,
                    Slot::Media => &self.entries[i].dirs.media,
                };
                match file {
                    Some(f) => {
                        if f.ext.eq(ext) {
                            Some(copy_bytes(&f.bytes))
                        } else {
                            None
                        }
                    },
                    None => None,
                }
            },
            None => None,
        }
    }

    /// Whether the slot's staging file exists.
    pub fn has_staged(&self, id: u32, slot: Slot) -> (r: bool)
        requires
            self.wf(),
        ensures
            r == (self.spec_get(id) matches Some(d) && staged_of(d, slot) is Some),
    {
        match self.find(id) {
            Some(i) => {
                match slot {
                    Slot::Thumbnail => self.entries[i].dirs.staged_thumbnail.is_some(),
                    Slot::Media => self.entries[i].dirs.staged_media.is_some(),
                }
            },
            None => false,
        }
    }

    /// Delete the item's permanent and staging directories.  Removing an
    /// absent item is a no-op that succeeds.
    pub fn remove_item(&mut self, id: u32)
        requires
            old(self).wf(),
        ensures
            final(self).wf(),
            final(self).spec_get(id) is None,
            forall|x: u32| x != id ==> final(self).spec_get(x) == old(self).spec_get(x),
    {
        match self.find(id) {
            Some(i) => {
                proof {
                    lemma_get_remove(self.entries@, i as int);
                }
                self.entries.remove(i);
            },
            None => {},
        }
    }
}

/// The other slot.
pub open spec fn flip(slot: Slot) -> Slot {
    match slot {
        Slot::Thumbnail => Slot::Media,
        Slot::Media => Slot::Thumbnail,
    }
}

/// A copy of a byte vector.
pub fn copy_bytes(v: &Vec<u8>) -> (r: Vec<u8>)
    ensures
        r@ == v@,
{
    let mut r: Vec<u8> = Vec::new();
    let mut i: usize = 0;
    while i < v.len()
        invariant
            i <= v.len(),
            r@ == v@.subrange(0, i as int),
        decreases v.len() - i,
    {
        r.push(v[i]);
        proof {
            assert(v@.subrange(0, i + 1) =~= v@.subrange(0, i as int).push(v@[i as int]));
        }
        i += 1;
    }
    proof {
        assert(v@.subrange(0, v@.len() as int) =~= v@);
    }
    r
}

proof fn lemma_get_push(s: Seq<Entry>, e: Entry)
    requires
        !has_id(s, e.id),
        unique_ids(s),
    ensures
        spec_get_seq(s.push(e), e.id) == Some(e.dirs),
        forall|x: u32| x != e.id ==> spec_get_seq(s.push(e), x) == spec_get_seq(s, x),
        unique_ids(s.push(e)),
{
    let s2 = s.push(e);
    assert(s2[s.len() as int] == e);
    assert(has_id(s2, e.id));
    let i = choose|i: int| 0 <= i < s2.len() && s2[i].id == e.id;
    if i < s.len() {
        assert(s[i].id == e.id);
        assert(false);
    }
    assert forall|x: u32| x != e.id implies spec_get_seq(s2, x) == spec_get_seq(s, x) by {
        if has_id(s, x) {
            let j = choose|j: int| 0 <= j < s.len() && s[j].id == x;
            assert(s2[j].id == x);
            assert(has_id(s2, x));
            let k = choose|k: int| 0 <= k < s2.len() && s2[k].id == x;
            if k == s.len() {
                assert(s2[k].id == e.id);
                assert(false);
            }
            assert(s[k].id == x);
            if k < j {
                assert(s[k].id != s[j].id);
            }
            if j < k {
                assert(s[j].id != s[k].id);
            }
            assert(k == j);
        } else {
            if has_id(s2, x) {
                let k = choose|k: int| 0 <= k < s2.len() && s2[k].id == x;
                if k < s.len() {
                    assert(s[k].id == x);
                    assert(has_id(s, x));
                    assert(false);
                }
                assert(k == s.len());
                assert(s2[k].id == e.id);
                assert(false);
            }
        }
    }
    assert forall|i2: int, j2: int| 0 <= i2 < j2 < s2.len() implies s2[i2].id != s2[j2].id by {
        if j2 == s.len() {
            assert(s2[i2].id == s[i2].id);
            if s2[i2].id == e.id {
                assert(has_id(s, e.id));
            }
        }
    }
}

proof fn lemma_get_update(s: Seq<Entry>, i: int, e: Entry)
    requires
        0 <= i < s.len(),
        s[i].id == e.id,
        unique_ids(s),
    ensures
        spec_get_seq(s.update(i, e), e.id) == Some(e.dirs),
        forall|x: u32| x != e.id ==> spec_get_seq(s.update(i, e), x) == spec_get_seq(s, x),
        unique_ids(s.update(i, e)),
{
    let s2 = s.update(i, e);
    assert(s2[i] == e);
    assert(has_id(s2, e.id));
    let k = choose|k: int| 0 <= k < s2.len() && s2[k].id == e.id;
    if k != i {
        assert(s2[k].id == s[k].id);
        assert(s[k].id == s[i].id);
        assert(false);
    }
    assert forall|x: u32| x != e.id implies spec_get_seq(s2, x) == spec_get_seq(s, x) by {
        if has_id(s, x) {
            let j = choose|j: int| 0 <= j < s.len() && s[j].id == x;
            assert(j != i);
            assert(s2[j].id == x);
            assert(has_id(s2, x));
            let k2 = choose|k2: int| 0 <= k2 < s2.len() && s2[k2].id == x;
            assert(k2 != i);
            assert(s[k2].id == x);
            if k2 < j {
                assert(s[k2].id != s[j].id);
            }
            if j < k2 {
                assert(s[j].id != s[k2].id);
            }
            assert(k2 == j);
        } else {
            if has_id(s2, x) {
                let k2 = choose|k2: int| 0 <= k2 < s2.len() && s2[k2].id == x;
                assert(k2 != i);
                assert(s[k2].id == x);
                assert(false);
            }
        }
    }
    assert forall|i2: int, j2: int| 0 <= i2 < j2 < s2.len() implies s2[i2].id != s2[j2].id by {
        assert(s2[i2].id == s[i2].id);
        assert(s2[j2].id == s[j2].id);
    }
}

proof fn lemma_get_remove(s: Seq<Entry>, i: int)
    requires
        0 <= i < s.len(),
        unique_ids(s),
    ensures
        spec_get_seq(s.remove(i), s[i].id) is None,
        forall|x: u32| x != s[i].id ==> spec_get_seq(s.remove(i), x) == spec_get_seq(s, x),
        unique_ids(s.remove(i)),
{
    let s2 = s.remove(i);
    let id = s[i].id;
    assert(s2.len() == s.len() - 1);
    assert(forall|k: int| 0 <= k < i ==> s2[k] == s[k]);
    assert(forall|k: int| i <= k < s2.len() ==> s2[k] == s[k + 1]);
    if has_id(s2, id) {
        let k = choose|k: int| 0 <= k < s2.len() && s2[k].id == id;
        if k < i {
            assert(s[k].id == id);
            assert(false);
        } else {
            assert(s[k + 1].id == id);
            assert(false);
        }
    }
    assert forall|x: u32| x != id implies spec_get_seq(s2, x) == spec_get_seq(s, x) by {
        if has_id(s, x) {
            let j = choose|j: int| 0 <= j < s.len() && s[j].id == x;
            assert(j != i);
            if j < i {
                assert(s2[j].id == x);
            } else {
                assert(s2[j - 1].id == x);
            }
            assert(has_id(s2, x));
            let k = choose|k: int| 0 <= k < s2.len() && s2[k].id == x;
            let korig = if k < i {
                k
            } else {
                k + 1
            };
            assert(s[korig].id == x);
            if korig < j {
                assert(s[korig].id != s[j].id);
            }
            if j < korig {
                assert(s[j].id != s[korig].id);
            }
            assert(korig == j);
            assert(s2[k].dirs == s[j].dirs);
        } else {
            if has_id(s2, x) {
                let k = choose|k: int| 0 <= k < s2.len() && s2[k].id == x;
                let korig = if k < i {
                    k
                } else {
                    k + 1
                };
                assert(s[korig].id == x);
                assert(false);
            }
        }
    }
    assert forall|i2: int, j2: int| 0 <= i2 < j2 < s2.len() implies s2[i2].id != s2[j2].id by {
        let io = if i2 < i {
            i2
        } else {
            i2 + 1
        };
        let jo = if j2 < i {
            j2
        } else {
            j2 + 1
        };
        assert(s2[i2].id == s[io].id);
        assert(s2[j2].id == s[jo].id);
    }
}

} // verus!
