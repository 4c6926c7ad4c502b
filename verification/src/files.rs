//! The virtual file table: it maps a file identifier (a virtual path,
//! optionally scoped to a package) to its raw bytes, and lazily derives
//! the parsed text of each entry from those bytes exactly once.
//!
//! An entry's bytes are write-once: storing bytes under an identifier
//! that is already present leaves the table unchanged.

use vstd::prelude::*;

verus! {

use vstd::utf8::{valid_utf8, decode_utf8};
use crate::package::{PackageRef, PackageRefV};
use crate::text::{strip_boms, decode_source_text};
use crate::vpath::segs_view;
use crate::FileFailure;

/// Identifies a file: a virtual path (as segments), optionally scoped to
/// a package.
#[derive(Debug, Clone, PartialEq, Eq)]
pub struct FileKey {
    /// The package the path lives in, or none for the project root.
    pub package: Option<PackageRef>,
    /// The virtual path's segments, root-relative.
    pub segments: Vec<String>,
}

/// The mathematical form of a [`FileKey`].
pub struct FileKeyV {
    pub package: Option<PackageRefV>,
    pub segments: Seq<Seq<char>>,
}

impl View for FileKey {
    type V = FileKeyV;

    open spec fn view(&self) -> FileKeyV {
        FileKeyV {
            package: match self.package {
                Some(p) => Some(p@),
                None => None,
            },
            segments: segs_view(self.segments@),
        }
    }
}

/// Whether two lists of segments read the same.
fn segs_eq(a: &Vec<String>, b: &Vec<String>) -> (r: bool)
    ensures
        r == (segs_view(a@) == segs_view(b@)),
{
    if a.len() != b.len() {
        proof {
            assert(segs_view(a@).len() != segs_view(b@).len());
        }
        return false;
    }
    let mut i: usize = 0;
    while i < a.len()
        invariant
            i <= a.len(),
            a@.len() == b@.len(),
            forall|j: int| 0 <= j < i ==> segs_view(a@)[j] == segs_view(b@)[j],
        decreases a.len() - i,
    {
        if !(a[i] == b[i]) {
            proof {
                assert(segs_view(a@)[i as int] != segs_view(b@)[i as int]);
            }
            return false;
        }
        i = i + 1;
    }
    proof {
        assert(segs_view(a@) =~= segs_view(b@));
    }
    true
}

impl FileKey {
    /// Whether two identifiers name the same file: both scope and path
    /// must match.
    pub fn key_eq(&self, other: &FileKey) -> (r: bool)
        ensures
            r == (self@ == other@),
    {
        let pkg_same = match (&self.package, &other.package) {
            (None, None) => true,
            (Some(a), Some(b)) => a.ref_eq(b),
            _ => false,
        };
        if !pkg_same {
            return false;
        }
        segs_eq(&self.segments, &other.segments)
    }
}

/// One cached file: its raw bytes, and its parsed text once derived.
#[derive(Debug, PartialEq, Eq)]
pub struct FileEntry {
    /// The file's raw bytes; write-once.
    pub bytes: Vec<u8>,
    /// The parsed text, once it has been derived from the bytes.
    text: Option<String>,
}

/// The mathematical form of a [`FileEntry`].
pub struct FileEntryV {
    pub bytes: Seq<u8>,
    pub text: Option<Seq<char>>,
}

impl View for FileEntry {
    type V = FileEntryV;

    closed spec fn view(&self) -> FileEntryV {
        FileEntryV {
            bytes: self.bytes@,
            text: match self.text {
                Some(ref t) => Some(t@),
                None => None,
            },
        }
    }
}

/// A derived text is exactly the decoding of the entry's bytes with
/// leading byte-order-marks stripped.
pub open spec fn entry_wf(e: FileEntryV) -> bool {
    e.text matches Some(t) ==> valid_utf8(strip_boms(e.bytes)) && t == decode_utf8(
        strip_boms(e.bytes),
    )
}

/// One table slot.
#[derive(Debug, PartialEq, Eq)]
struct TableSlot {
    key: FileKey,
    entry: FileEntry,
}

/// The index of the first slot with the given key, or -1 when absent.
pub open spec fn assoc_find(t: Seq<(FileKeyV, FileEntryV)>, k: FileKeyV) -> int
    decreases t.len(),
{
    if t.len() == 0 {
        -1
    } else if t[0].0 == k {
        0
    } else {
        let r = assoc_find(t.drop_first(), k);
        if r == -1 {
            -1
        } else {
            r + 1
        }
    }
}

/// The entry stored under a key, if any.
pub open spec fn assoc_lookup(t: Seq<(FileKeyV, FileEntryV)>, k: FileKeyV) -> Option<
    FileEntryV,
> {
    let i = assoc_find(t, k);
    if i == -1 {
        None
    } else {
        Some(t[i].1)
    }
}

/// The bytes stored under a key, if any.
pub open spec fn lookup_bytes(t: Seq<(FileKeyV, FileEntryV)>, k: FileKeyV) -> Option<
    Seq<u8>,
> {
    match assoc_lookup(t, k) {
        Some(e) => Some(e.bytes),
        None => None,
    }
}

/// Where the first slot with a key stands, and that earlier slots miss it.
proof fn lemma_assoc_find(t: Seq<(FileKeyV, FileEntryV)>, k: FileKeyV)
    ensures
        assoc_find(t, k) == -1 <==> forall|j: int| 0 <= j < t.len() ==> t[j].0 != k,
        assoc_find(t, k) != -1 ==> 0 <= assoc_find(t, k) < t.len() && t[assoc_find(t, k)].0
            == k && forall|j: int| 0 <= j < assoc_find(t, k) ==> t[j].0 != k,
    decreases t.len(),
{
    if t.len() != 0 && t[0].0 != k {
        lemma_assoc_find(t.drop_first(), k);
        assert(forall|j: int| 1 <= j < t.len() ==> t.drop_first()[j - 1] == t[j]);
        assert(forall|j: int| 0 <= j < t.drop_first().len() ==> t.drop_first()[j] == t[j
            + 1]);
    }
}

/// What storing bytes does to the table: an absent key gains a fresh
/// entry with no derived text yet; a present key leaves the table as it
/// was.
pub open spec fn store_model(
    t: Seq<(FileKeyV, FileEntryV)>,
    k: FileKeyV,
    bytes: Seq<u8>,
) -> Seq<(FileKeyV, FileEntryV)> {
    if assoc_lookup(t, k) is Some {
        t
    } else {
        t.push((k, FileEntryV { bytes, text: None }))
    }
}

/// What deriving a key's text does to the table: a present entry whose
/// stripped bytes decode gains the memoized text; everything else leaves
/// the table as it was.
pub open spec fn memo_model(t: Seq<(FileKeyV, FileEntryV)>, k: FileKeyV) -> Seq<
    (FileKeyV, FileEntryV),
> {
    match assoc_lookup(t, k) {
        Some(e) => {
            if valid_utf8(strip_boms(e.bytes)) {
                t.update(
                    assoc_find(t, k),
                    (
                        k,
                        FileEntryV {
                            bytes: e.bytes,
                            text: Some(decode_utf8(strip_boms(e.bytes))),
                        },
                    ),
                )
            } else {
                t
            }
        },
        None => t,
    }
}

/// The virtual file table.
#[derive(Debug, PartialEq, Eq)]
pub struct FileTable {
    slots: Vec<TableSlot>,
}

impl View for FileTable {
    type V = Seq<(FileKeyV, FileEntryV)>;

    closed spec fn view(&self) -> Seq<(FileKeyV, FileEntryV)> {
        Seq::new(
            self.slots@.len(),
            |i: int|
                if 0 <= i < self.slots@.len() {
                    (self.slots@[i].key@, self.slots@[i].entry@)
                } else {
                    (
                        FileKeyV { package: None, segments: Seq::empty() },
                        FileEntryV { bytes: Seq::empty(), text: None },
                    )
                },
        )
    }
}

impl FileTable {
    /// Every derived text matches its entry's bytes.
    pub open spec fn wf(&self) -> bool {
        forall|i: int| 0 <= i < self@.len() ==> entry_wf(#[trigger] self@[i].1)
    }

    /// An empty table.
    pub fn new() -> (r: Self)
        ensures
            r@ =~= Seq::<(FileKeyV, FileEntryV)>::empty(),
            r.wf(),
    {
        let r = FileTable { slots: Vec::new() };
        proof {
            assert(r@ =~= Seq::<(FileKeyV, FileEntryV)>::empty());
        }
        r
    }

    /// The index of the slot holding a key.
    #[verifier::loop_isolation(false)]
    fn find(&self, k: &FileKey) -> (r: Option<usize>)
        ensures
            r matches Some(i) ==> assoc_find(self@, k@) == i,
            r is None ==> assoc_find(self@, k@) == -1,
    {
        let mut i: usize = 0;
        while i < self.slots.len()
            invariant
                i <= self.slots.len(),
                forall|j: int| 0 <= j < i ==> self@[j].0 != k@,
            decreases self.slots.len() - i,
        {
            if self.slots[i].key.key_eq(k) {
                proof {
                    assert(self@[i as int].0 == k@);
                    lemma_assoc_find(self@, k@);
                }
                return Some(i);
            }
            i = i + 1;
        }
        proof {
            lemma_assoc_find(self@, k@);
        }
        None
    }

    /// Whether the table holds an entry for the key.
    pub fn contains(&self, k: &FileKey) -> (r: bool)
        ensures
            r == (assoc_lookup(self@, k@) is Some),
    {
        proof {
            lemma_assoc_find(self@, k@);
        }
        self.find(k).is_some()
    }

    /// The bytes cached for a key.
    pub fn bytes_of(&self, k: &FileKey) -> (r: Option<Vec<u8>>)
        ensures
            r matches Some(b) ==> lookup_bytes(self@, k@) == Some(b@),
            r is None ==> lookup_bytes(self@, k@) is None,
    {
        proof {
            lemma_assoc_find(self@, k@);
        }
        match self.find(k) {
            Some(i) => Some(clone_bytes(&self.slots[i].entry.bytes)),
            None => None,
        }
    }

    /// Stores freshly read bytes for a key. The table is write-once: a
    /// key that is already present keeps its first bytes, whatever is
    /// handed in later.
    pub fn store(&mut self, k: FileKey, bytes: Vec<u8>)
        requires
            old(self).wf(),
        ensures
            final(self).wf(),
            final(self)@ == store_model(old(self)@, k@, bytes@),
            assoc_lookup(final(self)@, k@) is Some,
    {
        proof {
            lemma_assoc_find(self@, k@);
        }
        match self.find(&k) {
            Some(_) => {},
            None => {
                let ghost pre = self@;
                self.slots.push(TableSlot { key: k, entry: FileEntry { bytes, text: None } });
                proof {
                    assert(self@ =~= pre.push(
                        (k@, FileEntryV { bytes: bytes@, text: None }),
                    ));
                    lemma_find_push_absent(pre, k@, FileEntryV { bytes: bytes@, text: None });
                }
            },
        }
    }

    /// Derives (and memoizes) the text of the entry under a key.
    ///
    /// Nothing is returned for an absent key. For a present entry the
    /// text is the entry's bytes decoded as UTF-8 with leading
    /// byte-order-marks stripped, derived once and cached; bytes that are
    /// not valid UTF-8 leave the table unchanged and report the failure,
    /// on this call and on every later one.
    pub fn source_of(&mut self, k: &FileKey) -> (r: Option<Result<String, FileFailure>>)
        requires
            old(self).wf(),
        ensures
            final(self).wf(),
            final(self)@ == memo_model(old(self)@, k@),
            r is None <==> assoc_lookup(old(self)@, k@) is None,
            assoc_lookup(old(self)@, k@) matches Some(e) ==> {
                if valid_utf8(strip_boms(e.bytes)) {
                    r matches Some(Ok(t)) && t@ == decode_utf8(strip_boms(e.bytes))
                } else {
                    r == Some(Err::<String, FileFailure>(FileFailure::InvalidUtf8))
                }
            },
            forall|k2: FileKeyV| lookup_bytes(final(self)@, k2) == lookup_bytes(
                old(self)@,
                k2,
            ),
    {
        proof {
            lemma_assoc_find(self@, k@);
        }
        let found = self.find(k);
        match found {
            None => {
                proof {
                    assert(self@ =~= memo_model(self@, k@));
                }
                None
            },
            Some(i) => {
                let ghost pre = self@;
                let ghost e = assoc_lookup(pre, k@)->Some_0;
                let slot = &self.slots[i];
                match &slot.entry.text {
                    Some(t) => {
                        proof {
                            assert(entry_wf(pre[i as int].1));
                            assert(pre.update(
                                i as int,
                                (
                                    k@,
                                    FileEntryV {
                                        bytes: e.bytes,
                                        text: Some(decode_utf8(strip_boms(e.bytes))),
                                    },
                                ),
                            ) =~= pre);
                        }
                        Some(Ok(t.clone()))
                    },
                    None => {
                        match decode_source_text(&slot.entry.bytes) {
                            Some(s) => {
                                let text_copy = s.clone();
                                let old_slot = self.slots.remove(i);
                                self.slots.insert(
                                    i,
                                    TableSlot {
                                        key: old_slot.key,
                                        entry: FileEntry {
                                            bytes: old_slot.entry.bytes,
                                            text: Some(s),
                                        },
                                    },
                                );
                                proof {
                                    assert(self@ =~= pre.update(
                                        i as int,
                                        (
                                            k@,
                                            FileEntryV {
                                                bytes: e.bytes,
                                                text: Some(decode_utf8(strip_boms(e.bytes))),
                                            },
                                        ),
                                    ));
                                    lemma_lookup_update(
                                        pre,
                                        i as int,
                                        k@,
                                        FileEntryV {
                                            bytes: e.bytes,
                                            text: Some(decode_utf8(strip_boms(e.bytes))),
                                        },
                                    );
                                }
                                Some(Ok(text_copy))
                            },
                            None => {
                                proof {
                                    assert(self@ =~= memo_model(pre, k@));
                                }
                                Some(Err(FileFailure::InvalidUtf8))
                            },
                        }
                    },
                }
            },
        }
    }
}

/// Cloning bytes keeps them.
fn clone_bytes(v: &Vec<u8>) -> (r: Vec<u8>)
    ensures
        r@ == v@,
{
    let mut out: Vec<u8> = Vec::new();
    let mut i: usize = 0;
    while i < v.len()
        invariant
            i <= v.len(),
            out@ =~= v@.subrange(0, i as int),
        decreases v.len() - i,
    {
        out.push(v[i]);
        i = i + 1;
    }
    proof {
        assert(out@ =~= v@);
    }
    out
}

/// Appending a slot under a fresh key serves that key and disturbs no
/// other.
proof fn lemma_find_push_absent(t: Seq<(FileKeyV, FileEntryV)>, k: FileKeyV, e: FileEntryV)
    requires
        assoc_find(t, k) == -1,
    ensures
        assoc_lookup(t.push((k, e)), k) == Some(e),
        forall|k2: FileKeyV| k2 != k ==> #[trigger] assoc_lookup(t.push((k, e)), k2)
            == assoc_lookup(t, k2),
{
    let t2 = t.push((k, e));
    lemma_find_push_general(t, k, e, k);
    assert(t2[t.len() as int].1 == e);
    assert forall|k2: FileKeyV| k2 != k implies #[trigger] assoc_lookup(t2, k2)
        == assoc_lookup(t, k2) by {
        lemma_find_push_general(t, k, e, k2);
        lemma_assoc_find(t, k2);
        if assoc_find(t, k2) != -1 {
            assert(t2[assoc_find(t, k2)] == t[assoc_find(t, k2)]);
        }
    }
}

/// How finding behaves across an append.
proof fn lemma_find_push_general(
    t: Seq<(FileKeyV, FileEntryV)>,
    k: FileKeyV,
    e: FileEntryV,
    k2: FileKeyV,
)
    ensures
        assoc_find(t.push((k, e)), k2) == (if assoc_find(t, k2) != -1 {
            assoc_find(t, k2)
        } else if k2 == k {
            t.len() as int
        } else {
            -1
        }),
    decreases t.len(),
{
    let t2 = t.push((k, e));
    assert(t2.len() == t.len() + 1);
    if t.len() == 0 {
        assert(t2[0] == (k, e));
        assert(t2.drop_first() =~= Seq::<(FileKeyV, FileEntryV)>::empty());
        if t2[0].0 != k2 {
            assert(assoc_find(t2.drop_first(), k2) == -1);
        }
    } else {
        assert(t2[0] == t[0]);
        assert(t2.drop_first() =~= t.drop_first().push((k, e)));
        lemma_find_push_general(t.drop_first(), k, e, k2);
        let fd = assoc_find(t.drop_first(), k2);
        let r2 = assoc_find(t2.drop_first(), k2);
        if t[0].0 == k2 {
            assert(assoc_find(t2, k2) == 0);
            assert(assoc_find(t, k2) == 0);
        } else {
            if fd != -1 {
                lemma_assoc_find(t.drop_first(), k2);
                assert(r2 == fd);
                assert(assoc_find(t, k2) == fd + 1);
                assert(assoc_find(t2, k2) == r2 + 1);
            } else if k2 == k {
                assert(r2 == t.len() - 1);
                assert(r2 != -1);
                assert(assoc_find(t2, k2) == r2 + 1);
                assert(assoc_find(t, k2) == -1);
            } else {
                assert(r2 == -1);
                assert(assoc_find(t2, k2) == -1);
                assert(assoc_find(t, k2) == -1);
            }
        }
    }
}

/// Finding depends on the keys alone.
proof fn lemma_find_same_keys(
    t1: Seq<(FileKeyV, FileEntryV)>,
    t2: Seq<(FileKeyV, FileEntryV)>,
    k2: FileKeyV,
)
    requires
        t1.len() == t2.len(),
        forall|j: int| 0 <= j < t1.len() ==> t1[j].0 == t2[j].0,
    ensures
        assoc_find(t1, k2) == assoc_find(t2, k2),
    decreases t1.len(),
{
    if t1.len() != 0 {
        assert(forall|j: int| 0 <= j < t1.drop_first().len() ==> t1.drop_first()[j] == t1[j
            + 1] && t2.drop_first()[j] == t2[j + 1]);
        lemma_find_same_keys(t1.drop_first(), t2.drop_first(), k2);
    }
}

/// Updating a slot in place, keeping its key, serves that key the new
/// entry and disturbs no other key.
proof fn lemma_lookup_update(t: Seq<(FileKeyV, FileEntryV)>, i: int, k: FileKeyV, e: FileEntryV)
    requires
        0 <= i < t.len(),
        assoc_find(t, k) == i,
    ensures
        assoc_lookup(t.update(i, (k, e)), k) == Some(e),
        forall|k2: FileKeyV| k2 != k ==> #[trigger] assoc_lookup(t.update(i, (k, e)), k2)
            == assoc_lookup(t, k2),
{
    let t2 = t.update(i, (k, e));
    lemma_assoc_find(t, k);
    assert(forall|j: int| 0 <= j < t.len() ==> t2[j].0 == t[j].0);
    lemma_find_same_keys(t, t2, k);
    assert forall|k2: FileKeyV| k2 != k implies #[trigger] assoc_lookup(t2, k2)
        == assoc_lookup(t, k2) by {
        lemma_find_same_keys(t, t2, k2);
        lemma_assoc_find(t, k2);
        if assoc_find(t, k2) != -1 {
            assert(assoc_find(t, k2) != i);
            assert(t2[assoc_find(t, k2)] == t[assoc_find(t, k2)]);
        }
    }
}

/// Law: the cache is idempotent. Once an identifier has resolved to some
/// bytes, storing further files and deriving texts leave those bytes
/// unchanged, so repeated lookups of the identifier return byte-identical
/// content.
pub proof fn lemma_content_idempotent(
    t: Seq<(FileKeyV, FileEntryV)>,
    k: FileKeyV,
    k2: FileKeyV,
    bytes: Seq<u8>,
)
    requires
        assoc_lookup(t, k) is Some,
    ensures
        lookup_bytes(store_model(t, k2, bytes), k) == lookup_bytes(t, k),
        lookup_bytes(memo_model(t, k2), k) == lookup_bytes(t, k),
{
    if assoc_lookup(t, k2) is None {
        lemma_assoc_find(t, k);
        lemma_assoc_find(t, k2);
        assert(k != k2);
        lemma_find_push_absent(t, k2, FileEntryV { bytes, text: None });
    }
    match assoc_lookup(t, k2) {
        Some(e) => {
            if valid_utf8(strip_boms(e.bytes)) {
                lemma_assoc_find(t, k2);
                let e2 = FileEntryV {
                    bytes: e.bytes,
                    text: Some(decode_utf8(strip_boms(e.bytes))),
                };
                lemma_lookup_update(t, assoc_find(t, k2), k2, e2);
            }
        },
        None => {},
    }
}

/// The text an entry answers, determined by its bytes alone: absent key,
/// undecodable bytes, or the decoded text.
pub open spec fn text_answer(t: Seq<(FileKeyV, FileEntryV)>, k: FileKeyV) -> Option<
    Option<Seq<char>>,
> {
    match lookup_bytes(t, k) {
        None => None,
        Some(bytes) => Some(
            if valid_utf8(strip_boms(bytes)) {
                Some(decode_utf8(strip_boms(bytes)))
            } else {
                None
            },
        ),
    }
}

/// Law: the text answered for a resolved identifier never changes either:
/// deriving texts and storing further files leave it as it was.
pub proof fn lemma_text_idempotent(
    t: Seq<(FileKeyV, FileEntryV)>,
    k: FileKeyV,
    k2: FileKeyV,
    bytes: Seq<u8>,
)
    requires
        assoc_lookup(t, k) is Some,
    ensures
        text_answer(memo_model(t, k2), k) == text_answer(t, k),
        text_answer(store_model(t, k2, bytes), k) == text_answer(t, k),
{
    lemma_content_idempotent(t, k, k2, bytes);
}

} // verus!
