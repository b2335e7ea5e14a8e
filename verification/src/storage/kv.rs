//! A key-value store with checkpoints.
//!
//! Writes are buffered. A checkpoint makes the buffered writes part of the
//! committed contents and derives the fingerprint of those contents; a
//! discard drops the buffered writes. Every committed snapshot is kept under
//! its fingerprint, so that the store can go back to it.

use crate::bytes::{be_bytes, be_value, lemma_be_value_of_bytes, read_u64_be, u64_be_bytes};
use crate::storage::hasher::{keccak256, DefaultKeyHasher, KeyHasher};
use crate::storage::keys::{
    compare_keys, entries_view, lemma_key_lt_irreflexive, lemma_key_lt_transitive,
    lemma_log_map_keys, lemma_log_map_last_write, lemma_sorted_entries_unique,
    lemma_sorted_map, lemma_sorted_map_is, log_map, key_lt, strictly_sorted, Entry, EntryView,
    KeyOrder,
};
use crate::types::{State, STATE_LEN};
use vstd::prelude::*;
use vstd::slice::{slice_subrange, slice_to_vec};

verus! {

/// The contents of a store: values by key.
pub type Contents = Map<Seq<u8>, Seq<u8>>;

/// What a store with checkpoints holds.
pub struct KvModel {
    /// The contents as of the last checkpoint.
    pub committed: Contents,
    /// The writes buffered since.
    pub pending: Contents,
    /// The fingerprint of the last checkpoint; all zero before the first.
    pub head: Seq<u8>,
    /// The committed snapshots, by fingerprint.
    pub history: Map<Seq<u8>, Contents>,
}

/// The all-zero fingerprint, which stands for an empty store.
pub open spec fn empty_state() -> Seq<u8> {
    Seq::new(STATE_LEN as nat, |i: int| 0u8)
}

impl KvModel {
    /// A store that holds nothing.
    pub open spec fn empty() -> KvModel {
        KvModel {
            committed: Map::empty(),
            pending: Map::empty(),
            head: empty_state(),
            history: Map::empty(),
        }
    }

    /// What a reader sees: the committed contents with the buffered writes
    /// laid over them.
    pub open spec fn visible(self) -> Contents {
        self.committed.union_prefer_right(self.pending)
    }

    /// The value under `key`, if there is one.
    pub open spec fn read(self, key: Seq<u8>) -> Option<Seq<u8>> {
        if self.visible().contains_key(key) {
            Some(self.visible()[key])
        } else {
            None
        }
    }

    /// The store after a buffered write.
    pub open spec fn write(self, key: Seq<u8>, value: Seq<u8>) -> KvModel {
        KvModel { pending: self.pending.insert(key, value), ..self }
    }

    /// The store after the buffered writes are dropped.
    pub open spec fn discard(self) -> KvModel {
        KvModel { pending: Map::empty(), ..self }
    }

    /// The store after a checkpoint whose contents have the fingerprint
    /// `fingerprint`.
    pub open spec fn checkpoint(self, fingerprint: Seq<u8>) -> KvModel {
        KvModel {
            committed: self.visible(),
            pending: Map::empty(),
            head: fingerprint,
            history: self.history.insert(fingerprint, self.visible()),
        }
    }

    /// Whether the store knows a snapshot with the fingerprint `state`.
    pub open spec fn knows(self, state: Seq<u8>) -> bool {
        state == empty_state() || self.history.contains_key(state)
    }

    /// The store after going back to the snapshot `state`, which it knows:
    /// the buffered writes are dropped, and the committed contents are those
    /// of the snapshot; for the all-zero state, none.
    pub open spec fn rewind(self, state: Seq<u8>) -> KvModel {
        KvModel {
            committed: if state == empty_state() {
                Map::empty()
            } else {
                self.history[state]
            },
            pending: Map::empty(),
            head: state,
            history: self.history,
        }
    }
}

/// A write is seen by the next read of its key, before and after a
/// checkpoint, and a discard takes it back: the next read finds what the
/// last checkpoint left under the key, which is what a read found before
/// the write when nothing else was buffered. Writes to one key change
/// nothing for another.
pub proof fn lemma_checkpoint_discard_isolation(
    store: KvModel,
    key: Seq<u8>,
    value: Seq<u8>,
    fingerprint: Seq<u8>,
)
    ensures
        store.write(key, value).read(key) == Some(value),
        store.write(key, value).checkpoint(fingerprint).read(key) == Some(value),
        store.write(key, value).checkpoint(fingerprint).committed[key] == value,
        store.write(key, value).discard().read(key) == (if store.committed.contains_key(key) {
            Some(store.committed[key])
        } else {
            None
        }),
        store.write(key, value).discard() == store.discard(),
        store.pending =~= Map::<Seq<u8>, Seq<u8>>::empty() ==> store.write(
            key,
            value,
        ).discard().read(key) == store.read(key),
        forall|other: Seq<u8>|
            other != key ==> store.write(key, value).checkpoint(fingerprint).read(other)
                == store.read(other),
        forall|other: Seq<u8>|
            other != key ==> store.write(key, value).read(other) == store.read(other),
{
    assert(store.discard().visible() =~= store.committed);
    if store.pending =~= Map::<Seq<u8>, Seq<u8>>::empty() {
        assert(store.visible() =~= store.committed);
    }
}

/// A store with checkpoints.
pub trait StatefulKV {
    /// What the store holds.
    spec fn model(&self) -> KvModel;

    /// Whether the store is in order.
    spec fn wf(&self) -> bool;

    /// The fingerprint of contents: it depends on the contents alone.
    spec fn fingerprint(contents: Contents) -> Seq<u8>;

    /// The value under `key`, with the buffered writes laid over the
    /// committed contents.
    fn read(&self, key: &[u8]) -> (value: Option<Vec<u8>>)
        requires
            self.wf(),
        ensures
            match value {
                Some(v) => self.model().read(key@) == Some(v@),
                None => self.model().read(key@) is None,
            },
    ;

    /// Buffers a write.
    fn write(&mut self, key: &[u8], value: &[u8])
        requires
            old(self).wf(),
        ensures
            final(self).wf(),
            final(self).model() == old(self).model().write(key@, value@),
    ;

    /// Drops the writes buffered since the last checkpoint.
    fn discard(&mut self)
        requires
            old(self).wf(),
        ensures
            final(self).wf(),
            final(self).model() == old(self).model().discard(),
    ;

    /// Commits the buffered writes and returns the fingerprint of the
    /// contents that result.
    fn checkpoint(&mut self) -> (state: State)
        requires
            old(self).wf(),
        ensures
            final(self).wf(),
            state@ == Self::fingerprint(old(self).model().visible()),
            final(self).model() == old(self).model().checkpoint(state@),
    ;

    /// Goes back to the snapshot `state`, if the store knows it; otherwise
    /// leaves the store as it is.
    fn rewind(&mut self, state: &State) -> (found: bool)
        requires
            old(self).wf(),
        ensures
            final(self).wf(),
            found == old(self).model().knows(state@),
            found ==> final(self).model() == old(self).model().rewind(state@),
            !found ==> final(self).model() == old(self).model(),
    ;

    /// The fingerprint of the last checkpoint.
    fn head(&self) -> (state: State)
        requires
            self.wf(),
        ensures
            state@ == self.model().head,
    ;
}

/// The eight bytes of a length, most significant first.
pub open spec fn len_prefix(n: nat) -> Seq<u8> {
    be_bytes(n, 8)
}

/// The bytes of one entry: key and value, each after its length.
pub open spec fn serialize_entry(entry: EntryView) -> Seq<u8> {
    len_prefix(entry.0.len()) + entry.0 + len_prefix(entry.1.len()) + entry.1
}

/// The bytes of entries, one after the other.
pub open spec fn serialize(entries: Seq<EntryView>) -> Seq<u8>
    decreases entries.len(),
{
    if entries.len() == 0 {
        Seq::empty()
    } else {
        serialize_entry(entries[0]) + serialize(entries.drop_first())
    }
}

/// The entries of `contents` in the order of their keys.
pub open spec fn canonical_entries(contents: Contents) -> Seq<EntryView> {
    choose|entries: Seq<EntryView>| strictly_sorted(entries) && log_map(entries) == contents
}

/// The fingerprint that the in-memory store gives to contents: the
/// Keccak-256 digest of their entries, serialized in the order of their
/// keys.
pub open spec fn memory_fingerprint(contents: Contents) -> Seq<u8> {
    keccak256(serialize(canonical_entries(contents)))
}

/// The committed snapshots of a store as a map.
pub open spec fn snapshots_view(snapshots: Seq<(State, Vec<Entry>)>) -> Seq<(Seq<u8>, Contents)> {
    Seq::new(snapshots.len(), |i: int| (snapshots[i].0@, log_map(entries_view(snapshots[i].1@))))
}

fn push_len(buf: &mut Vec<u8>, n: usize)
    ensures
        final(buf)@ == old(buf)@ + len_prefix(n as nat),
{
    let bytes = u64_be_bytes(n as u64);
    push_bytes(buf, bytes.as_slice());
}

fn push_bytes(buf: &mut Vec<u8>, bytes: &[u8])
    ensures
        final(buf)@ == old(buf)@ + bytes@,
{
    let mut i: usize = 0;
    while i < bytes.len()
        invariant
            i <= bytes@.len(),
            buf@ =~= old(buf)@ + bytes@.subrange(0, i as int),
        decreases bytes@.len() - i,
    {
        buf.push(bytes[i]);
        i += 1;
    }
    assert(bytes@.subrange(0, i as int) =~= bytes@);
}

/// The bytes of entries, one after the other.
fn serialize_entries(entries: &Vec<Entry>) -> (bytes: Vec<u8>)
    ensures
        bytes@ == serialize(entries_view(entries@)),
{
    let ghost view = entries_view(entries@);
    let mut buf: Vec<u8> = Vec::new();
    let mut i: usize = 0;
    assert(view.skip(0) =~= view);
    while i < entries.len()
        invariant
            i <= entries@.len(),
            view == entries_view(entries@),
            buf@ + serialize(view.skip(i as int)) =~= serialize(view),
        decreases entries@.len() - i,
    {
        let ghost before = buf@;
        let ghost rest = view.skip(i as int);
        push_len(&mut buf, entries[i].0.len());
        push_bytes(&mut buf, entries[i].0.as_slice());
        push_len(&mut buf, entries[i].1.len());
        push_bytes(&mut buf, entries[i].1.as_slice());
        proof {
            assert(rest[0] == view[i as int]);
            assert(rest.drop_first() =~= view.skip(i + 1));
            assert(buf@ =~= before + serialize_entry(view[i as int]));
            assert(before + serialize(rest) =~= buf@ + serialize(view.skip(i + 1)));
        }
        i += 1;
    }
    assert(serialize(view.skip(i as int)) =~= Seq::<u8>::empty());
    assert(buf@ =~= serialize(view));
    buf
}

/// The fingerprint of entries in the order of their keys.
fn fingerprint_of(entries: &Vec<Entry>) -> (state: State)
    requires
        strictly_sorted(entries_view(entries@)),
    ensures
        state@ == memory_fingerprint(log_map(entries_view(entries@))),
{
    let buf = serialize_entries(entries);
    proof {
        let view = entries_view(entries@);
        lemma_sorted_entries_unique(view, canonical_entries(log_map(view)));
    }
    State::new(DefaultKeyHasher::hash(buf.as_slice()))
}

/// The last write to `key` in `log`, if there is one.
fn find_last(log: &Vec<Entry>, key: &[u8]) -> (found: Option<usize>)
    ensures
        match found {
            Some(at) => {
                &&& at < log@.len()
                &&& log@[at as int].0@ == key@
                &&& forall|j: int| at < j < log@.len() ==> (#[trigger] log@[j]).0@ != key@
            },
            None => forall|j: int| 0 <= j < log@.len() ==> (#[trigger] log@[j]).0@ != key@,
        },
{
    let mut i: usize = log.len();
    while i > 0
        invariant
            i <= log@.len(),
            forall|j: int| i <= j < log@.len() ==> (#[trigger] log@[j]).0@ != key@,
        decreases i,
    {
        i -= 1;
        if compare_keys(log[i].0.as_slice(), key) == KeyOrder::Same {
            return Some(i);
        }
        proof {
            lemma_key_lt_irreflexive(key@);
        }
    }
    None
}

/// What `log` says of `key`: the value written last.
fn lookup(log: &Vec<Entry>, key: &[u8]) -> (value: Option<Vec<u8>>)
    ensures
        match value {
            Some(v) => log_map(entries_view(log@)).contains_key(key@) && log_map(
                entries_view(log@),
            )[key@] == v@,
            None => !log_map(entries_view(log@)).contains_key(key@),
        },
{
    let ghost view = entries_view(log@);
    match find_last(log, key) {
        Some(at) => {
            proof {
                assert forall|j: int| at < j < view.len() implies (#[trigger] view[j]).0
                    != view[at as int].0 by {
                    assert(log@[j].0@ != key@);
                }
                lemma_log_map_last_write(view, at as int);
            }
            Some(slice_to_vec(log[at].1.as_slice()))
        },
        None => {
            proof {
                lemma_log_map_keys(view, key@);
                if log_map(view).contains_key(key@) {
                    let i = choose|i: int| 0 <= i < view.len() && (#[trigger] view[i]).0 == key@;
                    assert(log@[i].0@ == key@);
                }
            }
            None
        },
    }
}

/// Puts `value` under `key` in entries in the order of their keys.
fn upsert(entries: &mut Vec<Entry>, key: Vec<u8>, value: Vec<u8>)
    requires
        strictly_sorted(entries_view(old(entries)@)),
    ensures
        strictly_sorted(entries_view(final(entries)@)),
        log_map(entries_view(final(entries)@)) == log_map(entries_view(old(entries)@)).insert(
            key@,
            value@,
        ),
{
    let ghost before = entries_view(entries@);
    let ghost k = key@;
    let ghost v = value@;
    let mut at: usize = 0;
    let mut same = false;
    while at < entries.len()
        invariant_except_break
            !same,
        invariant
            at <= entries@.len(),
            entries@ == old(entries)@,
            before == entries_view(entries@),
            strictly_sorted(before),
            forall|j: int| 0 <= j < at ==> key_lt((#[trigger] before[j]).0, key@),
        ensures
            at <= entries@.len(),
            entries@ == old(entries)@,
            same ==> at < entries@.len() && before[at as int].0 == key@,
            !same ==> forall|j: int|
                at <= j < before.len() ==> key_lt(key@, (#[trigger] before[j]).0),
            forall|j: int| 0 <= j < at ==> key_lt((#[trigger] before[j]).0, key@),
        decreases entries@.len() - at,
    {
        match compare_keys(entries[at].0.as_slice(), key.as_slice()) {
            KeyOrder::Before => {
                assert(before[at as int].0 == entries@[at as int].0@);
            },
            KeyOrder::Same => {
                assert(before[at as int].0 == entries@[at as int].0@);
                same = true;
                break ;
            },
            KeyOrder::After => {
                proof {
                    assert(before[at as int].0 == entries@[at as int].0@);
                    assert forall|j: int| at <= j < before.len() implies key_lt(
                        key@,
                        (#[trigger] before[j]).0,
                    ) by {
                        if j > at {
                            assert(key_lt(before[at as int].0, before[j].0));
                            lemma_key_lt_transitive(key@, before[at as int].0, before[j].0);
                        }
                    }
                }
                break ;
            },
        }
        at += 1;
    }
    if same {
        entries.set(at, (key, value));
    } else {
        entries.insert(at, (key, value));
    }
    proof {
        let after = entries_view(entries@);
        let target = log_map(before).insert(k, v);
        if same {
            assert(after =~= before.update(at as int, (k, v)));
            assert forall|i: int, j: int| 0 <= i < j < after.len() implies key_lt(
                after[i].0,
                after[j].0,
            ) by {
                assert(key_lt(before[i].0, before[j].0));
            }
            assert forall|i: int| 0 <= i < after.len() implies target.contains_key(
                (#[trigger] after[i]).0,
            ) && target[after[i].0] == after[i].1 by {
                if i != at {
                    lemma_sorted_map(before, i);
                    crate::storage::keys::lemma_sorted_keys_differ(before, i, at as int);
                }
            }
            assert forall|q: Seq<u8>| target.contains_key(q) implies exists|i: int|
                0 <= i < after.len() && (#[trigger] after[i]).0 == q by {
                if q == k {
                    assert(after[at as int].0 == q);
                } else {
                    lemma_log_map_keys(before, q);
                    let i = choose|i: int| 0 <= i < before.len() && (#[trigger] before[i]).0 == q;
                    assert(after[i].0 == q);
                }
            }
        } else {
            assert(after =~= before.insert(at as int, (k, v)));
            assert forall|i: int, j: int| 0 <= i < j < after.len() implies key_lt(
                after[i].0,
                after[j].0,
            ) by {
                if j < at {
                    assert(key_lt(before[i].0, before[j].0));
                } else if j == at {
                    assert(key_lt(before[i].0, k));
                } else if i < at {
                    assert(key_lt(before[i].0, before[j - 1].0));
                } else if i == at {
                    assert(key_lt(k, before[j - 1].0));
                } else {
                    assert(key_lt(before[i - 1].0, before[j - 1].0));
                }
            }
            assert forall|i: int| 0 <= i < after.len() implies target.contains_key(
                (#[trigger] after[i]).0,
            ) && target[after[i].0] == after[i].1 by {
                lemma_key_lt_irreflexive(k);
                if i < at {
                    lemma_sorted_map(before, i);
                    assert(key_lt(before[i].0, k));
                } else if i > at {
                    lemma_sorted_map(before, i - 1);
                    assert(key_lt(k, before[i - 1].0));
                }
            }
            assert forall|q: Seq<u8>| target.contains_key(q) implies exists|i: int|
                0 <= i < after.len() && (#[trigger] after[i]).0 == q by {
                if q == k {
                    assert(after[at as int].0 == q);
                } else {
                    lemma_log_map_keys(before, q);
                    let i = choose|i: int| 0 <= i < before.len() && (#[trigger] before[i]).0 == q;
                    if i < at {
                        assert(after[i].0 == q);
                    } else {
                        assert(after[i + 1].0 == q);
                    }
                }
            }
        }
        lemma_sorted_map_is(after, target);
    }
}

/// A copy of `entries`.
fn copy_entries(entries: &Vec<Entry>) -> (copy: Vec<Entry>)
    ensures
        entries_view(copy@) == entries_view(entries@),
{
    let mut copy: Vec<Entry> = Vec::new();
    let mut i: usize = 0;
    while i < entries.len()
        invariant
            i <= entries@.len(),
            copy@.len() == i,
            forall|j: int|
                0 <= j < i ==> (#[trigger] copy@[j]).0@ == entries@[j].0@ && copy@[j].1@
                    == entries@[j].1@,
        decreases entries@.len() - i,
    {
        copy.push(
            (slice_to_vec(entries[i].0.as_slice()), slice_to_vec(entries[i].1.as_slice())),
        );
        i += 1;
    }
    assert(entries_view(copy@) =~= entries_view(entries@));
    copy
}

/// The store that keeps everything in memory.
pub struct MemoryKV {
    committed: Vec<Entry>,
    pending: Vec<Entry>,
    head: State,
    snapshots: Vec<(State, Vec<Entry>)>,
}

impl MemoryKV {
    /// A store that holds nothing, at the all-zero state.
    pub fn new() -> (store: MemoryKV)
        ensures
            store.wf(),
            store.model() == KvModel::empty(),
    {
        let store = MemoryKV {
            committed: Vec::new(),
            pending: Vec::new(),
            head: State::empty(),
            snapshots: Vec::new(),
        };
        proof {
            assert(entries_view(store.committed@) =~= Seq::<EntryView>::empty());
            assert(entries_view(store.pending@) =~= Seq::<EntryView>::empty());
            assert(snapshots_view(store.snapshots@) =~= Seq::<(Seq<u8>, Contents)>::empty());
            assert(store.model().committed =~= Map::<Seq<u8>, Seq<u8>>::empty());
            assert(store.model().pending =~= Map::<Seq<u8>, Seq<u8>>::empty());
            assert(store.model().history =~= Map::<Seq<u8>, Contents>::empty());
        }
        store
    }
}

/// The bytes at `pos` after their length of eight bytes, with the position
/// after them.
pub open spec fn chunk_at(bytes: Seq<u8>, pos: int) -> Option<(Seq<u8>, int)> {
    if pos < 0 || pos + 8 > bytes.len() {
        None
    } else {
        let len = be_value(bytes.subrange(pos, pos + 8));
        if pos + 8 + len > bytes.len() {
            None
        } else {
            Some((bytes.subrange(pos + 8, pos + 8 + len), pos + 8 + len))
        }
    }
}

/// Whether `entries`, put after `head`, are what `bytes` hold from `pos` to
/// their end: each entry as its key and its value, each after its length.
pub open spec fn entries_at(bytes: Seq<u8>, pos: int, entries: Seq<EntryView>) -> bool
    decreases entries.len(),
{
    if entries.len() == 0 {
        pos == bytes.len()
    } else {
        match chunk_at(bytes, pos) {
            None => false,
            Some((key, pos1)) => match chunk_at(bytes, pos1) {
                None => false,
                Some((value, pos2)) => entries[0] == (key, value) && entries_at(
                    bytes,
                    pos2,
                    entries.drop_first(),
                ),
            },
        }
    }
}

/// Whether `bytes` are a snapshot of `entries`: they hold them, in the
/// order of their keys.
pub open spec fn is_snapshot(bytes: Seq<u8>, entries: Seq<EntryView>) -> bool {
    entries_at(bytes, 0, entries) && strictly_sorted(entries)
}

/// At most one sequence of entries stands in given bytes.
pub proof fn lemma_entries_at_unique(
    bytes: Seq<u8>,
    pos: int,
    a: Seq<EntryView>,
    b: Seq<EntryView>,
)
    requires
        entries_at(bytes, pos, a),
        entries_at(bytes, pos, b),
    ensures
        a == b,
    decreases a.len(),
{
    if a.len() == 0 || b.len() == 0 {
        if a.len() > 0 {
            let pos1 = chunk_at(bytes, pos)->Some_0.1;
            assert(chunk_at(bytes, pos1) is Some);
        }
        if b.len() > 0 {
            let pos1 = chunk_at(bytes, pos)->Some_0.1;
            assert(chunk_at(bytes, pos1) is Some);
        }
        assert(a =~= b);
    } else {
        let pos1 = chunk_at(bytes, pos)->Some_0.1;
        let pos2 = chunk_at(bytes, pos1)->Some_0.1;
        lemma_entries_at_unique(bytes, pos2, a.drop_first(), b.drop_first());
        assert(a =~= seq![a[0]] + a.drop_first());
        assert(b =~= seq![b[0]] + b.drop_first());
    }
}

proof fn lemma_chunk_at(bytes: Seq<u8>, pos: int, chunk: Seq<u8>)
    requires
        0 <= pos,
        chunk.len() < 0x1_0000_0000_0000_0000,
        pos + 8 + chunk.len() <= bytes.len(),
        bytes.subrange(pos, pos + 8 + chunk.len()) == len_prefix(chunk.len()) + chunk,
    ensures
        chunk_at(bytes, pos) == Some((chunk, pos + 8 + chunk.len())),
{
    lemma_be_value_of_bytes(chunk.len(), 8);
    let part = bytes.subrange(pos, pos + 8 + chunk.len());
    assert(bytes.subrange(pos, pos + 8) =~= part.subrange(0, 8));
    assert(part.subrange(0, 8) =~= len_prefix(chunk.len()));
    assert(bytes.subrange(pos + 8, pos + 8 + chunk.len()) =~= part.subrange(
        8,
        8 + chunk.len() as int,
    ));
    assert(part.subrange(8, 8 + chunk.len() as int) =~= chunk);
}

proof fn lemma_entries_at(bytes: Seq<u8>, pos: int, entries: Seq<EntryView>)
    requires
        0 <= pos,
        pos + serialize(entries).len() == bytes.len(),
        bytes.subrange(pos, bytes.len() as int) == serialize(entries),
        forall|i: int|
            0 <= i < entries.len() ==> (#[trigger] entries[i]).0.len() < 0x1_0000_0000_0000_0000
                && entries[i].1.len() < 0x1_0000_0000_0000_0000,
    ensures
        entries_at(bytes, pos, entries),
    decreases entries.len(),
{
    if entries.len() > 0 {
        let (key, value) = entries[0];
        let rest = entries.drop_first();
        let whole = bytes.subrange(pos, bytes.len() as int);
        let k = len_prefix(key.len()) + key;
        let v = len_prefix(value.len()) + value;
        lemma_be_value_of_bytes(key.len(), 8);
        lemma_be_value_of_bytes(value.len(), 8);
        assert(whole =~= k + v + serialize(rest));
        assert(bytes.subrange(pos, pos + 8 + key.len()) =~= whole.subrange(0, k.len() as int));
        assert(whole.subrange(0, k.len() as int) =~= k);
        lemma_chunk_at(bytes, pos, key);
        let pos1 = pos + 8 + key.len();
        assert(bytes.subrange(pos1, pos1 + 8 + value.len()) =~= whole.subrange(
            k.len() as int,
            (k.len() + v.len()) as int,
        ));
        assert(whole.subrange(k.len() as int, (k.len() + v.len()) as int) =~= v);
        lemma_chunk_at(bytes, pos1, value);
        let pos2 = pos1 + 8 + value.len();
        assert(bytes.subrange(pos2, bytes.len() as int) =~= whole.subrange(
            (k.len() + v.len()) as int,
            whole.len() as int,
        ));
        assert(whole.subrange((k.len() + v.len()) as int, whole.len() as int) =~= serialize(
            rest,
        ));
        assert forall|i: int| 0 <= i < rest.len() implies (#[trigger] rest[i]).0.len()
            < 0x1_0000_0000_0000_0000 && rest[i].1.len() < 0x1_0000_0000_0000_0000 by {
            assert(rest[i] == entries[i + 1]);
        }
        lemma_entries_at(bytes, pos2, rest);
    }
}

/// The bytes of entries in the order of their keys are a snapshot of them,
/// and of no other entries: what a store writes, a store restores.
pub proof fn lemma_snapshot_round_trip(entries: Seq<EntryView>)
    requires
        strictly_sorted(entries),
        forall|i: int|
            0 <= i < entries.len() ==> (#[trigger] entries[i]).0.len() < 0x1_0000_0000_0000_0000
                && entries[i].1.len() < 0x1_0000_0000_0000_0000,
    ensures
        is_snapshot(serialize(entries), entries),
        forall|other: Seq<EntryView>|
            is_snapshot(serialize(entries), other) ==> other == entries,
{
    let bytes = serialize(entries);
    assert(bytes.subrange(0, bytes.len() as int) =~= bytes);
    lemma_entries_at(bytes, 0, entries);
    assert forall|other: Seq<EntryView>| is_snapshot(bytes, other) implies other == entries by {
        lemma_entries_at_unique(bytes, 0, other, entries);
    }
}

fn read_chunk(bytes: &[u8], pos: usize) -> (res: Option<(Vec<u8>, usize)>)
    requires
        pos <= bytes@.len(),
    ensures
        match res {
            Some((chunk, next)) => chunk_at(bytes@, pos as int) == Some((chunk@, next as int))
                && pos < next <= bytes@.len(),
            None => chunk_at(bytes@, pos as int) is None,
        },
{
    if bytes.len() - pos < 8 {
        return None;
    }
    let prefix = slice_subrange(bytes, pos, pos + 8);
    assert(prefix@.subrange(0, 8) =~= prefix@);
    let len = read_u64_be(prefix);
    if len > (bytes.len() - pos - 8) as u64 {
        return None;
    }
    let len = len as usize;
    let chunk = slice_to_vec(slice_subrange(bytes, pos + 8, pos + 8 + len));
    Some((chunk, pos + 8 + len))
}

impl MemoryKV {
    /// The committed contents as bytes, for a durable copy: the entries in
    /// the order of their keys, each as its key and its value after their
    /// lengths. The fingerprint of the contents is the digest of these
    /// bytes.
    pub fn snapshot(&self) -> (bytes: Vec<u8>)
        requires
            self.wf(),
        ensures
            bytes@ == serialize(canonical_entries(self.model().committed)),
            keccak256(bytes@) == MemoryKV::fingerprint(self.model().committed),
    {
        let buf = serialize_entries(&self.committed);
        proof {
            let view = entries_view(self.committed@);
            lemma_sorted_entries_unique(view, canonical_entries(log_map(view)));
        }
        buf
    }

    /// A store with the committed contents that a snapshot holds, at the
    /// state that is their fingerprint; or nothing, where the bytes are not
    /// a snapshot: not a sequence of entries, or entries whose keys are not
    /// in strict order.
    pub fn restore(bytes: &[u8]) -> (res: Option<MemoryKV>)
        ensures
            match res {
                Some(store) => {
                    &&& store.wf()
                    &&& is_snapshot(bytes@, canonical_entries(store.model().committed))
                    &&& store.model().pending == Map::<Seq<u8>, Seq<u8>>::empty()
                    &&& store.model().head == MemoryKV::fingerprint(store.model().committed)
                    &&& store.model().history == Map::<Seq<u8>, Contents>::empty().insert(
                        store.model().head,
                        store.model().committed,
                    )
                },
                None => forall|entries: Seq<EntryView>| !is_snapshot(bytes@, entries),
            },
    {
        let mut entries: Vec<Entry> = Vec::new();
        let mut pos: usize = 0;
        proof {
            let none = entries_view(entries@);
            assert(none =~= Seq::<EntryView>::empty());
            assert forall|rest: Seq<EntryView>| entries_at(bytes@, 0, rest) implies #[trigger]
                entries_at(bytes@, 0, none + rest) by {
                assert(none + rest =~= rest);
            }
            assert forall|all: Seq<EntryView>| #[trigger]
                entries_at(bytes@, 0, all) implies all.subrange(0, 0) == none && entries_at(
                bytes@,
                0,
                all.subrange(0, all.len() as int),
            ) by {
                assert(all.subrange(0, 0) =~= none);
                assert(all.subrange(0, all.len() as int) =~= all);
            }
        }
        while pos < bytes.len()
            invariant
                pos <= bytes@.len(),
                strictly_sorted(entries_view(entries@)),
                forall|rest: Seq<EntryView>|
                    entries_at(bytes@, pos as int, rest) ==> #[trigger] entries_at(
                        bytes@,
                        0,
                        entries_view(entries@) + rest,
                    ),
                forall|all: Seq<EntryView>|
                    #[trigger] entries_at(bytes@, 0, all) ==> all.len() >= entries@.len()
                        && all.subrange(0, entries@.len() as int) == entries_view(entries@)
                        && entries_at(
                        bytes@,
                        pos as int,
                        all.subrange(entries@.len() as int, all.len() as int),
                    ),
            decreases bytes@.len() - pos,
        {
            let ghost at = pos as int;
            let ghost before = entries_view(entries@);
            let (key, pos1) = match read_chunk(bytes, pos) {
                Some(chunk) => chunk,
                None => {
                    proof {
                        assert forall|all: Seq<EntryView>| !is_snapshot(bytes@, all) by {
                            if entries_at(bytes@, 0, all) {
                                let rest = all.subrange(before.len() as int, all.len() as int);
                                assert(entries_at(bytes@, at, rest));
                            }
                        }
                    }
                    return None;
                },
            };
            let (value, pos2) = match read_chunk(bytes, pos1) {
                Some(chunk) => chunk,
                None => {
                    proof {
                        assert forall|all: Seq<EntryView>| !is_snapshot(bytes@, all) by {
                            if entries_at(bytes@, 0, all) {
                                let rest = all.subrange(before.len() as int, all.len() as int);
                                assert(entries_at(bytes@, at, rest));
                            }
                        }
                    }
                    return None;
                },
            };
            let n = entries.len();
            let in_order = n == 0 || compare_keys(entries[n - 1].0.as_slice(), key.as_slice())
                == KeyOrder::Before;
            if !in_order {
                proof {
                    assert forall|all: Seq<EntryView>| !is_snapshot(bytes@, all) by {
                        if entries_at(bytes@, 0, all) {
                            let rest = all.subrange(before.len() as int, all.len() as int);
                            assert(entries_at(bytes@, at, rest));
                            assert(rest[0] == (key@, value@));
                            assert(all[before.len() as int] == rest[0]);
                            assert(all[before.len() - 1] == all.subrange(
                                0,
                                before.len() as int,
                            )[before.len() - 1]);
                            assert(all[before.len() - 1].0 == before[before.len() - 1].0);
                            if strictly_sorted(all) {
                                assert(key_lt(all[before.len() - 1].0, all[before.len() as int].0));
                                lemma_key_lt_irreflexive(key@);
                                if key_lt(key@, before[before.len() - 1].0) {
                                    lemma_key_lt_transitive(
                                        key@,
                                        before[before.len() - 1].0,
                                        key@,
                                    );
                                }
                            }
                        }
                    }
                }
                return None;
            }
            entries.push((key, value));
            pos = pos2;
            proof {
                let after = entries_view(entries@);
                assert(after =~= before.push((key@, value@)));
                assert forall|i: int, j: int| 0 <= i < j < after.len() implies key_lt(
                    after[i].0,
                    after[j].0,
                ) by {
                    if j == after.len() - 1 {
                        if i < j - 1 {
                            assert(key_lt(before[i].0, before[j - 1].0));
                            lemma_key_lt_transitive(before[i].0, before[j - 1].0, key@);
                        }
                    } else {
                        assert(key_lt(before[i].0, before[j].0));
                    }
                }
                assert forall|rest: Seq<EntryView>|
                    entries_at(bytes@, pos as int, rest) implies #[trigger] entries_at(
                    bytes@,
                    0,
                    after + rest,
                ) by {
                    let longer = seq![(key@, value@)] + rest;
                    assert(longer.drop_first() =~= rest);
                    assert(entries_at(bytes@, at, longer));
                    assert(after + rest =~= before + longer);
                }
                assert forall|all: Seq<EntryView>| #[trigger]
                    entries_at(bytes@, 0, all) implies all.len() >= after.len() && all.subrange(
                    0,
                    after.len() as int,
                ) == after && entries_at(
                    bytes@,
                    pos as int,
                    all.subrange(after.len() as int, all.len() as int),
                ) by {
                    let rest = all.subrange(before.len() as int, all.len() as int);
                    assert(entries_at(bytes@, at, rest));
                    assert(rest.len() > 0);
                    assert(rest[0] == (key@, value@));
                    assert(rest.drop_first() =~= all.subrange(
                        after.len() as int,
                        all.len() as int,
                    ));
                    assert(all.subrange(0, after.len() as int) =~= all.subrange(
                        0,
                        before.len() as int,
                    ).push(rest[0]));
                }
            }
        }
        let head = fingerprint_of(&entries);
        let snapshot = copy_entries(&entries);
        let mut snapshots: Vec<(State, Vec<Entry>)> = Vec::new();
        snapshots.push((head, snapshot));
        let store = MemoryKV { committed: entries, pending: Vec::new(), head, snapshots };
        proof {
            let view = entries_view(store.committed@);
            assert(entries_at(bytes@, pos as int, Seq::<EntryView>::empty()));
            assert(view + Seq::<EntryView>::empty() =~= view);
            assert(entries_at(bytes@, 0, view));
            lemma_sorted_entries_unique(view, canonical_entries(log_map(view)));
            assert(entries_view(store.pending@) =~= Seq::<EntryView>::empty());
            let snaps = snapshots_view(store.snapshots@);
            assert(snaps.len() == 1);
            assert(snaps.drop_last() =~= Seq::<(Seq<u8>, Contents)>::empty());
            assert(snaps.last() == (head@, log_map(view)));
            assert(log_map(snaps.drop_last()) =~= Map::<Seq<u8>, Contents>::empty());
            assert(log_map(snaps) =~= Map::<Seq<u8>, Contents>::empty().insert(
                head@,
                log_map(view),
            ));
            assert(store.model().pending =~= Map::<Seq<u8>, Seq<u8>>::empty());
            assert(store.wf());
            assert(is_snapshot(bytes@, canonical_entries(store.model().committed)));
        }
        Some(store)
    }
}

impl StatefulKV for MemoryKV {
    closed spec fn model(&self) -> KvModel {
        KvModel {
            committed: log_map(entries_view(self.committed@)),
            pending: log_map(entries_view(self.pending@)),
            head: self.head@,
            history: log_map(snapshots_view(self.snapshots@)),
        }
    }

    closed spec fn wf(&self) -> bool {
        &&& strictly_sorted(entries_view(self.committed@))
        &&& forall|i: int|
            0 <= i < self.snapshots@.len() ==> strictly_sorted(
                entries_view((#[trigger] self.snapshots@[i]).1@),
            )
    }

    open spec fn fingerprint(contents: Contents) -> Seq<u8> {
        memory_fingerprint(contents)
    }

    fn read(&self, key: &[u8]) -> (value: Option<Vec<u8>>) {
        match lookup(&self.pending, key) {
            Some(v) => Some(v),
            None => lookup(&self.committed, key),
        }
    }

    fn write(&mut self, key: &[u8], value: &[u8]) {
        let ghost before = entries_view(self.pending@);
        self.pending.push((slice_to_vec(key), slice_to_vec(value)));
        proof {
            let after = entries_view(self.pending@);
            assert(after.drop_last() =~= before);
            assert(after.last() == (key@, value@));
        }
    }

    fn discard(&mut self) {
        self.pending = Vec::new();
        assert(entries_view(self.pending@) =~= Seq::<EntryView>::empty());
    }

    fn checkpoint(&mut self) -> (state: State) {
        let ghost log = entries_view(self.pending@);
        let ghost base = log_map(entries_view(self.committed@));
        let mut i: usize = 0;
        assert(log.take(0) =~= Seq::<EntryView>::empty());
        assert(base.union_prefer_right(log_map(log.take(0))) =~= base);
        while i < self.pending.len()
            invariant
                i <= self.pending@.len(),
                self.pending@ == old(self).pending@,
                self.snapshots@ == old(self).snapshots@,
                self.head == old(self).head,
                log == entries_view(self.pending@),
                base == log_map(entries_view(old(self).committed@)),
                self.wf(),
                log_map(entries_view(self.committed@)) == base.union_prefer_right(
                    log_map(log.take(i as int)),
                ),
            decreases self.pending@.len() - i,
        {
            let key = slice_to_vec(self.pending[i].0.as_slice());
            let value = slice_to_vec(self.pending[i].1.as_slice());
            upsert(&mut self.committed, key, value);
            proof {
                let next = log.take(i + 1);
                assert(next.drop_last() =~= log.take(i as int));
                assert(next.last() == log[i as int]);
                assert(base.union_prefer_right(log_map(next)) =~= base.union_prefer_right(
                    log_map(log.take(i as int)),
                ).insert(log[i as int].0, log[i as int].1));
            }
            i += 1;
        }
        assert(log.take(i as int) =~= log);
        let state = fingerprint_of(&self.committed);
        let snapshot = copy_entries(&self.committed);
        let ghost snaps = snapshots_view(self.snapshots@);
        self.snapshots.push((state, snapshot));
        self.pending = Vec::new();
        self.head = state;
        proof {
            let after = snapshots_view(self.snapshots@);
            assert(after.drop_last() =~= snaps);
            assert(after.last() == (state@, log_map(entries_view(self.committed@))));
            assert(entries_view(self.pending@) =~= Seq::<EntryView>::empty());
        }
        state
    }

    fn rewind(&mut self, state: &State) -> (found: bool) {
        let ghost snaps = snapshots_view(self.snapshots@);
        let zero = State::empty();
        assert(zero@ =~= empty_state());
        if state.same(&zero) {
            self.committed = Vec::new();
            self.pending = Vec::new();
            self.head = *state;
            proof {
                assert(entries_view(self.committed@) =~= Seq::<EntryView>::empty());
                assert(entries_view(self.pending@) =~= Seq::<EntryView>::empty());
            }
            return true;
        }
        let mut i: usize = self.snapshots.len();
        while i > 0
            invariant
                i <= self.snapshots@.len(),
                *self == *old(self),
                self.wf(),
                state@ != empty_state(),
                snaps == snapshots_view(self.snapshots@),
                forall|j: int| i <= j < snaps.len() ==> (#[trigger] snaps[j]).0 != state@,
            decreases i,
        {
            i -= 1;
            if self.snapshots[i].0.same(state) {
                proof {
                    assert forall|j: int| i < j < snaps.len() implies (#[trigger] snaps[j]).0
                        != snaps[i as int].0 by {}
                    lemma_log_map_last_write(snaps, i as int);
                }
                self.committed = copy_entries(&self.snapshots[i].1);
                self.pending = Vec::new();
                self.head = *state;
                assert(entries_view(self.pending@) =~= Seq::<EntryView>::empty());
                return true;
            }
        }
        proof {
            lemma_log_map_keys(snaps, state@);
        }
        false
    }

    fn head(&self) -> (state: State) {
        self.head
    }
}

/// The fingerprint that a checkpoint of the in-memory store returns depends
/// on the contents alone: it is the digest of the entries of the contents,
/// serialized in the order of their keys, however the store came to hold
/// them.
pub proof fn lemma_fingerprint_of_contents(contents: Contents, entries: Seq<EntryView>)
    requires
        strictly_sorted(entries),
        log_map(entries) == contents,
    ensures
        MemoryKV::fingerprint(contents) == keccak256(serialize(entries)),
{
    lemma_sorted_entries_unique(entries, canonical_entries(contents));
}

} // verus!
