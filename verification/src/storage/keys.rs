//! Keys in order, and the entries of a store as a sequence and as a map.

use vstd::prelude::*;

verus! {

/// A key with its value.
pub type Entry = (Vec<u8>, Vec<u8>);

/// What an [`Entry`] holds.
pub type EntryView = (Seq<u8>, Seq<u8>);

/// Whether the key `a` comes before the key `b`: at the first byte in which
/// they differ `a` has the smaller one, or `a` is a proper prefix of `b`.
pub open spec fn key_lt(a: Seq<u8>, b: Seq<u8>) -> bool
    decreases a.len(),
{
    if a.len() == 0 {
        b.len() > 0
    } else if b.len() == 0 {
        false
    } else if a[0] != b[0] {
        a[0] < b[0]
    } else {
        key_lt(a.drop_first(), b.drop_first())
    }
}

/// No key comes before itself.
pub proof fn lemma_key_lt_irreflexive(a: Seq<u8>)
    ensures
        !key_lt(a, a),
    decreases a.len(),
{
    if a.len() > 0 {
        lemma_key_lt_irreflexive(a.drop_first());
    }
}

/// The order of keys is transitive.
pub proof fn lemma_key_lt_transitive(a: Seq<u8>, b: Seq<u8>, c: Seq<u8>)
    requires
        key_lt(a, b),
        key_lt(b, c),
    ensures
        key_lt(a, c),
    decreases a.len(),
{
    if a.len() > 0 && b.len() > 0 && c.len() > 0 {
        if a[0] == b[0] && b[0] == c[0] {
            lemma_key_lt_transitive(a.drop_first(), b.drop_first(), c.drop_first());
        }
    }
}

/// How a key stands to another.
#[derive(Clone, Copy, Debug, PartialEq, Eq, Structural)]
pub enum KeyOrder {
    Before,
    Same,
    After,
}

/// Compares two keys.
pub fn compare_keys(a: &[u8], b: &[u8]) -> (order: KeyOrder)
    ensures
        match order {
            KeyOrder::Before => key_lt(a@, b@),
            KeyOrder::Same => a@ == b@,
            KeyOrder::After => key_lt(b@, a@),
        },
{
    let mut i: usize = 0;
    assert(a@.skip(0) =~= a@ && b@.skip(0) =~= b@);
    while i < a.len() && i < b.len()
        invariant
            i <= a@.len(),
            i <= b@.len(),
            forall|j: int| 0 <= j < i ==> a@[j] == b@[j],
            key_lt(a@, b@) == key_lt(a@.skip(i as int), b@.skip(i as int)),
            key_lt(b@, a@) == key_lt(b@.skip(i as int), a@.skip(i as int)),
        decreases a@.len() - i,
    {
        proof {
            assert(a@.skip(i as int)[0] == a@[i as int]);
            assert(b@.skip(i as int)[0] == b@[i as int]);
            assert(a@.skip(i as int).drop_first() =~= a@.skip(i + 1));
            assert(b@.skip(i as int).drop_first() =~= b@.skip(i + 1));
        }
        if a[i] < b[i] {
            return KeyOrder::Before;
        }
        if a[i] > b[i] {
            return KeyOrder::After;
        }
        i += 1;
    }
    if a.len() < b.len() {
        KeyOrder::Before
    } else if a.len() > b.len() {
        KeyOrder::After
    } else {
        assert(a@ =~= b@);
        KeyOrder::Same
    }
}

/// What the entries hold.
pub open spec fn entries_view(entries: Seq<Entry>) -> Seq<EntryView> {
    Seq::new(entries.len(), |i: int| (entries[i].0@, entries[i].1@))
}

/// The map that a sequence of writes leaves: each key with the value
/// written to it last.
pub open spec fn log_map<V>(log: Seq<(Seq<u8>, V)>) -> Map<Seq<u8>, V>
    decreases log.len(),
{
    if log.len() == 0 {
        Map::empty()
    } else {
        log_map(log.drop_last()).insert(log.last().0, log.last().1)
    }
}

/// Whether the keys of the entries go strictly up.
pub open spec fn strictly_sorted<V>(entries: Seq<(Seq<u8>, V)>) -> bool {
    forall|i: int, j: int| 0 <= i < j < entries.len() ==> key_lt(entries[i].0, entries[j].0)
}

/// The keys of the map of a log are the keys written.
pub proof fn lemma_log_map_keys<V>(log: Seq<(Seq<u8>, V)>, key: Seq<u8>)
    ensures
        log_map(log).contains_key(key) <==> exists|i: int|
            0 <= i < log.len() && (#[trigger] log[i]).0 == key,
    decreases log.len(),
{
    if log.len() > 0 {
        let init = log.drop_last();
        lemma_log_map_keys(init, key);
        if log_map(log).contains_key(key) {
            if log.last().0 == key {
                assert(log[log.len() - 1].0 == key);
            } else {
                let i = choose|i: int| 0 <= i < init.len() && (#[trigger] init[i]).0 == key;
                assert(log[i].0 == key);
            }
        }
        if exists|i: int| 0 <= i < log.len() && (#[trigger] log[i]).0 == key {
            let i = choose|i: int| 0 <= i < log.len() && (#[trigger] log[i]).0 == key;
            if i < log.len() - 1 {
                assert(init[i].0 == key);
            }
        }
    }
}

/// Where no write after `at` is to `key`, the log says of `key` what it
/// says when cut after `at`.
pub proof fn lemma_log_map_cut<V>(log: Seq<(Seq<u8>, V)>, at: int, key: Seq<u8>)
    requires
        0 <= at <= log.len(),
        forall|j: int| at <= j < log.len() ==> (#[trigger] log[j]).0 != key,
    ensures
        log_map(log).contains_key(key) == log_map(log.take(at)).contains_key(key),
        log_map(log).contains_key(key) ==> log_map(log)[key] == log_map(log.take(at))[key],
    decreases log.len() - at,
{
    if at == log.len() {
        assert(log.take(at) =~= log);
    } else {
        let init = log.drop_last();
        assert(log[log.len() - 1].0 != key);
        assert(init.take(at) =~= log.take(at));
        lemma_log_map_cut(init, at, key);
    }
}

/// The write at `at` decides the value of its key when no later write is to
/// the same key.
pub proof fn lemma_log_map_last_write<V>(log: Seq<(Seq<u8>, V)>, at: int)
    requires
        0 <= at < log.len(),
        forall|j: int| at < j < log.len() ==> (#[trigger] log[j]).0 != log[at].0,
    ensures
        log_map(log).contains_key(log[at].0),
        log_map(log)[log[at].0] == log[at].1,
{
    let cut = log.take(at + 1);
    lemma_log_map_cut(log, at + 1, log[at].0);
    assert(cut.last() == log[at]);
    assert(cut.drop_last() =~= log.take(at));
}

/// In entries in strict order every key stands once.
pub proof fn lemma_sorted_keys_differ<V>(entries: Seq<(Seq<u8>, V)>, i: int, j: int)
    requires
        strictly_sorted(entries),
        0 <= i < entries.len(),
        0 <= j < entries.len(),
        i != j,
    ensures
        entries[i].0 != entries[j].0,
{
    lemma_key_lt_irreflexive(entries[i].0);
}

/// The map of entries in strict order holds each of them.
pub proof fn lemma_sorted_map<V>(entries: Seq<(Seq<u8>, V)>, i: int)
    requires
        strictly_sorted(entries),
        0 <= i < entries.len(),
    ensures
        log_map(entries).contains_key(entries[i].0),
        log_map(entries)[entries[i].0] == entries[i].1,
{
    assert forall|j: int| i < j < entries.len() implies (#[trigger] entries[j]).0
        != entries[i].0 by {
        lemma_sorted_keys_differ(entries, i, j);
    }
    lemma_log_map_last_write(entries, i);
}

/// Two sequences of entries in strict order that give the same map are the
/// same sequence.
pub proof fn lemma_sorted_entries_unique<V>(a: Seq<(Seq<u8>, V)>, b: Seq<(Seq<u8>, V)>)
    requires
        strictly_sorted(a),
        strictly_sorted(b),
        log_map(a) == log_map(b),
    ensures
        a == b,
    decreases a.len(),
{
    if a.len() == 0 {
        if b.len() > 0 {
            lemma_sorted_map(b, 0);
            assert(false);
        }
        assert(a =~= b);
    } else if b.len() == 0 {
        lemma_sorted_map(a, 0);
        assert(false);
    } else {
        let la = a.len() - 1;
        let lb = b.len() - 1;
        let ka = a[la].0;
        let kb = b[lb].0;
        lemma_sorted_map(a, la);
        lemma_sorted_map(b, lb);
        // the last key of each is the largest key of the map
        lemma_log_map_keys(b, ka);
        lemma_log_map_keys(a, kb);
        let ib = choose|i: int| 0 <= i < b.len() && (#[trigger] b[i]).0 == ka;
        let ia = choose|i: int| 0 <= i < a.len() && (#[trigger] a[i]).0 == kb;
        if ka != kb {
            assert(ib < lb && ia < la);
            assert(key_lt(b[ib].0, b[lb].0));
            assert(key_lt(a[ia].0, a[la].0));
            lemma_key_lt_transitive(ka, kb, ka);
            lemma_key_lt_irreflexive(ka);
            assert(false);
        }
        let a0 = a.drop_last();
        let b0 = b.drop_last();
        assert(!log_map(a0).contains_key(ka)) by {
            lemma_log_map_keys(a0, ka);
            if log_map(a0).contains_key(ka) {
                let i = choose|i: int| 0 <= i < a0.len() && (#[trigger] a0[i]).0 == ka;
                assert(a[i].0 == ka);
                lemma_sorted_keys_differ(a, i, la);
            }
        }
        assert(!log_map(b0).contains_key(ka)) by {
            lemma_log_map_keys(b0, ka);
            if log_map(b0).contains_key(ka) {
                let i = choose|i: int| 0 <= i < b0.len() && (#[trigger] b0[i]).0 == ka;
                assert(b[i].0 == ka);
                lemma_sorted_keys_differ(b, i, lb);
            }
        }
        assert(log_map(a0) =~= log_map(a).remove(ka));
        assert(log_map(b0) =~= log_map(b).remove(ka));
        assert(log_map(a0) =~= log_map(b0));
        assert(strictly_sorted(a0)) by {
            assert forall|i: int, j: int| 0 <= i < j < a0.len() implies key_lt(
                a0[i].0,
                a0[j].0,
            ) by {
                assert(key_lt(a[i].0, a[j].0));
            }
        }
        assert(strictly_sorted(b0)) by {
            assert forall|i: int, j: int| 0 <= i < j < b0.len() implies key_lt(
                b0[i].0,
                b0[j].0,
            ) by {
                assert(key_lt(b[i].0, b[j].0));
            }
        }
        lemma_sorted_entries_unique(a0, b0);
        assert(a =~= a0.push(a[la]));
        assert(b =~= b0.push(b[lb]));
    }
}

/// The map of entries in strict order is the map that holds each of them
/// and no other key.
pub proof fn lemma_sorted_map_is<V>(entries: Seq<(Seq<u8>, V)>, map: Map<Seq<u8>, V>)
    requires
        strictly_sorted(entries),
        forall|i: int|
            0 <= i < entries.len() ==> map.contains_key((#[trigger] entries[i]).0)
                && map[entries[i].0] == entries[i].1,
        forall|k: Seq<u8>|
            map.contains_key(k) ==> exists|i: int|
                0 <= i < entries.len() && (#[trigger] entries[i]).0 == k,
    ensures
        log_map(entries) == map,
{
    assert forall|k: Seq<u8>| log_map(entries).contains_key(k) == map.contains_key(k) by {
        lemma_log_map_keys(entries, k);
    }
    assert forall|k: Seq<u8>| log_map(entries).contains_key(k) implies log_map(entries)[k]
        == map[k] by {
        lemma_log_map_keys(entries, k);
        let i = choose|i: int| 0 <= i < entries.len() && (#[trigger] entries[i]).0 == k;
        lemma_sorted_map(entries, i);
    }
    assert(log_map(entries) =~= map);
}

} // verus!
