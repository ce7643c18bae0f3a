//! Lists of values under text keys, in the order in which the keys came.

use crate::text::text_eq;
use vstd::prelude::*;

verus! {

/// The index of the first entry at or after `from` that has the key.
pub open spec fn key_index<V>(entries: Seq<(Seq<char>, V)>, key: Seq<char>, from: int) -> Option<
    int,
>
    decreases entries.len() - from,
{
    if from < 0 || from >= entries.len() {
        None
    } else if entries[from].0 == key {
        Some(from)
    } else {
        key_index(entries, key, from + 1)
    }
}

/// The value under a key, where the entries hold one.
pub open spec fn value_of<V>(entries: Seq<(Seq<char>, V)>, key: Seq<char>) -> Option<V> {
    match key_index(entries, key, 0) {
        Some(i) => Some(entries[i].1),
        None => None,
    }
}

/// The entries after a value was put under a key: in the place of the
/// entry that had the key, or at the end where none had.
pub open spec fn put<V>(entries: Seq<(Seq<char>, V)>, key: Seq<char>, value: V) -> Seq<
    (Seq<char>, V),
> {
    match key_index(entries, key, 0) {
        Some(i) => entries.update(i, (key, value)),
        None => entries.push((key, value)),
    }
}

/// The entries of a list with their keys as character sequences.
pub open spec fn keyed<V>(list: Seq<(String, V)>) -> Seq<(Seq<char>, V)> {
    Seq::new(list.len(), |i: int| (list[i].0@, list[i].1))
}

/// Where a key is found, an entry with this key stands there.
pub proof fn lemma_key_found<V>(entries: Seq<(Seq<char>, V)>, key: Seq<char>, from: int)
    requires
        0 <= from,
        key_index(entries, key, from) is Some,
    ensures
        from <= key_index(entries, key, from)->0 < entries.len(),
        entries[key_index(entries, key, from)->0].0 == key,
    decreases entries.len() - from,
{
    if from < entries.len() && entries[from].0 != key {
        lemma_key_found(entries, key, from + 1);
    }
}

/// Puts a value under a key: in the place of the entry that has the key,
/// or at the end where none has.
pub fn upsert<V>(list: &mut Vec<(String, V)>, key: String, value: V)
    ensures
        keyed(final(list)@) == put(keyed(old(list)@), key@, value),
{
    let ghost entries = keyed(list@);
    let mut i: usize = 0;
    while i < list.len()
        invariant
            i <= list.len(),
            *list == *old(list),
            entries == keyed(list@),
            key_index(entries, key@, 0) == key_index(entries, key@, i as int),
        decreases list.len() - i,
    {
        if text_eq(list[i].0.as_str(), key.as_str()) {
            list[i] = (key, value);
            assert(keyed(list@) =~= put(entries, key@, value));
            return ;
        }
        i += 1;
    }
    list.push((key, value));
    assert(keyed(list@) =~= put(entries, key@, value));
}

/// After a value was put under a key, the entries hold it there.
pub proof fn lemma_put_sets<V>(entries: Seq<(Seq<char>, V)>, key: Seq<char>, value: V)
    ensures
        value_of(put(entries, key, value), key) == Some(value),
{
    let after = put(entries, key, value);
    match key_index(entries, key, 0) {
        Some(i) => {
            lemma_key_found(entries, key, 0);
            lemma_key_first(entries, after, key, 0, i);
        },
        None => {
            lemma_key_absent(entries, key, 0);
            lemma_key_first(entries, after, key, 0, entries.len() as int);
        },
    }
}

/// Where a key is not found, no entry at or after `from` has it.
pub proof fn lemma_key_absent<V>(entries: Seq<(Seq<char>, V)>, key: Seq<char>, from: int)
    requires
        0 <= from,
        key_index(entries, key, from) is None,
    ensures
        forall|j: int| from <= j < entries.len() ==> (#[trigger] entries[j]).0 != key,
    decreases entries.len() - from,
{
    if from < entries.len() {
        lemma_key_absent(entries, key, from + 1);
    }
}

proof fn lemma_key_first<V>(
    before: Seq<(Seq<char>, V)>,
    after: Seq<(Seq<char>, V)>,
    key: Seq<char>,
    from: int,
    at: int,
)
    requires
        0 <= from <= at < after.len(),
        at <= before.len(),
        after[at].0 == key,
        key_index(before, key, from) == if at < before.len() {
            Some(at)
        } else {
            None
        },
        forall|j: int| 0 <= j < at ==> after[j] == before[j],
    ensures
        key_index(after, key, from) == Some(at),
    decreases at - from,
{
    if from < at {
        assert(after[from] == before[from]);
        lemma_key_first(before, after, key, from + 1, at);
    }
}

} // verus!
