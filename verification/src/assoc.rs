//! Ordered association lists with unique keys, as specifications see them.
//!
//! An object of the language and a scope of variables are both lists of
//! entries in the order in which their keys first arrived. A key occurs
//! once; a later value for it takes the place of the earlier one.

use vstd::prelude::*;

verus! {

/// The index of the first entry at or after `k` with the given key, or the
/// length if there is none.
pub open spec fn index_of_key<V>(entries: Seq<(Seq<char>, V)>, key: Seq<char>, k: int) -> int
    decreases entries.len() - k,
{
    if 0 <= k < entries.len() && entries[k].0 != key {
        index_of_key(entries, key, k + 1)
    } else {
        k
    }
}

/// The value that the list holds for the key.
pub open spec fn lookup<V>(entries: Seq<(Seq<char>, V)>, key: Seq<char>) -> Option<V> {
    let i = index_of_key(entries, key, 0);
    if i < entries.len() {
        Some(entries[i].1)
    } else {
        None
    }
}

/// The list after `value` is stored under `key`: in the place of the key's
/// earlier value, or at the end.
pub open spec fn inserted<V>(entries: Seq<(Seq<char>, V)>, key: Seq<char>, value: V) -> Seq<
    (Seq<char>, V),
> {
    let i = index_of_key(entries, key, 0);
    if i < entries.len() {
        entries.update(i, (key, value))
    } else {
        entries.push((key, value))
    }
}

/// The list after the first `n` entries of `other` are stored in it, in
/// their order.
pub open spec fn merged_first<V>(
    entries: Seq<(Seq<char>, V)>,
    other: Seq<(Seq<char>, V)>,
    n: int,
) -> Seq<(Seq<char>, V)>
    decreases n,
{
    if n <= 0 || n > other.len() {
        entries
    } else {
        inserted(merged_first(entries, other, n - 1), other[n - 1].0, other[n - 1].1)
    }
}

/// The list after every entry of `other` is stored in it, in their order.
pub open spec fn merged<V>(entries: Seq<(Seq<char>, V)>, other: Seq<(Seq<char>, V)>) -> Seq<
    (Seq<char>, V),
> {
    merged_first(entries, other, other.len() as int)
}

/// Whether no key occurs twice.
pub open spec fn keys_distinct<V>(entries: Seq<(Seq<char>, V)>) -> bool {
    forall|i: int, j: int| 0 <= i < j < entries.len() ==> entries[i].0 != entries[j].0
}

/// The search for a key ends within the list, at the key if it is there,
/// and passes only other keys.
pub proof fn lemma_index_of_key<V>(entries: Seq<(Seq<char>, V)>, key: Seq<char>, k: int)
    requires
        0 <= k <= entries.len(),
    ensures
        k <= index_of_key(entries, key, k) <= entries.len(),
        index_of_key(entries, key, k) < entries.len() ==> entries[index_of_key(
            entries,
            key,
            k,
        )].0 == key,
        forall|i: int| k <= i < index_of_key(entries, key, k) ==> entries[i].0 != key,
    decreases entries.len() - k,
{
    if k < entries.len() && entries[k].0 != key {
        lemma_index_of_key(entries, key, k + 1);
    }
}

/// Storing a value keeps the keys distinct.
pub proof fn lemma_inserted_keeps_keys_distinct<V>(
    entries: Seq<(Seq<char>, V)>,
    key: Seq<char>,
    value: V,
)
    requires
        keys_distinct(entries),
    ensures
        keys_distinct(inserted(entries, key, value)),
{
    lemma_index_of_key(entries, key, 0);
}

/// After a value is stored under a key, the key yields it and every other
/// key yields what it did before.
pub proof fn lemma_lookup_inserted<V>(
    entries: Seq<(Seq<char>, V)>,
    key: Seq<char>,
    value: V,
    other: Seq<char>,
)
    ensures
        lookup(inserted(entries, key, value), key) == Some(value),
        other != key ==> lookup(inserted(entries, key, value), other) == lookup(entries, other),
{
    let after = inserted(entries, key, value);
    lemma_index_of_key(entries, key, 0);
    lemma_index_of_key(after, key, 0);
    lemma_index_of_key(entries, other, 0);
    lemma_index_of_key(after, other, 0);
    let i = index_of_key(entries, key, 0);
    if i < entries.len() {
        assert(after[i].0 == key);
    } else {
        assert(after[entries.len() as int].0 == key);
    }
    if other != key {
        let a = index_of_key(entries, other, 0);
        let b = index_of_key(after, other, 0);
        if a < entries.len() {
            assert(after[a].0 == other);
        }
        if b < after.len() {
            assert(b < entries.len());
            assert(entries[b].0 == other);
        }
        assert(a == b || (a == entries.len() && b == after.len()));
    }
}

/// After a merge, a key yields the value of the merged-in list where that
/// list holds the key, and else what it yielded before: on a collision the
/// later value wins.
pub proof fn law_merge_overwrites<V>(
    entries: Seq<(Seq<char>, V)>,
    other: Seq<(Seq<char>, V)>,
    key: Seq<char>,
)
    requires
        keys_distinct(other),
    ensures
        lookup(merged(entries, other), key) == match lookup(other, key) {
            Some(value) => Some(value),
            None => lookup(entries, key),
        },
{
    lemma_merged_first_overwrites(entries, other, key, other.len() as int);
    lemma_index_of_key(other, key, 0);
}

/// After the first `n` entries of a list are merged in, a key yields the
/// value that those entries hold for it, and else what it yielded before.
pub proof fn lemma_merged_first_overwrites<V>(
    entries: Seq<(Seq<char>, V)>,
    other: Seq<(Seq<char>, V)>,
    key: Seq<char>,
    n: int,
)
    requires
        keys_distinct(other),
        0 <= n <= other.len(),
    ensures
        lookup(merged_first(entries, other, n), key) == if index_of_key(other, key, 0) < n {
            Some(other[index_of_key(other, key, 0)].1)
        } else {
            lookup(entries, key)
        },
    decreases n,
{
    lemma_index_of_key(other, key, 0);
    if n > 0 {
        lemma_merged_first_overwrites(entries, other, key, n - 1);
        lemma_lookup_inserted(
            merged_first(entries, other, n - 1),
            other[n - 1].0,
            other[n - 1].1,
            key,
        );
    }
}

} // verus!
