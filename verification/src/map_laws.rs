use vstd::prelude::*;
use crate::builder::KeyView;
use crate::maps::{distinct_keys, inserted, lemma_position, lookup, position, shift_removed};

verus! {

/// The position of a key is the only position that holds the key and has
/// the key nowhere in front of it.
pub proof fn lemma_position_is<T>(entries: Seq<(KeyView, T)>, key: KeyView, at: int)
    requires
        0 <= at < entries.len(),
        entries[at].0 == key,
        forall|j: int| 0 <= j < at ==> (#[trigger] entries[j]).0 != key,
    ensures
        position(entries, key) == Some(at),
{
    lemma_position(entries, key);
}

/// A key that stands nowhere has no position.
pub proof fn lemma_position_none<T>(entries: Seq<(KeyView, T)>, key: KeyView)
    requires
        forall|j: int| 0 <= j < entries.len() ==> (#[trigger] entries[j]).0 != key,
    ensures
        position(entries, key).is_none(),
{
    lemma_position(entries, key);
}

/// What was kept for a key is what is found for it.
pub proof fn lemma_lookup_inserted<T>(entries: Seq<(KeyView, T)>, key: KeyView, value: T)
    ensures
        lookup(inserted(entries, key, value), key) == Some(value),
{
    lemma_position(entries, key);
    let after = inserted(entries, key, value);
    match position(entries, key) {
        Some(i) => {
            assert forall|j: int| 0 <= j < i implies (#[trigger] after[j]).0 != key by {
                assert(after[j] == entries[j]);
            }
            lemma_position_is(after, key, i);
        },
        None => {
            assert forall|j: int| 0 <= j < entries.len() implies (#[trigger] after[j]).0
                != key by {
                assert(after[j] == entries[j]);
            }
            lemma_position_is(after, key, entries.len() as int);
        },
    }
}

/// Keeping a value for a key changes nothing for another key.
pub proof fn lemma_lookup_inserted_other<T>(
    entries: Seq<(KeyView, T)>,
    key: KeyView,
    value: T,
    other: KeyView,
)
    requires
        other != key,
    ensures
        lookup(inserted(entries, key, value), other) == lookup(entries, other),
{
    lemma_position(entries, key);
    lemma_position(entries, other);
    let after = inserted(entries, key, value);
    match position(entries, other) {
        Some(i) => {
            assert(after[i] == entries[i]);
            assert forall|j: int| 0 <= j < i implies (#[trigger] after[j]).0 != other by {
                if after[j] != entries[j] {
                } else {
                    assert(entries[j].0 != other);
                }
            }
            lemma_position_is(after, other, i);
        },
        None => {
            assert forall|j: int| 0 <= j < after.len() implies (#[trigger] after[j]).0
                != other by {
                if j < entries.len() && after[j] == entries[j] {
                    assert(entries[j].0 != other);
                }
            }
            lemma_position_none(after, other);
        },
    }
}

/// Forgetting a key changes nothing for another key.
pub proof fn lemma_lookup_removed_other<T>(entries: Seq<(KeyView, T)>, key: KeyView, other: KeyView)
    requires
        other != key,
    ensures
        lookup(shift_removed(entries, key), other) == lookup(entries, other),
{
    lemma_position(entries, key);
    lemma_position(entries, other);
    let after = shift_removed(entries, key);
    match position(entries, key) {
        None => {},
        Some(k) => {
            assert forall|j: int| 0 <= j < after.len() implies #[trigger] after[j] == entries[if j
                < k {
                j
            } else {
                j + 1
            }] by {}
            match position(entries, other) {
                Some(i) => {
                    let at = if i < k {
                        i
                    } else {
                        i - 1
                    };
                    assert(after[at] == entries[i]);
                    assert forall|j: int| 0 <= j < at implies (#[trigger] after[j]).0 != other by {
                        let from = if j < k {
                            j
                        } else {
                            j + 1
                        };
                        assert(after[j] == entries[from]);
                        assert(entries[from].0 != other);
                    }
                    lemma_position_is(after, other, at);
                },
                None => {
                    assert forall|j: int| 0 <= j < after.len() implies (#[trigger] after[j]).0
                        != other by {
                        let from = if j < k {
                            j
                        } else {
                            j + 1
                        };
                        assert(after[j] == entries[from]);
                        assert(entries[from].0 != other);
                    }
                    lemma_position_none(after, other);
                },
            }
        },
    }
}

/// Keeping a value for a key leaves no key twice.
pub proof fn lemma_inserted_distinct<T>(entries: Seq<(KeyView, T)>, key: KeyView, value: T)
    requires
        distinct_keys(entries),
    ensures
        distinct_keys(inserted(entries, key, value)),
{
    lemma_position(entries, key);
    let after = inserted(entries, key, value);
    assert forall|i: int, j: int| 0 <= i < j < after.len() implies after[i].0 != after[j].0 by {
        match position(entries, key) {
            Some(k) => {
                assert(after[i].0 == entries[i].0);
                assert(after[j].0 == entries[j].0);
            },
            None => {
                if j < entries.len() {
                    assert(after[i] == entries[i] && after[j] == entries[j]);
                } else {
                    assert(after[i] == entries[i]);
                    assert(entries[i].0 != key);
                }
            },
        }
    }
}

/// Forgetting a key leaves no key twice, and the key is gone.
pub proof fn lemma_removed_distinct<T>(entries: Seq<(KeyView, T)>, key: KeyView)
    requires
        distinct_keys(entries),
    ensures
        distinct_keys(shift_removed(entries, key)),
        lookup(shift_removed(entries, key), key).is_none(),
{
    lemma_position(entries, key);
    let after = shift_removed(entries, key);
    match position(entries, key) {
        None => {},
        Some(k) => {
            assert forall|i: int, j: int| 0 <= i < j < after.len() implies after[i].0
                != after[j].0 by {
                let a = if i < k {
                    i
                } else {
                    i + 1
                };
                let b = if j < k {
                    j
                } else {
                    j + 1
                };
                assert(after[i] == entries[a] && after[j] == entries[b]);
            }
            assert forall|j: int| 0 <= j < after.len() implies (#[trigger] after[j]).0 != key by {
                let b = if j < k {
                    j
                } else {
                    j + 1
                };
                assert(after[j] == entries[b]);
                if b < k {
                } else {
                    assert(entries[k].0 != entries[b].0);
                }
            }
            lemma_position_none(after, key);
        },
    }
}

/// What is found for a key stands at some position; with no key twice,
/// what stands at a position is what is found for its key.
pub proof fn lemma_lookup_at<T>(entries: Seq<(KeyView, T)>, at: int)
    requires
        distinct_keys(entries),
        0 <= at < entries.len(),
    ensures
        lookup(entries, entries[at].0) == Some(entries[at].1),
{
    lemma_position(entries, entries[at].0);
    match position(entries, entries[at].0) {
        Some(i) => {
            if i < at {
                assert(entries[i].0 != entries[at].0);
            }
        },
        None => {},
    }
}

} // verus!
