use vstd::prelude::*;
use indexmap::IndexMap;
use crate::builder::{FunctionAccessKey, KeyView};

verus! {

#[verifier::external_type_specification]
#[verifier::external_body]
#[verifier::reject_recursive_types(K)]
#[verifier::reject_recursive_types(V)]
#[verifier::reject_recursive_types(S)]
pub struct ExIndexMap<K, V, S>(IndexMap<K, V, S>);

/// What an index holds: its keys, each with the number kept for it, in the
/// order of the map.
pub uninterp spec fn index_entries(m: IndexMap<(String, String, String), usize>) -> Seq<
    (KeyView, usize),
>;

/// The position of the first entry with the given key.
pub open spec fn position_of<T>(entries: Seq<(KeyView, T)>, key: KeyView, upto: nat) -> Option<int>
    decreases upto,
{
    if upto == 0 || upto > entries.len() {
        None
    } else {
        match position_of(entries, key, (upto - 1) as nat) {
            Some(i) => Some(i),
            None => if entries[upto - 1].0 == key {
                Some(upto - 1)
            } else {
                None
            },
        }
    }
}

/// The position of the entry with the given key.
pub open spec fn position<T>(entries: Seq<(KeyView, T)>, key: KeyView) -> Option<int> {
    position_of(entries, key, entries.len())
}

/// What is kept for the given key.
pub open spec fn lookup<T>(entries: Seq<(KeyView, T)>, key: KeyView) -> Option<T> {
    match position(entries, key) {
        Some(i) => Some(entries[i].1),
        None => None,
    }
}

/// The entries after `value` has been kept for `key`: in the place of what
/// was kept for it before, or else behind every other entry.
pub open spec fn inserted<T>(entries: Seq<(KeyView, T)>, key: KeyView, value: T) -> Seq<
    (KeyView, T),
> {
    match position(entries, key) {
        Some(i) => entries.update(i, (key, value)),
        None => entries.push((key, value)),
    }
}

/// The entries without the one for `key`; the others keep their order.
pub open spec fn shift_removed<T>(entries: Seq<(KeyView, T)>, key: KeyView) -> Seq<(KeyView, T)> {
    match position(entries, key) {
        Some(i) => entries.remove(i),
        None => entries,
    }
}

/// The entries without the one for `key`; the last entry takes its place.
pub open spec fn swap_removed<T>(entries: Seq<(KeyView, T)>, key: KeyView) -> Seq<(KeyView, T)> {
    match position(entries, key) {
        Some(i) => if i == entries.len() - 1 {
            entries.drop_last()
        } else {
            entries.update(i, entries.last()).drop_last()
        },
        None => entries,
    }
}

/// Whether no key occurs twice.
pub open spec fn distinct_keys<T>(entries: Seq<(KeyView, T)>) -> bool {
    forall|i: int, j: int| 0 <= i < j < entries.len() ==> entries[i].0 != entries[j].0
}

/// `IndexMap::new`: a map without entries.
#[verifier::external_body]
pub(crate) fn index_new() -> (m: IndexMap<(String, String, String), usize>)
    ensures
        index_entries(m).len() == 0,
{
    IndexMap::new()
}

/// `IndexMap::len`: the number of entries.
#[verifier::external_body]
pub(crate) fn index_len(m: &IndexMap<(String, String, String), usize>) -> (n: usize)
    ensures
        n == index_entries(*m).len(),
{
    m.len()
}

/// `IndexMap::get`: the number kept for the key, if the map has the key.
#[verifier::external_body]
pub(crate) fn index_get(m: &IndexMap<(String, String, String), usize>, key: &FunctionAccessKey) -> (r:
    Option<usize>)
    ensures
        r == lookup(index_entries(*m), key@),
{
    m.get(
        &(key.module_name.clone(), key.function_name.clone(), key.variant_name.clone()),
    ).copied()
}

/// `IndexMap::insert`: where the map has the key, the key stays in its place
/// and the new number replaces the old one, which is returned; where it has
/// not, the entry is added last in order.
#[verifier::external_body]
pub(crate) fn index_insert(
    m: &mut IndexMap<(String, String, String), usize>,
    key: &FunctionAccessKey,
    value: usize,
) -> (r: Option<usize>)
    ensures
        r == lookup(index_entries(*old(m)), key@),
        index_entries(*final(m)) == inserted(index_entries(*old(m)), key@, value),
{
    m.insert(
        (key.module_name.clone(), key.function_name.clone(), key.variant_name.clone()),
        value,
    )
}

/// `IndexMap::shift_remove`: the entry of the key leaves the map, and the
/// entries behind it move up by one, in their order. What was kept for the
/// key is returned.
#[verifier::external_body]
pub(crate) fn index_shift_remove(
    m: &mut IndexMap<(String, String, String), usize>,
    key: &FunctionAccessKey,
) -> (r: Option<usize>)
    ensures
        r == lookup(index_entries(*old(m)), key@),
        index_entries(*final(m)) == shift_removed(index_entries(*old(m)), key@),
{
    m.shift_remove(
        &(key.module_name.clone(), key.function_name.clone(), key.variant_name.clone()),
    )
}

/// `IndexMap::swap_remove`: the entry of the key leaves the map, and the
/// last entry takes its place. What was kept for the key is returned.
#[verifier::external_body]
pub(crate) fn index_swap_remove(
    m: &mut IndexMap<(String, String, String), usize>,
    key: &FunctionAccessKey,
) -> (r: Option<usize>)
    ensures
        r == lookup(index_entries(*old(m)), key@),
        index_entries(*final(m)) == swap_removed(index_entries(*old(m)), key@),
{
    m.swap_remove(
        &(key.module_name.clone(), key.function_name.clone(), key.variant_name.clone()),
    )
}

/// `IndexMap::get_index`: the entry at a position in the order of the map,
/// if the map has that many entries.
#[verifier::external_body]
pub(crate) fn index_entry_at(m: &IndexMap<(String, String, String), usize>, at: usize) -> (r:
    Option<(FunctionAccessKey, usize)>)
    ensures
        match r {
            Some(entry) => at < index_entries(*m).len() && (entry.0@, entry.1) == index_entries(
                *m,
            )[at as int],
            None => at >= index_entries(*m).len(),
        },
{
    m.get_index(at).map(
        |(k, v)|
            (
                FunctionAccessKey {
                    module_name: k.0.clone(),
                    function_name: k.1.clone(),
                    variant_name: k.2.clone(),
                },
                *v,
            ),
    )
}

proof fn lemma_position_bounds<T>(entries: Seq<(KeyView, T)>, key: KeyView, upto: nat)
    requires
        upto <= entries.len(),
    ensures
        match position_of(entries, key, upto) {
            Some(i) => 0 <= i < upto && entries[i].0 == key && forall|j: int|
                0 <= j < i ==> (#[trigger] entries[j]).0 != key,
            None => forall|j: int| 0 <= j < upto ==> (#[trigger] entries[j]).0 != key,
        },
    decreases upto,
{
    if upto > 0 {
        lemma_position_bounds(entries, key, (upto - 1) as nat);
    }
}

/// The position of a key is a position of the entries, the key stands
/// there, and it stands nowhere before.
pub proof fn lemma_position<T>(entries: Seq<(KeyView, T)>, key: KeyView)
    ensures
        match position(entries, key) {
            Some(i) => 0 <= i < entries.len() && entries[i].0 == key && forall|j: int|
                0 <= j < i ==> (#[trigger] entries[j]).0 != key,
            None => forall|j: int| 0 <= j < entries.len() ==> (#[trigger] entries[j]).0 != key,
        },
{
    lemma_position_bounds(entries, key, entries.len());
}

/// The position of a key depends on the keys alone.
pub proof fn lemma_position_same_keys<T, U>(a: Seq<(KeyView, T)>, b: Seq<(KeyView, U)>, key: KeyView)
    requires
        a.len() == b.len(),
        forall|i: int| 0 <= i < a.len() ==> (#[trigger] a[i]).0 == b[i].0,
    ensures
        position(a, key) == position(b, key),
{
    lemma_position(a, key);
    lemma_position(b, key);
    match position(a, key) {
        Some(i) => {
            assert(b[i].0 == key);
            match position(b, key) {
                Some(j) => {
                    if j < i {
                        assert(a[j].0 == b[j].0);
                    }
                    if i < j {
                        assert(a[i].0 == b[i].0);
                    }
                },
                None => {
                    assert(a[i].0 == b[i].0);
                },
            }
        },
        None => {
            match position(b, key) {
                Some(j) => {
                    assert(a[j].0 == b[j].0);
                },
                None => {},
            }
        },
    }
}

/// A map from function names to values that keeps the order in which the
/// names came in. An `IndexMap` holds the names and, for each, the place of
/// its value in a list of values.
pub struct KeyedMap<V> {
    index: IndexMap<(String, String, String), usize>,
    values: Vec<V>,
}

impl<V: View> View for KeyedMap<V> {
    type V = Seq<(KeyView, V::V)>;

    closed spec fn view(&self) -> Seq<(KeyView, V::V)> {
        Seq::new(
            index_entries(self.index).len(),
            |i: int| (index_entries(self.index)[i].0, self.values@[index_entries(self.index)[i].1 as int]@),
        )
    }
}

impl<V: View> KeyedMap<V> {
    /// That every name has a value of its own, and no name occurs twice.
    pub closed spec fn wf(&self) -> bool {
        let entries = index_entries(self.index);
        &&& forall|i: int| 0 <= i < entries.len() ==> (#[trigger] entries[i]).1 < self.values@.len()
        &&& forall|i: int, j: int|
            0 <= i < j < entries.len() ==> (#[trigger] entries[i]).0 != (#[trigger] entries[j]).0
                && entries[i].1 != entries[j].1
    }

    pub fn new() -> (r: Self)
        ensures
            r.wf(),
            r@.len() == 0,
    {
        KeyedMap { index: index_new(), values: Vec::new() }
    }

    pub fn len(&self) -> (n: usize)
        ensures
            n == self@.len(),
    {
        index_len(&self.index)
    }

    /// No name occurs twice.
    pub proof fn lemma_distinct(&self)
        requires
            self.wf(),
        ensures
            distinct_keys(self@),
    {
    }

    /// The value kept for a name.
    pub fn get(&self, key: &FunctionAccessKey) -> (r: Option<&V>)
        requires
            self.wf(),
        ensures
            match r {
                Some(v) => lookup(self@, key@) == Some(v@),
                None => lookup(self@, key@).is_none(),
            },
    {
        proof {
            lemma_position_same_keys(index_entries(self.index), self@, key@);
            lemma_position(index_entries(self.index), key@);
        }
        match index_get(&self.index, key) {
            Some(h) => Some(&self.values[h]),
            None => None,
        }
    }

    /// Whether a value is kept for a name.
    pub fn contains_key(&self, key: &FunctionAccessKey) -> (r: bool)
        requires
            self.wf(),
        ensures
            r == position(self@, key@).is_some(),
    {
        proof {
            lemma_position_same_keys(index_entries(self.index), self@, key@);
        }
        index_get(&self.index, key).is_some()
    }

    /// Keeps a value for a name: in the place of the value that was kept for
    /// it before, or else behind every other entry.
    pub fn insert(&mut self, key: &FunctionAccessKey, value: V)
        requires
            old(self).wf(),
        ensures
            final(self).wf(),
            final(self)@ == inserted(old(self)@, key@, value@),
    {
        let ghost before = index_entries(self.index);
        let ghost view_before = self@;
        proof {
            lemma_position_same_keys(before, view_before, key@);
            lemma_position(before, key@);
        }
        let handle = self.values.len();
        self.values.push(value);
        let _ = index_insert(&mut self.index, key, handle);
        proof {
            let after = index_entries(self.index);
            match position(before, key@) {
                Some(i) => {
                    assert(after =~= before.update(i, (key@, handle)));
                    assert forall|a: int, b: int| 0 <= a < b < after.len() implies (
                    #[trigger] after[a]).0 != (#[trigger] after[b]).0 && after[a].1
                        != after[b].1 by {
                        assert(before[a].0 != before[b].0);
                    }
                    assert(self@ =~= view_before.update(i, (key@, value@)));
                },
                None => {
                    assert(after =~= before.push((key@, handle)));
                    assert forall|a: int, b: int| 0 <= a < b < after.len() implies (
                    #[trigger] after[a]).0 != (#[trigger] after[b]).0 && after[a].1
                        != after[b].1 by {
                        if b < before.len() {
                            assert(before[a].0 != before[b].0);
                        } else {
                            assert(before[a].0 != key@);
                        }
                    }
                    assert(self@ =~= view_before.push((key@, value@)));
                },
            }
        }
    }

    /// Forgets a name; the names behind it move up by one.
    pub fn shift_remove(&mut self, key: &FunctionAccessKey)
        requires
            old(self).wf(),
        ensures
            final(self).wf(),
            final(self)@ == shift_removed(old(self)@, key@),
    {
        let ghost before = index_entries(self.index);
        let ghost view_before = self@;
        proof {
            lemma_position_same_keys(before, view_before, key@);
            lemma_position(before, key@);
        }
        let _ = index_shift_remove(&mut self.index, key);
        proof {
            let after = index_entries(self.index);
            match position(before, key@) {
                Some(i) => {
                    assert(after =~= before.remove(i));
                    assert forall|a: int, b: int| 0 <= a < b < after.len() implies (
                    #[trigger] after[a]).0 != (#[trigger] after[b]).0 && after[a].1
                        != after[b].1 by {
                        let a0 = if a < i {
                            a
                        } else {
                            a + 1
                        };
                        let b0 = if b < i {
                            b
                        } else {
                            b + 1
                        };
                        assert(before[a0].0 != before[b0].0);
                    }
                    assert(self@ =~= view_before.remove(i));
                },
                None => {
                    assert(self@ =~= view_before);
                },
            }
        }
    }

    /// Forgets a name; the last name takes its place.
    pub fn remove(&mut self, key: &FunctionAccessKey)
        requires
            old(self).wf(),
        ensures
            final(self).wf(),
            final(self)@ == swap_removed(old(self)@, key@),
    {
        let ghost before = index_entries(self.index);
        let ghost view_before = self@;
        proof {
            lemma_position_same_keys(before, view_before, key@);
            lemma_position(before, key@);
        }
        let _ = index_swap_remove(&mut self.index, key);
        proof {
            let after = index_entries(self.index);
            match position(before, key@) {
                Some(i) => {
                    if i == before.len() - 1 {
                        assert(after =~= before.drop_last());
                        assert forall|a: int, b: int| 0 <= a < b < after.len() implies (
                        #[trigger] after[a]).0 != (#[trigger] after[b]).0 && after[a].1
                            != after[b].1 by {
                            assert(before[a].0 != before[b].0);
                        }
                        assert(self@ =~= view_before.drop_last());
                    } else {
                        assert(after =~= before.update(i, before.last()).drop_last());
                        assert forall|a: int, b: int| 0 <= a < b < after.len() implies (
                        #[trigger] after[a]).0 != (#[trigger] after[b]).0 && after[a].1
                            != after[b].1 by {
                            let a0 = if a == i {
                                before.len() - 1
                            } else {
                                a
                            };
                            let b0 = if b == i {
                                before.len() - 1
                            } else {
                                b
                            };
                            if a0 < b0 {
                                assert(before[a0].0 != before[b0].0);
                            } else {
                                assert(before[b0].0 != before[a0].0);
                            }
                        }
                        assert(self@ =~= view_before.update(i, view_before.last()).drop_last());
                    }
                },
                None => {
                    assert(self@ =~= view_before);
                },
            }
        }
    }

    /// The name at a position in the order of the map.
    pub fn key_at(&self, at: usize) -> (r: FunctionAccessKey)
        requires
            self.wf(),
            at < self@.len(),
        ensures
            r@ == self@[at as int].0,
    {
        match index_entry_at(&self.index, at) {
            Some(entry) => entry.0,
            None => FunctionAccessKey {
                module_name: String::new(),
                function_name: String::new(),
                variant_name: String::new(),
            },
        }
    }

    /// The value at a position in the order of the map.
    pub fn value_at(&self, at: usize) -> (r: &V)
        requires
            self.wf(),
            at < self@.len(),
        ensures
            r@ == self@[at as int].1,
    {
        match index_entry_at(&self.index, at) {
            Some(entry) => {
                assert(index_entries(self.index)[at as int].1 == entry.1);
                &self.values[entry.1]
            },
            None => &self.values[0],
        }
    }
}

} // verus!
