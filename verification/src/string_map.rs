//! A finite map keyed by strings.

use vstd::prelude::*;

verus! {

/// The name of each entry, in order.
pub open spec fn names<V>(entries: Seq<(String, V)>) -> Seq<Seq<char>> {
    entries.map_values(|e: (String, V)| e.0@)
}

/// The map that a list of entries with distinct names stands for.
pub open spec fn entries_map<V>(entries: Seq<(String, V)>) -> Map<Seq<char>, V> {
    Map::new(
        |k: Seq<char>| names(entries).contains(k),
        |k: Seq<char>| entries[names(entries).index_of(k)].1,
    )
}

/// With distinct names, each entry is found under its name.
pub proof fn lemma_entry_found<V>(entries: Seq<(String, V)>, i: int)
    requires
        names(entries).no_duplicates(),
        0 <= i < entries.len(),
    ensures
        entries_map(entries).contains_key(entries[i].0@),
        entries_map(entries)[entries[i].0@] == entries[i].1,
{
    let ns = names(entries);
    assert(ns[i] == entries[i].0@);
    let j = ns.index_of(entries[i].0@);
    assert(0 <= j < ns.len() && ns[j] == ns[i]);
}

/// A map is the one that the entries stand for when it holds each entry under
/// its name and nothing else.
pub proof fn lemma_entries_map_is<V>(entries: Seq<(String, V)>, m: Map<Seq<char>, V>)
    requires
        names(entries).no_duplicates(),
        forall|i: int|
            0 <= i < entries.len() ==> m.contains_key(#[trigger] entries[i].0@) && m[entries[i].0@]
                == entries[i].1,
        forall|k: Seq<char>| m.contains_key(k) ==> names(entries).contains(k),
    ensures
        entries_map(entries) == m,
{
    let ns = names(entries);
    assert forall|k: Seq<char>| entries_map(entries).contains_key(k) implies m.contains_key(
        k,
    ) && m[k] == entries_map(entries)[k] by {
        let j = ns.index_of(k);
        assert(ns[j] == entries[j].0@);
    }
    assert(entries_map(entries) =~= m);
}

/// The names of the entries are the domain of the map, which is therefore finite.
pub proof fn lemma_entries_map_dom<V>(entries: Seq<(String, V)>)
    ensures
        entries_map(entries).dom() == names(entries).to_set(),
        entries_map(entries).dom().finite(),
{
    assert(entries_map(entries).dom() =~= names(entries).to_set());
    vstd::seq_lib::seq_to_set_is_finite(names(entries));
}

/// A map from strings to values. No name is stored twice.
#[derive(Debug)]
pub struct StringMap<V> {
    pub(crate) entries: Vec<(String, V)>,
}

impl<V> View for StringMap<V> {
    type V = Map<Seq<char>, V>;

    closed spec fn view(&self) -> Map<Seq<char>, V> {
        entries_map(self.entries@)
    }
}

impl<V> StringMap<V> {
    /// No name is stored twice.
    #[verifier::type_invariant]
    pub closed spec fn distinct(self) -> bool {
        names(self.entries@).no_duplicates()
    }

    /// The names of the entries, in storage order.
    pub closed spec fn keys(self) -> Seq<Seq<char>> {
        names(self.entries@)
    }

    /// The model of the map is the one its entries stand for.
    pub(crate) proof fn lemma_view(self)
        ensures
            self@ == entries_map(self.entries@),
            self.keys() == names(self.entries@),
            self.distinct() == names(self.entries@).no_duplicates(),
    {
    }

    /// The stored names are distinct, and are the domain of the map.
    pub proof fn lemma_keys(self)
        requires
            self.distinct(),
        ensures
            self.keys().no_duplicates(),
            self.keys().to_set() == self@.dom(),
            self@.dom().finite(),
            self.keys().len() == self@.len(),
    {
        lemma_entries_map_dom(self.entries@);
        names(self.entries@).unique_seq_to_set();
    }

    /// The empty map.
    pub fn new() -> (m: Self)
        ensures
            m@ == Map::<Seq<char>, V>::empty(),
            m.keys() == Seq::<Seq<char>>::empty(),
    {
        let m = StringMap { entries: Vec::new() };
        assert(m@ =~= Map::<Seq<char>, V>::empty());
        assert(m.keys() =~= Seq::<Seq<char>>::empty());
        m
    }

    /// The number of entries.
    pub fn len(&self) -> (n: usize)
        ensures
            n == self@.len(),
            n == self.keys().len(),
    {
        proof {
            use_type_invariant(self);
            self.lemma_keys();
        }
        self.entries.len()
    }

    /// The index at which `key` is stored, if it is.
    fn position(&self, key: &str) -> (r: Option<usize>)
        ensures
            match r {
                Some(i) => i < self.entries.len() && self.entries[i as int].0@ == key@,
                None => !names(self.entries@).contains(key@),
            },
    {
        let wanted = key.to_owned();
        let mut i: usize = 0;
        while i < self.entries.len()
            invariant
                i <= self.entries.len(),
                wanted@ == key@,
                forall|j: int| 0 <= j < i ==> self.entries@[j].0@ != key@,
            decreases self.entries.len() - i,
        {
            if self.entries[i].0 == wanted {
                return Some(i);
            }
            i += 1;
        }
        assert forall|j: int| 0 <= j < names(self.entries@).len() implies names(
            self.entries@,
        )[j] != key@ by {
            assert(names(self.entries@)[j] == self.entries@[j].0@);
        }
        None
    }

    /// The value stored under `key`, if there is one.
    pub fn get(&self, key: &str) -> (r: Option<&V>)
        ensures
            match r {
                Some(v) => self@.contains_key(key@) && *v == self@[key@],
                None => !self@.contains_key(key@),
            },
    {
        match self.position(key) {
            Some(i) => {
                proof {
                    use_type_invariant(self);
                    lemma_entry_found(self.entries@, i as int);
                }
                Some(&self.entries[i].1)
            },
            None => None,
        }
    }

    /// Whether a value is stored under `key`.
    pub fn contains_key(&self, key: &str) -> (b: bool)
        ensures
            b == self@.contains_key(key@),
    {
        self.get(key).is_some()
    }

    /// The `i`-th entry in storage order, if there are that many.
    pub fn entry(&self, i: usize) -> (r: Option<(&String, &V)>)
        ensures
            match r {
                Some(e) => i < self.keys().len() && e.0@ == self.keys()[i as int]
                    && self@.contains_key(e.0@) && *e.1 == self@[e.0@],
                None => i >= self.keys().len(),
            },
    {
        if i < self.entries.len() {
            proof {
                use_type_invariant(self);
                lemma_entry_found(self.entries@, i as int);
                assert(names(self.entries@)[i as int] == self.entries@[i as int].0@);
            }
            Some((&self.entries[i].0, &self.entries[i].1))
        } else {
            None
        }
    }

    /// Stores `value` under `key`, and returns the value that was stored there before.
    pub fn insert(&mut self, key: String, value: V) -> (prev: Option<V>)
        ensures
            final(self)@ == old(self)@.insert(key@, value),
            prev == (if old(self)@.contains_key(key@) {
                Some(old(self)@[key@])
            } else {
                None::<V>
            }),
    {
        proof {
            use_type_invariant(&*self);
        }
        let found = self.position(key.as_str());
        let mut entries = Vec::new();
        std::mem::swap(&mut entries, &mut self.entries);
        let ghost before = entries@;
        let prev = match found {
            Some(i) => {
                proof {
                    lemma_entry_found(before, i as int);
                }
                Some(entries.swap_remove(i).1)
            },
            None => None,
        };
        let ghost rest = entries@;
        entries.push((key, value));
        proof {
            let after = entries@;
            let target = entries_map(before).insert(key@, value);
            assert forall|j: int| 0 <= j < rest.len() implies (#[trigger] rest[j]).0@ != key@
                && exists|a: int| 0 <= a < before.len() && before[a] == rest[j] by {
                lemma_rest_from_before(before, rest, found, j);
                let a = choose|a: int|
                    0 <= a < before.len() && before[a] == rest[j] && (found is Some ==> a
                        != found->0);
                assert(names(before)[a] == before[a].0@);
                if found is Some {
                    assert(names(before)[found->0 as int] == before[found->0 as int].0@);
                }
            }
            assert forall|a: int, b: int|
                0 <= a < after.len() && 0 <= b < after.len() && a != b implies names(after)[a]
                != names(after)[b] by {
                assert(names(after)[a] == after[a].0@);
                assert(names(after)[b] == after[b].0@);
                if a < rest.len() && b < rest.len() {
                    lemma_rest_distinct(before, rest, found, a, b);
                } else if a < rest.len() {
                    assert(after[a] == rest[a]);
                } else if b < rest.len() {
                    assert(after[b] == rest[b]);
                }
            }
            assert forall|j: int| 0 <= j < after.len() implies target.contains_key(
                #[trigger] after[j].0@,
            ) && target[after[j].0@] == after[j].1 by {
                if j < rest.len() {
                    assert(after[j] == rest[j]);
                    let a = choose|a: int| 0 <= a < before.len() && before[a] == rest[j];
                    lemma_entry_found(before, a);
                }
            }
            assert forall|k: Seq<char>| target.contains_key(k) implies names(after).contains(
                k,
            ) by {
                if k == key@ {
                    assert(names(after)[after.len() - 1] == key@);
                } else {
                    let a = names(before).index_of(k);
                    assert(names(before)[a] == before[a].0@);
                    lemma_kept(before, rest, found, a);
                    let j = choose|j: int| 0 <= j < rest.len() && rest[j] == before[a];
                    assert(after[j] == rest[j]);
                    assert(names(after)[j] == k);
                }
            }
            lemma_entries_map_is(after, target);
        }
        self.entries = entries;
        prev
    }

    /// Removes the entry stored under `key`, and returns its value.
    pub fn remove(&mut self, key: &str) -> (prev: Option<V>)
        ensures
            final(self)@ == old(self)@.remove(key@),
            prev == (if old(self)@.contains_key(key@) {
                Some(old(self)@[key@])
            } else {
                None::<V>
            }),
    {
        proof {
            use_type_invariant(&*self);
        }
        let found = self.position(key);
        let mut entries = Vec::new();
        std::mem::swap(&mut entries, &mut self.entries);
        let ghost before = entries@;
        let prev = match found {
            Some(i) => {
                proof {
                    lemma_entry_found(before, i as int);
                }
                Some(entries.swap_remove(i).1)
            },
            None => None,
        };
        proof {
            let rest = entries@;
            let target = entries_map(before).remove(key@);
            assert forall|a: int, b: int|
                0 <= a < rest.len() && 0 <= b < rest.len() && a != b implies names(rest)[a]
                != names(rest)[b] by {
                assert(names(rest)[a] == rest[a].0@);
                assert(names(rest)[b] == rest[b].0@);
                lemma_rest_distinct(before, rest, found, a, b);
            }
            assert forall|j: int| 0 <= j < rest.len() implies target.contains_key(
                #[trigger] rest[j].0@,
            ) && target[rest[j].0@] == rest[j].1 by {
                lemma_rest_from_before(before, rest, found, j);
                let a = choose|a: int|
                    0 <= a < before.len() && before[a] == rest[j] && (found is Some ==> a
                        != found->0);
                lemma_entry_found(before, a);
                assert(names(before)[a] == before[a].0@);
                if found is Some {
                    assert(names(before)[found->0 as int] == before[found->0 as int].0@);
                }
            }
            assert forall|k: Seq<char>| target.contains_key(k) implies names(rest).contains(
                k,
            ) by {
                let a = names(before).index_of(k);
                assert(names(before)[a] == before[a].0@);
                lemma_kept(before, rest, found, a);
                let j = choose|j: int| 0 <= j < rest.len() && rest[j] == before[a];
                assert(names(rest)[j] == k);
            }
            lemma_entries_map_is(rest, target);
        }
        self.entries = entries;
        prev
    }
}

/// What is left of `before` once the entry at `found`, if any, has been swapped
/// out for the last one.
spec fn is_rest_of<V>(
    before: Seq<(String, V)>,
    rest: Seq<(String, V)>,
    found: Option<usize>,
) -> bool {
    match found {
        Some(i) => i < before.len() && rest == before.update(i as int, before.last()).drop_last(),
        None => rest == before,
    }
}

/// Every entry that is left was there before, at an index other than the removed one.
proof fn lemma_rest_from_before<V>(
    before: Seq<(String, V)>,
    rest: Seq<(String, V)>,
    found: Option<usize>,
    j: int,
)
    requires
        is_rest_of(before, rest, found),
        0 <= j < rest.len(),
    ensures
        exists|a: int|
            0 <= a < before.len() && before[a] == rest[j] && (found is Some ==> a != found->0),
{
    if found is Some && j == found->0 {
        assert(rest[j] == before[before.len() - 1]);
    } else {
        assert(rest[j] == before[j]);
    }
}

/// Two entries that are left have different names.
proof fn lemma_rest_distinct<V>(
    before: Seq<(String, V)>,
    rest: Seq<(String, V)>,
    found: Option<usize>,
    a: int,
    b: int,
)
    requires
        names(before).no_duplicates(),
        is_rest_of(before, rest, found),
        0 <= a < rest.len(),
        0 <= b < rest.len(),
        a != b,
    ensures
        rest[a].0@ != rest[b].0@,
{
    let last = before.len() - 1;
    let ia = if found is Some && a == found->0 {
        last
    } else {
        a
    };
    let ib = if found is Some && b == found->0 {
        last
    } else {
        b
    };
    assert(rest[a] == before[ia]);
    assert(rest[b] == before[ib]);
    assert(names(before)[ia] == before[ia].0@);
    assert(names(before)[ib] == before[ib].0@);
}

/// Every entry but the removed one is left.
proof fn lemma_kept<V>(
    before: Seq<(String, V)>,
    rest: Seq<(String, V)>,
    found: Option<usize>,
    a: int,
)
    requires
        is_rest_of(before, rest, found),
        0 <= a < before.len(),
        found is Some ==> a != found->0,
    ensures
        exists|j: int| 0 <= j < rest.len() && rest[j] == before[a],
{
    if found is Some {
        let i = found->0 as int;
        if a == before.len() - 1 {
            assert(rest[i] == before[a]);
        } else {
            assert(rest[a] == before[a]);
        }
    } else {
        assert(rest[a] == before[a]);
    }
}

} // verus!
