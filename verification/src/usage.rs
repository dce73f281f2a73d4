//! Usage maps: which translation keys each owner references.
//!
//! A usage map is merged into another by set union, owner by owner. Merging
//! never removes an owner or a key.

use crate::key_set::KeySet;
use crate::string_map::StringMap;
use vstd::prelude::*;

verus! {

/// The model of a usage map: the set of keys of each owner.
pub open spec fn usage_view(m: Map<Seq<char>, KeySet>) -> Map<Seq<char>, Set<Seq<char>>> {
    m.map_values(|keys: KeySet| keys@)
}

/// The keys of `owner`; none where the map has no entry for it.
pub open spec fn keys_of(usage: Map<Seq<char>, Set<Seq<char>>>, owner: Seq<char>) -> Set<
    Seq<char>,
> {
    if usage.contains_key(owner) {
        usage[owner]
    } else {
        Set::empty()
    }
}

/// The union of two usage maps: the owners of both, each with the keys it has
/// in either.
pub open spec fn merge(
    target: Map<Seq<char>, Set<Seq<char>>>,
    incoming: Map<Seq<char>, Set<Seq<char>>>,
) -> Map<Seq<char>, Set<Seq<char>>> {
    Map::new(
        |owner: Seq<char>| target.contains_key(owner) || incoming.contains_key(owner),
        |owner: Seq<char>| keys_of(target, owner).union(keys_of(incoming, owner)),
    )
}

/// The usage map with `keys` added to the keys of `owner`.
pub open spec fn record(
    usage: Map<Seq<char>, Set<Seq<char>>>,
    owner: Seq<char>,
    keys: Set<Seq<char>>,
) -> Map<Seq<char>, Set<Seq<char>>> {
    usage.insert(owner, keys_of(usage, owner).union(keys))
}

/// Adding keys to one owner is merging a map that holds only that owner.
pub proof fn lemma_record_is_merge(
    usage: Map<Seq<char>, Set<Seq<char>>>,
    owner: Seq<char>,
    keys: Set<Seq<char>>,
)
    ensures
        record(usage, owner, keys) == merge(usage, map![owner => keys]),
{
    let single = map![owner => keys];
    assert forall|o: Seq<char>| #[trigger] merge(usage, single).contains_key(o) implies record(
        usage,
        owner,
        keys,
    )[o] == merge(usage, single)[o] by {
        if o != owner {
            assert(keys_of(usage, o).union(Set::empty()) =~= keys_of(usage, o));
        }
    }
    assert(record(usage, owner, keys) =~= merge(usage, single));
}

/// Adding keys to an owner removes no owner and no key.
pub proof fn lemma_record_grows(
    usage: Map<Seq<char>, Set<Seq<char>>>,
    owner: Seq<char>,
    keys: Set<Seq<char>>,
)
    ensures
        record(usage, owner, keys).contains_key(owner),
        keys.subset_of(record(usage, owner, keys)[owner]),
        forall|o: Seq<char>| #[trigger]
            usage.contains_key(o) ==> record(usage, owner, keys).contains_key(o) && usage[o].subset_of(
                record(usage, owner, keys)[o],
            ),
{
}

/// Merging is commutative.
pub proof fn lemma_merge_commutative(
    a: Map<Seq<char>, Set<Seq<char>>>,
    b: Map<Seq<char>, Set<Seq<char>>>,
)
    ensures
        merge(a, b) == merge(b, a),
{
    assert forall|o: Seq<char>| #[trigger] merge(a, b).contains_key(o) implies merge(a, b)[o]
        == merge(b, a)[o] by {
        assert(keys_of(a, o).union(keys_of(b, o)) =~= keys_of(b, o).union(keys_of(a, o)));
    }
    assert(merge(a, b) =~= merge(b, a));
}

/// Merging is associative.
pub proof fn lemma_merge_associative(
    a: Map<Seq<char>, Set<Seq<char>>>,
    b: Map<Seq<char>, Set<Seq<char>>>,
    c: Map<Seq<char>, Set<Seq<char>>>,
)
    ensures
        merge(merge(a, b), c) == merge(a, merge(b, c)),
{
    assert forall|o: Seq<char>| #[trigger] merge(merge(a, b), c).contains_key(o) implies merge(
        merge(a, b),
        c,
    )[o] == merge(a, merge(b, c))[o] by {
        assert(keys_of(a, o).union(keys_of(b, o)).union(keys_of(c, o)) =~= keys_of(a, o).union(
            keys_of(b, o).union(keys_of(c, o)),
        ));
        assert(keys_of(merge(a, b), o) =~= keys_of(a, o).union(keys_of(b, o)));
        assert(keys_of(merge(b, c), o) =~= keys_of(b, o).union(keys_of(c, o)));
    }
    assert(merge(merge(a, b), c) =~= merge(a, merge(b, c)));
}

/// Merging is idempotent.
pub proof fn lemma_merge_idempotent(a: Map<Seq<char>, Set<Seq<char>>>)
    ensures
        merge(a, a) == a,
{
    assert forall|o: Seq<char>| #[trigger] a.contains_key(o) implies merge(a, a)[o] == a[o] by {
        assert(a[o].union(a[o]) =~= a[o]);
    }
    assert(merge(a, a) =~= a);
}

/// Merging never removes an owner or a key.
pub proof fn lemma_merge_grows(
    target: Map<Seq<char>, Set<Seq<char>>>,
    incoming: Map<Seq<char>, Set<Seq<char>>>,
)
    ensures
        forall|owner: Seq<char>| #[trigger]
            target.contains_key(owner) ==> merge(target, incoming).contains_key(owner)
                && target[owner].subset_of(merge(target, incoming)[owner]),
        forall|owner: Seq<char>| #[trigger]
            incoming.contains_key(owner) ==> merge(target, incoming).contains_key(owner)
                && incoming[owner].subset_of(merge(target, incoming)[owner]),
{
}

/// The empty map is neutral for merging.
pub proof fn lemma_merge_empty(a: Map<Seq<char>, Set<Seq<char>>>)
    ensures
        merge(a, Map::empty()) == a,
        merge(Map::empty(), a) == a,
{
    assert forall|o: Seq<char>| #[trigger] a.contains_key(o) implies merge(a, Map::empty())[o]
        == a[o] && merge(Map::empty(), a)[o] == a[o] by {
        assert(a[o].union(Set::empty()) =~= a[o]);
        assert(Set::<Seq<char>>::empty().union(a[o]) =~= a[o]);
    }
    assert(merge(a, Map::empty()) =~= a);
    assert(merge(Map::empty(), a) =~= a);
}

/// Adds `keys` to the keys of `owner`, with a new entry where it has none.
pub fn record_usage(usage: &mut StringMap<KeySet>, owner: &str, keys: &KeySet)
    ensures
        usage_view(final(usage)@) == record(usage_view(old(usage)@), owner@, keys@),
{
    let mut set = match usage.remove(owner) {
        Some(set) => set,
        None => KeySet::new(),
    };
    assert(set@ == keys_of(usage_view(old(usage)@), owner@));
    set.extend(keys);
    usage.insert(owner.to_owned(), set);
    assert(usage_view(usage@) =~= record(usage_view(old(usage)@), owner@, keys@));
}

/// The usage of a whole run, into which the usage of each module is merged.
#[derive(Debug)]
pub struct TranslationUsage {
    pub data: StringMap<KeySet>,
}

impl View for TranslationUsage {
    type V = Map<Seq<char>, Set<Seq<char>>>;

    open spec fn view(&self) -> Map<Seq<char>, Set<Seq<char>>> {
        usage_view(self.data@)
    }
}

/// The entries of `usage` under the first `n` of `names`.
pub open spec fn first_entries(
    usage: Map<Seq<char>, Set<Seq<char>>>,
    names: Seq<Seq<char>>,
    n: int,
) -> Map<Seq<char>, Set<Seq<char>>> {
    usage.restrict(names.take(n).to_set())
}

impl TranslationUsage {
    /// No usage.
    pub fn new() -> (usage: Self)
        ensures
            usage@ == Map::<Seq<char>, Set<Seq<char>>>::empty(),
    {
        let usage = TranslationUsage { data: StringMap::new() };
        assert(usage@ =~= Map::<Seq<char>, Set<Seq<char>>>::empty());
        usage
    }

    /// Merges `target` into this usage: each owner of `target` gets the keys it
    /// has there, beside those it has here.
    pub fn extend(&mut self, target: StringMap<KeySet>)
        ensures
            final(self)@ == merge(old(self)@, usage_view(target@)),
    {
        let ghost incoming = usage_view(target@);
        let ghost names = target.keys();
        let n = target.len();
        let mut i: usize = 0;
        proof {
            use_type_invariant(&target);
            target.lemma_keys();
            assert(first_entries(incoming, names, 0) =~= Map::empty());
            lemma_merge_empty(self@);
        }
        while i < n
            invariant
                i <= n,
                n == names.len(),
                names == target.keys(),
                names.no_duplicates(),
                names.to_set() == target@.dom(),
                incoming == usage_view(target@),
                self@ == merge(old(self)@, first_entries(incoming, names, i as int)),
            decreases n - i,
        {
            let ghost before = self@;
            match target.entry(i) {
                Some((owner, keys)) => {
                    record_usage(&mut self.data, owner.as_str(), keys);
                    proof {
                        let done = first_entries(incoming, names, i as int);
                        let next = first_entries(incoming, names, i + 1);
                        assert(names.take(i + 1) =~= names.take(i as int).push(names[i as int]));
                        assert(!names.take(i as int).contains(owner@));
                        assert(!done.contains_key(owner@));
                        names.take(i as int).lemma_push_to_set_commute(names[i as int]);
                        assert(incoming.contains_key(owner@) && incoming[owner@] == keys@);
                        assert(next =~= done.insert(owner@, keys@));
                        assert forall|o: Seq<char>| #[trigger]
                            merge(old(self)@, next).contains_key(o) implies record(
                            before,
                            owner@,
                            keys@,
                        )[o] == merge(old(self)@, next)[o] by {
                            if o == owner@ {
                                assert(keys_of(before, o) =~= keys_of(old(self)@, o));
                            }
                        }
                        assert(record(before, owner@, keys@) =~= merge(old(self)@, next));
                    }
                },
                None => {},
            }
            i += 1;
        }
        proof {
            assert(names.take(n as int) =~= names);
            assert(first_entries(incoming, names, n as int) =~= incoming);
        }
    }
}

} // verus!
