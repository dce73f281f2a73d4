//! A finite set of translation keys.

use vstd::prelude::*;

verus! {

/// The text of each string of `v`, in order.
pub open spec fn texts(v: Seq<String>) -> Seq<Seq<char>> {
    v.map_values(|s: String| s@)
}

/// Appending a string appends its text, and adds that text to the set of texts.
pub proof fn lemma_texts_push(v: Seq<String>, s: String)
    ensures
        texts(v.push(s)) == texts(v).push(s@),
        texts(v.push(s)).to_set() == texts(v).to_set().insert(s@),
{
    assert(texts(v.push(s)) =~= texts(v).push(s@));
    texts(v).lemma_push_to_set_commute(s@);
}

/// A set of translation keys. No key is stored twice, so the number of stored
/// strings is the cardinality of the set.
#[derive(Debug)]
pub struct KeySet {
    keys: Vec<String>,
}

impl View for KeySet {
    type V = Set<Seq<char>>;

    closed spec fn view(&self) -> Set<Seq<char>> {
        texts(self.keys@).to_set()
    }
}

impl KeySet {
    /// No key is stored twice.
    #[verifier::type_invariant]
    pub closed spec fn distinct(self) -> bool {
        texts(self.keys@).no_duplicates()
    }

    /// The empty set.
    pub fn new() -> (s: Self)
        ensures
            s@ == Set::<Seq<char>>::empty(),
    {
        let s = KeySet { keys: Vec::new() };
        assert(s@ =~= Set::<Seq<char>>::empty());
        s
    }

    /// Every set of keys is finite.
    pub proof fn lemma_finite(self)
        ensures
            self@.finite(),
    {
        vstd::seq_lib::seq_to_set_is_finite(texts(self.keys@));
    }

    /// The number of keys in the set.
    pub fn len(&self) -> (n: usize)
        ensures
            n == self@.len(),
    {
        proof {
            use_type_invariant(self);
            texts(self.keys@).unique_seq_to_set();
        }
        self.keys.len()
    }

    /// Whether the set holds no key.
    pub fn is_empty(&self) -> (b: bool)
        ensures
            b == (self@ == Set::<Seq<char>>::empty()),
    {
        let b = self.keys.len() == 0;
        proof {
            if b {
                assert(self@ =~= Set::<Seq<char>>::empty());
            } else {
                assert(texts(self.keys@)[0] == self.keys@[0]@);
                assert(self@.contains(self.keys@[0]@));
            }
        }
        b
    }

    /// Whether `key` is in the set.
    pub fn contains(&self, key: &str) -> (b: bool)
        ensures
            b == self@.contains(key@),
    {
        let wanted = key.to_owned();
        let mut i: usize = 0;
        while i < self.keys.len()
            invariant
                i <= self.keys.len(),
                wanted@ == key@,
                forall|j: int| 0 <= j < i ==> self.keys@[j]@ != key@,
            decreases self.keys.len() - i,
        {
            if self.keys[i] == wanted {
                assert(texts(self.keys@)[i as int] == key@);
                return true;
            }
            i += 1;
        }
        false
    }

    /// The stored keys, in storage order.
    pub closed spec fn keys(self) -> Seq<Seq<char>> {
        texts(self.keys@)
    }

    /// The stored keys are distinct, and are the elements of the set.
    pub proof fn lemma_keys(self)
        requires
            self.distinct(),
        ensures
            self.keys().no_duplicates(),
            self.keys().to_set() == self@,
            self.keys().len() == self@.len(),
    {
        texts(self.keys@).unique_seq_to_set();
    }

    /// The `i`-th key in storage order, if there are that many.
    pub fn key(&self, i: usize) -> (r: Option<&String>)
        ensures
            match r {
                Some(k) => i < self.keys().len() && k@ == self.keys()[i as int] && self@.contains(
                    k@,
                ),
                None => i >= self.keys().len(),
            },
    {
        if i < self.keys.len() {
            assert(texts(self.keys@)[i as int] == self.keys@[i as int]@);
            Some(&self.keys[i])
        } else {
            None
        }
    }

    /// Adds `key` to the set; the result says whether the set did not hold it before.
    pub fn insert(&mut self, key: String) -> (added: bool)
        ensures
            final(self)@ == old(self)@.insert(key@),
            added == !old(self)@.contains(key@),
    {
        if self.contains(key.as_str()) {
            assert(self@ =~= self@.insert(key@));
            false
        } else {
            proof {
                use_type_invariant(&*self);
                lemma_texts_push(self.keys@, key);
            }
            let mut keys = Vec::new();
            std::mem::swap(&mut keys, &mut self.keys);
            keys.push(key);
            self.keys = keys;
            true
        }
    }

    /// Adds every key of `other` to the set.
    pub fn extend(&mut self, other: &KeySet)
        ensures
            final(self)@ == old(self)@.union(other@),
    {
        let mut i: usize = 0;
        while i < other.keys.len()
            invariant
                i <= other.keys.len(),
                self@ == old(self)@.union(texts(other.keys@.take(i as int)).to_set()),
            decreases other.keys.len() - i,
        {
            self.insert(other.keys[i].clone());
            proof {
                let done = other.keys@.take(i as int);
                assert(other.keys@.take(i + 1) =~= done.push(other.keys@[i as int]));
                lemma_texts_push(done, other.keys@[i as int]);
                assert(self@ =~= old(self)@.union(texts(other.keys@.take(i + 1)).to_set()));
            }
            i += 1;
        }
        assert(other.keys@.take(i as int) =~= other.keys@);
    }

    /// Whether every key of the set is in `other`.
    pub fn is_subset_of(&self, other: &KeySet) -> (b: bool)
        ensures
            b == self@.subset_of(other@),
    {
        let mut i: usize = 0;
        while i < self.keys.len()
            invariant
                i <= self.keys.len(),
                forall|j: int| 0 <= j < i ==> other@.contains(#[trigger] self.keys@[j]@),
            decreases self.keys.len() - i,
        {
            if !other.contains(self.keys[i].as_str()) {
                assert(texts(self.keys@)[i as int] == self.keys@[i as int]@);
                assert(self@.contains(self.keys@[i as int]@));
                return false;
            }
            i += 1;
        }
        assert forall|k: Seq<char>| self@.contains(k) implies other@.contains(k) by {
            let j = choose|j: int| 0 <= j < texts(self.keys@).len() && texts(self.keys@)[j] == k;
            assert(texts(self.keys@)[j] == self.keys@[j]@);
        }
        true
    }
}

impl Clone for KeySet {
    fn clone(&self) -> (r: Self)
        ensures
            r@ == self@,
    {
        let mut r = KeySet::new();
        r.extend(self);
        assert(r@ =~= self@);
        r
    }
}

impl PartialEq for KeySet {
    /// Two sets are equal when they hold the same keys.
    fn eq(&self, other: &Self) -> (b: bool) {
        let same_len = self.len() == other.len();
        let within = self.is_subset_of(other);
        proof {
            self.lemma_finite();
            other.lemma_finite();
            if same_len && within {
                vstd::set_lib::lemma_subset_equality(self@, other@);
            }
        }
        same_len && within
    }
}

impl vstd::std_specs::cmp::PartialEqSpecImpl for KeySet {
    open spec fn obeys_eq_spec() -> bool {
        true
    }

    open spec fn eq_spec(&self, other: &Self) -> bool {
        self@ == other@
    }
}

} // verus!
