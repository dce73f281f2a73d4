//! The label tree: the shape of one `translate({...})` literal.

use crate::key_set::KeySet;
use crate::string_map::{entries_map, lemma_entry_found, names, StringMap};
use vstd::prelude::*;

verus! {

/// The model of a leaf value: a translation key, or a nested tree.
pub enum ValueView {
    String(Seq<char>),
    NestedLabels(LabelsView),
}

/// The model of a label tree: a finite map from property names to leaf values,
/// or, below a computed key, the flat set of every translation key.
pub enum LabelsView {
    Object(Map<Seq<char>, ValueView>),
    Computed(Set<Seq<char>>),
}

impl ValueView {
    /// Whether `key` is this value, or a leaf of the tree that this value is.
    pub open spec fn has_leaf(self, key: Seq<char>) -> bool
        decreases self,
    {
        match self {
            ValueView::String(s) => s == key,
            ValueView::NestedLabels(t) => t.has_leaf(key),
        }
    }
}

impl LabelsView {
    /// Whether `key` is a translation key reachable beneath this tree.
    pub open spec fn has_leaf(self, key: Seq<char>) -> bool
        decreases self,
    {
        match self {
            LabelsView::Computed(keys) => keys.contains(key),
            LabelsView::Object(m) => m.dom().finite() && exists|name: Seq<char>|
                m.contains_key(name) && (#[trigger] m[name]).has_leaf(key),
        }
    }

    /// Every translation key reachable beneath this tree.
    pub open spec fn leaves(self) -> Set<Seq<char>> {
        Set::new(|key: Seq<char>| self.has_leaf(key))
    }
}

/// Why a value is not of the kind that was asked for.
#[derive(Debug, Clone, Copy, PartialEq, Eq, Structural)]
pub enum ShapeError {
    /// A string was asked for, and the value is a nested tree.
    NestedLabels,
    /// A nested tree was asked for, and the value is a string.
    String,
    /// An object was asked for, and the tree is computed.
    Computed,
    /// A computed set was asked for, and the tree is an object.
    Object,
}

impl ShapeError {
    /// The text of the error.
    pub open spec fn text(self) -> Seq<char> {
        match self {
            ShapeError::NestedLabels => "it's a nested labels"@,
            ShapeError::String => "it's a string"@,
            ShapeError::Computed => "it's a computed"@,
            ShapeError::Object => "it's an object"@,
        }
    }

    /// The text of the error.
    pub fn message(&self) -> (text: &'static str)
        ensures
            text@ == self.text(),
    {
        match self {
            ShapeError::NestedLabels => "it's a nested labels",
            ShapeError::String => "it's a string",
            ShapeError::Computed => "it's a computed",
            ShapeError::Object => "it's an object",
        }
    }
}

/// The value of one property of an object-mode tree.
#[derive(Debug)]
pub enum TranslateObjectValue {
    /// A translation key.
    String(String),
    /// The tree of a nested object literal.
    NestedLabels(LABELS),
}

/// A label tree.
#[allow(non_camel_case_types)]
#[derive(Debug)]
pub enum LABELS {
    /// A level with plain keys: each property name with its value.
    Object(StringMap<TranslateObjectValue>),
    /// A level with computed keys: every translation key beneath it.
    Computed(KeySet),
}

/// The model of each value of a map.
pub open spec fn value_views(m: Map<Seq<char>, TranslateObjectValue>) -> Map<
    Seq<char>,
    ValueView,
> {
    m.map_values(|v: TranslateObjectValue| v@)
}

/// The model of the first `n` entries of an object level.
pub closed spec fn entries_view(entries: Seq<(String, TranslateObjectValue)>, n: nat) -> Map<
    Seq<char>,
    ValueView,
>
    decreases entries, n,
{
    if n == 0 || n > entries.len() {
        Map::empty()
    } else {
        entries_view(entries, (n - 1) as nat).insert(entries[n - 1].0@, entries[n - 1].1.view())
    }
}

/// The model of an object level.
pub closed spec fn object_view(m: StringMap<TranslateObjectValue>) -> Map<Seq<char>, ValueView>
    decreases m, 0nat,
{
    entries_view(m.entries@, m.entries@.len())
}

impl View for TranslateObjectValue {
    type V = ValueView;

    open spec fn view(&self) -> ValueView
        decreases self, 0nat,
    {
        match self {
            TranslateObjectValue::String(s) => ValueView::String(s@),
            TranslateObjectValue::NestedLabels(l) => ValueView::NestedLabels(l@),
        }
    }
}

impl View for LABELS {
    type V = LabelsView;

    open spec fn view(&self) -> LabelsView
        decreases self, 0nat,
    {
        match self {
            LABELS::Object(m) => LabelsView::Object(object_view(*m)),
            LABELS::Computed(keys) => LabelsView::Computed(keys@),
        }
    }
}

/// With distinct names, the model of the first `n` entries holds the model of
/// each of them under its name, and nothing else.
proof fn lemma_entries_view(entries: Seq<(String, TranslateObjectValue)>, n: nat)
    requires
        names(entries).no_duplicates(),
        n <= entries.len(),
    ensures
        forall|i: int|
            0 <= i < n ==> entries_view(entries, n).contains_key(#[trigger] entries[i].0@)
                && entries_view(entries, n)[entries[i].0@] == entries[i].1@,
        forall|k: Seq<char>|
            entries_view(entries, n).contains_key(k) ==> exists|i: int|
                0 <= i < n && (#[trigger] entries[i]).0@ == k,
        entries_view(entries, n).dom().finite(),
    decreases n,
{
    if n > 0 {
        lemma_entries_view(entries, (n - 1) as nat);
        let before = entries_view(entries, (n - 1) as nat);
        let last = entries[n - 1];
        assert(entries_view(entries, n) == before.insert(last.0@, last.1@));
        assert forall|i: int| 0 <= i < n implies entries_view(entries, n).contains_key(
            #[trigger] entries[i].0@,
        ) && entries_view(entries, n)[entries[i].0@] == entries[i].1@ by {
            if i < n - 1 {
                assert(names(entries)[i] == entries[i].0@);
                assert(names(entries)[n - 1] == last.0@);
            }
        }
    }
}

/// The model of an object level is the model of each value, under the same names.
pub proof fn lemma_object_view(m: StringMap<TranslateObjectValue>)
    requires
        m.distinct(),
    ensures
        object_view(m) == value_views(m@),
        object_view(m).dom().finite(),
{
    m.lemma_view();
    let entries = m.entries@;
    lemma_entries_view(entries, entries.len());
    assert forall|k: Seq<char>| #[trigger] value_views(m@).contains_key(k) implies object_view(
        m,
    ).contains_key(k) by {
        let i = names(entries).index_of(k);
        assert(names(entries)[i] == entries[i].0@);
    }
    assert forall|k: Seq<char>| #[trigger] object_view(m).contains_key(k) implies value_views(
        m@,
    ).contains_key(k) && value_views(m@)[k] == object_view(m)[k] by {
        let i = choose|i: int| 0 <= i < entries.len() && (#[trigger] entries[i]).0@ == k;
        lemma_entry_found(entries, i);
    }
    assert(object_view(m) =~= value_views(m@));
}

impl TranslateObjectValue {
    /// The translation key, when the value is one.
    pub fn get_string(&self) -> (r: Result<&str, ShapeError>)
        ensures
            match r {
                Ok(s) => self@ == ValueView::String(s@),
                Err(e) => self@ is NestedLabels && e == ShapeError::NestedLabels,
            },
    {
        match self {
            TranslateObjectValue::String(s) => Ok(s.as_str()),
            TranslateObjectValue::NestedLabels(_) => Err(ShapeError::NestedLabels),
        }
    }

    /// The nested tree, when the value is one.
    pub fn get_labels(&self) -> (r: Result<&LABELS, ShapeError>)
        ensures
            match r {
                Ok(l) => self@ == ValueView::NestedLabels(l@),
                Err(e) => self@ is String && e == ShapeError::String,
            },
    {
        match self {
            TranslateObjectValue::String(_) => Err(ShapeError::String),
            TranslateObjectValue::NestedLabels(labels) => Ok(labels),
        }
    }
}

impl LABELS {
    /// The properties of the level, when it has plain keys.
    pub fn get_object(&self) -> (r: Result<&StringMap<TranslateObjectValue>, ShapeError>)
        ensures
            match r {
                Ok(m) => self@ == LabelsView::Object(value_views(m@)) && value_views(
                    m@,
                ).dom().finite(),
                Err(e) => self@ is Computed && e == ShapeError::Computed,
            },
    {
        match self {
            LABELS::Object(m) => {
                proof {
                    use_type_invariant(m);
                    lemma_object_view(*m);
                }
                Ok(m)
            },
            LABELS::Computed(_) => Err(ShapeError::Computed),
        }
    }

    /// The flat set of keys of the level, when it has computed keys.
    pub fn get_computed(&self) -> (r: Result<&KeySet, ShapeError>)
        ensures
            match r {
                Ok(keys) => self@ == LabelsView::Computed(keys@),
                Err(e) => self@ is Object && e == ShapeError::Object,
            },
    {
        match self {
            LABELS::Object(_) => Err(ShapeError::Object),
            LABELS::Computed(keys) => Ok(keys),
        }
    }
}

/// Whether `key` is reachable beneath one of the first `n` entries.
pub closed spec fn entries_have_leaf(
    entries: Seq<(String, TranslateObjectValue)>,
    n: int,
    key: Seq<char>,
) -> bool {
    exists|j: int| 0 <= j < n && j < entries.len() && (#[trigger] entries[j]).1@.has_leaf(key)
}

/// With distinct names, a key is reachable beneath an object level exactly when
/// it is reachable beneath one of its entries.
proof fn lemma_object_leaves(m: StringMap<TranslateObjectValue>, key: Seq<char>)
    requires
        m.distinct(),
    ensures
        LabelsView::Object(object_view(m)).has_leaf(key) == entries_have_leaf(
            m.entries@,
            m.entries@.len() as int,
            key,
        ),
{
    m.lemma_view();
    let entries = m.entries@;
    let dm = object_view(m);
    lemma_entries_view(entries, entries.len());
    if LabelsView::Object(dm).has_leaf(key) {
        let name = choose|name: Seq<char>| dm.contains_key(name) && (#[trigger] dm[name]).has_leaf(key);
        let j = choose|j: int| 0 <= j < entries.len() && (#[trigger] entries[j]).0@ == name;
        assert(dm[entries[j].0@] == entries[j].1@);
        assert(entries[j].1@.has_leaf(key));
    }
    if entries_have_leaf(entries, entries.len() as int, key) {
        let j = choose|j: int|
            0 <= j < entries.len() && j < entries.len() && (#[trigger] entries[j]).1@.has_leaf(key);
        assert(dm.contains_key(entries[j].0@));
        assert(dm[entries[j].0@].has_leaf(key));
    }
}

/// Every translation key reachable beneath an object level.
fn object_leaves(m: &StringMap<TranslateObjectValue>) -> (keys: KeySet)
    ensures
        keys@ == LabelsView::Object(object_view(*m)).leaves(),
    decreases m,
{
    let mut acc = KeySet::new();
    let mut i: usize = 0;
    while i < m.entries.len()
        invariant
            i <= m.entries.len(),
            forall|k: Seq<char>| acc@.contains(k) == entries_have_leaf(m.entries@, i as int, k),
        decreases m.entries.len() - i,
    {
        let ghost before = acc@;
        match &m.entries[i].1 {
            TranslateObjectValue::String(s) => {
                acc.insert(s.clone());
            },
            TranslateObjectValue::NestedLabels(t) => {
                let sub = t.leaves();
                acc.extend(&sub);
            },
        }
        proof {
            let entries = m.entries@;
            assert forall|k: Seq<char>| acc@.contains(k) == entries_have_leaf(
                entries,
                i + 1,
                k,
            ) by {
                assert(acc@.contains(k) == (before.contains(k) || entries[i as int].1@.has_leaf(k)));
                if entries_have_leaf(entries, i + 1, k) {
                    let j = choose|j: int|
                        0 <= j < i + 1 && j < entries.len() && (#[trigger] entries[j]).1@.has_leaf(
                            k,
                        );
                    if j < i {
                        assert(entries_have_leaf(entries, i as int, k));
                    }
                }
                if before.contains(k) {
                    let j = choose|j: int|
                        0 <= j < i && j < entries.len() && (#[trigger] entries[j]).1@.has_leaf(k);
                    assert(entries[j].1@.has_leaf(k));
                }
                if entries[i as int].1@.has_leaf(k) {
                    assert(entries_have_leaf(entries, i + 1, k));
                }
            }
        }
        i += 1;
    }
    proof {
        use_type_invariant(m);
        assert forall|k: Seq<char>| acc@.contains(k) == LabelsView::Object(
            object_view(*m),
        ).leaves().contains(k) by {
            lemma_object_leaves(*m, k);
        }
        assert(acc@ =~= LabelsView::Object(object_view(*m)).leaves());
    }
    acc
}

impl LABELS {
    /// Every translation key reachable beneath this tree.
    pub fn leaves(&self) -> (keys: KeySet)
        ensures
            keys@ == self@.leaves(),
        decreases self,
    {
        match self {
            LABELS::Object(m) => object_leaves(m),
            LABELS::Computed(keys) => {
                let r = keys.clone();
                assert(r@ =~= self@.leaves());
                r
            },
        }
    }
}

/// Whether each entry of `a` has in `b` an entry of the same name and model.
fn object_within(a: &StringMap<TranslateObjectValue>, b: &StringMap<TranslateObjectValue>) -> (r:
    bool)
    ensures
        r == (forall|k: Seq<char>| #[trigger]
            object_view(*a).contains_key(k) ==> object_view(*b).contains_key(k) && object_view(
                *a,
            )[k] == object_view(*b)[k]),
    decreases a,
{
    proof {
        use_type_invariant(a);
        use_type_invariant(b);
        lemma_object_view(*a);
        lemma_object_view(*b);
        a.lemma_view();
    }
    let mut i: usize = 0;
    while i < a.entries.len()
        invariant
            i <= a.entries.len(),
            a.distinct(),
            a@ == entries_map(a.entries@),
            names(a.entries@).no_duplicates(),
            object_view(*a) == value_views(a@),
            object_view(*b) == value_views(b@),
            forall|j: int|
                0 <= j < i ==> object_view(*b).contains_key(#[trigger] a.entries@[j].0@)
                    && object_view(*b)[a.entries@[j].0@] == a.entries@[j].1@,
        decreases a.entries.len() - i,
    {
        proof {
            lemma_entry_found(a.entries@, i as int);
        }
        let same = match b.get(a.entries[i].0.as_str()) {
            None => false,
            Some(v) => a.entries[i].1.same_as(v),
        };
        if !same {
            proof {
                let k = a.entries@[i as int].0@;
                assert(object_view(*a).contains_key(k));
                assert(object_view(*a)[k] == a.entries@[i as int].1@);
                assert(!(object_view(*b).contains_key(k) && object_view(*a)[k] == object_view(
                    *b,
                )[k]));
            }
            return false;
        }
        i += 1;
    }
    proof {
        assert forall|k: Seq<char>| #[trigger]
            object_view(*a).contains_key(k) implies object_view(*b).contains_key(k) && object_view(
            *a,
        )[k] == object_view(*b)[k] by {
            let j = names(a.entries@).index_of(k);
            assert(names(a.entries@)[j] == a.entries@[j].0@);
            lemma_entry_found(a.entries@, j);
        }
    }
    true
}

impl TranslateObjectValue {
    /// Whether the two values have the same model.
    pub fn same_as(&self, other: &TranslateObjectValue) -> (b: bool)
        ensures
            b == (self@ == other@),
        decreases self,
    {
        match self {
            TranslateObjectValue::String(s) => match other {
                TranslateObjectValue::String(t) => *s == *t,
                TranslateObjectValue::NestedLabels(_) => false,
            },
            TranslateObjectValue::NestedLabels(l) => match other {
                TranslateObjectValue::String(_) => false,
                TranslateObjectValue::NestedLabels(m) => l.same_as(m),
            },
        }
    }
}

impl LABELS {
    /// Whether the two trees have the same model.
    pub fn same_as(&self, other: &LABELS) -> (b: bool)
        ensures
            b == (self@ == other@),
        decreases self,
    {
        match self {
            LABELS::Object(a) => match other {
                LABELS::Object(b) => {
                    let same_len = a.len() == b.len();
                    let within = object_within(a, b);
                    proof {
                        use_type_invariant(a);
                        use_type_invariant(b);
                        lemma_object_view(*a);
                        lemma_object_view(*b);
                        let da = object_view(*a);
                        let db = object_view(*b);
                        assert(da.dom() =~= a@.dom());
                        assert(db.dom() =~= b@.dom());
                        if same_len && within {
                            assert(da.dom().subset_of(db.dom()));
                            vstd::set_lib::lemma_subset_equality(da.dom(), db.dom());
                            assert(da =~= db);
                        }
                    }
                    same_len && within
                },
                LABELS::Computed(_) => false,
            },
            LABELS::Computed(a) => match other {
                LABELS::Object(_) => false,
                LABELS::Computed(b) => *a == *b,
            },
        }
    }
}

impl PartialEq for TranslateObjectValue {
    /// Two values are equal when they have the same model.
    fn eq(&self, other: &Self) -> (b: bool) {
        self.same_as(other)
    }
}

impl vstd::std_specs::cmp::PartialEqSpecImpl for TranslateObjectValue {
    open spec fn obeys_eq_spec() -> bool {
        true
    }

    open spec fn eq_spec(&self, other: &Self) -> bool {
        self@ == other@
    }
}

impl PartialEq for LABELS {
    /// Two trees are equal when they have the same model.
    fn eq(&self, other: &Self) -> (b: bool) {
        self.same_as(other)
    }
}

impl vstd::std_specs::cmp::PartialEqSpecImpl for LABELS {
    open spec fn obeys_eq_spec() -> bool {
        true
    }

    open spec fn eq_spec(&self, other: &Self) -> bool {
        self@ == other@
    }
}

} // verus!
