//! Building a label tree from an object literal.
//!
//! One level of a literal has either plain keys or computed keys. The first
//! property decides which; a later property of the other style is an error. A
//! level with computed keys keeps no structure: every string beneath it, at any
//! depth and under any key, goes into one flat set.

use crate::key_set::KeySet;
use crate::labels::{
    lemma_object_view, value_views, LabelsView, TranslateObjectValue, ValueView, LABELS,
};
use crate::string_map::StringMap;
use crate::syntax::{Node, ObjectLit, Prop, PropName, PropOrSpread};
use vstd::prelude::*;

verus! {

/// Why a literal has no label tree.
#[derive(Debug, Clone, Copy, PartialEq, Eq, Structural)]
pub enum ConstructionError {
    /// The literal holds a spread element.
    Spread,
    /// The literal holds a property that is not of the form `key: value`.
    NotKeyValue,
    /// A value is neither a string literal nor an object literal.
    InvalidValue,
    /// A key is neither plain nor computed.
    InvalidKey,
    /// One level holds both plain and computed keys.
    MixedKeys,
}

impl ConstructionError {
    /// The text of the error.
    pub open spec fn text(self) -> Seq<char> {
        match self {
            ConstructionError::Spread => "spread is not allowed"@,
            ConstructionError::NotKeyValue => "only key-value prop is allowed"@,
            ConstructionError::InvalidValue => "value can only be string and object literal"@,
            ConstructionError::InvalidKey => "key can only be string or computed"@,
            ConstructionError::MixedKeys => "mixing string and computed keys is not allowed"@,
        }
    }

    /// The text of the error.
    pub fn message(&self) -> (text: &'static str)
        ensures
            text@ == self.text(),
    {
        match self {
            ConstructionError::Spread => "spread is not allowed",
            ConstructionError::NotKeyValue => "only key-value prop is allowed",
            ConstructionError::InvalidValue => "value can only be string and object literal",
            ConstructionError::InvalidKey => "key can only be string or computed",
            ConstructionError::MixedKeys => "mixing string and computed keys is not allowed",
        }
    }
}

/// The strings that a value adds to a flat set.
pub open spec fn flatten_value(value: Node) -> Result<Set<Seq<char>>, ConstructionError>
    decreases value, 0nat,
{
    match value {
        Node::Str(s) => Ok(set![s@]),
        Node::Object(o) => flatten_props(o.props@, o.props@.len()),
        _ => Err(ConstructionError::InvalidValue),
    }
}

/// The strings that one element of a literal adds to a flat set. The key is not
/// looked at.
pub open spec fn flatten_prop(p: PropOrSpread) -> Result<Set<Seq<char>>, ConstructionError>
    decreases p, 0nat,
{
    match p {
        PropOrSpread::Spread(_) => Err(ConstructionError::Spread),
        PropOrSpread::Prop(Prop::Other(_)) => Err(ConstructionError::NotKeyValue),
        PropOrSpread::Prop(Prop::KeyValue(kv)) => flatten_value(*kv.value),
    }
}

/// The flat set of the first `n` elements of a literal, or the error of the
/// first element that has one.
pub open spec fn flatten_props(props: Seq<PropOrSpread>, n: nat) -> Result<
    Set<Seq<char>>,
    ConstructionError,
>
    decreases props, n,
{
    if n == 0 || n > props.len() {
        Ok(Set::empty())
    } else {
        match flatten_props(props, (n - 1) as nat) {
            Err(e) => Err(e),
            Ok(keys) => match flatten_prop(props[n - 1]) {
                Err(e) => Err(e),
                Ok(more) => Ok(keys.union(more)),
            },
        }
    }
}

/// Every string beneath a literal, whatever the keys.
pub open spec fn flatten_spec(lit: ObjectLit) -> Result<Set<Seq<char>>, ConstructionError> {
    flatten_props(lit.props@, lit.props@.len())
}

/// The leaf value that the value of a plain key stands for.
pub open spec fn object_value(value: Node) -> Result<ValueView, ConstructionError>
    decreases value, 0nat,
{
    match value {
        Node::Str(s) => Ok(ValueView::String(s@)),
        Node::Object(o) => match build_props(o.props@, o.props@.len()) {
            Ok(t) => Ok(ValueView::NestedLabels(t)),
            Err(e) => Err(e),
        },
        _ => Err(ConstructionError::InvalidValue),
    }
}

/// The tree that results from adding one element to the tree of the elements
/// before it.
pub open spec fn build_step(tree: LabelsView, p: PropOrSpread) -> Result<
    LabelsView,
    ConstructionError,
>
    decreases p, 0nat,
{
    match p {
        PropOrSpread::Spread(_) => Err(ConstructionError::Spread),
        PropOrSpread::Prop(Prop::Other(_)) => Err(ConstructionError::NotKeyValue),
        PropOrSpread::Prop(Prop::KeyValue(kv)) => match kv.key {
            PropName::Ident(name) => match tree {
                LabelsView::Computed(_) => Err(ConstructionError::MixedKeys),
                LabelsView::Object(m) => match object_value(*kv.value) {
                    Ok(v) => Ok(LabelsView::Object(m.insert(name@, v))),
                    Err(e) => Err(e),
                },
            },
            PropName::Computed(_) => match tree {
                LabelsView::Object(m) => if m.dom() =~= Set::empty() {
                    match flatten_value(*kv.value) {
                        Ok(more) => Ok(LabelsView::Computed(more)),
                        Err(e) => Err(e),
                    }
                } else {
                    Err(ConstructionError::MixedKeys)
                },
                LabelsView::Computed(keys) => match flatten_value(*kv.value) {
                    Ok(more) => Ok(LabelsView::Computed(keys.union(more))),
                    Err(e) => Err(e),
                },
            },
            PropName::Other => Err(ConstructionError::InvalidKey),
        },
    }
}

/// The tree of the first `n` elements of a literal, or the error of the first
/// element that has one. The tree of no element is the empty object.
pub open spec fn build_props(props: Seq<PropOrSpread>, n: nat) -> Result<
    LabelsView,
    ConstructionError,
>
    decreases props, n,
{
    if n == 0 || n > props.len() {
        Ok(LabelsView::Object(Map::empty()))
    } else {
        match build_props(props, (n - 1) as nat) {
            Err(e) => Err(e),
            Ok(tree) => build_step(tree, props[n - 1]),
        }
    }
}

/// The label tree of a literal, or the reason why it has none.
pub open spec fn build_spec(lit: ObjectLit) -> Result<LabelsView, ConstructionError> {
    build_props(lit.props@, lit.props@.len())
}

/// The model of a result.
pub open spec fn tree_result(r: Result<LABELS, ConstructionError>) -> Result<
    LabelsView,
    ConstructionError,
> {
    match r {
        Ok(t) => Ok(t@),
        Err(e) => Err(e),
    }
}

/// The model of a result.
pub open spec fn keys_result(r: Result<KeySet, ConstructionError>) -> Result<
    Set<Seq<char>>,
    ConstructionError,
> {
    match r {
        Ok(t) => Ok(t@),
        Err(e) => Err(e),
    }
}

/// An error among the first elements is the error of the literal.
pub proof fn lemma_flatten_error(props: Seq<PropOrSpread>, n: nat, total: nat)
    requires
        n <= total <= props.len(),
        flatten_props(props, n) is Err,
    ensures
        flatten_props(props, total) == flatten_props(props, n),
    decreases total,
{
    if n < total {
        lemma_flatten_error(props, n, (total - 1) as nat);
    }
}

/// An error among the first elements is the error of the literal.
pub proof fn lemma_build_error(props: Seq<PropOrSpread>, n: nat, total: nat)
    requires
        n <= total <= props.len(),
        build_props(props, n) is Err,
    ensures
        build_props(props, total) == build_props(props, n),
    decreases total,
{
    if n < total {
        lemma_build_error(props, n, (total - 1) as nat);
    }
}

/// Adds to `keys` the strings that `value` holds.
fn flatten_value_into(value: &Node, keys: &mut KeySet) -> (r: Result<(), ConstructionError>)
    ensures
        match r {
            Ok(_) => flatten_value(*value) is Ok && final(keys)@ == old(keys)@.union(
                flatten_value(*value)->Ok_0,
            ),
            Err(e) => flatten_value(*value) == Err::<Set<Seq<char>>, _>(e) && final(keys)@ == old(
                keys,
            )@,
        },
    decreases value, 1nat,
{
    match value {
        Node::Object(object_lit) => match flatten_translation_keys(object_lit) {
            Ok(more) => {
                keys.extend(&more);
                Ok(())
            },
            Err(e) => Err(e),
        },
        Node::Str(s) => {
            keys.insert(s.clone());
            assert(keys@ =~= old(keys)@.union(set![s@]));
            Ok(())
        },
        _ => Err(ConstructionError::InvalidValue),
    }
}

/// The error of one element is the error of the literal, when no element before
/// it has one.
proof fn lemma_flatten_stop(props: Seq<PropOrSpread>, i: nat, e: ConstructionError)
    requires
        i < props.len(),
        flatten_props(props, i) is Ok,
        flatten_prop(props[i as int]) == Err::<Set<Seq<char>>, _>(e),
    ensures
        flatten_props(props, props.len()) == Err::<Set<Seq<char>>, _>(e),
{
    assert(flatten_props(props, i + 1) == Err::<Set<Seq<char>>, _>(e));
    lemma_flatten_error(props, i + 1, props.len());
}

/// Every string beneath a literal, whatever the keys.
///
/// Fails on a spread element, on a property that is not `key: value`, and on a
/// value that is neither a string literal nor an object literal. The error is
/// that of the first element, in source order, that has one.
pub fn flatten_translation_keys(object_lit: &ObjectLit) -> (r: Result<KeySet, ConstructionError>)
    ensures
        keys_result(r) == flatten_spec(*object_lit),
    decreases object_lit, 0nat,
{
    let mut translation_keys = KeySet::new();
    let mut i: usize = 0;
    while i < object_lit.props.len()
        invariant
            i <= object_lit.props.len(),
            flatten_props(object_lit.props@, i as nat) == Ok::<_, ConstructionError>(
                translation_keys@,
            ),
        decreases object_lit.props.len() - i,
    {
        let ghost props = object_lit.props@;
        match &object_lit.props[i] {
            PropOrSpread::Prop(prop) => match prop {
                Prop::KeyValue(key_value_prop) => match flatten_value_into(
                    &key_value_prop.value,
                    &mut translation_keys,
                ) {
                    Ok(_) => {
                        assert(flatten_prop(props[i as int]) == flatten_value(
                            *key_value_prop.value,
                        ));
                    },
                    Err(e) => {
                        proof {
                            lemma_flatten_stop(props, i as nat, e);
                        }
                        return Err(e);
                    },
                },
                Prop::Other(_) => {
                    proof {
                        lemma_flatten_stop(props, i as nat, ConstructionError::NotKeyValue);
                    }
                    return Err(ConstructionError::NotKeyValue);
                },
            },
            PropOrSpread::Spread(_) => {
                proof {
                    lemma_flatten_stop(props, i as nat, ConstructionError::Spread);
                }
                return Err(ConstructionError::Spread);
            },
        }
        i += 1;
    }
    Ok(translation_keys)
}

/// The leaf value that the value of a plain key stands for.
fn object_value_of(value: &Node) -> (r: Result<TranslateObjectValue, ConstructionError>)
    ensures
        match r {
            Ok(v) => object_value(*value) == Ok::<_, ConstructionError>(v@),
            Err(e) => object_value(*value) == Err::<ValueView, _>(e),
        },
    decreases value, 1nat,
{
    match value {
        Node::Object(object_lit) => match collect_labels_from_object_literal(object_lit) {
            Ok(labels) => Ok(TranslateObjectValue::NestedLabels(labels)),
            Err(e) => Err(e),
        },
        Node::Str(s) => Ok(TranslateObjectValue::String(s.clone())),
        _ => Err(ConstructionError::InvalidValue),
    }
}

/// The error of one element is the error of the literal, when no element before
/// it has one.
proof fn lemma_build_stop(props: Seq<PropOrSpread>, i: nat, e: ConstructionError)
    requires
        i < props.len(),
        build_props(props, i) is Ok,
        build_step(build_props(props, i)->Ok_0, props[i as int]) == Err::<LabelsView, _>(e),
    ensures
        build_props(props, props.len()) == Err::<LabelsView, _>(e),
{
    assert(build_props(props, i + 1) == Err::<LabelsView, _>(e));
    lemma_build_error(props, i + 1, props.len());
}

/// Builds the label tree of a literal.
///
/// Fails on a spread element, on a property that is not `key: value`, on a key
/// that is neither plain nor computed, on a value that is neither a string
/// literal nor an object literal, and on a key whose style differs from that
/// of the first property of its level. The error is that of the first element,
/// in source order, that has one.
pub fn collect_labels_from_object_literal(object_lit: &ObjectLit) -> (r: Result<
    LABELS,
    ConstructionError,
>)
    ensures
        tree_result(r) == build_spec(*object_lit),
    decreases object_lit, 0nat,
{
    let mut labels: StringMap<TranslateObjectValue> = StringMap::new();
    let mut translation_keys = KeySet::new();
    let mut has_computed_key = false;
    let mut i: usize = 0;
    assert(value_views(labels@) =~= Map::<Seq<char>, ValueView>::empty());
    while i < object_lit.props.len()
        invariant
            i <= object_lit.props.len(),
            build_props(object_lit.props@, i as nat) == Ok::<_, ConstructionError>(
                if has_computed_key {
                    LabelsView::Computed(translation_keys@)
                } else {
                    LabelsView::Object(value_views(labels@))
                },
            ),
            labels@.dom().finite(),
            !has_computed_key ==> translation_keys@ == Set::<Seq<char>>::empty(),
            has_computed_key ==> labels@.len() == 0,
        decreases object_lit.props.len() - i,
    {
        let ghost props = object_lit.props@;
        let ghost before = build_props(props, i as nat)->Ok_0;
        match &object_lit.props[i] {
            PropOrSpread::Prop(prop) => match prop {
                Prop::KeyValue(key_value_prop) => match &key_value_prop.key {
                    PropName::Ident(name) => {
                        if has_computed_key {
                            proof {
                                lemma_build_stop(props, i as nat, ConstructionError::MixedKeys);
                            }
                            return Err(ConstructionError::MixedKeys);
                        }
                        match object_value_of(&key_value_prop.value) {
                            Ok(v) => {
                                let ghost old_labels = labels@;
                                labels.insert(name.clone(), v);
                                assert(value_views(labels@) =~= value_views(old_labels).insert(
                                    name@,
                                    v@,
                                ));
                                assert(build_step(before, props[i as int]) == Ok::<
                                    _,
                                    ConstructionError,
                                >(LabelsView::Object(value_views(labels@))));
                            },
                            Err(e) => {
                                proof {
                                    lemma_build_stop(props, i as nat, e);
                                }
                                return Err(e);
                            },
                        }
                    },
                    PropName::Computed(_) => {
                        if labels.len() != 0 {
                            proof {
                                assert(value_views(labels@).dom() =~= labels@.dom());
                                assert(labels@.dom().len() != 0);
                                lemma_build_stop(props, i as nat, ConstructionError::MixedKeys);
                            }
                            return Err(ConstructionError::MixedKeys);
                        }
                        proof {
                            labels@.dom().lemma_len0_is_empty();
                            assert(value_views(labels@).dom() =~= Set::empty());
                        }
                        match flatten_value_into(&key_value_prop.value, &mut translation_keys) {
                            Ok(_) => {
                                proof {
                                    if !has_computed_key {
                                        assert(translation_keys@ =~= flatten_value(
                                            *key_value_prop.value,
                                        )->Ok_0);
                                    }
                                }
                                assert(build_step(before, props[i as int]) == Ok::<
                                    _,
                                    ConstructionError,
                                >(LabelsView::Computed(translation_keys@)));
                                has_computed_key = true;
                            },
                            Err(e) => {
                                proof {
                                    lemma_build_stop(props, i as nat, e);
                                }
                                return Err(e);
                            },
                        }
                    },
                    PropName::Other => {
                        proof {
                            lemma_build_stop(props, i as nat, ConstructionError::InvalidKey);
                        }
                        return Err(ConstructionError::InvalidKey);
                    },
                },
                Prop::Other(_) => {
                    proof {
                        lemma_build_stop(props, i as nat, ConstructionError::NotKeyValue);
                    }
                    return Err(ConstructionError::NotKeyValue);
                },
            },
            PropOrSpread::Spread(_) => {
                proof {
                    lemma_build_stop(props, i as nat, ConstructionError::Spread);
                }
                return Err(ConstructionError::Spread);
            },
        }
        i += 1;
    }
    if has_computed_key {
        Ok(LABELS::Computed(translation_keys))
    } else {
        proof {
            use_type_invariant(&labels);
            lemma_object_view(labels);
        }
        Ok(LABELS::Object(labels))
    }
}

/// Whether an element has the form `key: value` with a plain key.
pub open spec fn is_plain_pair(p: PropOrSpread) -> bool {
    p matches PropOrSpread::Prop(Prop::KeyValue(kv)) && kv.key is Ident
}

/// Whether an element has the form `[key]: value`.
pub open spec fn is_computed_pair(p: PropOrSpread) -> bool {
    p matches PropOrSpread::Prop(Prop::KeyValue(kv)) && kv.key is Computed
}

/// Whether an element has the form `key: "string"` with a plain key.
pub open spec fn is_plain_string(p: PropOrSpread) -> bool {
    p matches PropOrSpread::Prop(Prop::KeyValue(kv)) && kv.key is Ident && *kv.value is Str
}

/// The key of an element of the form `key: value` with a plain key.
pub open spec fn plain_key(p: PropOrSpread) -> Seq<char> {
    p->Prop_0->KeyValue_0.key->Ident_0@
}

/// The string of an element of the form `key: "string"`.
pub open spec fn string_value(p: PropOrSpread) -> Seq<char> {
    (*p->Prop_0->KeyValue_0.value)->Str_0@
}

/// Whether `s` is a string literal beneath a value: the value itself, or the
/// value of a property, under any key, of an object literal beneath it.
pub open spec fn string_beneath(value: Node, s: Seq<char>) -> bool
    decreases value, 0nat,
{
    match value {
        Node::Str(t) => t@ == s,
        Node::Object(o) => exists|i: int|
            0 <= i < o.props@.len() && string_in_prop(#[trigger] o.props@[i], s),
        _ => false,
    }
}

/// Whether `s` is a string literal beneath the value of an element.
pub open spec fn string_in_prop(p: PropOrSpread, s: Seq<char>) -> bool
    decreases p, 0nat,
{
    match p {
        PropOrSpread::Prop(Prop::KeyValue(kv)) => string_beneath(*kv.value, s),
        _ => false,
    }
}

/// Whether a value can be flattened: it is a string literal, or an object
/// literal of `key: value` properties whose values can be flattened.
pub open spec fn flattenable(value: Node) -> bool
    decreases value, 0nat,
{
    match value {
        Node::Str(_) => true,
        Node::Object(o) => forall|i: int|
            0 <= i < o.props@.len() ==> flattenable_prop(#[trigger] o.props@[i]),
        _ => false,
    }
}

/// Whether an element has the form `key: value` with a value that can be flattened.
pub open spec fn flattenable_prop(p: PropOrSpread) -> bool
    decreases p, 0nat,
{
    match p {
        PropOrSpread::Prop(Prop::KeyValue(kv)) => flattenable(*kv.value),
        _ => false,
    }
}

/// The empty literal has the empty object tree.
pub proof fn lemma_build_empty(lit: ObjectLit)
    requires
        lit.props@.len() == 0,
    ensures
        build_spec(lit) == Ok::<_, ConstructionError>(LabelsView::Object(Map::empty())),
{
}

/// The tree of the first `n` elements, all of the form `key: "string"` with a
/// plain key, is an object that holds the keys of those elements and no other,
/// each with the string of the last element that has it.
pub proof fn lemma_build_plain_strings_prefix(props: Seq<PropOrSpread>, n: nat)
    requires
        n <= props.len(),
        forall|i: int| 0 <= i < n ==> is_plain_string(#[trigger] props[i]),
    ensures
        build_props(props, n) matches Ok(LabelsView::Object(m)) && {
            &&& m.dom().finite()
            &&& forall|name: Seq<char>|
                m.contains_key(name) <==> exists|i: int|
                    0 <= i < n && plain_key(#[trigger] props[i]) == name
            &&& forall|i: int|
                0 <= i < n && (forall|j: int| i < j < n ==> plain_key(#[trigger] props[j])
                    != plain_key(props[i])) ==> m[plain_key(#[trigger] props[i])]
                    == ValueView::String(string_value(props[i]))
        },
    decreases n,
{
    reveal_with_fuel(build_props, 2);
    reveal_with_fuel(build_step, 2);
    reveal_with_fuel(object_value, 2);
    if n > 0 {
        lemma_build_plain_strings_prefix(props, (n - 1) as nat);
        let before = build_props(props, (n - 1) as nat)->Ok_0->Object_0;
        let last = props[n - 1];
        assert(is_plain_string(last));
        let m = before.insert(plain_key(last), ValueView::String(string_value(last)));
        match last {
            PropOrSpread::Prop(Prop::KeyValue(kv)) => {
                assert(object_value(*kv.value) == Ok::<_, ConstructionError>(
                    ValueView::String(string_value(last)),
                ));
                assert(build_step(LabelsView::Object(before), last) == Ok::<_, ConstructionError>(
                    LabelsView::Object(m),
                ));
            },
            _ => {},
        }
        assert(build_props(props, n) == Ok::<_, ConstructionError>(LabelsView::Object(m)));
        assert forall|name: Seq<char>| m.contains_key(name) implies exists|i: int|
            0 <= i < n && plain_key(#[trigger] props[i]) == name by {
            if name == plain_key(last) {
                assert(plain_key(props[n - 1]) == name);
            } else {
                let i = choose|i: int| 0 <= i < n - 1 && plain_key(#[trigger] props[i]) == name;
                assert(plain_key(props[i]) == name);
            }
        }
        assert forall|i: int|
            0 <= i < n && (forall|j: int| i < j < n ==> plain_key(#[trigger] props[j])
                != plain_key(props[i])) implies m[plain_key(#[trigger] props[i])]
            == ValueView::String(string_value(props[i])) by {
            if i < n - 1 {
                assert(plain_key(props[n - 1]) != plain_key(props[i]));
                assert(forall|j: int|
                    i < j < n - 1 ==> plain_key(#[trigger] props[j]) != plain_key(props[i]));
            }
        }
    }
}

/// A literal that holds only elements of the form `key: "string"` with a plain
/// key has an object tree whose entries are exactly the literal's pairs: the
/// keys of the literal and no other, each with the string that the literal
/// gives it last.
pub proof fn lemma_build_plain_strings(lit: ObjectLit)
    requires
        forall|i: int| 0 <= i < lit.props@.len() ==> is_plain_string(#[trigger] lit.props@[i]),
    ensures
        build_spec(lit) matches Ok(LabelsView::Object(m)) && {
            &&& forall|name: Seq<char>|
                m.contains_key(name) <==> exists|i: int|
                    0 <= i < lit.props@.len() && plain_key(#[trigger] lit.props@[i]) == name
            &&& forall|i: int|
                0 <= i < lit.props@.len() && (forall|j: int|
                    i < j < lit.props@.len() ==> plain_key(#[trigger] lit.props@[j]) != plain_key(
                        lit.props@[i],
                    )) ==> m[plain_key(#[trigger] lit.props@[i])] == ValueView::String(
                    string_value(lit.props@[i]),
                )
        },
{
    lemma_build_plain_strings_prefix(lit.props@, lit.props@.len());
}

/// A value has a flat set exactly when it can be flattened, and the set then
/// holds exactly the string literals beneath the value.
pub proof fn lemma_flatten_value(value: Node)
    ensures
        flatten_value(value) is Ok <==> flattenable(value),
        flatten_value(value) matches Ok(keys) ==> forall|s: Seq<char>|
            keys.contains(s) <==> string_beneath(value, s),
    decreases value, 1nat,
{
    match value {
        Node::Object(o) => {
            lemma_flatten_props(o.props@, o.props@.len());
            if flatten_value(value) is Ok {
                assert forall|i: int| 0 <= i < o.props@.len() implies flattenable_prop(
                    #[trigger] o.props@[i],
                ) by {}
            }
        },
        _ => {},
    }
}

/// The first `n` elements have a flat set exactly when each of them can be
/// flattened, and the set then holds exactly the string literals beneath them.
pub proof fn lemma_flatten_props(props: Seq<PropOrSpread>, n: nat)
    requires
        n <= props.len(),
    ensures
        flatten_props(props, n) is Ok <==> forall|i: int|
            0 <= i < n ==> flattenable_prop(#[trigger] props[i]),
        flatten_props(props, n) matches Ok(keys) ==> forall|s: Seq<char>|
            keys.contains(s) <==> exists|i: int| 0 <= i < n && string_in_prop(#[trigger] props[i], s),
    decreases props, n,
{
    if n > 0 {
        lemma_flatten_props(props, (n - 1) as nat);
        let last = props[n - 1];
        match last {
            PropOrSpread::Prop(Prop::KeyValue(kv)) => {
                lemma_flatten_value(*kv.value);
            },
            _ => {},
        }
        if flatten_props(props, (n - 1) as nat) is Ok && flatten_prop(last) is Ok {
            let before = flatten_props(props, (n - 1) as nat)->Ok_0;
            let more = flatten_prop(last)->Ok_0;
            let keys = before.union(more);
            assert forall|s: Seq<char>| keys.contains(s) implies exists|i: int|
                0 <= i < n && string_in_prop(#[trigger] props[i], s) by {
                if more.contains(s) {
                    assert(string_in_prop(props[n - 1], s));
                } else {
                    let i = choose|i: int| 0 <= i < n - 1 && string_in_prop(#[trigger] props[i], s);
                    assert(string_in_prop(props[i], s));
                }
            }
        } else if flatten_props(props, (n - 1) as nat) is Ok {
            assert(!flattenable_prop(props[n - 1]));
        }
    }
}

/// The tree of the first `n` elements, all with computed keys and with values
/// that can be flattened, is the flat set of those elements.
pub proof fn lemma_build_computed_prefix(props: Seq<PropOrSpread>, n: nat)
    requires
        0 < n <= props.len(),
        forall|i: int|
            0 <= i < n ==> is_computed_pair(#[trigger] props[i]) && flattenable_prop(props[i]),
    ensures
        flatten_props(props, n) is Ok,
        build_props(props, n) == Ok::<_, ConstructionError>(
            LabelsView::Computed(flatten_props(props, n)->Ok_0),
        ),
    decreases n,
{
    reveal_with_fuel(build_props, 2);
    reveal_with_fuel(build_step, 2);
    reveal_with_fuel(object_value, 2);
    reveal_with_fuel(flatten_props, 2);
    reveal_with_fuel(flatten_prop, 2);
    reveal_with_fuel(flatten_value, 2);
    lemma_flatten_props(props, n);
    lemma_flatten_props(props, (n - 1) as nat);
    let last = props[n - 1];
    assert(is_computed_pair(last) && flattenable_prop(last));
    if n == 1 {
        assert(flatten_props(props, 0) == Ok::<_, ConstructionError>(Set::<Seq<char>>::empty()));
        assert(build_props(props, 0) == Ok::<_, ConstructionError>(
            LabelsView::Object(Map::empty()),
        ));
        assert(Set::<Seq<char>>::empty().union(flatten_prop(last)->Ok_0) =~= flatten_prop(
            last,
        )->Ok_0);
    } else {
        lemma_build_computed_prefix(props, (n - 1) as nat);
    }
}

/// A literal with at least one element, whose keys are all computed and whose
/// values can all be flattened, has a computed tree; its set holds exactly the
/// string literals beneath the literal.
pub proof fn lemma_build_computed(lit: ObjectLit)
    requires
        lit.props@.len() > 0,
        forall|i: int|
            0 <= i < lit.props@.len() ==> is_computed_pair(#[trigger] lit.props@[i])
                && flattenable_prop(lit.props@[i]),
    ensures
        build_spec(lit) == Ok::<_, ConstructionError>(
            LabelsView::Computed(Set::new(|s: Seq<char>| string_beneath(Node::Object(lit), s))),
        ),
{
    reveal_with_fuel(flatten_props, 2);
    reveal_with_fuel(flatten_prop, 2);
    reveal_with_fuel(flatten_value, 2);
    let props = lit.props@;
    lemma_build_computed_prefix(props, props.len());
    lemma_flatten_props(props, props.len());
    let keys = flatten_props(props, props.len())->Ok_0;
    assert forall|s: Seq<char>| keys.contains(s) == string_beneath(Node::Object(lit), s) by {
        if keys.contains(s) {
            let i = choose|i: int| 0 <= i < props.len() && string_in_prop(#[trigger] props[i], s);
            assert(string_in_prop(lit.props@[i], s));
            assert(Node::Object(lit)->Object_0.props@[i] == lit.props@[i]);
        }
        if string_beneath(Node::Object(lit), s) {
            let i = choose|i: int|
                0 <= i < lit.props@.len() && string_in_prop(#[trigger] lit.props@[i], s);
            assert(string_in_prop(props[i], s));
        }
    }
    assert(keys =~= Set::new(|s: Seq<char>| string_beneath(Node::Object(lit), s)));
}

/// Where the first `n` elements have a tree, they all have the key style of
/// that tree: plain for an object, computed for a computed tree.
pub proof fn lemma_build_one_style(props: Seq<PropOrSpread>, n: nat)
    requires
        n <= props.len(),
        build_props(props, n) is Ok,
    ensures
        build_props(props, n)->Ok_0 is Object ==> forall|i: int|
            0 <= i < n ==> is_plain_pair(#[trigger] props[i]),
        build_props(props, n)->Ok_0 is Computed ==> forall|i: int|
            0 <= i < n ==> is_computed_pair(#[trigger] props[i]),
        build_props(props, n)->Ok_0 matches LabelsView::Object(m) ==> (n > 0 ==> !(m.dom()
            =~= Set::empty())),
    decreases n,
{
    reveal_with_fuel(build_props, 2);
    reveal_with_fuel(build_step, 2);
    reveal_with_fuel(object_value, 2);
    if n > 0 {
        lemma_build_one_style(props, (n - 1) as nat);
        let before = build_props(props, (n - 1) as nat)->Ok_0;
        let last = props[n - 1];
        match build_props(props, n)->Ok_0 {
            LabelsView::Object(m) => {
                assert(is_plain_pair(last));
                assert(m.contains_key(plain_key(last)));
                assert(m.dom().contains(plain_key(last)));
            },
            LabelsView::Computed(_) => {
                assert(is_computed_pair(last));
            },
        }
    }
}

/// A literal that holds a plain key and a computed key at one level has no
/// tree, whichever comes first.
pub proof fn lemma_build_mixed_fails(lit: ObjectLit, i: int, j: int)
    requires
        0 <= i < lit.props@.len(),
        0 <= j < lit.props@.len(),
        is_plain_pair(lit.props@[i]),
        is_computed_pair(lit.props@[j]),
    ensures
        build_spec(lit) is Err,
{
    if build_spec(lit) is Ok {
        lemma_build_one_style(lit.props@, lit.props@.len());
    }
}

/// Where no element before the first of the other key style has an error, the
/// error of a literal that mixes key styles is that of mixing.
pub proof fn lemma_build_mixed_error(props: Seq<PropOrSpread>, n: nat)
    requires
        n < props.len(),
        build_props(props, n) is Ok,
        n > 0,
        build_props(props, n)->Ok_0 is Object ==> is_computed_pair(props[n as int]),
        build_props(props, n)->Ok_0 is Computed ==> is_plain_pair(props[n as int]),
    ensures
        build_props(props, props.len()) == Err::<LabelsView, _>(ConstructionError::MixedKeys),
{
    lemma_build_one_style(props, n);
    lemma_build_stop(props, n, ConstructionError::MixedKeys);
}

} // verus!
