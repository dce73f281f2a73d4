//! Resolving a member chain against a label tree.
//!
//! A chain such as `LABELS.bird.size` goes down the tree name by name. Where the
//! tree cannot tell which key is meant, the answer is every key that may be
//! meant: the whole flat set at a computed level, every key beneath the node at
//! which the chain ends.

use crate::key_set::{lemma_texts_push, texts, KeySet};
use crate::labels::{lemma_object_view, LabelsView, TranslateObjectValue, ValueView, LABELS};
use crate::syntax::{MemberExpr, MemberProp, Node};
use vstd::prelude::*;

verus! {

/// A property name that an object level does not have.
#[derive(Debug, PartialEq, Eq)]
pub struct LookupFailure {
    /// The name that was looked up.
    pub property: String,
}

impl LabelsView {
    /// The keys that the chain `chain` denotes, or the first name of the chain
    /// that the object level it is looked up in does not have.
    ///
    /// A computed level answers with its whole set, and a string with itself,
    /// whatever is left of the chain. A chain that ends on a tree denotes every
    /// key beneath it.
    pub open spec fn resolve(self, chain: Seq<Seq<char>>) -> Result<Set<Seq<char>>, Seq<char>>
        decreases chain.len(),
    {
        match self {
            LabelsView::Computed(keys) => Ok(keys),
            LabelsView::Object(m) => if chain.len() == 0 {
                Ok(self.leaves())
            } else if !m.contains_key(chain[0]) {
                Err(chain[0])
            } else {
                match m[chain[0]] {
                    ValueView::String(s) => Ok(set![s]),
                    ValueView::NestedLabels(t) => t.resolve(chain.drop_first()),
                }
            },
        }
    }
}

impl LabelsView {
    /// The value reached by following `path` name by name through object levels
    /// only; none where a name is missing, where a computed level is in the
    /// way, or where the path goes on behind a string. The empty path reaches
    /// the tree itself.
    pub open spec fn at(self, path: Seq<Seq<char>>) -> Option<ValueView>
        decreases path.len(),
    {
        if path.len() == 0 {
            Some(ValueView::NestedLabels(self))
        } else {
            match self {
                LabelsView::Computed(_) => None,
                LabelsView::Object(m) => if !m.contains_key(path[0]) {
                    None
                } else {
                    match m[path[0]] {
                        ValueView::String(s) => if path.len() == 1 {
                            Some(ValueView::String(s))
                        } else {
                            None
                        },
                        ValueView::NestedLabels(t) => t.at(path.drop_first()),
                    }
                },
            }
        }
    }

    /// A chain that leads through object levels to a string denotes exactly
    /// that string.
    pub proof fn lemma_resolve_string(self, chain: Seq<Seq<char>>, s: Seq<char>)
        requires
            self.at(chain) == Some(ValueView::String(s)),
        ensures
            self.resolve(chain) == Ok::<_, Seq<char>>(set![s]),
        decreases chain.len(),
    {
        if chain.len() > 0 {
            match self {
                LabelsView::Computed(_) => {},
                LabelsView::Object(m) => {
                    match m[chain[0]] {
                        ValueView::String(_) => {},
                        ValueView::NestedLabels(t) => {
                            t.lemma_resolve_string(chain.drop_first(), s);
                        },
                    }
                },
            }
        }
    }

    /// A chain that ends on a computed level, or passes through one, denotes
    /// the whole set of that level, whatever names follow.
    pub proof fn lemma_resolve_computed(self, chain: Seq<Seq<char>>, n: int, keys: Set<Seq<char>>)
        requires
            0 <= n <= chain.len(),
            self.at(chain.take(n)) == Some(ValueView::NestedLabels(LabelsView::Computed(keys))),
        ensures
            self.resolve(chain) == Ok::<_, Seq<char>>(keys),
        decreases n,
    {
        if n > 0 {
            let prefix = chain.take(n);
            assert(prefix[0] == chain[0]);
            match self {
                LabelsView::Computed(_) => {},
                LabelsView::Object(m) => {
                    match m[chain[0]] {
                        ValueView::String(_) => {},
                        ValueView::NestedLabels(t) => {
                            assert(prefix.drop_first() =~= chain.drop_first().take(n - 1));
                            t.lemma_resolve_computed(chain.drop_first(), n - 1, keys);
                        },
                    }
                },
            }
        }
    }

    /// A chain that ends on an object level denotes every key beneath it.
    pub proof fn lemma_resolve_partial(self, chain: Seq<Seq<char>>, m: Map<Seq<char>, ValueView>)
        requires
            self.at(chain) == Some(ValueView::NestedLabels(LabelsView::Object(m))),
        ensures
            self.resolve(chain) == Ok::<_, Seq<char>>(LabelsView::Object(m).leaves()),
        decreases chain.len(),
    {
        if chain.len() > 0 {
            match self {
                LabelsView::Computed(_) => {},
                LabelsView::Object(top) => {
                    match top[chain[0]] {
                        ValueView::String(_) => {},
                        ValueView::NestedLabels(t) => {
                            t.lemma_resolve_partial(chain.drop_first(), m);
                        },
                    }
                },
            }
        }
    }

    /// A lookup fails only on a name that an object level of the tree does not
    /// have: the name that is reported is one of the chain.
    pub proof fn lemma_resolve_failure(self, chain: Seq<Seq<char>>)
        requires
            self.resolve(chain) is Err,
        ensures
            chain.contains(self.resolve(chain)->Err_0),
        decreases chain.len(),
    {
        match self {
            LabelsView::Computed(_) => {},
            LabelsView::Object(m) => {
                if !m.contains_key(chain[0]) {
                    assert(chain[0] == self.resolve(chain)->Err_0);
                } else {
                    match m[chain[0]] {
                        ValueView::String(_) => {},
                        ValueView::NestedLabels(t) => {
                            t.lemma_resolve_failure(chain.drop_first());
                            let name = t.resolve(chain.drop_first())->Err_0;
                            let i = choose|i: int|
                                0 <= i < chain.drop_first().len() && chain.drop_first()[i] == name;
                            assert(chain[i + 1] == name);
                        },
                    }
                }
            },
        }
    }
}

/// The model of a resolution.
pub open spec fn resolution(r: Result<KeySet, LookupFailure>) -> Result<Set<Seq<char>>, Seq<char>> {
    match r {
        Ok(keys) => Ok(keys@),
        Err(failure) => Err(failure.property@),
    }
}

/// Whether every access of the chain that ends in `obj` is by name.
pub open spec fn by_name_only(obj: Node) -> bool
    decreases obj,
{
    match obj {
        Node::Member(m) => m.prop is Ident && by_name_only(*m.obj),
        _ => true,
    }
}

/// The names by which a member expression goes down from its root, as far as
/// they can be read off: up to the first access that is not by name.
pub open spec fn static_chain(e: MemberExpr) -> Seq<Seq<char>>
    decreases e, 0nat,
{
    let inner = chain_below(*e.obj);
    if by_name_only(*e.obj) {
        match e.prop {
            MemberProp::Ident(name) => inner.push(name@),
            _ => inner,
        }
    } else {
        inner
    }
}

/// The names of the chain that ends in `obj`; none where `obj` is the root.
pub open spec fn chain_below(obj: Node) -> Seq<Seq<char>>
    decreases obj, 1nat,
{
    match obj {
        Node::Member(m) => static_chain(m),
        _ => Seq::empty(),
    }
}

/// Appends the names of the chain to `names`; the result says whether every
/// access of the chain is by name.
fn chain_into(e: &MemberExpr, names: &mut Vec<String>) -> (by_name: bool)
    ensures
        texts(final(names)@) == texts(old(names)@) + static_chain(*e),
        by_name == (e.prop is Ident && by_name_only(*e.obj)),
    decreases e,
{
    let inner_by_name = match &*e.obj {
        Node::Member(m) => chain_into(m, names),
        _ => {
            assert(texts(names@) =~= texts(old(names)@) + Seq::<Seq<char>>::empty());
            true
        },
    };
    if inner_by_name {
        match &e.prop {
            MemberProp::Ident(name) => {
                proof {
                    lemma_texts_push(names@, *name);
                    let inner = chain_below(*e.obj);
                    assert(texts(names@).push(name@) =~= texts(old(names)@) + inner.push(name@));
                }
                names.push(name.clone());
                true
            },
            _ => false,
        }
    } else {
        false
    }
}

/// The names by which a member expression goes down from its root, up to the
/// first access that is not by name.
pub fn member_chain(e: &MemberExpr) -> (names: Vec<String>)
    ensures
        texts(names@) == static_chain(*e),
{
    let mut names: Vec<String> = Vec::new();
    chain_into(e, &mut names);
    assert(texts(names@) =~= static_chain(*e));
    names
}

/// Resolves a chain of property names against a tree.
pub fn resolve(chain: &Vec<String>, tree: &LABELS) -> (r: Result<KeySet, LookupFailure>)
    ensures
        resolution(r) == tree@.resolve(texts(chain@)),
{
    let mut node = tree;
    let mut i: usize = 0;
    assert(texts(chain@).skip(0) =~= texts(chain@));
    loop
        invariant
            i <= chain.len(),
            node@.resolve(texts(chain@).skip(i as int)) == tree@.resolve(texts(chain@)),
        decreases chain.len() - i,
    {
        let ghost rest = texts(chain@).skip(i as int);
        match node {
            LABELS::Computed(keys) => {
                return Ok(keys.clone());
            },
            LABELS::Object(m) => {
                proof {
                    use_type_invariant(m);
                    lemma_object_view(*m);
                }
                if i == chain.len() {
                    return Ok(node.leaves());
                }
                assert(rest[0] == chain@[i as int]@);
                match m.get(chain[i].as_str()) {
                    None => {
                        return Err(LookupFailure { property: chain[i].clone() });
                    },
                    Some(TranslateObjectValue::String(s)) => {
                        let mut keys = KeySet::new();
                        keys.insert(s.clone());
                        assert(keys@ =~= set![s@]);
                        return Ok(keys);
                    },
                    Some(TranslateObjectValue::NestedLabels(t)) => {
                        assert(rest.drop_first() =~= texts(chain@).skip(i + 1));
                        node = t;
                        i += 1;
                    },
                }
            },
        }
    }
}

impl LABELS {
    /// The keys that a member expression rooted at the tree's binding denotes.
    pub fn get_translation_keys_for_member_expr(&self, node: &MemberExpr) -> (r: Result<
        KeySet,
        LookupFailure,
    >)
        ensures
            resolution(r) == self@.resolve(static_chain(*node)),
    {
        let chain = member_chain(node);
        resolve(&chain, self)
    }
}

} // verus!
