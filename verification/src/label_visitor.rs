//! Locating the declaration `LABELS = translate({...})` of a module.
//!
//! Every variable declaration of the module is looked at, at any depth, in
//! source order; what stands inside a variable declaration is not. Each
//! declarator that binds `LABELS` to a call of `translate` must pass an object
//! literal as the first argument, and the tree of that literal becomes the
//! located one. Where several declarators do, the last one is located.

use crate::builder::{build_spec, collect_labels_from_object_literal, ConstructionError};
use crate::labels::{LabelsView, LABELS};
use crate::syntax::{
    Callee, Decl, DefaultDecl, Ident, MemberProp, Module, ModuleItem, Node, Pat, Prop, PropName,
    PropOrSpread, VarDecl, VarDeclarator,
};
use vstd::prelude::*;

verus! {

/// How a declaration of `LABELS` departs from the convention.
#[derive(Debug, Clone, Copy, PartialEq, Eq, Structural)]
pub enum ConventionMismatch {
    /// `translate()` is called without an argument.
    NoArguments,
    /// The first argument of `translate` is not an object literal.
    NotObjectLiteral,
}

/// Why a module cannot be analysed.
#[derive(Debug, Clone, Copy, PartialEq, Eq, Structural)]
pub enum AnalysisError {
    /// The literal passed to `translate` has no label tree.
    Construction(ConstructionError),
    /// The call of `translate` departs from the convention.
    ConventionMismatch(ConventionMismatch),
}

impl ConventionMismatch {
    /// The text of the error.
    pub open spec fn text(self) -> Seq<char> {
        match self {
            ConventionMismatch::NoArguments => "translate should have at least 1 argument"@,
            ConventionMismatch::NotObjectLiteral =>
                "const LABELS = translate() should take an object as its first argument"@,
        }
    }

    /// The text of the error.
    pub fn message(&self) -> (text: &'static str)
        ensures
            text@ == self.text(),
    {
        match self {
            ConventionMismatch::NoArguments => "translate should have at least 1 argument",
            ConventionMismatch::NotObjectLiteral =>
                "const LABELS = translate() should take an object as its first argument",
        }
    }
}

impl AnalysisError {
    /// The text of the error.
    pub open spec fn text(self) -> Seq<char> {
        match self {
            AnalysisError::Construction(e) => e.text(),
            AnalysisError::ConventionMismatch(e) => e.text(),
        }
    }

    /// The text of the error.
    pub fn message(&self) -> (text: &'static str)
        ensures
            text@ == self.text(),
    {
        match self {
            AnalysisError::Construction(e) => e.message(),
            AnalysisError::ConventionMismatch(e) => e.message(),
        }
    }
}

/// The name of the located binding.
pub open spec fn labels_name() -> Seq<char> {
    "LABELS"@
}

/// The name of the function whose argument is the label literal.
pub open spec fn translate_name() -> Seq<char> {
    "translate"@
}

/// A label tree with the binding it was declared under.
#[derive(Debug)]
pub struct LocatedLabels {
    /// The binding `LABELS` of the declaration.
    pub id: Ident,
    /// The tree of the literal passed to `translate`.
    pub labels: LABELS,
}

/// The model of a located tree.
pub struct LocatedView {
    pub id: Ident,
    pub labels: LabelsView,
}

impl View for LocatedLabels {
    type V = LocatedView;

    open spec fn view(&self) -> LocatedView {
        LocatedView { id: self.id, labels: self.labels@ }
    }
}

/// The model of what has been found.
pub open spec fn found_view(found: Option<LocatedLabels>) -> Option<LocatedView> {
    match found {
        Some(located) => Some(located@),
        None => None,
    }
}

/// The model of the outcome of a scan.
pub open spec fn scan_result(r: Result<Option<LocatedLabels>, AnalysisError>) -> Result<
    Option<LocatedView>,
    AnalysisError,
> {
    match r {
        Ok(found) => Ok(found_view(found)),
        Err(e) => Err(e),
    }
}

/// The arguments of `translate`, where the declarator has the form
/// `LABELS = translate(...)`.
pub open spec fn translate_args(decl: VarDeclarator) -> Option<Seq<Node>> {
    match decl.name {
        Pat::Ident(id) => if id.sym@ != labels_name() {
            None
        } else {
            match decl.init {
                Some(Node::Call(call)) => match call.callee {
                    Callee::Expr(callee) => match *callee {
                        Node::Ident(f) => if f.sym@ == translate_name() {
                            Some(call.args@)
                        } else {
                            None
                        },
                        _ => None,
                    },
                    _ => None,
                },
                _ => None,
            }
        },
        _ => None,
    }
}

/// What is located after one declarator.
pub open spec fn scan_declarator(found: Option<LocatedView>, decl: VarDeclarator) -> Result<
    Option<LocatedView>,
    AnalysisError,
> {
    match translate_args(decl) {
        None => Ok(found),
        Some(args) => if args.len() == 0 {
            Err(AnalysisError::ConventionMismatch(ConventionMismatch::NoArguments))
        } else {
            match args[0] {
                Node::Object(o) => match build_spec(o) {
                    Ok(labels) => Ok(Some(LocatedView { id: decl.name->Ident_0, labels })),
                    Err(e) => Err(AnalysisError::Construction(e)),
                },
                _ => Err(AnalysisError::ConventionMismatch(ConventionMismatch::NotObjectLiteral)),
            }
        },
    }
}

/// What is located after the declarators `decls`, in order; or the error of the
/// first declarator that has one.
pub open spec fn scan(found: Option<LocatedView>, decls: Seq<VarDeclarator>) -> Result<
    Option<LocatedView>,
    AnalysisError,
>
    decreases decls.len(),
{
    if decls.len() == 0 {
        Ok(found)
    } else {
        match scan(found, decls.drop_last()) {
            Err(e) => Err(e),
            Ok(so_far) => scan_declarator(so_far, decls.last()),
        }
    }
}

/// Scanning two lists in a row is scanning the first, then the second.
pub proof fn lemma_scan_concat(
    found: Option<LocatedView>,
    a: Seq<VarDeclarator>,
    b: Seq<VarDeclarator>,
)
    ensures
        scan(found, a + b) == match scan(found, a) {
            Err(e) => Err(e),
            Ok(so_far) => scan(so_far, b),
        },
    decreases b.len(),
{
    if b.len() == 0 {
        assert(a + b =~= a);
    } else {
        lemma_scan_concat(found, a, b.drop_last());
        assert((a + b).drop_last() =~= a + b.drop_last());
        assert((a + b).last() == b.last());
    }
}

/// The declarators of the variable declarations beneath a node, in source
/// order. A variable declaration is not looked into.
pub open spec fn decls_in_node(node: Node) -> Seq<VarDeclarator>
    decreases node, 0nat,
{
    match node {
        Node::Ident(_) => Seq::empty(),
        Node::Str(_) => Seq::empty(),
        Node::Object(o) => decls_in_props(o.props@, o.props@.len()),
        Node::Array(elems) => decls_in_nodes(elems@, elems@.len()),
        Node::Member(m) => decls_in_node(*m.obj) + decls_in_member_prop(m.prop),
        Node::Call(c) => decls_in_callee(c.callee) + decls_in_nodes(c.args@, c.args@.len()),
        Node::Var(v) => v.decls@,
        Node::Other(children) => decls_in_nodes(children@, children@.len()),
    }
}

/// The declarators beneath the index expression of a member access.
pub open spec fn decls_in_member_prop(prop: MemberProp) -> Seq<VarDeclarator>
    decreases prop, 1nat,
{
    match prop {
        MemberProp::Computed(e) => decls_in_node(*e),
        _ => Seq::empty(),
    }
}

/// The declarators beneath what a call calls.
pub open spec fn decls_in_callee(callee: Callee) -> Seq<VarDeclarator>
    decreases callee, 1nat,
{
    match callee {
        Callee::Expr(e) => decls_in_node(*e),
        Callee::Other => Seq::empty(),
    }
}

/// The declarators beneath a computed key.
pub open spec fn decls_in_key(key: PropName) -> Seq<VarDeclarator>
    decreases key, 1nat,
{
    match key {
        PropName::Computed(e) => decls_in_node(*e),
        _ => Seq::empty(),
    }
}

/// The declarators beneath the first `n` of `nodes`.
pub open spec fn decls_in_nodes(nodes: Seq<Node>, n: nat) -> Seq<VarDeclarator>
    decreases nodes, n,
{
    if n == 0 || n > nodes.len() {
        Seq::empty()
    } else {
        decls_in_nodes(nodes, (n - 1) as nat) + decls_in_node(nodes[n - 1])
    }
}

/// The declarators beneath one element of an object literal.
pub open spec fn decls_in_prop(p: PropOrSpread) -> Seq<VarDeclarator>
    decreases p, 0nat,
{
    match p {
        PropOrSpread::Spread(e) => decls_in_node(*e),
        PropOrSpread::Prop(Prop::Other(children)) => decls_in_nodes(children@, children@.len()),
        PropOrSpread::Prop(Prop::KeyValue(kv)) => decls_in_key(kv.key) + decls_in_node(*kv.value),
    }
}

/// The declarators beneath the first `n` elements of an object literal.
pub open spec fn decls_in_props(props: Seq<PropOrSpread>, n: nat) -> Seq<VarDeclarator>
    decreases props, n,
{
    if n == 0 || n > props.len() {
        Seq::empty()
    } else {
        decls_in_props(props, (n - 1) as nat) + decls_in_prop(props[n - 1])
    }
}

/// The declarators beneath a declaration.
pub open spec fn decls_in_decl(decl: Decl) -> Seq<VarDeclarator> {
    match decl {
        Decl::Class(c) => decls_in_nodes(c.class.body@, c.class.body@.len()),
        Decl::Fn(f) => decls_in_nodes(f.function.body@, f.function.body@.len()),
        Decl::Var(v) => v.decls@,
        Decl::Other(children) => decls_in_nodes(children@, children@.len()),
    }
}

/// The declarators beneath one item of a module.
pub open spec fn decls_in_item(item: ModuleItem) -> Seq<VarDeclarator> {
    match item {
        ModuleItem::ExportDecl(decl) => decls_in_decl(decl),
        ModuleItem::ExportDefaultDecl(DefaultDecl::Class(c)) => decls_in_nodes(
            c.class.body@,
            c.class.body@.len(),
        ),
        ModuleItem::ExportDefaultDecl(DefaultDecl::Fn(f)) => decls_in_nodes(
            f.function.body@,
            f.function.body@.len(),
        ),
        ModuleItem::ExportDefaultDecl(DefaultDecl::TsInterfaceDecl) => Seq::empty(),
        ModuleItem::ExportDefaultExpr(node) => decls_in_node(node),
        ModuleItem::Decl(decl) => decls_in_decl(decl),
        ModuleItem::Other(children) => decls_in_nodes(children@, children@.len()),
    }
}

/// The declarators beneath the first `n` items of a module.
pub open spec fn decls_in_items(items: Seq<ModuleItem>, n: nat) -> Seq<VarDeclarator>
    decreases n,
{
    if n == 0 || n > items.len() {
        Seq::empty()
    } else {
        decls_in_items(items, (n - 1) as nat) + decls_in_item(items[n - 1])
    }
}

/// The declarators of every variable declaration of a module that does not
/// stand inside another, in source order.
pub open spec fn decls_in_module(module: Module) -> Seq<VarDeclarator> {
    decls_in_items(module.body@, module.body@.len())
}

/// The tree that a module declares, with its binding; none where the module
/// has no declaration of the form `LABELS = translate(...)`.
pub open spec fn find_labels(module: Module) -> Result<Option<LocatedView>, AnalysisError> {
    scan(None, decls_in_module(module))
}

/// An error among the declarators of the first nodes is the error of all.
proof fn lemma_scan_nodes_error(found: Option<LocatedView>, nodes: Seq<Node>, n: nat, total: nat)
    requires
        n <= total <= nodes.len(),
        scan(found, decls_in_nodes(nodes, n)) is Err,
    ensures
        scan(found, decls_in_nodes(nodes, total)) == scan(found, decls_in_nodes(nodes, n)),
    decreases total,
{
    if n < total {
        lemma_scan_nodes_error(found, nodes, n, (total - 1) as nat);
        lemma_scan_concat(
            found,
            decls_in_nodes(nodes, (total - 1) as nat),
            decls_in_node(nodes[total - 1]),
        );
    }
}

/// An error among the declarators of the first elements is the error of all.
proof fn lemma_scan_props_error(
    found: Option<LocatedView>,
    props: Seq<PropOrSpread>,
    n: nat,
    total: nat,
)
    requires
        n <= total <= props.len(),
        scan(found, decls_in_props(props, n)) is Err,
    ensures
        scan(found, decls_in_props(props, total)) == scan(found, decls_in_props(props, n)),
    decreases total,
{
    if n < total {
        lemma_scan_props_error(found, props, n, (total - 1) as nat);
        lemma_scan_concat(
            found,
            decls_in_props(props, (total - 1) as nat),
            decls_in_prop(props[total - 1]),
        );
    }
}

/// An error among the declarators of the first items is the error of all.
proof fn lemma_scan_items_error(
    found: Option<LocatedView>,
    items: Seq<ModuleItem>,
    n: nat,
    total: nat,
)
    requires
        n <= total <= items.len(),
        scan(found, decls_in_items(items, n)) is Err,
    ensures
        scan(found, decls_in_items(items, total)) == scan(found, decls_in_items(items, n)),
    decreases total,
{
    if n < total {
        lemma_scan_items_error(found, items, n, (total - 1) as nat);
        lemma_scan_concat(
            found,
            decls_in_items(items, (total - 1) as nat),
            decls_in_item(items[total - 1]),
        );
    }
}

/// An error among the first declarators is the error of all.
proof fn lemma_scan_error(found: Option<LocatedView>, decls: Seq<VarDeclarator>, n: int)
    requires
        0 <= n <= decls.len(),
        scan(found, decls.take(n)) is Err,
    ensures
        scan(found, decls) == scan(found, decls.take(n)),
{
    lemma_scan_concat(found, decls.take(n), decls.skip(n));
    assert(decls.take(n) + decls.skip(n) =~= decls);
}

/// The arguments of `translate`, where the declarator has the form
/// `LABELS = translate(...)`.
pub fn labels_translate_args(decl: &VarDeclarator) -> (r: Option<&Vec<Node>>)
    ensures
        match r {
            Some(args) => translate_args(*decl) == Some(args@),
            None => translate_args(*decl) is None,
        },
{
    match &decl.name {
        Pat::Ident(binding_ident) => {
            let labels = "LABELS".to_owned();
            if !(binding_ident.sym == labels) {
                return None;
            }
            match &decl.init {
                Some(init) => match init {
                    Node::Call(call_expr) => match &call_expr.callee {
                        Callee::Expr(expr) => match &**expr {
                            Node::Ident(ident) => {
                                let translate = "translate".to_owned();
                                if ident.sym == translate {
                                    Some(&call_expr.args)
                                } else {
                                    None
                                }
                            },
                            _ => None,
                        },
                        _ => None,
                    },
                    _ => None,
                },
                None => None,
            }
        },
        _ => None,
    }
}

/// What is located after one declarator.
fn scan_one(decl: &VarDeclarator, found: Option<LocatedLabels>) -> (r: Result<
    Option<LocatedLabels>,
    AnalysisError,
>)
    ensures
        scan_result(r) == scan_declarator(found_view(found), *decl),
{
    match &decl.name {
        Pat::Ident(id) => match labels_translate_args(decl) {
            Some(args) => {
                if args.len() == 0 {
                    return Err(AnalysisError::ConventionMismatch(ConventionMismatch::NoArguments));
                }
                match &args[0] {
                    Node::Object(object_lit) => match collect_labels_from_object_literal(
                        object_lit,
                    ) {
                        Ok(labels) => Ok(Some(LocatedLabels { id: id.clone(), labels })),
                        Err(e) => Err(AnalysisError::Construction(e)),
                    },
                    _ => Err(
                        AnalysisError::ConventionMismatch(ConventionMismatch::NotObjectLiteral),
                    ),
                }
            },
            None => Ok(found),
        },
        _ => Ok(found),
    }
}

/// What is located after the declarators of one declaration.
fn scan_declarators(decls: &Vec<VarDeclarator>, found: Option<LocatedLabels>) -> (r: Result<
    Option<LocatedLabels>,
    AnalysisError,
>)
    ensures
        scan_result(r) == scan(found_view(found), decls@),
{
    let ghost start = found_view(found);
    let mut current = found;
    let mut i: usize = 0;
    assert(decls@.take(0) =~= Seq::<VarDeclarator>::empty());
    while i < decls.len()
        invariant
            i <= decls.len(),
            scan(start, decls@.take(i as int)) == Ok::<_, AnalysisError>(found_view(current)),
            start == found_view(found),
        decreases decls.len() - i,
    {
        proof {
            assert(decls@.take(i + 1).drop_last() =~= decls@.take(i as int));
            assert(decls@.take(i + 1).last() == decls@[i as int]);
        }
        current = match scan_one(&decls[i], current) {
            Ok(next) => next,
            Err(e) => {
                proof {
                    lemma_scan_error(start, decls@, i + 1);
                }
                return Err(e);
            },
        };
        i += 1;
    }
    assert(decls@.take(i as int) =~= decls@);
    Ok(current)
}

/// What is located after the declarations beneath a node.
fn scan_node(node: &Node, found: Option<LocatedLabels>) -> (r: Result<
    Option<LocatedLabels>,
    AnalysisError,
>)
    ensures
        scan_result(r) == scan(found_view(found), decls_in_node(*node)),
    decreases node,
{
    let ghost start = found_view(found);
    match node {
        Node::Ident(_) => Ok(found),
        Node::Str(_) => Ok(found),
        Node::Object(object_lit) => scan_props(&object_lit.props, found),
        Node::Array(elems) => scan_nodes(elems, found),
        Node::Member(member_expr) => {
            let ghost below = decls_in_node(*member_expr.obj);
            let ghost index = decls_in_member_prop(member_expr.prop);
            proof {
                lemma_scan_concat(start, below, index);
            }
            let found = match scan_node(&member_expr.obj, found) {
                Ok(found) => found,
                Err(e) => {
                    return Err(e);
                },
            };
            match &member_expr.prop {
                MemberProp::Computed(e) => scan_node(e, found),
                _ => Ok(found),
            }
        },
        Node::Call(call_expr) => {
            let ghost callee = decls_in_callee(call_expr.callee);
            proof {
                lemma_scan_concat(
                    start,
                    callee,
                    decls_in_nodes(call_expr.args@, call_expr.args@.len()),
                );
            }
            let found = match &call_expr.callee {
                Callee::Expr(e) => match scan_node(e, found) {
                    Ok(found) => found,
                    Err(e) => {
                        return Err(e);
                    },
                },
                Callee::Other => found,
            };
            scan_nodes(&call_expr.args, found)
        },
        Node::Var(var_decl) => scan_declarators(&var_decl.decls, found),
        Node::Other(children) => scan_nodes(children, found),
    }
}

/// What is located after the declarations beneath the nodes, in order.
fn scan_nodes(nodes: &Vec<Node>, found: Option<LocatedLabels>) -> (r: Result<
    Option<LocatedLabels>,
    AnalysisError,
>)
    ensures
        scan_result(r) == scan(found_view(found), decls_in_nodes(nodes@, nodes@.len())),
    decreases nodes,
{
    let ghost start = found_view(found);
    let mut current = found;
    let mut i: usize = 0;
    while i < nodes.len()
        invariant
            i <= nodes.len(),
            scan(start, decls_in_nodes(nodes@, i as nat)) == Ok::<_, AnalysisError>(
                found_view(current),
            ),
            start == found_view(found),
        decreases nodes.len() - i,
    {
        proof {
            lemma_scan_concat(
                start,
                decls_in_nodes(nodes@, i as nat),
                decls_in_node(nodes@[i as int]),
            );
        }
        current = match scan_node(&nodes[i], current) {
            Ok(next) => next,
            Err(e) => {
                proof {
                    lemma_scan_nodes_error(start, nodes@, (i + 1) as nat, nodes@.len());
                }
                return Err(e);
            },
        };
        i += 1;
    }
    Ok(current)
}

/// What is located after the declarations beneath one element of a literal.
fn scan_prop(p: &PropOrSpread, found: Option<LocatedLabels>) -> (r: Result<
    Option<LocatedLabels>,
    AnalysisError,
>)
    ensures
        scan_result(r) == scan(found_view(found), decls_in_prop(*p)),
    decreases p,
{
    let ghost start = found_view(found);
    match p {
        PropOrSpread::Spread(e) => scan_node(e, found),
        PropOrSpread::Prop(prop) => match prop {
            Prop::Other(children) => scan_nodes(children, found),
            Prop::KeyValue(kv) => {
                let ghost key = decls_in_key(kv.key);
                proof {
                    lemma_scan_concat(start, key, decls_in_node(*kv.value));
                }
                let found = match &kv.key {
                    PropName::Computed(e) => match scan_node(e, found) {
                        Ok(found) => found,
                        Err(e) => {
                            return Err(e);
                        },
                    },
                    _ => found,
                };
                scan_node(&kv.value, found)
            },
        },
    }
}

/// What is located after the declarations beneath the elements of a literal.
fn scan_props(props: &Vec<PropOrSpread>, found: Option<LocatedLabels>) -> (r: Result<
    Option<LocatedLabels>,
    AnalysisError,
>)
    ensures
        scan_result(r) == scan(found_view(found), decls_in_props(props@, props@.len())),
    decreases props,
{
    let ghost start = found_view(found);
    let mut current = found;
    let mut i: usize = 0;
    while i < props.len()
        invariant
            i <= props.len(),
            scan(start, decls_in_props(props@, i as nat)) == Ok::<_, AnalysisError>(
                found_view(current),
            ),
            start == found_view(found),
        decreases props.len() - i,
    {
        proof {
            lemma_scan_concat(
                start,
                decls_in_props(props@, i as nat),
                decls_in_prop(props@[i as int]),
            );
        }
        current = match scan_prop(&props[i], current) {
            Ok(next) => next,
            Err(e) => {
                proof {
                    lemma_scan_props_error(start, props@, (i + 1) as nat, props@.len());
                }
                return Err(e);
            },
        };
        i += 1;
    }
    Ok(current)
}

/// What is located after a declaration.
fn scan_decl(decl: &Decl, found: Option<LocatedLabels>) -> (r: Result<
    Option<LocatedLabels>,
    AnalysisError,
>)
    ensures
        scan_result(r) == scan(found_view(found), decls_in_decl(*decl)),
{
    match decl {
        Decl::Class(c) => scan_nodes(&c.class.body, found),
        Decl::Fn(f) => scan_nodes(&f.function.body, found),
        Decl::Var(v) => scan_declarators(&v.decls, found),
        Decl::Other(children) => scan_nodes(children, found),
    }
}

/// What is located after one item of a module.
fn scan_item(item: &ModuleItem, found: Option<LocatedLabels>) -> (r: Result<
    Option<LocatedLabels>,
    AnalysisError,
>)
    ensures
        scan_result(r) == scan(found_view(found), decls_in_item(*item)),
{
    match item {
        ModuleItem::ExportDecl(decl) => scan_decl(decl, found),
        ModuleItem::ExportDefaultDecl(decl) => match decl {
            DefaultDecl::Class(c) => scan_nodes(&c.class.body, found),
            DefaultDecl::Fn(f) => scan_nodes(&f.function.body, found),
            DefaultDecl::TsInterfaceDecl => Ok(found),
        },
        ModuleItem::ExportDefaultExpr(node) => scan_node(node, found),
        ModuleItem::Decl(decl) => scan_decl(decl, found),
        ModuleItem::Other(children) => scan_nodes(children, found),
    }
}

/// What is located after the items of a module.
fn scan_items(items: &Vec<ModuleItem>, found: Option<LocatedLabels>) -> (r: Result<
    Option<LocatedLabels>,
    AnalysisError,
>)
    ensures
        scan_result(r) == scan(found_view(found), decls_in_items(items@, items@.len())),
{
    let ghost start = found_view(found);
    let mut current = found;
    let mut i: usize = 0;
    while i < items.len()
        invariant
            i <= items.len(),
            scan(start, decls_in_items(items@, i as nat)) == Ok::<_, AnalysisError>(
                found_view(current),
            ),
            start == found_view(found),
        decreases items.len() - i,
    {
        proof {
            lemma_scan_concat(
                start,
                decls_in_items(items@, i as nat),
                decls_in_item(items@[i as int]),
            );
        }
        current = match scan_item(&items[i], current) {
            Ok(next) => next,
            Err(e) => {
                proof {
                    lemma_scan_items_error(start, items@, (i + 1) as nat, items@.len());
                }
                return Err(e);
            },
        };
        i += 1;
    }
    Ok(current)
}

/// Finds the tree that a module declares.
#[derive(Debug)]
pub struct LabelVisitor {
    /// What has been found so far.
    pub labels: Option<LocatedLabels>,
}

impl LabelVisitor {
    /// A visitor that has found nothing.
    pub fn new() -> (visitor: Self)
        ensures
            visitor.labels is None,
    {
        Self { labels: None }
    }

    /// Looks at the declarators of one variable declaration. After an error
    /// nothing is located.
    pub fn visit_var_decl(&mut self, node: &VarDecl) -> (r: Result<(), AnalysisError>)
        ensures
            match scan(found_view(old(self).labels), node.decls@) {
                Ok(found) => r is Ok && found_view(final(self).labels) == found,
                Err(e) => r == Err::<(), _>(e) && final(self).labels is None,
            },
    {
        let found = self.labels.take();
        match scan_declarators(&node.decls, found) {
            Ok(found) => {
                self.labels = found;
                Ok(())
            },
            Err(e) => Err(e),
        }
    }

    /// Looks at every variable declaration of a module. After an error nothing
    /// is located.
    pub fn visit_module(&mut self, module: &Module) -> (r: Result<(), AnalysisError>)
        ensures
            match scan(found_view(old(self).labels), decls_in_module(*module)) {
                Ok(found) => r is Ok && found_view(final(self).labels) == found,
                Err(e) => r == Err::<(), _>(e) && final(self).labels is None,
            },
    {
        let found = self.labels.take();
        match scan_items(&module.body, found) {
            Ok(found) => {
                self.labels = found;
                Ok(())
            },
            Err(e) => Err(e),
        }
    }
}

} // verus!
