//! Attributing the keys that a module reads to the owners that read them.
//!
//! Only the items of a module's top-level list establish an owner: a class or a
//! function declaration, each `name = init` entry of a variable declaration, and
//! a default export. Within the body of an owner every member expression is
//! looked at, at any depth; what stands inside a member expression is not. A
//! member expression rooted at the located binding is resolved against the
//! tree, and its keys are recorded under the owner's name. Two owners of the
//! same name share one entry.

use crate::key_set::KeySet;
use crate::labels::{LabelsView, LABELS};
use crate::resolve::{static_chain, LookupFailure};
use crate::string_map::StringMap;
use crate::syntax::{
    Callee, Decl, DefaultDecl, Ident, MemberExpr, Module, ModuleItem, Node, Pat, Prop, PropName,
    PropOrSpread, VarDeclarator,
};
use crate::usage::{record, record_usage, usage_view};
use vstd::prelude::*;

verus! {

/// The innermost base of the chain that ends in `obj`.
pub open spec fn chain_root(obj: Node) -> Node
    decreases obj,
{
    match obj {
        Node::Member(m) => chain_root(*m.obj),
        _ => obj,
    }
}

/// Whether a member expression is rooted at the binding `id`: its innermost
/// base is a bare identifier that denotes that binding.
pub open spec fn rooted_at(e: MemberExpr, id: Ident) -> bool {
    match chain_root(*e.obj) {
        Node::Ident(root) => root.same_binding(id),
        _ => false,
    }
}

/// Whether a member expression is rooted at the binding `id`.
pub fn is_labels_obj(member_expr: &MemberExpr, id: &Ident) -> (b: bool)
    ensures
        b == rooted_at(*member_expr, *id),
    decreases member_expr,
{
    match &*member_expr.obj {
        Node::Member(inner) => is_labels_obj(inner, id),
        Node::Ident(ident) => ident.is_same_binding(id),
        _ => false,
    }
}

/// The member expressions beneath a node, in source order. A member expression
/// is not looked into.
pub open spec fn reads_in_node(node: Node) -> Seq<MemberExpr>
    decreases node, 0nat,
{
    match node {
        Node::Ident(_) => Seq::empty(),
        Node::Str(_) => Seq::empty(),
        Node::Object(o) => reads_in_props(o.props@, o.props@.len()),
        Node::Array(elems) => reads_in_nodes(elems@, elems@.len()),
        Node::Member(m) => seq![m],
        Node::Call(c) => reads_in_callee(c.callee) + reads_in_nodes(c.args@, c.args@.len()),
        Node::Var(v) => reads_in_decls(v.decls@, v.decls@.len()),
        Node::Other(children) => reads_in_nodes(children@, children@.len()),
    }
}

/// The member expressions beneath what a call calls.
pub open spec fn reads_in_callee(callee: Callee) -> Seq<MemberExpr>
    decreases callee, 1nat,
{
    match callee {
        Callee::Expr(e) => reads_in_node(*e),
        Callee::Other => Seq::empty(),
    }
}

/// The member expressions beneath a computed key.
pub open spec fn reads_in_key(key: PropName) -> Seq<MemberExpr>
    decreases key, 1nat,
{
    match key {
        PropName::Computed(e) => reads_in_node(*e),
        _ => Seq::empty(),
    }
}

/// The member expressions beneath the left-hand side of a declarator.
pub open spec fn reads_in_pat(pat: Pat) -> Seq<MemberExpr>
    decreases pat, 1nat,
{
    match pat {
        Pat::Ident(_) => Seq::empty(),
        Pat::Other(children) => reads_in_nodes(children@, children@.len()),
    }
}

/// The member expressions beneath the initialiser of a declarator.
pub open spec fn reads_in_init(init: Option<Node>) -> Seq<MemberExpr>
    decreases init, 1nat,
{
    match init {
        Some(e) => reads_in_node(e),
        None => Seq::empty(),
    }
}

/// The member expressions beneath the first `n` of `nodes`.
pub open spec fn reads_in_nodes(nodes: Seq<Node>, n: nat) -> Seq<MemberExpr>
    decreases nodes, n,
{
    if n == 0 || n > nodes.len() {
        Seq::empty()
    } else {
        reads_in_nodes(nodes, (n - 1) as nat) + reads_in_node(nodes[n - 1])
    }
}

/// The member expressions beneath one element of an object literal.
pub open spec fn reads_in_prop(p: PropOrSpread) -> Seq<MemberExpr>
    decreases p, 0nat,
{
    match p {
        PropOrSpread::Spread(e) => reads_in_node(*e),
        PropOrSpread::Prop(Prop::Other(children)) => reads_in_nodes(children@, children@.len()),
        PropOrSpread::Prop(Prop::KeyValue(kv)) => reads_in_key(kv.key) + reads_in_node(*kv.value),
    }
}

/// The member expressions beneath the first `n` elements of an object literal.
pub open spec fn reads_in_props(props: Seq<PropOrSpread>, n: nat) -> Seq<MemberExpr>
    decreases props, n,
{
    if n == 0 || n > props.len() {
        Seq::empty()
    } else {
        reads_in_props(props, (n - 1) as nat) + reads_in_prop(props[n - 1])
    }
}

/// The member expressions beneath one declarator.
pub open spec fn reads_in_decl(decl: VarDeclarator) -> Seq<MemberExpr>
    decreases decl, 2nat,
{
    reads_in_pat(decl.name) + reads_in_init(decl.init)
}

/// The member expressions beneath the first `n` declarators.
pub open spec fn reads_in_decls(decls: Seq<VarDeclarator>, n: nat) -> Seq<MemberExpr>
    decreases decls, n,
{
    if n == 0 || n > decls.len() {
        Seq::empty()
    } else {
        reads_in_decls(decls, (n - 1) as nat) + reads_in_decl(decls[n - 1])
    }
}

/// What a walk reads the module against.
pub struct Context {
    /// The tree of the module's labels.
    pub labels: LabelsView,
    /// The binding that the tree was declared under.
    pub labels_id: Ident,
    /// The owner of what an unnamed default export reads.
    pub anonymous_default_export_id: Ident,
}

/// What a walk has found.
pub struct WalkState {
    /// The keys recorded under each owner's name.
    pub usage: Map<Seq<char>, Set<Seq<char>>>,
    /// The names that were not found, in the order in which they were looked up.
    pub failures: Seq<Seq<char>>,
}

/// The state after one member expression has been looked at. Without an owner,
/// and for an expression that is not rooted at the located binding, nothing
/// changes. A name that is not found is noted, and adds no key.
pub open spec fn observe(ctx: Context, state: WalkState, owner: Option<Ident>, e: MemberExpr)
    -> WalkState {
    match owner {
        Some(id) => if rooted_at(e, ctx.labels_id) {
            match ctx.labels.resolve(static_chain(e)) {
                Ok(keys) => WalkState { usage: record(state.usage, id.sym@, keys), ..state },
                Err(name) => WalkState { failures: state.failures.push(name), ..state },
            }
        } else {
            state
        },
        None => state,
    }
}

/// The state after the member expressions `reads` have been looked at, in order.
pub open spec fn observe_all(
    ctx: Context,
    state: WalkState,
    owner: Option<Ident>,
    reads: Seq<MemberExpr>,
) -> WalkState
    decreases reads.len(),
{
    if reads.len() == 0 {
        state
    } else {
        observe(ctx, observe_all(ctx, state, owner, reads.drop_last()), owner, reads.last())
    }
}

/// Looking at two lists in a row is looking at the first, then at the second.
pub proof fn lemma_observe_concat(
    ctx: Context,
    state: WalkState,
    owner: Option<Ident>,
    a: Seq<MemberExpr>,
    b: Seq<MemberExpr>,
)
    ensures
        observe_all(ctx, state, owner, a + b) == observe_all(
            ctx,
            observe_all(ctx, state, owner, a),
            owner,
            b,
        ),
    decreases b.len(),
{
    if b.len() == 0 {
        assert(a + b =~= a);
    } else {
        lemma_observe_concat(ctx, state, owner, a, b.drop_last());
        assert((a + b).drop_last() =~= a + b.drop_last());
        assert((a + b).last() == b.last());
    }
}

/// Without an owner nothing is recorded.
pub proof fn lemma_observe_without_owner(ctx: Context, state: WalkState, reads: Seq<MemberExpr>)
    ensures
        observe_all(ctx, state, None, reads) == state,
    decreases reads.len(),
{
    if reads.len() > 0 {
        lemma_observe_without_owner(ctx, state, reads.drop_last());
    }
}

/// The state after the first `n` declarators of a top-level variable
/// declaration. Each `name = init` entry is the owner of what its initialiser
/// reads; an entry with a pattern is not looked at.
pub open spec fn walk_declarators(
    ctx: Context,
    state: WalkState,
    decls: Seq<VarDeclarator>,
    n: nat,
) -> WalkState
    decreases n,
{
    if n == 0 || n > decls.len() {
        state
    } else {
        let before = walk_declarators(ctx, state, decls, (n - 1) as nat);
        match decls[n - 1].name {
            Pat::Ident(id) => observe_all(ctx, before, Some(id), reads_in_init(decls[n - 1].init)),
            Pat::Other(_) => before,
        }
    }
}

/// The state after a top-level declaration.
pub open spec fn walk_decl(ctx: Context, state: WalkState, decl: Decl) -> WalkState {
    match decl {
        Decl::Class(c) => observe_all(
            ctx,
            state,
            Some(c.ident),
            reads_in_nodes(c.class.body@, c.class.body@.len()),
        ),
        Decl::Fn(f) => observe_all(
            ctx,
            state,
            Some(f.ident),
            reads_in_nodes(f.function.body@, f.function.body@.len()),
        ),
        Decl::Var(v) => walk_declarators(ctx, state, v.decls@, v.decls@.len()),
        Decl::Other(_) => state,
    }
}

/// The owner of a default-exported class or function: its name, or the
/// anonymous default export.
pub open spec fn default_owner(ctx: Context, ident: Option<Ident>) -> Ident {
    match ident {
        Some(id) => id,
        None => ctx.anonymous_default_export_id,
    }
}

/// The state after one item of a module.
pub open spec fn walk_item(ctx: Context, state: WalkState, item: ModuleItem) -> WalkState {
    match item {
        ModuleItem::ExportDecl(decl) => walk_decl(ctx, state, decl),
        ModuleItem::Decl(decl) => walk_decl(ctx, state, decl),
        ModuleItem::ExportDefaultDecl(DefaultDecl::Class(c)) => observe_all(
            ctx,
            state,
            Some(default_owner(ctx, c.ident)),
            reads_in_nodes(c.class.body@, c.class.body@.len()),
        ),
        ModuleItem::ExportDefaultDecl(DefaultDecl::Fn(f)) => observe_all(
            ctx,
            state,
            Some(default_owner(ctx, f.ident)),
            reads_in_nodes(f.function.body@, f.function.body@.len()),
        ),
        ModuleItem::ExportDefaultDecl(DefaultDecl::TsInterfaceDecl) => state,
        ModuleItem::ExportDefaultExpr(Node::Array(elems)) => observe_all(
            ctx,
            state,
            Some(ctx.anonymous_default_export_id),
            reads_in_nodes(elems@, elems@.len()),
        ),
        ModuleItem::ExportDefaultExpr(Node::Object(o)) => observe_all(
            ctx,
            state,
            Some(ctx.anonymous_default_export_id),
            reads_in_props(o.props@, o.props@.len()),
        ),
        ModuleItem::ExportDefaultExpr(_) => state,
        ModuleItem::Other(_) => state,
    }
}

/// The state after the first `n` items of a module.
pub open spec fn walk_items(ctx: Context, state: WalkState, items: Seq<ModuleItem>, n: nat)
    -> WalkState
    decreases n,
{
    if n == 0 || n > items.len() {
        state
    } else {
        walk_item(ctx, walk_items(ctx, state, items, (n - 1) as nat), items[n - 1])
    }
}

/// Nothing found yet.
pub open spec fn no_usage() -> WalkState {
    WalkState { usage: Map::empty(), failures: Seq::empty() }
}

/// What a walk of the whole module finds.
pub open spec fn walk_module(ctx: Context, module: Module) -> WalkState {
    walk_items(ctx, no_usage(), module.body@, module.body@.len())
}

/// The name of each failure, in order.
pub open spec fn failure_names(failures: Seq<LookupFailure>) -> Seq<Seq<char>> {
    failures.map_values(|f: LookupFailure| f.property@)
}

/// The owner that a walk is given.
pub open spec fn owner_of(owner: Option<&Ident>) -> Option<Ident> {
    match owner {
        Some(id) => Some(*id),
        None => None,
    }
}

/// Walks a module and records which keys each owner reads.
#[derive(Debug)]
pub struct LabelUsageVisitor {
    /// The tree of the module's labels.
    pub labels: LABELS,
    /// The binding that the tree was declared under.
    pub labels_id: Ident,
    /// The owner of what an unnamed default export reads.
    pub anonymous_default_export_id: Ident,
    /// The keys recorded under each owner's name.
    pub usage: StringMap<KeySet>,
    /// The lookups that failed, in order.
    pub failures: Vec<LookupFailure>,
}

impl LabelUsageVisitor {
    /// What the walk reads the module against.
    pub open spec fn context(self) -> Context {
        Context {
            labels: self.labels@,
            labels_id: self.labels_id,
            anonymous_default_export_id: self.anonymous_default_export_id,
        }
    }

    /// What the walk has found.
    pub open spec fn state(self) -> WalkState {
        WalkState { usage: usage_view(self.usage@), failures: failure_names(self.failures@) }
    }

    /// Whether the tree and the two identities are those of `other`.
    pub open spec fn same_setting(self, other: Self) -> bool {
        &&& self.labels == other.labels
        &&& self.labels_id == other.labels_id
        &&& self.anonymous_default_export_id == other.anonymous_default_export_id
    }

    /// A walk that has found nothing.
    pub fn new(labels: LABELS, labels_id: Ident, anonymous_default_export_id: Ident) -> (visitor:
        Self)
        ensures
            visitor.labels == labels,
            visitor.labels_id == labels_id,
            visitor.anonymous_default_export_id == anonymous_default_export_id,
            visitor.state() == no_usage(),
    {
        let visitor = Self {
            labels,
            labels_id,
            anonymous_default_export_id,
            usage: StringMap::new(),
            failures: Vec::new(),
        };
        assert(visitor.state().usage =~= Map::empty());
        assert(visitor.state().failures =~= Seq::empty());
        visitor
    }

    /// Looks at one member expression.
    pub fn visit_member_expr(&mut self, owner: Option<&Ident>, node: &MemberExpr)
        ensures
            final(self).same_setting(*old(self)),
            final(self).state() == observe(
                old(self).context(),
                old(self).state(),
                owner_of(owner),
                *node,
            ),
    {
        match owner {
            Some(id) => {
                if is_labels_obj(node, &self.labels_id) {
                    match self.labels.get_translation_keys_for_member_expr(node) {
                        Ok(translation_keys) => {
                            record_usage(&mut self.usage, id.sym.as_str(), &translation_keys);
                        },
                        Err(failure) => {
                            proof {
                                assert(failure_names(self.failures@.push(failure))
                                    =~= failure_names(self.failures@).push(failure.property@));
                            }
                            self.failures.push(failure);
                        },
                    }
                }
            },
            None => {},
        }
    }

    /// Looks at the member expressions beneath a node.
    pub fn visit_node(&mut self, owner: Option<&Ident>, node: &Node)
        ensures
            final(self).same_setting(*old(self)),
            final(self).state() == observe_all(
                old(self).context(),
                old(self).state(),
                owner_of(owner),
                reads_in_node(*node),
            ),
        decreases node,
    {
        let ghost ctx = self.context();
        let ghost start = self.state();
        let ghost who = owner_of(owner);
        match node {
            Node::Ident(_) => {},
            Node::Str(_) => {},
            Node::Object(object_lit) => self.visit_props(owner, &object_lit.props),
            Node::Array(elems) => self.visit_nodes(owner, elems),
            Node::Member(member_expr) => {
                proof {
                    let reads = seq![*member_expr];
                    assert(reads.drop_last() =~= Seq::<MemberExpr>::empty());
                    assert(reads.last() == *member_expr);
                    assert(observe_all(ctx, start, who, reads.drop_last()) == start);
                    assert(observe_all(ctx, start, who, reads) == observe(
                        ctx,
                        start,
                        who,
                        *member_expr,
                    ));
                }
                self.visit_member_expr(owner, member_expr);
            },
            Node::Call(call_expr) => {
                proof {
                    lemma_observe_concat(
                        ctx,
                        start,
                        who,
                        reads_in_callee(call_expr.callee),
                        reads_in_nodes(call_expr.args@, call_expr.args@.len()),
                    );
                }
                match &call_expr.callee {
                    Callee::Expr(e) => self.visit_node(owner, e),
                    Callee::Other => {},
                }
                self.visit_nodes(owner, &call_expr.args);
            },
            Node::Var(var_decl) => self.visit_declarators(owner, &var_decl.decls),
            Node::Other(children) => self.visit_nodes(owner, children),
        }
    }

    /// Looks at the member expressions beneath the nodes, in order.
    pub fn visit_nodes(&mut self, owner: Option<&Ident>, nodes: &Vec<Node>)
        ensures
            final(self).same_setting(*old(self)),
            final(self).state() == observe_all(
                old(self).context(),
                old(self).state(),
                owner_of(owner),
                reads_in_nodes(nodes@, nodes@.len()),
            ),
        decreases nodes,
    {
        let ghost ctx = self.context();
        let ghost start = self.state();
        let ghost who = owner_of(owner);
        let mut i: usize = 0;
        while i < nodes.len()
            invariant
                i <= nodes.len(),
                self.same_setting(*old(self)),
                ctx == old(self).context(),
                start == old(self).state(),
                who == owner_of(owner),
                self.state() == observe_all(ctx, start, who, reads_in_nodes(nodes@, i as nat)),
            decreases nodes.len() - i,
        {
            proof {
                lemma_observe_concat(
                    ctx,
                    start,
                    who,
                    reads_in_nodes(nodes@, i as nat),
                    reads_in_node(nodes@[i as int]),
                );
            }
            self.visit_node(owner, &nodes[i]);
            i += 1;
        }
    }

    /// Looks at the member expressions beneath the elements of an object literal.
    pub fn visit_props(&mut self, owner: Option<&Ident>, props: &Vec<PropOrSpread>)
        ensures
            final(self).same_setting(*old(self)),
            final(self).state() == observe_all(
                old(self).context(),
                old(self).state(),
                owner_of(owner),
                reads_in_props(props@, props@.len()),
            ),
        decreases props,
    {
        let ghost ctx = self.context();
        let ghost start = self.state();
        let ghost who = owner_of(owner);
        let mut i: usize = 0;
        while i < props.len()
            invariant
                i <= props.len(),
                self.same_setting(*old(self)),
                ctx == old(self).context(),
                start == old(self).state(),
                who == owner_of(owner),
                self.state() == observe_all(ctx, start, who, reads_in_props(props@, i as nat)),
            decreases props.len() - i,
        {
            let ghost before = self.state();
            proof {
                lemma_observe_concat(
                    ctx,
                    start,
                    who,
                    reads_in_props(props@, i as nat),
                    reads_in_prop(props@[i as int]),
                );
            }
            match &props[i] {
                PropOrSpread::Spread(e) => self.visit_node(owner, e),
                PropOrSpread::Prop(prop) => match prop {
                    Prop::Other(children) => self.visit_nodes(owner, children),
                    Prop::KeyValue(kv) => {
                        proof {
                            lemma_observe_concat(
                                ctx,
                                before,
                                who,
                                reads_in_key(kv.key),
                                reads_in_node(*kv.value),
                            );
                        }
                        match &kv.key {
                            PropName::Computed(e) => self.visit_node(owner, e),
                            _ => {},
                        }
                        self.visit_node(owner, &kv.value);
                    },
                },
            }
            i += 1;
        }
    }

    /// Looks at the member expressions beneath the declarators of a variable
    /// declaration that stands inside an owner's body.
    pub fn visit_declarators(&mut self, owner: Option<&Ident>, decls: &Vec<VarDeclarator>)
        ensures
            final(self).same_setting(*old(self)),
            final(self).state() == observe_all(
                old(self).context(),
                old(self).state(),
                owner_of(owner),
                reads_in_decls(decls@, decls@.len()),
            ),
        decreases decls,
    {
        let ghost ctx = self.context();
        let ghost start = self.state();
        let ghost who = owner_of(owner);
        let mut i: usize = 0;
        while i < decls.len()
            invariant
                i <= decls.len(),
                self.same_setting(*old(self)),
                ctx == old(self).context(),
                start == old(self).state(),
                who == owner_of(owner),
                self.state() == observe_all(ctx, start, who, reads_in_decls(decls@, i as nat)),
            decreases decls.len() - i,
        {
            let ghost before = self.state();
            proof {
                lemma_observe_concat(
                    ctx,
                    start,
                    who,
                    reads_in_decls(decls@, i as nat),
                    reads_in_decl(decls@[i as int]),
                );
                lemma_observe_concat(
                    ctx,
                    before,
                    who,
                    reads_in_pat(decls@[i as int].name),
                    reads_in_init(decls@[i as int].init),
                );
            }
            match &decls[i].name {
                Pat::Ident(_) => {},
                Pat::Other(children) => self.visit_nodes(owner, children),
            }
            self.visit_init(owner, &decls[i].init);
            i += 1;
        }
    }

    /// Looks at the member expressions beneath an initialiser.
    pub fn visit_init(&mut self, owner: Option<&Ident>, init: &Option<Node>)
        ensures
            final(self).same_setting(*old(self)),
            final(self).state() == observe_all(
                old(self).context(),
                old(self).state(),
                owner_of(owner),
                reads_in_init(*init),
            ),
        decreases init,
    {
        match init {
            Some(e) => self.visit_node(owner, e),
            None => {},
        }
    }

    /// Looks at a top-level declaration.
    fn visit_decl(&mut self, decl: &Decl)
        ensures
            final(self).same_setting(*old(self)),
            final(self).state() == walk_decl(old(self).context(), old(self).state(), *decl),
    {
        match decl {
            // class Foo {}
            Decl::Class(class_decl) => {
                self.visit_nodes(Some(&class_decl.ident), &class_decl.class.body);
            },
            // function foo() {}
            Decl::Fn(fn_decl) => {
                self.visit_nodes(Some(&fn_decl.ident), &fn_decl.function.body);
            },
            // const foo = init, bar = init;
            Decl::Var(var_decl) => {
                let ghost ctx = self.context();
                let ghost start = self.state();
                let mut i: usize = 0;
                while i < var_decl.decls.len()
                    invariant
                        i <= var_decl.decls.len(),
                        self.same_setting(*old(self)),
                        ctx == old(self).context(),
                        start == old(self).state(),
                        self.state() == walk_declarators(ctx, start, var_decl.decls@, i as nat),
                    decreases var_decl.decls.len() - i,
                {
                    match &var_decl.decls[i].name {
                        Pat::Ident(id) => {
                            self.visit_init(Some(id), &var_decl.decls[i].init);
                        },
                        Pat::Other(_) => {},
                    }
                    i += 1;
                }
            },
            Decl::Other(_) => {},
        }
    }

    /// Walks the items of a module, in order.
    pub fn visit_module(&mut self, n: &Module)
        ensures
            final(self).same_setting(*old(self)),
            final(self).state() == walk_items(
                old(self).context(),
                old(self).state(),
                n.body@,
                n.body@.len(),
            ),
    {
        let ghost ctx = self.context();
        let ghost start = self.state();
        let mut i: usize = 0;
        while i < n.body.len()
            invariant
                i <= n.body.len(),
                self.same_setting(*old(self)),
                ctx == old(self).context(),
                start == old(self).state(),
                self.state() == walk_items(ctx, start, n.body@, i as nat),
            decreases n.body.len() - i,
        {
            match &n.body[i] {
                ModuleItem::ExportDecl(decl) => self.visit_decl(decl),
                ModuleItem::Decl(decl) => self.visit_decl(decl),
                ModuleItem::ExportDefaultDecl(decl) => match decl {
                    DefaultDecl::Class(class_expr) => {
                        let anonymous = self.anonymous_default_export_id.clone();
                        match &class_expr.ident {
                            // export default class ClassName { /* … */ }
                            Some(ident) => self.visit_nodes(Some(ident), &class_expr.class.body),
                            // export default class { /* … */ }
                            None => self.visit_nodes(Some(&anonymous), &class_expr.class.body),
                        }
                    },
                    DefaultDecl::Fn(fn_expr) => {
                        let anonymous = self.anonymous_default_export_id.clone();
                        match &fn_expr.ident {
                            // export default function functionName() { /* … */ }
                            Some(ident) => self.visit_nodes(Some(ident), &fn_expr.function.body),
                            // export default function () { /* … */ }
                            None => self.visit_nodes(Some(&anonymous), &fn_expr.function.body),
                        }
                    },
                    DefaultDecl::TsInterfaceDecl => {},
                },
                ModuleItem::ExportDefaultExpr(expr) => {
                    let anonymous = self.anonymous_default_export_id.clone();
                    match expr {
                        // export default [name1, name2];
                        Node::Array(elems) => self.visit_nodes(Some(&anonymous), elems),
                        // export default { name1, name2 };
                        Node::Object(object_lit) => self.visit_props(
                            Some(&anonymous),
                            &object_lit.props,
                        ),
                        // export default name1;
                        _ => {},
                    }
                },
                ModuleItem::Other(_) => {},
            }
            i += 1;
        }
    }
}

} // verus!
