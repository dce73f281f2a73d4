//! The syntax tree that the analysis reads.
//!
//! A module is modelled by the node kinds the analysis recognises. Every other
//! construct is an `Other` node that only holds its child nodes, in source order.
//! Identifiers carry the binding identity that scope resolution assigned to them,
//! so that two identifiers denote the same entity exactly when both their name and
//! their syntax context agree.

use vstd::prelude::*;

verus! {

/// An identifier, resolved to a binding.
#[derive(Debug)]
pub struct Ident {
    /// The name as written.
    pub sym: String,
    /// The syntax context that scope resolution assigned.
    pub ctxt: u32,
}

impl Ident {
    /// Whether `self` and `other` denote the same binding.
    pub open spec fn same_binding(self, other: Ident) -> bool {
        self.sym@ == other.sym@ && self.ctxt == other.ctxt
    }

    /// Whether `self` and `other` denote the same binding.
    pub fn is_same_binding(&self, other: &Ident) -> (b: bool)
        ensures
            b == self.same_binding(*other),
    {
        self.ctxt == other.ctxt && self.sym == other.sym
    }
}

impl Clone for Ident {
    fn clone(&self) -> (r: Self)
        ensures
            r == *self,
    {
        Ident { sym: self.sym.clone(), ctxt: self.ctxt }
    }
}

/// The key of an object-literal property.
#[derive(Debug)]
pub enum PropName {
    /// A plain key: `bird: ...`.
    Ident(String),
    /// A computed key: `[PET.bird]: ...`.
    Computed(Box<Node>),
    /// Any other key: a string, a number.
    Other,
}

/// A `key: value` property.
#[derive(Debug)]
pub struct KeyValueProp {
    pub key: PropName,
    pub value: Box<Node>,
}

/// A property of an object literal.
#[derive(Debug)]
pub enum Prop {
    KeyValue(KeyValueProp),
    /// A shorthand, getter, setter or method property, with its child nodes.
    Other(Vec<Node>),
}

/// One element of an object literal.
#[derive(Debug)]
pub enum PropOrSpread {
    /// `...expr`
    Spread(Box<Node>),
    Prop(Prop),
}

/// An object literal.
#[derive(Debug)]
pub struct ObjectLit {
    pub props: Vec<PropOrSpread>,
}

/// The property of a member access.
#[derive(Debug)]
pub enum MemberProp {
    /// `obj.name`
    Ident(String),
    /// `obj[expr]`
    Computed(Box<Node>),
    /// `obj.#name`
    PrivateName(String),
}

/// A member access `obj.prop`.
#[derive(Debug)]
pub struct MemberExpr {
    pub obj: Box<Node>,
    pub prop: MemberProp,
}

/// What a call expression calls.
#[derive(Debug)]
pub enum Callee {
    Expr(Box<Node>),
    /// `super(...)` or `import(...)`.
    Other,
}

/// A call `callee(args)`. A spread argument is held as its expression.
#[derive(Debug)]
pub struct CallExpr {
    pub callee: Callee,
    pub args: Vec<Node>,
}

/// The left-hand side of a variable declarator.
#[derive(Debug)]
pub enum Pat {
    /// `name = init`
    Ident(Ident),
    /// A destructuring pattern, with its child nodes.
    Other(Vec<Node>),
}

/// One `name = init` entry of a variable declaration.
#[derive(Debug)]
pub struct VarDeclarator {
    pub name: Pat,
    pub init: Option<Node>,
}

/// A `var`, `let` or `const` declaration.
#[derive(Debug)]
pub struct VarDecl {
    pub decls: Vec<VarDeclarator>,
}

/// A syntax node.
#[derive(Debug)]
pub enum Node {
    /// A bare identifier.
    Ident(Ident),
    /// A string literal.
    Str(String),
    Object(ObjectLit),
    /// An array literal, with its elements.
    Array(Vec<Node>),
    Member(MemberExpr),
    Call(CallExpr),
    Var(VarDecl),
    /// Any other expression, statement or declaration, with its child nodes.
    Other(Vec<Node>),
}

/// A class: its heritage, decorators and members, as nodes.
#[derive(Debug)]
pub struct Class {
    pub body: Vec<Node>,
}

/// A function: its parameters, decorators and body, as nodes.
#[derive(Debug)]
pub struct Function {
    pub body: Vec<Node>,
}

/// `class Name { ... }`
#[derive(Debug)]
pub struct ClassDecl {
    pub ident: Ident,
    pub class: Class,
}

/// `function name() { ... }`
#[derive(Debug)]
pub struct FnDecl {
    pub ident: Ident,
    pub function: Function,
}

/// A declaration.
#[derive(Debug)]
pub enum Decl {
    Class(ClassDecl),
    Fn(FnDecl),
    Var(VarDecl),
    /// Any other declaration, with its child nodes.
    Other(Vec<Node>),
}

/// A class expression, named or not.
#[derive(Debug)]
pub struct ClassExpr {
    pub ident: Option<Ident>,
    pub class: Class,
}

/// A function expression, named or not.
#[derive(Debug)]
pub struct FnExpr {
    pub ident: Option<Ident>,
    pub function: Function,
}

/// What `export default` declares.
#[derive(Debug)]
pub enum DefaultDecl {
    Class(ClassExpr),
    Fn(FnExpr),
    TsInterfaceDecl,
}

/// One item of a module's top-level list.
#[derive(Debug)]
pub enum ModuleItem {
    /// `export class ...`, `export function ...`, `export const ...`
    ExportDecl(Decl),
    /// `export default class ...`, `export default function ...`
    ExportDefaultDecl(DefaultDecl),
    /// `export default <expression>`
    ExportDefaultExpr(Node),
    /// A declaration that is not exported.
    Decl(Decl),
    /// Any other statement or module declaration, with its child nodes.
    Other(Vec<Node>),
}

/// A parsed module.
#[derive(Debug)]
pub struct Module {
    pub body: Vec<ModuleItem>,
}

} // verus!
