//! The syntax tree that the analysis reads.
//!
//! The tree is a closed sum type: every kind of node that has a rule of its
//! own is a variant of [`Node`], and every other kind of node is
//! [`Node::Other`], which only carries its children.  Names are plain
//! strings; source positions are not part of the tree.

use vstd::prelude::*;

verus! {

/// One specifier of an import declaration.
#[derive(Debug)]
pub enum ImportSpecifier {
    /// `import { imported as local } from '...'`, or `import { local } from
    /// '...'` when `imported` is `None`.
    Named { local: String, imported: Option<String> },
    /// `import local from '...'`.
    Default { local: String },
    /// `import * as local from '...'`.
    Namespace { local: String },
}

/// An import declaration: `import <specifiers> from '<src>'`.
#[derive(Debug)]
pub struct ImportDecl {
    pub specifiers: Vec<ImportSpecifier>,
    /// The module specifier string, without its quotes.
    pub src: String,
    /// Whether the declaration is written `import type ...`.
    pub type_only: bool,
}

/// The property of a member expression.
#[derive(Debug)]
pub enum MemberProp {
    /// `obj.name`.
    Ident(String),
    /// `obj.#name`.
    PrivateName(String),
    /// `obj[expr]`.
    Computed(Box<Node>),
}

/// A member expression: `obj.prop`, `obj.#prop` or `obj[prop]`.
#[derive(Debug)]
pub struct MemberExpr {
    pub obj: Box<Node>,
    pub prop: MemberProp,
}

/// A `new` expression: `new callee(args)`.
#[derive(Debug)]
pub struct NewExpr {
    pub callee: Box<Node>,
    pub args: Vec<Node>,
}

/// A tagged template: ``tag`...${exprs}...` ``.
#[derive(Debug)]
pub struct TaggedTpl {
    pub tag: Box<Node>,
    /// The substitutions of the template, in source order.
    pub exprs: Vec<Node>,
}

/// A qualified type name: `left.right`.
#[derive(Debug)]
pub struct TsQualifiedName {
    pub left: TsEntityName,
    pub right: String,
}

/// The name of a type reference: `Name` or `Namespace.Member`.
#[derive(Debug)]
pub enum TsEntityName {
    Ident(String),
    TsQualifiedName(Box<TsQualifiedName>),
}

/// A reference to a named type, with its type arguments: `Name<Args>`.
#[derive(Debug)]
pub struct TsTypeRef {
    pub name: TsEntityName,
    pub type_params: Vec<Node>,
}

/// A type annotation: the `: Type` after a binding, parameter or property.
#[derive(Debug)]
pub struct TsTypeAnn {
    pub type_ann: Box<Node>,
}

/// An entry of an `extends` or `implements` clause: `expr<type_args>`.
#[derive(Debug)]
pub struct TsExprWithTypeArgs {
    pub expr: Box<Node>,
    pub type_args: Vec<Node>,
}

/// A property signature of an interface: `key: Type` or `key?: Type`.
#[derive(Debug)]
pub struct TsPropertySignature {
    pub key: Box<Node>,
    pub type_ann: Option<TsTypeAnn>,
}

/// A member of an interface body.
#[derive(Debug)]
pub enum TsTypeElement {
    TsPropertySignature(TsPropertySignature),
    /// A method, call, construct or index signature, or an accessor, with
    /// its children.
    Other(Vec<Node>),
}

/// An interface declaration: `interface id extends <extends> { <body> }`.
#[derive(Debug)]
pub struct TsInterfaceDecl {
    pub id: String,
    pub extends: Vec<TsExprWithTypeArgs>,
    pub body: Vec<TsTypeElement>,
}

/// A node of the syntax tree.
#[derive(Debug)]
pub enum Node {
    /// An identifier in value position.
    Ident(String),
    Member(MemberExpr),
    New(NewExpr),
    TaggedTpl(TaggedTpl),
    Import(ImportDecl),
    TsTypeRef(TsTypeRef),
    TsTypeAnn(TsTypeAnn),
    TsInterfaceDecl(TsInterfaceDecl),
    TsExprWithTypeArgs(TsExprWithTypeArgs),
    /// Any other kind of node, with its children in source order.
    Other(Vec<Node>),
}

/// The syntax tree of one module: its top-level items in source order.
#[derive(Debug)]
pub struct Module {
    pub body: Vec<Node>,
}

impl Module {
    /// A module with the given top-level items.
    pub fn new(body: Vec<Node>) -> (module: Module)
        ensures
            module.body == body,
    {
        Module { body }
    }
}

} // verus!
