//! The library's own model of one parsed JavaScript/TypeScript module.
//!
//! The tree is immutable and carries a byte-offset [`Span`] on every node the
//! analysis reads. A host converts its parser's output into this shape; node
//! kinds the analysis does not distinguish arrive as the generic `Other`
//! variants, which keep only the child statements and expressions so that
//! default recursion still reaches everything inside them.

use crate::span::Span;
use vstd::prelude::*;

verus! {

/// One parsed module: the sequence of its top-level items.
#[derive(Debug)]
pub struct Module {
    pub items: Vec<ModuleItem>,
}

#[derive(Debug)]
pub enum ModuleItem {
    /// `import ... from '...'`.
    Import(ImportDecl),
    /// `export` wrapping a declaration; the analysis treats it as the bare
    /// declaration.
    Export(Decl),
    /// Any other top-level statement.
    Stmt(Stmt),
}

#[derive(Debug)]
pub struct ImportDecl {
    /// The module specifier, e.g. `./a` or `pkg`.
    pub src: String,
    pub specifiers: Vec<ImportSpecifier>,
    pub span: Span,
}

/// One binding introduced by an import declaration. Each variant records the
/// locally bound name (for a named import with an alias, the alias).
#[derive(Debug)]
pub enum ImportSpecifier {
    Default { local: String },
    Named { local: String },
    Namespace { local: String },
}

#[derive(Debug)]
pub enum Decl {
    Fn(FnDecl),
    Class(ClassDecl),
    Var(Vec<VarDeclarator>),
}

#[derive(Debug)]
pub struct FnDecl {
    pub name: String,
    pub function: Function,
}

/// The body of a named function, function expression, or method: the one
/// shape that can be a throw-detection boundary together with a leading
/// comment block.
#[derive(Debug)]
pub struct Function {
    pub body: Vec<Stmt>,
    pub span: Span,
    /// Text of the comments attached directly before this unit, for the
    /// ignore-marker policy.
    pub leading_comments: Vec<String>,
}

#[derive(Debug)]
pub struct ClassDecl {
    pub name: String,
    pub members: Vec<ClassMember>,
}

#[derive(Debug)]
pub enum ClassMember {
    Method(ClassMethod),
    Ctor(Constructor),
    /// A field or other member the analysis does not read.
    Other,
}

#[derive(Debug)]
pub struct ClassMethod {
    /// The method name; `None` for computed or otherwise non-identifier keys.
    pub name: Option<String>,
    pub function: Function,
    pub span: Span,
}

#[derive(Debug)]
pub struct Constructor {
    pub body: Vec<Stmt>,
    pub span: Span,
    pub leading_comments: Vec<String>,
}

#[derive(Debug)]
pub struct VarDeclarator {
    /// The bound name; `None` for destructuring patterns.
    pub name: Option<String>,
    pub init: Option<Box<Expr>>,
    pub span: Span,
}

#[derive(Debug)]
pub enum Stmt {
    Expr(Expr),
    Block(Vec<Stmt>),
    If { test: Expr, cons: Box<Stmt>, alt: Option<Box<Stmt>> },
    Throw { span: Span },
    Try(TryStmt),
    Decl(Decl),
    /// Any other statement kind; recursion continues into the children.
    Other { exprs: Vec<Expr>, stmts: Vec<Stmt> },
}

#[derive(Debug)]
pub struct TryStmt {
    pub block: Vec<Stmt>,
    /// The catch block, if present.
    pub handler: Option<Vec<Stmt>>,
    pub finalizer: Option<Vec<Stmt>>,
    pub span: Span,
}

#[derive(Debug)]
pub enum Expr {
    Ident(String),
    This,
    Call(CallExpr),
    Member(MemberExpr),
    Fn(FnExpr),
    Arrow(ArrowExpr),
    Object(ObjectLit),
    New(NewExpr),
    Paren(Box<Expr>),
    Await(Box<Expr>),
    Bin { left: Box<Expr>, right: Box<Expr> },
    /// An optional chain; the boxed expression is the object the chain starts
    /// from.
    OptChain(Box<Expr>),
    Assign(AssignExpr),
    /// Any other expression kind; recursion continues into the children.
    Other { exprs: Vec<Expr> },
}

#[derive(Debug)]
pub struct CallExpr {
    pub callee: Callee,
    pub args: Vec<Expr>,
    pub span: Span,
}

#[derive(Debug)]
pub enum Callee {
    Expr(Box<Expr>),
    /// `super(...)` or `import(...)`.
    Other,
}

#[derive(Debug)]
pub struct MemberExpr {
    pub obj: Box<Expr>,
    /// The property name; `None` for computed or private properties.
    pub prop: Option<String>,
    pub span: Span,
}

#[derive(Debug)]
pub struct FnExpr {
    pub function: Function,
}

#[derive(Debug)]
pub struct ArrowExpr {
    pub body: ArrowBody,
    pub span: Span,
    pub leading_comments: Vec<String>,
}

#[derive(Debug)]
pub enum ArrowBody {
    Block(Vec<Stmt>),
    Expr(Box<Expr>),
}

#[derive(Debug)]
pub struct ObjectLit {
    pub props: Vec<Prop>,
    pub span: Span,
}

#[derive(Debug)]
pub enum Prop {
    /// `name() { ... }` inside an object literal; `None` for a non-identifier
    /// key.
    Method { name: Option<String>, function: Function },
    /// `key: value`; the key is already rendered to a string.
    KeyValue { key: String, value: Box<Expr> },
    Other,
}

#[derive(Debug)]
pub struct NewExpr {
    pub callee: Box<Expr>,
    pub args: Vec<Expr>,
    pub span: Span,
}

#[derive(Debug)]
pub struct AssignExpr {
    /// The assigned name when the target is a plain identifier.
    pub target: Option<String>,
    pub right: Box<Expr>,
    pub span: Span,
}

} // verus!
