//! The syntax tree of an embedded host fragment, as far as the generator
//! reads it. What the generator copies without reading is held as text.
use vstd::prelude::*;

verus! {

/// What kind of literal a literal is.
#[derive(Debug, PartialEq, Eq, Clone, Copy, Structural)]
pub enum LitKind {
    Int,
    Float,
    Bool,
    Str,
    Other,
}

/// A construct of the host language that a template may not hold.
#[derive(Debug, PartialEq, Eq, Clone, Copy, Structural)]
pub enum Construct {
    Async,
    InPlace,
    TryBlock,
    Yield,
    Verbatim,
}

/// A host expression.
#[derive(Debug, PartialEq)]
#[allow(inconsistent_fields)]
pub enum Expr {
    /// A construct that templates do not admit.
    Rejected(Construct),
    /// An expression that carries attributes.
    Attributed(Box<Expr>),
    /// `[a, b]`
    Array(List),
    /// `left op right` for an assignment operator; `left` is copied.
    Assign { left: Vec<u8>, op: Vec<u8>, right: Box<Expr> },
    /// `left op right` for a binary operator.
    Binary { left: Box<Expr>, op: Vec<u8>, right: Box<Expr> },
    /// A block, after its label if it has one.
    Block { label: Vec<u8>, block: Block },
    /// `box expr`
    Boxed(Box<Expr>),
    /// `break`, with the label's text and a value if there are any.
    Break { label: Vec<u8>, expr: Option<Box<Expr>> },
    /// A call; the callee is copied.
    Call { func: Vec<u8>, args: List },
    /// `expr as ty`
    Cast { expr: Box<Expr>, ty: Vec<u8> },
    /// A closure: what stands before its parameters, the parameters, the
    /// return type as written, and the body.
    Closure { head: Vec<u8>, inputs: Vec<Arg>, output: Vec<u8>, body: Box<Expr> },
    /// `base.member`
    Field { base: Box<Expr>, member: Vec<u8> },
    /// `for pat in expr { .. }`, after its label if it has one.
    ForLoop { label: Vec<u8>, pat: Pat, expr: Box<Expr>, body: Block },
    /// An expression grouped without delimiters.
    Group(Box<Expr>),
    /// `if cond { .. } else ..`
    If { cond: Box<Expr>, then_branch: Block, else_branch: Option<Box<Expr>> },
    /// `expr[index]`; the index is copied.
    Index { expr: Box<Expr>, index: Vec<u8> },
    /// `let pats = expr` as the condition of an `if` or a `while`.
    Let { pats: Vec<Pat>, expr: Box<Expr> },
    /// A literal.
    Lit { kind: LitKind, text: Vec<u8> },
    /// `loop { .. }`, after its label if it has one.
    Loop { label: Vec<u8>, body: Block },
    /// `match expr { arms }`
    Match { expr: Box<Expr>, arms: Vec<Arm> },
    /// `receiver.method(args)`; the method's name and type arguments are copied.
    MethodCall { receiver: Box<Expr>, method: Vec<u8>, args: List },
    /// `(expr)`
    Paren(Box<Expr>),
    /// A path used as a value, with its segments' names and its text.
    Path { qself: bool, segments: Vec<Vec<u8>>, text: Vec<u8> },
    /// `from..to` or `from..=to`
    Range { from: Option<Box<Expr>>, limits: Vec<u8>, to: Option<Box<Expr>> },
    /// Tokens that are copied: a macro call, `continue`, `[x; n]`.
    Raw(Vec<u8>),
    /// `&expr` or `&mut expr`
    Reference { mutable: bool, expr: Box<Expr> },
    /// `return`, with a value if there is one.
    Return(Option<Box<Expr>>),
    /// A struct literal: the path, the fields, and what follows them.
    Struct { path: Vec<u8>, fields: Vec<FieldValue>, rest: Vec<u8> },
    /// `expr?`
    Try(Box<Expr>),
    /// `(a, b)`
    Tuple(List),
    /// `op expr` for a unary operator.
    Unary { op: Vec<u8>, expr: Box<Expr> },
    /// `unsafe { .. }`
    Unsafe(Block),
    /// `while cond { .. }`, after its label if it has one.
    While { label: Vec<u8>, cond: Box<Expr>, body: Block },
}

/// Expressions separated by commas, with or without one after the last.
#[derive(Debug, PartialEq)]
pub struct List {
    pub items: Vec<Expr>,
    pub trailing: bool,
}

/// The statements between a pair of braces.
#[derive(Debug, PartialEq)]
pub struct Block {
    pub stmts: Vec<Stmt>,
}

/// A host statement.
#[derive(Debug, PartialEq)]
pub enum Stmt {
    /// A `let`.
    Local(Local),
    /// An item; it is copied.
    Item(Vec<u8>),
    /// An expression without a semicolon.
    Expr(Expr),
    /// An expression with a semicolon.
    Semi(Expr),
}

/// A `let` statement.
#[derive(Debug, PartialEq)]
pub struct Local {
    pub attrs: bool,
    pub pats: Vec<Pat>,
    pub ty: Option<Vec<u8>>,
    pub init: Option<Expr>,
}

/// A pattern.
#[derive(Debug, PartialEq)]
pub enum Pat {
    /// A name, after `ref` and `mut` as written; `subpat` says that `@` and
    /// a pattern follow.
    Ident { prefix: Vec<u8>, name: Vec<u8>, subpat: bool },
    /// `(front .. back)`
    Tuple { front: Vec<Pat>, dots: Vec<u8>, back: Vec<Pat> },
    /// `path(front .. back)`
    TupleStruct { path: Vec<u8>, front: Vec<Pat>, dots: Vec<u8>, back: Vec<Pat> },
    /// `_`
    Wild,
    /// Any other pattern; it is copied and binds no name.
    Raw(Vec<u8>),
}

/// One arm of a `match`.
#[derive(Debug, PartialEq)]
pub struct Arm {
    pub attrs: bool,
    pub leading_vert: bool,
    pub guard: bool,
    pub pats: Vec<Pat>,
    pub body: Expr,
}

/// One parameter of a closure.
#[derive(Debug, PartialEq)]
pub struct Arg {
    pub pat: Option<Pat>,
    pub ty: Option<Vec<u8>>,
}

/// One field of a struct literal.
#[derive(Debug, PartialEq)]
pub struct FieldValue {
    pub attrs: bool,
    pub member: Vec<u8>,
    pub expr: Expr,
}

} // verus!
