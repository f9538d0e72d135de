//! From a syntax tree to the instructions that write it out again.
//!
//! Writing a host fragment into generated code takes three things: copying
//! tokens, rewriting the paths that name a field of the context, and keeping
//! track of the names that the fragment itself binds. Lowering lays a fragment
//! out as a flat list of instructions for that; [`crate::machine`] carries
//! them out.
use vstd::prelude::*;
use vstd::string::StringSliceAdditionalSpecFns;
use vstd::slice::slice_to_vec;
use crate::ast::{Arg, Arm, Block, Construct, Expr, FieldValue, List, LitKind, Local, Pat, Stmt};

verus! {

broadcast use vstd::std_specs::vec::group_vec_axioms;

/// Why a fragment or a template cannot be turned into code.
#[derive(Debug, PartialEq, Eq, Clone, Copy, Structural)]
pub enum Reason {
    /// The fragment carries an attribute.
    Attribute,
    /// The fragment holds an `async` block.
    Async,
    /// The fragment holds a placement expression.
    InPlace,
    /// The fragment holds a `try` block.
    TryBlock,
    /// The fragment holds a `yield`.
    Yield,
    /// The fragment holds tokens that the host parser left unparsed.
    Verbatim,
    /// The fragment holds a path with a qualified self type.
    QSelf,
    /// A pattern binds a name to a subpattern.
    Subpattern,
    /// A match arm begins with `|`.
    LeadingVert,
    /// A match arm has a guard.
    Guard,
    /// `super` is used outside every helper.
    SuperAtTop,
    /// `super` is used more often than there are helpers around.
    SuperWithoutParent,
    /// A name is looked up in a scope frame that is not there.
    MissingFrame,
    /// A partial is named that is not among the parsed templates.
    MissingPartial,
    /// Partials include each other in a circle.
    CircularPartial,
    /// A helper is used that this generator has no code for.
    UnknownHelper,
}

/// One instruction.
#[derive(Debug, PartialEq)]
pub enum Op {
    /// Copy the text.
    Text(Vec<u8>),
    /// Write a path, rewritten against the scopes and the context.
    Path { segments: Vec<Vec<u8>>, text: Vec<u8> },
    /// Copy a literal; `marks` says that it is a number or a boolean.
    Lit { marks: bool, text: Vec<u8> },
    /// Enter a scope.
    Open,
    /// Leave the innermost scope.
    Close,
    /// Bind a name in the innermost scope.
    Bind(Vec<u8>),
    /// Set the innermost scope aside.
    Shelve,
    /// Put the scope set aside last back in place.
    Unshelve,
    /// Add the names of the scope set aside last to the innermost scope.
    Absorb,
    /// From here on no literal marks the fragment.
    WrapOff,
    /// Undo the last `WrapOff`.
    WrapBack,
    /// Refuse the fragment.
    Reject(Reason),
}

/// What an instruction stands for.
pub enum OpM {
    Text(Seq<u8>),
    Path { segments: Seq<Seq<u8>>, text: Seq<u8> },
    Lit { marks: bool, text: Seq<u8> },
    Open,
    Close,
    Bind(Seq<u8>),
    Shelve,
    Unshelve,
    Absorb,
    WrapOff,
    WrapBack,
    Reject(Reason),
}

/// The byte strings of a list of names.
pub open spec fn names_view(v: Seq<Vec<u8>>) -> Seq<Seq<u8>> {
    Seq::new(v.len(), |k: int| v[k]@)
}

pub open spec fn op_view(o: Op) -> OpM {
    match o {
        Op::Text(t) => OpM::Text(t@),
        Op::Path { segments, text } => OpM::Path { segments: names_view(segments@), text: text@ },
        Op::Lit { marks, text } => OpM::Lit { marks, text: text@ },
        Op::Open => OpM::Open,
        Op::Close => OpM::Close,
        Op::Bind(n) => OpM::Bind(n@),
        Op::Shelve => OpM::Shelve,
        Op::Unshelve => OpM::Unshelve,
        Op::Absorb => OpM::Absorb,
        Op::WrapOff => OpM::WrapOff,
        Op::WrapBack => OpM::WrapBack,
        Op::Reject(r) => OpM::Reject(r),
    }
}

pub open spec fn ops_view(v: Seq<Op>) -> Seq<OpM> {
    Seq::new(v.len(), |k: int| op_view(v[k]))
}

/// The bytes of a piece of text.
pub open spec fn text(s: &str) -> Seq<u8> {
    s.spec_bytes()
}

/// `acc`, then the instruction that copies a piece of text.
pub open spec fn w(acc: Seq<OpM>, s: &str) -> Seq<OpM> {
    acc.push(OpM::Text(text(s)))
}

/// `acc`, then the instruction that copies text of the fragment.
pub open spec fn c(acc: Seq<OpM>, t: Vec<u8>) -> Seq<OpM> {
    acc.push(OpM::Text(t@))
}

pub open spec fn reason_of(c: Construct) -> Reason {
    match c {
        Construct::Async => Reason::Async,
        Construct::InPlace => Reason::InPlace,
        Construct::TryBlock => Reason::TryBlock,
        Construct::Yield => Reason::Yield,
        Construct::Verbatim => Reason::Verbatim,
    }
}

/// Whether a literal of this kind needs no escaping: a number or a boolean.
pub open spec fn marks(k: LitKind) -> bool {
    k == LitKind::Int || k == LitKind::Float || k == LitKind::Bool
}

/// `acc`, then the instructions for an expression.
pub open spec fn ops_expr(e: Expr, acc: Seq<OpM>) -> Seq<OpM>
    decreases e, 0int,
{
    match e {
        Expr::Rejected(k) => acc.push(OpM::Reject(reason_of(k))),
        Expr::Attributed(_) => acc.push(OpM::Reject(Reason::Attribute)),
        Expr::Array(l) => w(ops_list(l.items@, 0, l.trailing, w(acc, "[")), "]"),
        Expr::Assign { left, op, right } => ops_expr(
            *right,
            w(c(w(c(acc, left), " "), op), " "),
        ),
        Expr::Binary { left, op, right } => ops_expr(
            *right,
            w(c(w(ops_expr(*left, acc), " "), op), " "),
        ),
        Expr::Block { label, block } => ops_block(block, c(acc.push(OpM::WrapOff), label)).push(
            OpM::WrapBack,
        ),
        Expr::Boxed(x) => ops_expr(*x, w(acc, "box ")),
        Expr::Break { label, expr } => ops_opt(expr, w(c(w(acc, "break "), label), " ")),
        Expr::Call { func, args } => w(
            ops_list(
                args.items@,
                0,
                args.trailing,
                w(c(acc, func), "(").push(OpM::WrapOff),
            ).push(OpM::WrapBack),
            ")",
        ),
        Expr::Cast { expr, ty } => w(
            c(w(ops_expr(*expr, acc.push(OpM::WrapOff)).push(OpM::WrapBack), " as "), ty),
            " ",
        ),
        Expr::Closure { head, inputs, output, body } => ops_expr(
            *body,
            c(w(ops_args(inputs@, 0, w(c(acc, head), " |").push(OpM::Open)), "| "), output),
        ).push(OpM::Close),
        Expr::Field { base, member } => c(w(ops_expr(*base, acc), "."), member),
        Expr::ForLoop { label, pat, expr, body } => ops_block(
            body,
            ops_expr(
                *expr,
                w(
                    ops_pat(pat, w(c(w(acc, " "), label), "for ").push(OpM::Open)).push(
                        OpM::Shelve,
                    ),
                    " in ",
                ),
            ).push(OpM::Unshelve),
        ).push(OpM::Close),
        Expr::Group(x) => ops_expr(*x, acc),
        Expr::If { cond, then_branch, else_branch } => {
            let a = ops_block(
                then_branch,
                ops_expr(*cond, w(acc, " if ").push(OpM::Open).push(OpM::WrapOff)).push(
                    OpM::WrapBack,
                ),
            ).push(OpM::Close);
            match else_branch {
                Some(x) => ops_expr(*x, w(a, " else")),
                None => a,
            }
        },
        Expr::Index { expr, index } => w(c(w(ops_expr(*expr, acc), "["), index), "]"),
        Expr::Let { pats, expr } => ops_expr(
            *expr,
            w(
                ops_pats(pats@, 0, text("|"), w(acc.push(OpM::WrapOff), "let ").push(OpM::Open))
                    .push(OpM::Shelve),
                " = ",
            ),
        ).push(OpM::Absorb).push(OpM::WrapBack),
        Expr::Lit { kind, text } => acc.push(OpM::Lit { marks: marks(kind), text: text@ }),
        Expr::Loop { label, body } => ops_block(
            body,
            w(c(acc, label), "loop").push(OpM::WrapOff),
        ).push(OpM::WrapBack),
        Expr::Match { expr, arms } => w(
            ops_arms(arms@, 0, w(ops_expr(*expr, w(acc, " match ")), " {")),
            "}",
        ),
        Expr::MethodCall { receiver, method, args } => w(
            ops_list(
                args.items@,
                0,
                args.trailing,
                w(c(w(ops_expr(*receiver, acc), "."), method), "(").push(OpM::WrapOff),
            ).push(OpM::WrapBack),
            ")",
        ),
        Expr::Paren(x) => w(ops_expr(*x, w(acc, "(")), ")"),
        Expr::Path { qself, segments, text } => if qself {
            acc.push(OpM::Reject(Reason::QSelf))
        } else {
            acc.push(OpM::Path { segments: names_view(segments@), text: text@ })
        },
        Expr::Range { from, limits, to } => ops_opt(to, c(ops_opt(from, acc), limits)),
        Expr::Raw(t) => c(acc, t),
        Expr::Reference { mutable, expr } => ops_expr(
            *expr,
            if mutable {
                w(acc, "&mut ")
            } else {
                w(acc, "&")
            },
        ),
        Expr::Return(x) => ops_opt(x, w(acc, "return ")),
        Expr::Struct { path, fields, rest } => w(
            c(w(ops_fields(fields@, 0, w(c(w(acc, " "), path), " {")), " "), rest),
            " }",
        ),
        Expr::Try(x) => w(ops_expr(*x, acc), "?"),
        Expr::Tuple(l) => w(
            ops_list(l.items@, 0, l.trailing, w(acc, "(").push(OpM::WrapOff)).push(OpM::WrapBack),
            ")",
        ),
        Expr::Unary { op, expr } => ops_expr(*expr, c(acc, op)),
        Expr::Unsafe(b) => ops_block(b, w(acc, "unsafe ")),
        Expr::While { label, cond, body } => ops_block(
            body,
            ops_expr(
                *cond,
                w(c(w(acc.push(OpM::WrapOff), " "), label), "while ").push(OpM::Open),
            ),
        ).push(OpM::Close).push(OpM::WrapBack),
    }
}

/// `acc`, then the instructions for an expression that may be missing.
pub open spec fn ops_opt(e: Option<Box<Expr>>, acc: Seq<OpM>) -> Seq<OpM>
    decreases e, 0int,
{
    match e {
        Some(x) => ops_expr(*x, acc),
        None => acc,
    }
}

/// `acc`, then the instructions for the expressions from the `k`-th on, with
/// a comma between two of them, and after the last if `trailing`.
pub open spec fn ops_list(items: Seq<Expr>, k: int, trailing: bool, acc: Seq<OpM>) -> Seq<OpM>
    decreases items, items.len() - k,
{
    if 0 <= k < items.len() {
        let a = ops_expr(items[k], acc);
        ops_list(
            items,
            k + 1,
            trailing,
            if k + 1 < items.len() || trailing {
                w(a, ",")
            } else {
                a
            },
        )
    } else {
        acc
    }
}

/// `acc`, then the instructions for a block: a scope around its statements.
pub open spec fn ops_block(b: Block, acc: Seq<OpM>) -> Seq<OpM>
    decreases b, 0int,
{
    w(ops_stmts(b.stmts@, 0, w(acc.push(OpM::Open), " { ")), " }").push(OpM::Close)
}

pub open spec fn ops_stmts(stmts: Seq<Stmt>, k: int, acc: Seq<OpM>) -> Seq<OpM>
    decreases stmts, stmts.len() - k,
{
    if 0 <= k < stmts.len() {
        ops_stmts(stmts, k + 1, ops_stmt(stmts[k], acc))
    } else {
        acc
    }
}

/// `acc`, then the instructions for a statement. Within a statement no
/// literal marks the fragment.
pub open spec fn ops_stmt(s: Stmt, acc: Seq<OpM>) -> Seq<OpM>
    decreases s, 0int,
{
    let a = acc.push(OpM::WrapOff);
    (match s {
        Stmt::Local(l) => ops_local(l, a),
        Stmt::Item(t) => c(a, t),
        Stmt::Expr(e) => ops_expr(e, a),
        Stmt::Semi(e) => w(ops_expr(e, a), ";"),
    }).push(OpM::WrapBack)
}

/// `acc`, then the instructions for a `let`: its names are bound after its
/// initialiser has been written, in the scope that the `let` stands in.
pub open spec fn ops_local(l: Local, acc: Seq<OpM>) -> Seq<OpM>
    decreases l, 0int,
{
    if l.attrs {
        acc.push(OpM::Reject(Reason::Attribute))
    } else {
        let a = ops_pats(
            l.pats@,
            0,
            Seq::empty(),
            w(acc.push(OpM::WrapOff).push(OpM::Open), "let "),
        ).push(OpM::Shelve);
        let b = match l.ty {
            Some(t) => c(w(a, ": "), t),
            None => a,
        };
        let d = match l.init {
            Some(e) => w(b, " = ") + ops_expr(e, Seq::empty()),
            None => b,
        };
        w(d, ";").push(OpM::WrapBack).push(OpM::Absorb)
    }
}

/// `acc`, then the instructions for a pattern: its text, and a binding for
/// each name.
pub open spec fn ops_pat(p: Pat, acc: Seq<OpM>) -> Seq<OpM>
    decreases p, 0int,
{
    match p {
        Pat::Ident { prefix, name, subpat } => if subpat {
            acc.push(OpM::Reject(Reason::Subpattern))
        } else {
            c(c(acc, prefix), name).push(OpM::Bind(name@))
        },
        Pat::Tuple { front, dots, back } => w(
            ops_pats(back@, 0, text(","), c(ops_pats(front@, 0, text(","), w(acc, "(")), dots)),
            ")",
        ),
        Pat::TupleStruct { path, front, dots, back } => w(
            ops_pats(
                back@,
                0,
                text(","),
                c(ops_pats(front@, 0, text(","), w(c(acc, path), "(")), dots),
            ),
            ")",
        ),
        Pat::Wild => w(acc, "_"),
        Pat::Raw(t) => c(acc, t),
    }
}

/// `acc`, then the instructions for the patterns from the `k`-th on, with
/// `sep` between two of them.
pub open spec fn ops_pats(pats: Seq<Pat>, k: int, sep: Seq<u8>, acc: Seq<OpM>) -> Seq<OpM>
    decreases pats, pats.len() - k,
{
    if 0 <= k < pats.len() {
        let a = ops_pat(pats[k], acc);
        ops_pats(
            pats,
            k + 1,
            sep,
            if k + 1 < pats.len() {
                a.push(OpM::Text(sep))
            } else {
                a
            },
        )
    } else {
        acc
    }
}

/// `acc`, then the instructions for an arm of a `match`: a scope around
/// pattern and body.
pub open spec fn ops_arm(a: Arm, acc: Seq<OpM>) -> Seq<OpM>
    decreases a, 0int,
{
    if a.attrs {
        acc.push(OpM::Reject(Reason::Attribute))
    } else if a.leading_vert {
        acc.push(OpM::Reject(Reason::LeadingVert))
    } else if a.guard {
        acc.push(OpM::Reject(Reason::Guard))
    } else {
        w(
            ops_expr(a.body, w(ops_pats(a.pats@, 0, text("|"), acc.push(OpM::Open)), " => ")),
            ",\n",
        ).push(OpM::Close)
    }
}

pub open spec fn ops_arms(arms: Seq<Arm>, k: int, acc: Seq<OpM>) -> Seq<OpM>
    decreases arms, arms.len() - k,
{
    if 0 <= k < arms.len() {
        ops_arms(arms, k + 1, ops_arm(arms[k], acc))
    } else {
        acc
    }
}

/// `acc`, then the instructions for a closure's parameter.
pub open spec fn ops_arg(a: Arg, acc: Seq<OpM>) -> Seq<OpM>
    decreases a, 0int,
{
    let x = match a.pat {
        Some(p) => ops_pat(p, acc),
        None => acc,
    };
    let y = match a.ty {
        Some(t) => c(w(x, ": "), t),
        None => x,
    };
    w(y, ",")
}

pub open spec fn ops_args(args: Seq<Arg>, k: int, acc: Seq<OpM>) -> Seq<OpM>
    decreases args, args.len() - k,
{
    if 0 <= k < args.len() {
        ops_args(args, k + 1, ops_arg(args[k], acc))
    } else {
        acc
    }
}

/// `acc`, then the instructions for a field of a struct literal.
pub open spec fn ops_field(f: FieldValue, acc: Seq<OpM>) -> Seq<OpM>
    decreases f, 0int,
{
    if f.attrs {
        acc.push(OpM::Reject(Reason::Attribute))
    } else {
        w(ops_expr(f.expr, w(c(w(acc, " "), f.member), ": ")), ",")
    }
}

pub open spec fn ops_fields(fields: Seq<FieldValue>, k: int, acc: Seq<OpM>) -> Seq<OpM>
    decreases fields, fields.len() - k,
{
    if 0 <= k < fields.len() {
        ops_fields(fields, k + 1, ops_field(fields[k], acc))
    } else {
        acc
    }
}

/// A copy of a byte string.
pub fn dup(t: &Vec<u8>) -> (r: Vec<u8>)
    ensures
        r@ == t@,
{
    slice_to_vec(t.as_slice())
}

/// The bytes of a piece of text.
pub fn bytes_of(s: &str) -> (r: Vec<u8>)
    ensures
        r@ == text(s),
{
    slice_to_vec(s.as_bytes())
}

/// A copy of a list of names.
pub fn dup_names(v: &Vec<Vec<u8>>) -> (r: Vec<Vec<u8>>)
    ensures
        names_view(r@) == names_view(v@),
{
    let mut r: Vec<Vec<u8>> = Vec::new();
    let mut k: usize = 0;
    while k < v.len()
        invariant
            k <= v@.len(),
            r@.len() == k,
            forall|m: int| 0 <= m < k ==> r@[m]@ == v@[m]@,
        decreases v@.len() - k,
    {
        r.push(dup(&v[k]));
        k += 1;
    }
    proof {
        assert(names_view(r@) =~= names_view(v@));
    }
    r
}

fn put(ops: &mut Vec<Op>, op: Op)
    ensures
        ops_view(final(ops)@) == ops_view(old(ops)@).push(op_view(op)),
{
    ops.push(op);
    proof {
        assert(ops_view(ops@) =~= ops_view(old(ops)@).push(op_view(op)));
    }
}

fn put_word(ops: &mut Vec<Op>, s: &str)
    ensures
        ops_view(final(ops)@) == w(ops_view(old(ops)@), s),
{
    put(ops, Op::Text(bytes_of(s)));
}

fn put_copy(ops: &mut Vec<Op>, t: &Vec<u8>)
    ensures
        ops_view(final(ops)@) == c(ops_view(old(ops)@), *t),
{
    put(ops, Op::Text(dup(t)));
}

fn reason(c: Construct) -> (r: Reason)
    ensures
        r == reason_of(c),
{
    match c {
        Construct::Async => Reason::Async,
        Construct::InPlace => Reason::InPlace,
        Construct::TryBlock => Reason::TryBlock,
        Construct::Yield => Reason::Yield,
        Construct::Verbatim => Reason::Verbatim,
    }
}

fn is_mark(k: LitKind) -> (r: bool)
    ensures
        r == marks(k),
{
    match k {
        LitKind::Int => true,
        LitKind::Float => true,
        LitKind::Bool => true,
        _ => false,
    }
}

/// Adds the instructions for an expression to `ops`.
pub fn lower_expr(e: &Expr, ops: &mut Vec<Op>)
    ensures
        ops_view(final(ops)@) == ops_expr(*e, ops_view(old(ops)@)),
    decreases e, 1int,
{
    match e {
        Expr::Rejected(c) => {
            put(ops, Op::Reject(reason(*c)));
        },
        Expr::Attributed(_) => {
            put(ops, Op::Reject(Reason::Attribute));
        },
        Expr::Array(l) => {
            put_word(ops, "[");
            lower_list(&l.items, l.trailing, ops);
            put_word(ops, "]");
        },
        Expr::Assign { left, op, right } => {
            put_copy(ops, left);
            put_word(ops, " ");
            put_copy(ops, op);
            put_word(ops, " ");
            lower_expr(right, ops);
        },
        Expr::Binary { left, op, right } => {
            lower_expr(left, ops);
            put_word(ops, " ");
            put_copy(ops, op);
            put_word(ops, " ");
            lower_expr(right, ops);
        },
        Expr::Block { label, block } => {
            put(ops, Op::WrapOff);
            put_copy(ops, label);
            lower_block(block, ops);
            put(ops, Op::WrapBack);
        },
        Expr::Boxed(x) => {
            put_word(ops, "box ");
            lower_expr(x, ops);
        },
        Expr::Break { label, expr } => {
            put_word(ops, "break ");
            put_copy(ops, label);
            put_word(ops, " ");
            lower_opt(expr, ops);
        },
        Expr::Call { func, args } => {
            put_copy(ops, func);
            put_word(ops, "(");
            put(ops, Op::WrapOff);
            lower_list(&args.items, args.trailing, ops);
            put(ops, Op::WrapBack);
            put_word(ops, ")");
        },
        Expr::Cast { expr, ty } => {
            put(ops, Op::WrapOff);
            lower_expr(expr, ops);
            put(ops, Op::WrapBack);
            put_word(ops, " as ");
            put_copy(ops, ty);
            put_word(ops, " ");
        },
        Expr::Closure { head, inputs, output, body } => {
            put_copy(ops, head);
            put_word(ops, " |");
            put(ops, Op::Open);
            lower_args(inputs, ops);
            put_word(ops, "| ");
            put_copy(ops, output);
            lower_expr(body, ops);
            put(ops, Op::Close);
        },
        Expr::Field { base, member } => {
            lower_expr(base, ops);
            put_word(ops, ".");
            put_copy(ops, member);
        },
        Expr::ForLoop { label, pat, expr, body } => {
            put_word(ops, " ");
            put_copy(ops, label);
            put_word(ops, "for ");
            put(ops, Op::Open);
            lower_pat(pat, ops);
            put(ops, Op::Shelve);
            put_word(ops, " in ");
            lower_expr(expr, ops);
            put(ops, Op::Unshelve);
            lower_block(body, ops);
            put(ops, Op::Close);
        },
        Expr::Group(x) => {
            lower_expr(x, ops);
        },
        Expr::If { cond, then_branch, else_branch } => {
            put_word(ops, " if ");
            put(ops, Op::Open);
            put(ops, Op::WrapOff);
            lower_expr(cond, ops);
            put(ops, Op::WrapBack);
            lower_block(then_branch, ops);
            put(ops, Op::Close);
            match else_branch {
                Some(x) => {
                    put_word(ops, " else");
                    lower_expr(x, ops);
                },
                None => {},
            }
        },
        Expr::Index { expr, index } => {
            lower_expr(expr, ops);
            put_word(ops, "[");
            put_copy(ops, index);
            put_word(ops, "]");
        },
        Expr::Let { pats, expr } => {
            put(ops, Op::WrapOff);
            put_word(ops, "let ");
            put(ops, Op::Open);
            let sep = bytes_of("|");
            lower_pats(pats, &sep, ops);
            put(ops, Op::Shelve);
            put_word(ops, " = ");
            lower_expr(expr, ops);
            put(ops, Op::Absorb);
            put(ops, Op::WrapBack);
        },
        Expr::Lit { kind, text } => {
            put(ops, Op::Lit { marks: is_mark(*kind), text: dup(text) });
        },
        Expr::Loop { label, body } => {
            put_copy(ops, label);
            put_word(ops, "loop");
            put(ops, Op::WrapOff);
            lower_block(body, ops);
            put(ops, Op::WrapBack);
        },
        Expr::Match { expr, arms } => {
            put_word(ops, " match ");
            lower_expr(expr, ops);
            put_word(ops, " {");
            lower_arms(arms, ops);
            put_word(ops, "}");
        },
        Expr::MethodCall { receiver, method, args } => {
            lower_expr(receiver, ops);
            put_word(ops, ".");
            put_copy(ops, method);
            put_word(ops, "(");
            put(ops, Op::WrapOff);
            lower_list(&args.items, args.trailing, ops);
            put(ops, Op::WrapBack);
            put_word(ops, ")");
        },
        Expr::Paren(x) => {
            put_word(ops, "(");
            lower_expr(x, ops);
            put_word(ops, ")");
        },
        Expr::Path { qself, segments, text } => {
            if *qself {
                put(ops, Op::Reject(Reason::QSelf));
            } else {
                put(ops, Op::Path { segments: dup_names(segments), text: dup(text) });
            }
        },
        Expr::Range { from, limits, to } => {
            lower_opt(from, ops);
            put_copy(ops, limits);
            lower_opt(to, ops);
        },
        Expr::Raw(t) => {
            put_copy(ops, t);
        },
        Expr::Reference { mutable, expr } => {
            if *mutable {
                put_word(ops, "&mut ");
            } else {
                put_word(ops, "&");
            }
            lower_expr(expr, ops);
        },
        Expr::Return(x) => {
            put_word(ops, "return ");
            lower_opt(x, ops);
        },
        Expr::Struct { path, fields, rest } => {
            put_word(ops, " ");
            put_copy(ops, path);
            put_word(ops, " {");
            lower_fields(fields, ops);
            put_word(ops, " ");
            put_copy(ops, rest);
            put_word(ops, " }");
        },
        Expr::Try(x) => {
            lower_expr(x, ops);
            put_word(ops, "?");
        },
        Expr::Tuple(l) => {
            put_word(ops, "(");
            put(ops, Op::WrapOff);
            lower_list(&l.items, l.trailing, ops);
            put(ops, Op::WrapBack);
            put_word(ops, ")");
        },
        Expr::Unary { op, expr } => {
            put_copy(ops, op);
            lower_expr(expr, ops);
        },
        Expr::Unsafe(b) => {
            put_word(ops, "unsafe ");
            lower_block(b, ops);
        },
        Expr::While { label, cond, body } => {
            put(ops, Op::WrapOff);
            put_word(ops, " ");
            put_copy(ops, label);
            put_word(ops, "while ");
            put(ops, Op::Open);
            lower_expr(cond, ops);
            lower_block(body, ops);
            put(ops, Op::Close);
            put(ops, Op::WrapBack);
        },
    }
}

fn lower_opt(e: &Option<Box<Expr>>, ops: &mut Vec<Op>)
    ensures
        ops_view(final(ops)@) == ops_opt(*e, ops_view(old(ops)@)),
    decreases e, 1int,
{
    match e {
        Some(x) => {
            lower_expr(x, ops);
        },
        None => {},
    }
}

fn lower_list(items: &Vec<Expr>, trailing: bool, ops: &mut Vec<Op>)
    ensures
        ops_view(final(ops)@) == ops_list(items@, 0, trailing, ops_view(old(ops)@)),
    decreases items, 1int,
{
    let mut k: usize = 0;
    while k < items.len()
        invariant
            k <= items@.len(),
            ops_list(items@, k as int, trailing, ops_view(ops@)) == ops_list(items@, 0, trailing, ops_view(old(ops)@)),
        decreases items@.len() - k,
    {
        lower_expr(&items[k], ops);
        if k + 1 < items.len() || trailing {
            put_word(ops, ",");
        }
        k += 1;
    }
}

fn lower_block(b: &Block, ops: &mut Vec<Op>)
    ensures
        ops_view(final(ops)@) == ops_block(*b, ops_view(old(ops)@)),
    decreases b, 1int,
{
    put(ops, Op::Open);
    put_word(ops, " { ");
    let ghost before = ops@;
    let mut k: usize = 0;
    while k < b.stmts.len()
        invariant
            k <= b.stmts@.len(),
            ops_stmts(b.stmts@, k as int, ops_view(ops@)) == ops_stmts(b.stmts@, 0, ops_view(before)),
        decreases b.stmts@.len() - k,
    {
        lower_stmt(&b.stmts[k], ops);
        k += 1;
    }
    put_word(ops, " }");
    put(ops, Op::Close);
}

/// Adds the instructions for a statement to `ops`.
pub fn lower_stmt(s: &Stmt, ops: &mut Vec<Op>)
    ensures
        ops_view(final(ops)@) == ops_stmt(*s, ops_view(old(ops)@)),
    decreases s, 1int,
{
    put(ops, Op::WrapOff);
    match s {
        Stmt::Local(l) => {
            lower_local(l, ops);
        },
        Stmt::Item(t) => {
            put_copy(ops, t);
        },
        Stmt::Expr(e) => {
            lower_expr(e, ops);
        },
        Stmt::Semi(e) => {
            lower_expr(e, ops);
            put_word(ops, ";");
        },
    }
    put(ops, Op::WrapBack);
}

fn lower_local(l: &Local, ops: &mut Vec<Op>)
    ensures
        ops_view(final(ops)@) == ops_local(*l, ops_view(old(ops)@)),
    decreases l, 1int,
{
    if l.attrs {
        put(ops, Op::Reject(Reason::Attribute));
        return ;
    }
    put(ops, Op::WrapOff);
    put(ops, Op::Open);
    put_word(ops, "let ");
    let sep: Vec<u8> = Vec::new();
    lower_pats(&l.pats, &sep, ops);
    put(ops, Op::Shelve);
    match &l.ty {
        Some(t) => {
            put_word(ops, ": ");
            put_copy(ops, t);
        },
        None => {},
    }
    match &l.init {
        Some(e) => {
            put_word(ops, " = ");
            let mut init: Vec<Op> = Vec::new();
            lower_expr(e, &mut init);
            let ghost head = ops@;
            let ghost tail = init@;
            ops.append(&mut init);
            proof {
                assert(ops_view(Seq::<Op>::empty()) =~= Seq::<OpM>::empty());
                assert(ops_view(head + tail) =~= ops_view(head) + ops_view(tail));
            }
        },
        None => {},
    }
    put_word(ops, ";");
    put(ops, Op::WrapBack);
    put(ops, Op::Absorb);
}

fn lower_pat(p: &Pat, ops: &mut Vec<Op>)
    ensures
        ops_view(final(ops)@) == ops_pat(*p, ops_view(old(ops)@)),
    decreases p, 1int,
{
    match p {
        Pat::Ident { prefix, name, subpat } => {
            if *subpat {
                put(ops, Op::Reject(Reason::Subpattern));
            } else {
                put_copy(ops, prefix);
                put_copy(ops, name);
                put(ops, Op::Bind(dup(name)));
            }
        },
        Pat::Tuple { front, dots, back } => {
            let sep = bytes_of(",");
            put_word(ops, "(");
            lower_pats(front, &sep, ops);
            put_copy(ops, dots);
            lower_pats(back, &sep, ops);
            put_word(ops, ")");
        },
        Pat::TupleStruct { path, front, dots, back } => {
            let sep = bytes_of(",");
            put_copy(ops, path);
            put_word(ops, "(");
            lower_pats(front, &sep, ops);
            put_copy(ops, dots);
            lower_pats(back, &sep, ops);
            put_word(ops, ")");
        },
        Pat::Wild => {
            put_word(ops, "_");
        },
        Pat::Raw(t) => {
            put_copy(ops, t);
        },
    }
}

fn lower_pats(pats: &Vec<Pat>, sep: &Vec<u8>, ops: &mut Vec<Op>)
    ensures
        ops_view(final(ops)@) == ops_pats(pats@, 0, sep@, ops_view(old(ops)@)),
    decreases pats, 1int,
{
    let mut k: usize = 0;
    while k < pats.len()
        invariant
            k <= pats@.len(),
            ops_pats(pats@, k as int, sep@, ops_view(ops@)) == ops_pats(pats@, 0, sep@, ops_view(old(ops)@)),
        decreases pats@.len() - k,
    {
        lower_pat(&pats[k], ops);
        if k + 1 < pats.len() {
            put(ops, Op::Text(dup(sep)));
        }
        k += 1;
    }
}

fn lower_arm(a: &Arm, ops: &mut Vec<Op>)
    ensures
        ops_view(final(ops)@) == ops_arm(*a, ops_view(old(ops)@)),
    decreases a, 1int,
{
    if a.attrs {
        put(ops, Op::Reject(Reason::Attribute));
    } else if a.leading_vert {
        put(ops, Op::Reject(Reason::LeadingVert));
    } else if a.guard {
        put(ops, Op::Reject(Reason::Guard));
    } else {
        let sep = bytes_of("|");
        put(ops, Op::Open);
        lower_pats(&a.pats, &sep, ops);
        put_word(ops, " => ");
        lower_expr(&a.body, ops);
        put_word(ops, ",\n");
        put(ops, Op::Close);
    }
}

fn lower_field(f: &FieldValue, ops: &mut Vec<Op>)
    ensures
        ops_view(final(ops)@) == ops_field(*f, ops_view(old(ops)@)),
    decreases f, 1int,
{
    if f.attrs {
        put(ops, Op::Reject(Reason::Attribute));
    } else {
        put_word(ops, " ");
        put_copy(ops, &f.member);
        put_word(ops, ": ");
        lower_expr(&f.expr, ops);
        put_word(ops, ",");
    }
}

fn lower_arms(arms: &Vec<Arm>, ops: &mut Vec<Op>)
    ensures
        ops_view(final(ops)@) == ops_arms(arms@, 0, ops_view(old(ops)@)),
    decreases arms, 1int,
{
    let mut k: usize = 0;
    while k < arms.len()
        invariant
            k <= arms@.len(),
            ops_arms(arms@, k as int, ops_view(ops@)) == ops_arms(arms@, 0, ops_view(old(ops)@)),
        decreases arms@.len() - k,
    {
        lower_arm(&arms[k], ops);
        k += 1;
    }
}

fn lower_args(args: &Vec<Arg>, ops: &mut Vec<Op>)
    ensures
        ops_view(final(ops)@) == ops_args(args@, 0, ops_view(old(ops)@)),
    decreases args, 1int,
{
    let mut k: usize = 0;
    while k < args.len()
        invariant
            k <= args@.len(),
            ops_args(args@, k as int, ops_view(ops@)) == ops_args(args@, 0, ops_view(old(ops)@)),
        decreases args@.len() - k,
    {
        let a = &args[k];
        match &a.pat {
            Some(p) => {
                lower_pat(p, ops);
            },
            None => {},
        }
        match &a.ty {
            Some(t) => {
                put_word(ops, ": ");
                put_copy(ops, t);
            },
            None => {},
        }
        put_word(ops, ",");
        k += 1;
    }
}

fn lower_fields(fields: &Vec<FieldValue>, ops: &mut Vec<Op>)
    ensures
        ops_view(final(ops)@) == ops_fields(fields@, 0, ops_view(old(ops)@)),
    decreases fields, 1int,
{
    let mut k: usize = 0;
    while k < fields.len()
        invariant
            k <= fields@.len(),
            ops_fields(fields@, k as int, ops_view(ops@)) == ops_fields(fields@, 0, ops_view(old(ops)@)),
        decreases fields@.len() - k,
    {
        lower_field(&fields[k], ops);
        k += 1;
    }
}

} // verus!
