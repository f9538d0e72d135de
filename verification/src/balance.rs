//! Scopes are left as they were entered.
//!
//! Whatever a fragment is, the instructions that it lowers to open and
//! close, set aside and put back, in pairs; they bind names in scopes of
//! their own, but for a `let`, whose names go to the scope that it stands in:
//! the names of its pattern, from left to right, and no others. So a fragment
//! leaves the scopes around it as they were, and so do the helpers of a
//! template: after an `if`, an identifier resolves as it did before it.
use vstd::prelude::*;
use crate::ast::{Arg, Arm, Block, Expr, FieldValue, Local, Pat, Stmt};
use crate::analysis::{loop_var, resolved, Env, Tree};
use crate::generator::{
    branch_spec, branches_from, each_spec, else_spec, frag, g_each_begin, g_flush, g_flush_ws,
    g_handle_ws, g_line, g_open, g_skip_ws, handle_from, handle_node, if_spec, partial_spec,
    unless_spec, with_spec, GenM,
};
use crate::node::{Helper, Node, Ws};
use crate::lower::{
    c, ops_arg, ops_args, ops_arm, ops_arms, ops_block, ops_expr, ops_field, ops_fields,
    ops_list, ops_local, ops_opt, ops_pat, ops_pats, ops_stmt, ops_stmts, text, w, OpM, Reason,
};
use crate::machine::{run_from, step, MachineM, On};

verus! {

/// By how much an instruction changes the number of scopes, of scopes set
/// aside, and of values of `will_wrap` to go back to.
pub open spec fn effect(op: OpM) -> (int, int, int) {
    match op {
        OpM::Open => (1, 0, 0),
        OpM::Close => (-1, 0, 0),
        OpM::Shelve => (-1, 1, 0),
        OpM::Unshelve => (1, -1, 0),
        OpM::Absorb => (0, -1, 0),
        OpM::WrapOff => (0, 0, 1),
        OpM::WrapBack => (0, 0, -1),
        _ => (0, 0, 0),
    }
}

/// By how much the instructions change those numbers, taken together.
pub open spec fn net(ops: Seq<OpM>) -> (int, int, int)
    decreases ops.len(),
{
    if ops.len() == 0 {
        (0, 0, 0)
    } else {
        let n = net(ops.drop_last());
        let e = effect(ops.last());
        (n.0 + e.0, n.1 + e.1, n.2 + e.2)
    }
}

/// The same from the `k`-th instruction on.
pub open spec fn net_from(ops: Seq<OpM>, k: int) -> (int, int, int)
    decreases ops.len() - k,
{
    if 0 <= k < ops.len() {
        let n = net_from(ops, k + 1);
        let e = effect(ops[k]);
        (n.0 + e.0, n.1 + e.1, n.2 + e.2)
    } else {
        (0, 0, 0)
    }
}

pub broadcast proof fn lemma_net_push(acc: Seq<OpM>, op: OpM)
    ensures
        #[trigger] net(acc.push(op)) == (
            net(acc).0 + effect(op).0,
            net(acc).1 + effect(op).1,
            net(acc).2 + effect(op).2,
        ),
{
    assert(acc.push(op).drop_last() =~= acc);
}

proof fn lemma_net_from_push(ops: Seq<OpM>, op: OpM, k: int)
    requires
        0 <= k <= ops.len(),
    ensures
        net_from(ops.push(op), k) == (
            net_from(ops, k).0 + effect(op).0,
            net_from(ops, k).1 + effect(op).1,
            net_from(ops, k).2 + effect(op).2,
        ),
    decreases ops.len() - k,
{
    let p = ops.push(op);
    if k < ops.len() {
        lemma_net_from_push(ops, op, k + 1);
        assert(p[k] == ops[k]);
        assert(net_from(p, k).0 == net_from(p, k + 1).0 + effect(p[k]).0);
    } else {
        assert(p[k] == op);
        assert(net_from(p, k + 1) == (0int, 0int, 0int));
        assert(net_from(ops, k) == (0int, 0int, 0int));
        assert(net_from(p, k).0 == net_from(p, k + 1).0 + effect(p[k]).0);
    }
}

proof fn lemma_net_both(ops: Seq<OpM>)
    ensures
        net_from(ops, 0) == net(ops),
    decreases ops.len(),
{
    if ops.len() > 0 {
        lemma_net_both(ops.drop_last());
        lemma_net_from_push(ops.drop_last(), ops.last(), 0);
        assert(ops.drop_last().push(ops.last()) =~= ops);
    }
}

/// One instruction that succeeds changes the numbers by its effect.
proof fn lemma_step_effect(m: MachineM, on: Seq<On>, op: OpM)
    ensures
        step(m, on, op) matches Ok(n) ==> n.scp.len() == m.scp.len() + effect(op).0
            && n.shelf.len() == m.shelf.len() + effect(op).1 && n.flags.len() == m.flags.len()
            + effect(op).2,
{
}

/// Instructions that succeed change the numbers by their effects.
proof fn lemma_run_effect(m: MachineM, on: Seq<On>, ops: Seq<OpM>, k: int)
    requires
        0 <= k,
    ensures
        run_from(m, on, ops, k) matches Ok(n) ==> n.scp.len() == m.scp.len() + net_from(ops, k).0
            && n.shelf.len() == m.shelf.len() + net_from(ops, k).1 && n.flags.len()
            == m.flags.len() + net_from(ops, k).2,
    decreases ops.len() - k,
{
    if k < ops.len() {
        lemma_step_effect(m, on, ops[k]);
        match step(m, on, ops[k]) {
            Ok(n) => {
                lemma_run_effect(n, on, ops, k + 1);
            },
            Err(_) => {},
        }
    }
}

#[verifier::rlimit(100)]
#[verifier::spinoff_prover]
proof fn lemma_net_expr(e: Expr, acc: Seq<OpM>)
    ensures
        net(ops_expr(e, acc)) == net(acc),
    decreases e, 0int,
{
    broadcast use lemma_net_push;

    match e {
        Expr::Rejected(k) => {},
        Expr::Attributed(_) => {},
        Expr::Array(l) => {
            lemma_net_list(l.items@, 0, l.trailing, w(acc, "["));
        },
        Expr::Assign { left, op, right } => {
            lemma_net_expr(*right, w(c(w(c(acc, left), " "), op), " "));
        },
        Expr::Binary { left, op, right } => {
            lemma_net_expr(*left, acc);
            lemma_net_expr(*right, w(c(w(ops_expr(*left, acc), " "), op), " "));
        },
        Expr::Block { label, block } => {
            lemma_net_block(block, c(acc.push(OpM::WrapOff), label));
        },
        Expr::Boxed(x) => {
            lemma_net_expr(*x, w(acc, "box "));
        },
        Expr::Break { label, expr } => {
            lemma_net_opt(expr, w(c(w(acc, "break "), label), " "));
        },
        Expr::Call { func, args } => {
            lemma_net_list(args.items@, 0, args.trailing, w(c(acc, func), "(").push(OpM::WrapOff));
        },
        Expr::Cast { expr, ty } => {
            lemma_net_expr(*expr, acc.push(OpM::WrapOff));
        },
        Expr::Closure { head, inputs, output, body } => {
            let a = w(c(acc, head), " |").push(OpM::Open);
            lemma_net_args(inputs@, 0, a);
            lemma_net_expr(*body, c(w(ops_args(inputs@, 0, a), "| "), output));
        },
        Expr::Field { base, member } => {
            lemma_net_expr(*base, acc);
        },
        Expr::ForLoop { label, pat, expr, body } => {
            let a = w(c(w(acc, " "), label), "for ").push(OpM::Open);
            lemma_net_pat(pat, a);
            let b = w(ops_pat(pat, a).push(OpM::Shelve), " in ");
            lemma_net_expr(*expr, b);
            lemma_net_block(body, ops_expr(*expr, b).push(OpM::Unshelve));
        },
        Expr::Group(x) => {
            lemma_net_expr(*x, acc);
        },
        Expr::If { cond, then_branch, else_branch } => {
            let a = w(acc, " if ").push(OpM::Open).push(OpM::WrapOff);
            lemma_net_expr(*cond, a);
            let b = ops_expr(*cond, a).push(OpM::WrapBack);
            lemma_net_block(then_branch, b);
            let d = ops_block(then_branch, b).push(OpM::Close);
            match else_branch {
                Some(x) => {
                    lemma_net_expr(*x, w(d, " else"));
                },
                None => {},
            }
        },
        Expr::Index { expr, index } => {
            lemma_net_expr(*expr, acc);
        },
        Expr::Let { pats, expr } => {
            let a = w(acc.push(OpM::WrapOff), "let ").push(OpM::Open);
            lemma_net_pats(pats@, 0, text("|"), a);
            lemma_net_expr(*expr, w(ops_pats(pats@, 0, text("|"), a).push(OpM::Shelve), " = "));
        },
        Expr::Lit { kind, text } => {},
        Expr::Loop { label, body } => {
            lemma_net_block(body, w(c(acc, label), "loop").push(OpM::WrapOff));
        },
        Expr::Match { expr, arms } => {
            lemma_net_expr(*expr, w(acc, " match "));
            lemma_net_arms(arms@, 0, w(ops_expr(*expr, w(acc, " match ")), " {"));
        },
        Expr::MethodCall { receiver, method, args } => {
            lemma_net_expr(*receiver, acc);
            lemma_net_list(
                args.items@,
                0,
                args.trailing,
                w(c(w(ops_expr(*receiver, acc), "."), method), "(").push(OpM::WrapOff),
            );
        },
        Expr::Paren(x) => {
            lemma_net_expr(*x, w(acc, "("));
        },
        Expr::Path { qself, segments, text } => {},
        Expr::Range { from, limits, to } => {
            lemma_net_opt(from, acc);
            lemma_net_opt(to, c(ops_opt(from, acc), limits));
        },
        Expr::Raw(t) => {},
        Expr::Reference { mutable, expr } => {
            if mutable {
                lemma_net_expr(*expr, w(acc, "&mut "));
            } else {
                lemma_net_expr(*expr, w(acc, "&"));
            }
        },
        Expr::Return(x) => {
            lemma_net_opt(x, w(acc, "return "));
        },
        Expr::Struct { path, fields, rest } => {
            lemma_net_fields(fields@, 0, w(c(w(acc, " "), path), " {"));
        },
        Expr::Try(x) => {
            lemma_net_expr(*x, acc);
        },
        Expr::Tuple(l) => {
            lemma_net_list(l.items@, 0, l.trailing, w(acc, "(").push(OpM::WrapOff));
        },
        Expr::Unary { op, expr } => {
            lemma_net_expr(*expr, c(acc, op));
        },
        Expr::Unsafe(b) => {
            lemma_net_block(b, w(acc, "unsafe "));
        },
        Expr::While { label, cond, body } => {
            let a = w(c(w(acc.push(OpM::WrapOff), " "), label), "while ").push(OpM::Open);
            lemma_net_expr(*cond, a);
            lemma_net_block(body, ops_expr(*cond, a));
        },
    }
}

proof fn lemma_net_opt(e: Option<Box<Expr>>, acc: Seq<OpM>)
    ensures
        net(ops_opt(e, acc)) == net(acc),
    decreases e, 0int,
{
    match e {
        Some(x) => {
            lemma_net_expr(*x, acc);
        },
        None => {},
    }
}

proof fn lemma_net_list(items: Seq<Expr>, k: int, trailing: bool, acc: Seq<OpM>)
    ensures
        net(ops_list(items, k, trailing, acc)) == net(acc),
    decreases items, items.len() - k,
{
    broadcast use lemma_net_push;

    if 0 <= k < items.len() {
        lemma_net_expr(items[k], acc);
        let a = ops_expr(items[k], acc);
        lemma_net_list(
            items,
            k + 1,
            trailing,
            if k + 1 < items.len() || trailing {
                w(a, ",")
            } else {
                a
            },
        );
    }
}

proof fn lemma_net_block(b: Block, acc: Seq<OpM>)
    ensures
        net(ops_block(b, acc)) == net(acc),
    decreases b, 0int,
{
    broadcast use lemma_net_push;

    lemma_net_stmts(b.stmts@, 0, w(acc.push(OpM::Open), " { "));
}

proof fn lemma_net_stmts(stmts: Seq<Stmt>, k: int, acc: Seq<OpM>)
    ensures
        net(ops_stmts(stmts, k, acc)) == net(acc),
    decreases stmts, stmts.len() - k,
{
    if 0 <= k < stmts.len() {
        lemma_net_stmt(stmts[k], acc);
        lemma_net_stmts(stmts, k + 1, ops_stmt(stmts[k], acc));
    }
}

proof fn lemma_net_stmt(s: Stmt, acc: Seq<OpM>)
    ensures
        net(ops_stmt(s, acc)) == net(acc),
    decreases s, 0int,
{
    broadcast use lemma_net_push;

    let a = acc.push(OpM::WrapOff);
    match s {
        Stmt::Local(l) => {
            lemma_net_local(l, a);
        },
        Stmt::Item(t) => {},
        Stmt::Expr(e) => {
            lemma_net_expr(e, a);
        },
        Stmt::Semi(e) => {
            lemma_net_expr(e, a);
        },
    }
}

proof fn lemma_net_joined(a: Seq<OpM>, b: Seq<OpM>)
    ensures
        net(a + b) == (net(a).0 + net(b).0, net(a).1 + net(b).1, net(a).2 + net(b).2),
    decreases b.len(),
{
    if b.len() == 0 {
        assert(a + b =~= a);
    } else {
        lemma_net_joined(a, b.drop_last());
        assert((a + b).drop_last() =~= a + b.drop_last());
        assert((a + b).last() == b.last());
    }
}

proof fn lemma_net_local(l: Local, acc: Seq<OpM>)
    ensures
        net(ops_local(l, acc)) == net(acc),
    decreases l, 0int,
{
    broadcast use lemma_net_push;

    if !l.attrs {
        let a0 = w(acc.push(OpM::WrapOff).push(OpM::Open), "let ");
        lemma_net_pats(l.pats@, 0, Seq::empty(), a0);
        let a = ops_pats(l.pats@, 0, Seq::empty(), a0).push(OpM::Shelve);
        let b = match l.ty {
            Some(t) => c(w(a, ": "), t),
            None => a,
        };
        match l.init {
            Some(e) => {
                lemma_net_expr(e, Seq::empty());
                lemma_net_joined(w(b, " = "), ops_expr(e, Seq::empty()));
            },
            None => {},
        }
    }
}

proof fn lemma_net_pat(p: Pat, acc: Seq<OpM>)
    ensures
        net(ops_pat(p, acc)) == net(acc),
    decreases p, 0int,
{
    broadcast use lemma_net_push;

    match p {
        Pat::Ident { prefix, name, subpat } => {},
        Pat::Tuple { front, dots, back } => {
            lemma_net_pats(front@, 0, text(","), w(acc, "("));
            lemma_net_pats(back@, 0, text(","), c(ops_pats(front@, 0, text(","), w(acc, "(")), dots));
        },
        Pat::TupleStruct { path, front, dots, back } => {
            let a = w(c(acc, path), "(");
            lemma_net_pats(front@, 0, text(","), a);
            lemma_net_pats(back@, 0, text(","), c(ops_pats(front@, 0, text(","), a), dots));
        },
        Pat::Wild => {},
        Pat::Raw(t) => {},
    }
}

proof fn lemma_net_pats(pats: Seq<Pat>, k: int, sep: Seq<u8>, acc: Seq<OpM>)
    ensures
        net(ops_pats(pats, k, sep, acc)) == net(acc),
    decreases pats, pats.len() - k,
{
    broadcast use lemma_net_push;

    if 0 <= k < pats.len() {
        lemma_net_pat(pats[k], acc);
        let a = ops_pat(pats[k], acc);
        lemma_net_pats(
            pats,
            k + 1,
            sep,
            if k + 1 < pats.len() {
                a.push(OpM::Text(sep))
            } else {
                a
            },
        );
    }
}

proof fn lemma_net_arm(a: Arm, acc: Seq<OpM>)
    ensures
        net(ops_arm(a, acc)) == net(acc),
    decreases a, 0int,
{
    broadcast use lemma_net_push;

    if !a.attrs && !a.leading_vert && !a.guard {
        lemma_net_pats(a.pats@, 0, text("|"), acc.push(OpM::Open));
        lemma_net_expr(a.body, w(ops_pats(a.pats@, 0, text("|"), acc.push(OpM::Open)), " => "));
    }
}

proof fn lemma_net_arms(arms: Seq<Arm>, k: int, acc: Seq<OpM>)
    ensures
        net(ops_arms(arms, k, acc)) == net(acc),
    decreases arms, arms.len() - k,
{
    if 0 <= k < arms.len() {
        lemma_net_arm(arms[k], acc);
        lemma_net_arms(arms, k + 1, ops_arm(arms[k], acc));
    }
}

proof fn lemma_net_arg(a: Arg, acc: Seq<OpM>)
    ensures
        net(ops_arg(a, acc)) == net(acc),
    decreases a, 0int,
{
    broadcast use lemma_net_push;

    match a.pat {
        Some(p) => {
            lemma_net_pat(p, acc);
        },
        None => {},
    }
}

proof fn lemma_net_args(args: Seq<Arg>, k: int, acc: Seq<OpM>)
    ensures
        net(ops_args(args, k, acc)) == net(acc),
    decreases args, args.len() - k,
{
    if 0 <= k < args.len() {
        lemma_net_arg(args[k], acc);
        lemma_net_args(args, k + 1, ops_arg(args[k], acc));
    }
}

proof fn lemma_net_field(f: FieldValue, acc: Seq<OpM>)
    ensures
        net(ops_field(f, acc)) == net(acc),
    decreases f, 0int,
{
    broadcast use lemma_net_push;

    if !f.attrs {
        lemma_net_expr(f.expr, w(c(w(acc, " "), f.member), ": "));
    }
}

proof fn lemma_net_fields(fields: Seq<FieldValue>, k: int, acc: Seq<OpM>)
    ensures
        net(ops_fields(fields, k, acc)) == net(acc),
    decreases fields, fields.len() - k,
{
    if 0 <= k < fields.len() {
        lemma_net_field(fields[k], acc);
        lemma_net_fields(fields, k + 1, ops_field(fields[k], acc));
    }
}


/// What a list of instructions does to the scopes, told without the scopes:
/// how many scopes of its own it has open, how many it has set aside, how
/// many values of `will_wrap` it has saved, and whether it has left alone the
/// scope that it found innermost.
pub struct Account {
    pub open: int,
    pub aside: int,
    pub saved: int,
    pub still: bool,
}

/// The account after one more instruction. There is no account of a list
/// that closes, binds in or sets aside a scope that is not its own, or puts
/// back what it did not set aside or save.
pub open spec fn order_step(s: Option<Account>, op: OpM) -> Option<Account> {
    match s {
        None => None,
        Some(a) => match op {
            OpM::Open => Some(Account { open: a.open + 1, ..a }),
            OpM::Close => if a.open >= 1 {
                Some(Account { open: a.open - 1, ..a })
            } else {
                None
            },
            OpM::Bind(_) => if a.open >= 1 {
                s
            } else {
                None
            },
            OpM::Shelve => if a.open >= 1 {
                Some(Account { open: a.open - 1, aside: a.aside + 1, ..a })
            } else {
                None
            },
            OpM::Unshelve => if a.aside >= 1 {
                Some(Account { open: a.open + 1, aside: a.aside - 1, ..a })
            } else {
                None
            },
            OpM::Absorb => if a.aside >= 1 {
                Some(Account { aside: a.aside - 1, still: a.still && a.open >= 1, ..a })
            } else {
                None
            },
            OpM::WrapOff => Some(Account { saved: a.saved + 1, ..a }),
            OpM::WrapBack => if a.saved >= 1 {
                Some(Account { saved: a.saved - 1, ..a })
            } else {
                None
            },
            _ => s,
        },
    }
}

/// The account before any instruction.
pub open spec fn nothing() -> Option<Account> {
    Some(Account { open: 0, aside: 0, saved: 0, still: true })
}

/// The account of a list of instructions.
pub open spec fn order(ops: Seq<OpM>) -> Option<Account>
    decreases ops.len(),
{
    if ops.len() == 0 {
        nothing()
    } else {
        order_step(order(ops.drop_last()), ops.last())
    }
}

/// The account of the instructions from the `k`-th on, after `s`.
pub open spec fn order_from(ops: Seq<OpM>, k: int, s: Option<Account>) -> Option<Account>
    decreases ops.len() - k,
{
    if 0 <= k < ops.len() {
        order_from(ops, k + 1, order_step(s, ops[k]))
    } else {
        s
    }
}

pub open spec fn calm(s: Option<Account>) -> bool {
    s matches Some(x) && x.open >= 0 && x.aside >= 0 && x.saved >= 0
}

pub open spec fn depth(s: Option<Account>) -> int {
    match s {
        Some(x) => x.open,
        None => 0,
    }
}

/// Whether the account `b` has as much open, set aside and saved as `a`.
pub open spec fn keeps(a: Option<Account>, b: Option<Account>) -> bool {
    a matches Some(x) && b matches Some(y) && x.open == y.open && x.aside == y.aside && x.saved
        == y.saved && x.open >= 0 && x.aside >= 0 && x.saved >= 0
}

pub broadcast proof fn lemma_order_push(acc: Seq<OpM>, op: OpM)
    ensures
        #[trigger] order(acc.push(op)) == order_step(order(acc), op),
{
    assert(acc.push(op).drop_last() =~= acc);
}

proof fn lemma_order_from_push(ops: Seq<OpM>, op: OpM, k: int, s: Option<Account>)
    requires
        0 <= k <= ops.len(),
    ensures
        order_from(ops.push(op), k, s) == order_step(order_from(ops, k, s), op),
    decreases ops.len() - k,
{
    let p = ops.push(op);
    if k < ops.len() {
        assert(p[k] == ops[k]);
        lemma_order_from_push(ops, op, k + 1, order_step(s, ops[k]));
    } else {
        assert(p[k] == op);
        assert(order_from(p, k + 1, order_step(s, op)) == order_step(s, op));
    }
}

proof fn lemma_order_both(ops: Seq<OpM>)
    ensures
        order_from(ops, 0, nothing()) == order(ops),
    decreases ops.len(),
{
    if ops.len() > 0 {
        lemma_order_both(ops.drop_last());
        lemma_order_from_push(ops.drop_last(), ops.last(), 0, nothing());
        assert(ops.drop_last().push(ops.last()) =~= ops);
    }
}

#[verifier::rlimit(100)]
#[verifier::spinoff_prover]
proof fn lemma_order_expr(e: Expr, acc: Seq<OpM>)
    requires
        calm(order(acc)),
    ensures
        keeps(order(acc), order(ops_expr(e, acc))),
    decreases e, 0int,
{
    broadcast use lemma_order_push;

    match e {
        Expr::Rejected(k) => {},
        Expr::Attributed(_) => {},
        Expr::Array(l) => {
            lemma_order_list(l.items@, 0, l.trailing, w(acc, "["));
        },
        Expr::Assign { left, op, right } => {
            lemma_order_expr(*right, w(c(w(c(acc, left), " "), op), " "));
        },
        Expr::Binary { left, op, right } => {
            lemma_order_expr(*left, acc);
            lemma_order_expr(*right, w(c(w(ops_expr(*left, acc), " "), op), " "));
        },
        Expr::Block { label, block } => {
            lemma_order_block(block, c(acc.push(OpM::WrapOff), label));
        },
        Expr::Boxed(x) => {
            lemma_order_expr(*x, w(acc, "box "));
        },
        Expr::Break { label, expr } => {
            lemma_order_opt(expr, w(c(w(acc, "break "), label), " "));
        },
        Expr::Call { func, args } => {
            lemma_order_list(args.items@, 0, args.trailing, w(c(acc, func), "(").push(OpM::WrapOff));
        },
        Expr::Cast { expr, ty } => {
            lemma_order_expr(*expr, acc.push(OpM::WrapOff));
        },
        Expr::Closure { head, inputs, output, body } => {
            let a = w(c(acc, head), " |").push(OpM::Open);
            lemma_order_args(inputs@, 0, a);
            lemma_order_expr(*body, c(w(ops_args(inputs@, 0, a), "| "), output));
        },
        Expr::Field { base, member } => {
            lemma_order_expr(*base, acc);
        },
        Expr::ForLoop { label, pat, expr, body } => {
            let a = w(c(w(acc, " "), label), "for ").push(OpM::Open);
            lemma_order_pat(pat, a);
            let b = w(ops_pat(pat, a).push(OpM::Shelve), " in ");
            lemma_order_expr(*expr, b);
            lemma_order_block(body, ops_expr(*expr, b).push(OpM::Unshelve));
        },
        Expr::Group(x) => {
            lemma_order_expr(*x, acc);
        },
        Expr::If { cond, then_branch, else_branch } => {
            let a = w(acc, " if ").push(OpM::Open).push(OpM::WrapOff);
            lemma_order_expr(*cond, a);
            let b = ops_expr(*cond, a).push(OpM::WrapBack);
            lemma_order_block(then_branch, b);
            let d = ops_block(then_branch, b).push(OpM::Close);
            match else_branch {
                Some(x) => {
                    lemma_order_expr(*x, w(d, " else"));
                },
                None => {},
            }
        },
        Expr::Index { expr, index } => {
            lemma_order_expr(*expr, acc);
        },
        Expr::Let { pats, expr } => {
            let a = w(acc.push(OpM::WrapOff), "let ").push(OpM::Open);
            lemma_order_pats(pats@, 0, text("|"), a);
            lemma_order_expr(*expr, w(ops_pats(pats@, 0, text("|"), a).push(OpM::Shelve), " = "));
        },
        Expr::Lit { kind, text } => {},
        Expr::Loop { label, body } => {
            lemma_order_block(body, w(c(acc, label), "loop").push(OpM::WrapOff));
        },
        Expr::Match { expr, arms } => {
            lemma_order_expr(*expr, w(acc, " match "));
            lemma_order_arms(arms@, 0, w(ops_expr(*expr, w(acc, " match ")), " {"));
        },
        Expr::MethodCall { receiver, method, args } => {
            lemma_order_expr(*receiver, acc);
            lemma_order_list(
                args.items@,
                0,
                args.trailing,
                w(c(w(ops_expr(*receiver, acc), "."), method), "(").push(OpM::WrapOff),
            );
        },
        Expr::Paren(x) => {
            lemma_order_expr(*x, w(acc, "("));
        },
        Expr::Path { qself, segments, text } => {},
        Expr::Range { from, limits, to } => {
            lemma_order_opt(from, acc);
            lemma_order_opt(to, c(ops_opt(from, acc), limits));
        },
        Expr::Raw(t) => {},
        Expr::Reference { mutable, expr } => {
            if mutable {
                lemma_order_expr(*expr, w(acc, "&mut "));
            } else {
                lemma_order_expr(*expr, w(acc, "&"));
            }
        },
        Expr::Return(x) => {
            lemma_order_opt(x, w(acc, "return "));
        },
        Expr::Struct { path, fields, rest } => {
            lemma_order_fields(fields@, 0, w(c(w(acc, " "), path), " {"));
        },
        Expr::Try(x) => {
            lemma_order_expr(*x, acc);
        },
        Expr::Tuple(l) => {
            lemma_order_list(l.items@, 0, l.trailing, w(acc, "(").push(OpM::WrapOff));
        },
        Expr::Unary { op, expr } => {
            lemma_order_expr(*expr, c(acc, op));
        },
        Expr::Unsafe(b) => {
            lemma_order_block(b, w(acc, "unsafe "));
        },
        Expr::While { label, cond, body } => {
            let a = w(c(w(acc.push(OpM::WrapOff), " "), label), "while ").push(OpM::Open);
            lemma_order_expr(*cond, a);
            lemma_order_block(body, ops_expr(*cond, a));
        },
    }
}

proof fn lemma_order_opt(e: Option<Box<Expr>>, acc: Seq<OpM>)
    requires
        calm(order(acc)),
    ensures
        keeps(order(acc), order(ops_opt(e, acc))),
    decreases e, 0int,
{
    match e {
        Some(x) => {
            lemma_order_expr(*x, acc);
        },
        None => {},
    }
}

proof fn lemma_order_list(items: Seq<Expr>, k: int, trailing: bool, acc: Seq<OpM>)
    requires
        calm(order(acc)),
    ensures
        keeps(order(acc), order(ops_list(items, k, trailing, acc))),
    decreases items, items.len() - k,
{
    broadcast use lemma_order_push;

    if 0 <= k < items.len() {
        lemma_order_expr(items[k], acc);
        let a = ops_expr(items[k], acc);
        lemma_order_list(
            items,
            k + 1,
            trailing,
            if k + 1 < items.len() || trailing {
                w(a, ",")
            } else {
                a
            },
        );
    }
}

proof fn lemma_order_block(b: Block, acc: Seq<OpM>)
    requires
        calm(order(acc)),
    ensures
        keeps(order(acc), order(ops_block(b, acc))),
    decreases b, 0int,
{
    broadcast use lemma_order_push;

    lemma_order_stmts(b.stmts@, 0, w(acc.push(OpM::Open), " { "));
}

proof fn lemma_order_stmts(stmts: Seq<Stmt>, k: int, acc: Seq<OpM>)
    requires
        calm(order(acc)),
    ensures
        keeps(order(acc), order(ops_stmts(stmts, k, acc))),
    decreases stmts, stmts.len() - k,
{
    if 0 <= k < stmts.len() {
        lemma_order_stmt(stmts[k], acc);
        lemma_order_stmts(stmts, k + 1, ops_stmt(stmts[k], acc));
    }
}

proof fn lemma_order_stmt(s: Stmt, acc: Seq<OpM>)
    requires
        calm(order(acc)),
    ensures
        keeps(order(acc), order(ops_stmt(s, acc))),
    decreases s, 0int,
{
    broadcast use lemma_order_push;

    let a = acc.push(OpM::WrapOff);
    match s {
        Stmt::Local(l) => {
            lemma_order_local(l, a);
        },
        Stmt::Item(t) => {},
        Stmt::Expr(e) => {
            lemma_order_expr(e, a);
        },
        Stmt::Semi(e) => {
            lemma_order_expr(e, a);
        },
    }
}

proof fn lemma_order_joined(a: Seq<OpM>, b: Seq<OpM>)
    ensures
        order(a + b) == order_from(b, 0, order(a)),
    decreases b.len(),
{
    if b.len() == 0 {
        assert(a + b =~= a);
    } else {
        lemma_order_joined(a, b.drop_last());
        assert((a + b).drop_last() =~= a + b.drop_last());
        assert((a + b).last() == b.last());
        lemma_order_from_push(b.drop_last(), b.last(), 0, order(a));
        assert(b.drop_last().push(b.last()) =~= b);
    }
}

/// The account of instructions that begin where others have left off: what
/// these have open, set aside and saved, and their own on top. They leave
/// alone the scope that was innermost before the others where the others did
/// and where they themselves leave alone the scope that they find innermost,
/// which is a scope of the others where the others have one open.
pub open spec fn after(s: Account, x: Account) -> Account {
    Account {
        open: s.open + x.open,
        aside: s.aside + x.aside,
        saved: s.saved + x.saved,
        still: s.still && (x.still || s.open >= 1),
    }
}

proof fn lemma_order_after(b: Seq<OpM>, s: Account)
    requires
        order(b) is Some,
        s.open >= 0,
        s.aside >= 0,
        s.saved >= 0,
    ensures
        calm(order(b)),
        order_from(b, 0, Some(s)) == Some(after(s, order(b)->0)),
    decreases b.len(),
{
    if b.len() > 0 {
        lemma_order_after(b.drop_last(), s);
        lemma_order_from_push(b.drop_last(), b.last(), 0, Some(s));
        assert(b.drop_last().push(b.last()) =~= b);
    }
}

proof fn lemma_order_local(l: Local, acc: Seq<OpM>)
    requires
        calm(order(acc)),
    ensures
        keeps(order(acc), order(ops_local(l, acc))),
    decreases l, 0int,
{
    broadcast use lemma_order_push;

    if !l.attrs {
        let a0 = w(acc.push(OpM::WrapOff).push(OpM::Open), "let ");
        lemma_order_pats(l.pats@, 0, Seq::empty(), a0);
        let a = ops_pats(l.pats@, 0, Seq::empty(), a0).push(OpM::Shelve);
        let b = match l.ty {
            Some(t) => c(w(a, ": "), t),
            None => a,
        };
        match l.init {
            Some(e) => {
                let x = ops_expr(e, Seq::empty());
                lemma_order_expr(e, Seq::empty());
                lemma_order_joined(w(b, " = "), x);
                lemma_order_after(x, order(w(b, " = "))->0);
            },
            None => {},
        }
    }
}

proof fn lemma_order_pat(p: Pat, acc: Seq<OpM>)
    requires
        calm(order(acc)),
        depth(order(acc)) >= 1,
    ensures
        keeps(order(acc), order(ops_pat(p, acc))),
    decreases p, 0int,
{
    broadcast use lemma_order_push;

    match p {
        Pat::Ident { prefix, name, subpat } => {},
        Pat::Tuple { front, dots, back } => {
            lemma_order_pats(front@, 0, text(","), w(acc, "("));
            lemma_order_pats(back@, 0, text(","), c(ops_pats(front@, 0, text(","), w(acc, "(")), dots));
        },
        Pat::TupleStruct { path, front, dots, back } => {
            let a = w(c(acc, path), "(");
            lemma_order_pats(front@, 0, text(","), a);
            lemma_order_pats(back@, 0, text(","), c(ops_pats(front@, 0, text(","), a), dots));
        },
        Pat::Wild => {},
        Pat::Raw(t) => {},
    }
}

proof fn lemma_order_pats(pats: Seq<Pat>, k: int, sep: Seq<u8>, acc: Seq<OpM>)
    requires
        calm(order(acc)),
        depth(order(acc)) >= 1,
    ensures
        keeps(order(acc), order(ops_pats(pats, k, sep, acc))),
    decreases pats, pats.len() - k,
{
    broadcast use lemma_order_push;

    if 0 <= k < pats.len() {
        lemma_order_pat(pats[k], acc);
        let a = ops_pat(pats[k], acc);
        lemma_order_pats(
            pats,
            k + 1,
            sep,
            if k + 1 < pats.len() {
                a.push(OpM::Text(sep))
            } else {
                a
            },
        );
    }
}

proof fn lemma_order_arm(a: Arm, acc: Seq<OpM>)
    requires
        calm(order(acc)),
    ensures
        keeps(order(acc), order(ops_arm(a, acc))),
    decreases a, 0int,
{
    broadcast use lemma_order_push;

    if !a.attrs && !a.leading_vert && !a.guard {
        lemma_order_pats(a.pats@, 0, text("|"), acc.push(OpM::Open));
        lemma_order_expr(a.body, w(ops_pats(a.pats@, 0, text("|"), acc.push(OpM::Open)), " => "));
    }
}

proof fn lemma_order_arms(arms: Seq<Arm>, k: int, acc: Seq<OpM>)
    requires
        calm(order(acc)),
    ensures
        keeps(order(acc), order(ops_arms(arms, k, acc))),
    decreases arms, arms.len() - k,
{
    if 0 <= k < arms.len() {
        lemma_order_arm(arms[k], acc);
        lemma_order_arms(arms, k + 1, ops_arm(arms[k], acc));
    }
}

proof fn lemma_order_arg(a: Arg, acc: Seq<OpM>)
    requires
        calm(order(acc)),
        depth(order(acc)) >= 1,
    ensures
        keeps(order(acc), order(ops_arg(a, acc))),
    decreases a, 0int,
{
    broadcast use lemma_order_push;

    match a.pat {
        Some(p) => {
            lemma_order_pat(p, acc);
        },
        None => {},
    }
}

proof fn lemma_order_args(args: Seq<Arg>, k: int, acc: Seq<OpM>)
    requires
        calm(order(acc)),
        depth(order(acc)) >= 1,
    ensures
        keeps(order(acc), order(ops_args(args, k, acc))),
    decreases args, args.len() - k,
{
    if 0 <= k < args.len() {
        lemma_order_arg(args[k], acc);
        lemma_order_args(args, k + 1, ops_arg(args[k], acc));
    }
}

proof fn lemma_order_field(f: FieldValue, acc: Seq<OpM>)
    requires
        calm(order(acc)),
    ensures
        keeps(order(acc), order(ops_field(f, acc))),
    decreases f, 0int,
{
    broadcast use lemma_order_push;

    if !f.attrs {
        lemma_order_expr(f.expr, w(c(w(acc, " "), f.member), ": "));
    }
}

proof fn lemma_order_fields(fields: Seq<FieldValue>, k: int, acc: Seq<OpM>)
    requires
        calm(order(acc)),
    ensures
        keeps(order(acc), order(ops_fields(fields, k, acc))),
    decreases fields, fields.len() - k,
{
    if 0 <= k < fields.len() {
        lemma_order_field(fields[k], acc);
        lemma_order_fields(fields, k + 1, ops_field(fields[k], acc));
    }
}

/// Whether the scopes `t` are the scopes `s` but for the innermost, which
/// may have gained names at its end.
pub open spec fn kept(s: Seq<Seq<Seq<u8>>>, t: Seq<Seq<Seq<u8>>>) -> bool {
    &&& t.len() == s.len()
    &&& forall|j: int| 0 <= j < s.len() - 1 ==> #[trigger] t[j] == s[j]
    &&& s.len() >= 1 ==> s.last().is_prefix_of(t.last())
}

/// The scopes, the scopes set aside and the values of `will_wrap` that a
/// machine has when a fragment begins.
pub struct Before {
    pub scp: Seq<Seq<Seq<u8>>>,
    pub shelf: Seq<Seq<Seq<u8>>>,
    pub flags: Seq<bool>,
    pub will_wrap: bool,
}

pub open spec fn before(m: MachineM) -> Before {
    Before { scp: m.scp, shelf: m.shelf, flags: m.flags, will_wrap: m.will_wrap }
}

/// Whether the machine `m` stands to what was before as the account `a`
/// says: it has the scopes that were and its own above them, and so with the
/// scopes set aside and the values saved; the scopes that were are as they
/// were, but that the innermost may have gained names; and `will_wrap` is as
/// it was, or is the first value saved.
pub open spec fn holds(b: Before, m: MachineM, a: Option<Account>) -> bool {
    match a {
        None => false,
        Some(x) => {
            &&& x.open >= 0
            &&& x.aside >= 0
            &&& x.saved >= 0
            &&& m.scp.len() == b.scp.len() + x.open
            &&& m.shelf.len() == b.shelf.len() + x.aside
            &&& m.flags.len() == b.flags.len() + x.saved
            &&& forall|j: int| 0 <= j < b.scp.len() - 1 ==> #[trigger] m.scp[j] == b.scp[j]
            &&& b.scp.len() >= 1 ==> b.scp.last().is_prefix_of(m.scp[b.scp.len() - 1])
            &&& x.still && b.scp.len() >= 1 ==> m.scp[b.scp.len() - 1] == b.scp.last()
            &&& forall|j: int| 0 <= j < b.shelf.len() ==> #[trigger] m.shelf[j] == b.shelf[j]
            &&& forall|j: int| 0 <= j < b.flags.len() ==> #[trigger] m.flags[j] == b.flags[j]
            &&& x.saved == 0 ==> m.will_wrap == b.will_wrap
            &&& x.saved >= 1 ==> m.flags[b.flags.len() as int] == b.will_wrap
        },
    }
}

proof fn lemma_prefix_grows(a: Seq<Seq<u8>>, b: Seq<Seq<u8>>, c: Seq<Seq<u8>>)
    requires
        a.is_prefix_of(b),
    ensures
        a.is_prefix_of(b + c),
{
    assert(a =~= (b + c).subrange(0, a.len() as int));
}

proof fn lemma_prefix_chain(a: Seq<Seq<u8>>, b: Seq<Seq<u8>>, c: Seq<Seq<u8>>)
    requires
        a.is_prefix_of(b),
        b.is_prefix_of(c),
    ensures
        a.is_prefix_of(c),
{
    assert(a =~= c.subrange(0, a.len() as int));
}

/// Keeping goes on: what keeps the scopes that kept the first keeps the
/// first.
pub proof fn lemma_kept_chain(
    a: Seq<Seq<Seq<u8>>>,
    b: Seq<Seq<Seq<u8>>>,
    c: Seq<Seq<Seq<u8>>>,
)
    requires
        kept(a, b),
        kept(b, c),
    ensures
        kept(a, c),
{
    if a.len() >= 1 {
        lemma_prefix_chain(a.last(), b.last(), c.last());
    }
}

proof fn lemma_step_holds(b: Before, m: MachineM, on: Seq<On>, op: OpM, a: Option<Account>)
    requires
        holds(b, m, a),
        order_step(a, op) is Some,
        step(m, on, op) is Ok,
    ensures
        holds(b, step(m, on, op)->Ok_0, order_step(a, op)),
{
    let n = step(m, on, op)->Ok_0;
    let x = a->0;
    match op {
        OpM::Absorb => {
            if x.open == 0 && b.scp.len() >= 1 {
                lemma_prefix_grows(b.scp.last(), m.scp.last(), m.shelf.last());
            }
        },
        _ => {},
    }
}

proof fn lemma_order_none(ops: Seq<OpM>, k: int)
    ensures
        order_from(ops, k, None) is None,
    decreases ops.len() - k,
{
    if 0 <= k < ops.len() {
        lemma_order_none(ops, k + 1);
    }
}

proof fn lemma_run_holds(
    b: Before,
    m: MachineM,
    on: Seq<On>,
    ops: Seq<OpM>,
    k: int,
    a: Option<Account>,
)
    requires
        0 <= k,
        holds(b, m, a),
        order_from(ops, k, a) is Some,
        run_from(m, on, ops, k) is Ok,
    ensures
        holds(b, run_from(m, on, ops, k)->Ok_0, order_from(ops, k, a)),
    decreases ops.len() - k,
{
    if k < ops.len() {
        if order_step(a, ops[k]) is None {
            lemma_order_none(ops, k + 1);
        }
        lemma_step_holds(b, m, on, ops[k], a);
        lemma_run_holds(b, step(m, on, ops[k])->Ok_0, on, ops, k + 1, order_step(a, ops[k]));
    }
}

/// Whether the machine `n` has what the machine `m` had, but that the
/// innermost scope may have gained names at its end.
pub open spec fn settled(m: MachineM, n: MachineM) -> bool {
    kept(m.scp, n.scp) && n.shelf == m.shelf && n.flags == m.flags && n.will_wrap == m.will_wrap
}

/// What instructions with an account leave: the scopes that they found, the
/// innermost with more names at most, and untouched where the account says
/// so; the scopes set aside and the values saved that they found; and
/// `will_wrap` as it was.
proof fn lemma_run_scopes(m: MachineM, on: Seq<On>, ops: Seq<OpM>)
    requires
        keeps(nothing(), order(ops)),
    ensures
        run_from(m, on, ops, 0) matches Ok(n) ==> settled(m, n) && (still(ops) ==> n.scp
            == m.scp),
{
    if run_from(m, on, ops, 0) is Ok {
        let n = run_from(m, on, ops, 0)->Ok_0;
        lemma_order_both(ops);
        assert(holds(before(m), m, nothing())) by {
            if m.scp.len() >= 1 {
                assert(m.scp.last() =~= m.scp.last().subrange(0, m.scp.last().len() as int));
            }
        }
        lemma_run_holds(before(m), m, on, ops, 0, nothing());
        assert(n.shelf =~= m.shelf);
        assert(n.flags =~= m.flags);
        if still(ops) {
            assert(n.scp =~= m.scp);
        }
    }
}

/// Whether the instructions leave alone the scope that they find innermost:
/// every name that they bind, they bind in a scope of their own.
pub open spec fn still(ops: Seq<OpM>) -> bool {
    order(ops) matches Some(x) && x.still
}

/// An expression that is written leaves the scopes below the innermost as
/// they were, and the innermost with more names at its end at most: the
/// names of a `let` that stands in no scope of the expression's own. An
/// expression that is `still` leaves every scope as it was. The scopes set
/// aside and `will_wrap` are left as they were.
pub proof fn lemma_expr_keeps(e: Expr, m: MachineM, on: Seq<On>)
    ensures
        frag(m, on, ops_expr(e, Seq::empty())) matches Ok((n, t)) ==> settled(m, n) && (still(
            ops_expr(e, Seq::empty()),
        ) ==> n.scp == m.scp),
{
    lemma_order_expr(e, Seq::empty());
    lemma_run_scopes(m, on, ops_expr(e, Seq::empty()));
}

/// A statement that is written leaves the scopes below the innermost as they
/// were, and the innermost with more names at its end at most: the names
/// that a `let` binds. Its initialiser is written before those names are
/// there. The scopes set aside and `will_wrap` are left as they were.
pub proof fn lemma_stmt_keeps(s: Stmt, m: MachineM, on: Seq<On>)
    ensures
        frag(m, on, ops_stmt(s, Seq::empty())) matches Ok((n, t)) ==> settled(m, n),
{
    lemma_order_stmt(s, Seq::empty());
    lemma_run_scopes(m, on, ops_stmt(s, Seq::empty()));
}

/// The machine after the instructions and one more.
proof fn lemma_run_from_push(m: MachineM, on: Seq<On>, ops: Seq<OpM>, op: OpM, k: int)
    requires
        0 <= k <= ops.len(),
    ensures
        run_from(m, on, ops.push(op), k) == (match run_from(m, on, ops, k) {
            Ok(n) => step(n, on, op),
            Err(r) => Err(r),
        }),
    decreases ops.len() - k,
{
    let p = ops.push(op);
    if k < ops.len() {
        assert(p[k] == ops[k]);
        match step(m, on, ops[k]) {
            Ok(n) => {
                lemma_run_from_push(n, on, ops, op, k + 1);
            },
            Err(_) => {},
        }
    } else {
        assert(p[k] == op);
        match step(m, on, op) {
            Ok(n) => {
                assert(run_from(n, on, p, k + 1) == Ok::<MachineM, Reason>(n));
            },
            Err(_) => {},
        }
    }
}

pub broadcast proof fn lemma_run_push(m: MachineM, on: Seq<On>, acc: Seq<OpM>, op: OpM)
    ensures
        #[trigger] run_from(m, on, acc.push(op), 0) == (match run_from(m, on, acc, 0) {
            Ok(n) => step(n, on, op),
            Err(r) => Err(r),
        }),
{
    lemma_run_from_push(m, on, acc, op, 0);
}

/// The machine after two lists of instructions, one after the other.
proof fn lemma_run_joined(m: MachineM, on: Seq<On>, a: Seq<OpM>, b: Seq<OpM>)
    ensures
        run_from(m, on, a + b, 0) == (match run_from(m, on, a, 0) {
            Ok(n) => run_from(n, on, b, 0),
            Err(r) => Err(r),
        }),
    decreases b.len(),
{
    if b.len() == 0 {
        assert(a + b =~= a);
    } else {
        let head = b.drop_last();
        lemma_run_joined(m, on, a, head);
        assert(a + b =~= (a + head).push(b.last()));
        assert(b =~= head.push(b.last()));
        lemma_run_from_push(m, on, a + head, b.last(), 0);
        match run_from(m, on, a, 0) {
            Ok(n) => {
                lemma_run_from_push(n, on, head, b.last(), 0);
            },
            Err(_) => {},
        }
    }
}

/// The names of a scope after a pattern has bound its names in it: those
/// that were there, then the pattern's, from left to right.
pub open spec fn pat_names(p: Pat, f: Seq<Seq<u8>>) -> Seq<Seq<u8>>
    decreases p, 0int,
{
    match p {
        Pat::Ident { prefix, name, subpat } => f.push(name@),
        Pat::Tuple { front, dots, back } => pats_names(back@, 0, pats_names(front@, 0, f)),
        Pat::TupleStruct { path, front, dots, back } => pats_names(
            back@,
            0,
            pats_names(front@, 0, f),
        ),
        Pat::Wild => f,
        Pat::Raw(t) => f,
    }
}

/// The same after the patterns from the `k`-th on.
pub open spec fn pats_names(pats: Seq<Pat>, k: int, f: Seq<Seq<u8>>) -> Seq<Seq<u8>>
    decreases pats, pats.len() - k,
{
    if 0 <= k < pats.len() {
        pats_names(pats, k + 1, pat_names(pats[k], f))
    } else {
        f
    }
}

/// The names that a `let` binds.
pub open spec fn local_names(l: Local) -> Seq<Seq<u8>> {
    pats_names(l.pats@, 0, Seq::empty())
}

/// Whether the machine `n` differs from `m` in what it has written and in
/// its innermost scope at most, which holds the names `top`.
pub open spec fn named(m: MachineM, n: MachineM, top: Seq<Seq<u8>>) -> bool {
    &&& n.scp.len() == m.scp.len()
    &&& n.scp.len() >= 1 ==> n.scp.drop_last() == m.scp.drop_last() && n.scp.last() == top
    &&& n.shelf == m.shelf
    &&& n.flags == m.flags
    &&& n.will_wrap == m.will_wrap
}

proof fn lemma_run_pat(p: Pat, acc: Seq<OpM>, m: MachineM, on: Seq<On>)
    ensures
        run_from(m, on, ops_pat(p, acc), 0) matches Ok(n) ==> (run_from(m, on, acc, 0) matches Ok(
            n0,
        ) && named(n0, n, pat_names(p, n0.scp.last()))),
    decreases p, 0int,
{
    broadcast use lemma_run_push;

    if run_from(m, on, ops_pat(p, acc), 0) is Ok {
        let n = run_from(m, on, ops_pat(p, acc), 0)->Ok_0;
        match p {
            Pat::Ident { prefix, name, subpat } => {
                if !subpat {
                    let n0 = run_from(m, on, acc, 0)->Ok_0;
                    assert(n.scp.drop_last() =~= n0.scp.drop_last());
                }
            },
            Pat::Tuple { front, dots, back } => {
                let a1 = w(acc, "(");
                let a2 = c(ops_pats(front@, 0, text(","), a1), dots);
                lemma_run_pats(back@, 0, text(","), a2, m, on);
                lemma_run_pats(front@, 0, text(","), a1, m, on);
            },
            Pat::TupleStruct { path, front, dots, back } => {
                let a1 = w(c(acc, path), "(");
                let a2 = c(ops_pats(front@, 0, text(","), a1), dots);
                lemma_run_pats(back@, 0, text(","), a2, m, on);
                lemma_run_pats(front@, 0, text(","), a1, m, on);
            },
            Pat::Wild => {},
            Pat::Raw(t) => {},
        }
    }
}

proof fn lemma_run_pats(
    pats: Seq<Pat>,
    k: int,
    sep: Seq<u8>,
    acc: Seq<OpM>,
    m: MachineM,
    on: Seq<On>,
)
    ensures
        run_from(m, on, ops_pats(pats, k, sep, acc), 0) matches Ok(n) ==> (run_from(
            m,
            on,
            acc,
            0,
        ) matches Ok(n0) && named(n0, n, pats_names(pats, k, n0.scp.last()))),
    decreases pats, pats.len() - k,
{
    broadcast use lemma_run_push;

    if 0 <= k < pats.len() {
        let a = ops_pat(pats[k], acc);
        let a1 = if k + 1 < pats.len() {
            a.push(OpM::Text(sep))
        } else {
            a
        };
        lemma_run_pats(pats, k + 1, sep, a1, m, on);
        lemma_run_pat(pats[k], acc, m, on);
    }
}

/// Whether the initialiser of a `let`, if it has one, leaves alone the scope
/// that it finds innermost.
pub open spec fn quiet(l: Local) -> bool {
    match l.init {
        Some(e) => still(ops_expr(e, Seq::empty())),
        None => true,
    }
}

/// Whether the names are the last of the scope, after those of `f` at
/// least.
pub open spec fn ends_with(scope: Seq<Seq<u8>>, f: Seq<Seq<u8>>, names: Seq<Seq<u8>>) -> bool {
    &&& scope.len() >= f.len() + names.len()
    &&& f.is_prefix_of(scope)
    &&& scope.skip(scope.len() - names.len()) == names
}

/// A `let` that is written binds the names of its pattern, from left to
/// right, in the scope that it stands in: they are the last names of that
/// scope, and where the initialiser binds nothing there, the scope holds what
/// it held and then exactly those names. The scopes below are as they were.
pub proof fn lemma_local_binds(l: Local, m: MachineM, on: Seq<On>)
    ensures
        frag(m, on, ops_stmt(Stmt::Local(l), Seq::empty())) matches Ok((n, t)) ==> {
            &&& m.scp.len() >= 1
            &&& n.scp.len() == m.scp.len()
            &&& n.scp.drop_last() == m.scp.drop_last()
            &&& ends_with(n.scp.last(), m.scp.last(), local_names(l))
            &&& quiet(l) ==> n.scp.last() == m.scp.last() + local_names(l)
        },
{
    broadcast use lemma_run_push;

    let ops = ops_stmt(Stmt::Local(l), Seq::empty());
    if frag(m, on, ops) is Ok {
        let none = Seq::<OpM>::empty();
        let names = local_names(l);
        let a0 = w(none.push(OpM::WrapOff).push(OpM::WrapOff).push(OpM::Open), "let ");
        let pats = ops_pats(l.pats@, 0, Seq::empty(), a0);
        let a = pats.push(OpM::Shelve);
        let b = match l.ty {
            Some(t) => c(w(a, ": "), t),
            None => a,
        };
        let d = match l.init {
            Some(e) => w(b, " = ") + ops_expr(e, none),
            None => b,
        };
        assert(ops == w(d, ";").push(OpM::WrapBack).push(OpM::Absorb).push(OpM::WrapBack));
        assert(run_from(m, on, none, 0) == Ok::<MachineM, Reason>(m));
        let m0 = run_from(m, on, a0, 0)->Ok_0;
        match l.init {
            Some(e) => {
                lemma_run_joined(m, on, w(b, " = "), ops_expr(e, none));
            },
            None => {},
        }
        assert(run_from(m, on, d, 0) is Ok);
        assert(run_from(m, on, b, 0) is Ok);
        assert(run_from(m, on, a, 0) is Ok);
        lemma_run_pats(l.pats@, 0, Seq::empty(), a0, m, on);
        assert(run_from(m, on, a0, 0) is Ok);
        assert(m0.scp == m.scp.push(Seq::empty()));
        assert(m0.scp.last() == Seq::<Seq<u8>>::empty());
        let mp = run_from(m, on, pats, 0)->Ok_0;
        assert(mp.scp.last() == names);
        assert(mp.scp.drop_last() =~= m.scp);
        let ma = run_from(m, on, a, 0)->Ok_0;
        assert(ma.scp == m.scp);
        assert(ma.shelf == m.shelf.push(names));
        let mb = run_from(m, on, b, 0)->Ok_0;
        assert(mb.scp == m.scp && mb.shelf == ma.shelf);
        let md = run_from(m, on, d, 0)->Ok_0;
        match l.init {
            Some(e) => {
                let x = ops_expr(e, none);
                let mw = run_from(m, on, w(b, " = "), 0)->Ok_0;
                assert(mw.scp == m.scp && mw.shelf == ma.shelf);
                lemma_order_expr(e, none);
                lemma_run_scopes(mw, on, x);
                assert(settled(mw, md));
            },
            None => {
                lemma_kept_self(m.scp);
            },
        }
        assert(kept(m.scp, md.scp));
        assert(md.shelf == m.shelf.push(names));
        assert(quiet(l) ==> md.scp == m.scp);
        let n = run_from(m, on, ops, 0)->Ok_0;
        assert(md.scp.len() >= 1);
        assert(n.scp == md.scp.drop_last().push(md.scp.last() + names));
        let last = md.scp.last() + names;
        assert(n.scp.last() == last);
        assert(n.scp.drop_last() =~= m.scp.drop_last());
        assert(last.skip(last.len() - names.len()) =~= names);
        lemma_prefix_grows(m.scp.last(), md.scp.last(), names);
    }
}

/// A `let` in a template binds the names of its pattern in the scope that
/// it stands in, after what that scope held and what its initialiser bound
/// there; with an initialiser that binds nothing there, the scope holds what
/// it held and then exactly those names. The scopes below and the context
/// are as they were.
pub proof fn lemma_let_binds(env: Env, l: Local, g: GenM, fuel: nat)
    ensures
        handle_node(env, Node::Local(Stmt::Local(l)), g, fuel) matches Ok(g1) ==> {
            &&& g1.on == g.on
            &&& g1.on_path == g.on_path
            &&& g1.m.scp.len() == g.m.scp.len()
            &&& g1.m.scp.drop_last() == g.m.scp.drop_last()
            &&& ends_with(g1.m.scp.last(), g.m.scp.last(), local_names(l))
            &&& quiet(l) ==> g1.m.scp.last() == g.m.scp.last() + local_names(l)
        },
{
    let g0 = g_flush(g_skip_ws(g), env.html);
    lemma_local_binds(l, g0.m, g0.on);
}

/// A path and a literal are still: they bind nothing.
pub proof fn lemma_leaves_are_still(e: Expr)
    requires
        e is Path || e is Lit || e is Raw,
    ensures
        still(ops_expr(e, Seq::empty())),
{
    broadcast use lemma_order_push;

}

/// An expression that is written leaves as many scopes as it found, sets
/// none aside for good, and leaves no value of `will_wrap` to go back to:
/// the scopes of its closures, blocks, arms and patterns end with it.
pub proof fn lemma_expr_balanced(e: Expr, m: MachineM, on: Seq<On>)
    ensures
        frag(m, on, ops_expr(e, Seq::empty())) matches Ok((n, t)) ==> n.scp.len() == m.scp.len()
            && n.shelf.len() == m.shelf.len() && n.flags.len() == m.flags.len(),
{
    let ops = ops_expr(e, Seq::empty());
    lemma_net_expr(e, Seq::empty());
    lemma_net_both(ops);
    lemma_run_effect(m, on, ops, 0);
}

/// A statement that is written leaves as many scopes as it found: a `let`
/// adds its names to the scope that it stands in and opens none.
pub proof fn lemma_stmt_balanced(s: Stmt, m: MachineM, on: Seq<On>)
    ensures
        frag(m, on, ops_stmt(s, Seq::empty())) matches Ok((n, t)) ==> n.scp.len() == m.scp.len()
            && n.shelf.len() == m.shelf.len() && n.flags.len() == m.flags.len(),
{
    let ops = ops_stmt(s, Seq::empty());
    lemma_net_stmt(s, Seq::empty());
    lemma_net_both(ops);
    lemma_run_effect(m, on, ops, 0);
}

/// Whether the generator `h` stands where `g` stood: in the same file and in
/// the same context frames, with the same scopes, but that the innermost may
/// have gained names at its end.
pub open spec fn same_place(g: GenM, h: GenM) -> bool {
    h.on == g.on && h.on_path == g.on_path && kept(g.m.scp, h.m.scp)
}

/// Whether the generator `h` is in the same file, context frames and scopes
/// as `g`.
pub open spec fn restored(g: GenM, h: GenM) -> bool {
    h.on == g.on && h.on_path == g.on_path && h.m.scp == g.m.scp
}

proof fn lemma_kept_self(s: Seq<Seq<Seq<u8>>>)
    ensures
        kept(s, s),
{
    if s.len() >= 1 {
        assert(s.last() =~= s.last().subrange(0, s.last().len() as int));
    }
}

/// A body that kept the scopes that it was entered with, one of them its
/// own, leaves the others exactly as they were once its own is closed.
proof fn lemma_closed(s: Seq<Seq<Seq<u8>>>, own: Seq<Seq<u8>>, t: Seq<Seq<Seq<u8>>>)
    requires
        kept(s.push(own), t),
    ensures
        t.len() > 0,
        t.drop_last() == s,
{
    assert(t.drop_last() =~= s) by {
        assert forall|j: int| 0 <= j < s.len() implies t.drop_last()[j] == s[j] by {
            assert(t[j] == s.push(own)[j]);
        }
    }
}

proof fn lemma_nodes_place(env: Env, nodes: Seq<Tree>, k: int, g: GenM, fuel: nat)
    requires
        0 <= k,
    ensures
        handle_from(env, nodes, k, g, fuel) matches Ok(h) ==> same_place(g, h),
    decreases fuel, nodes, nodes.len() - k,
{
    lemma_kept_self(g.m.scp);
    if k < nodes.len() {
        lemma_node_place(env, nodes[k], g, fuel);
        match handle_node(env, nodes[k], g, fuel) {
            Ok(g1) => {
                lemma_nodes_place(env, nodes, k + 1, g1, fuel);
                match handle_from(env, nodes, k + 1, g1, fuel) {
                    Ok(h) => {
                        lemma_kept_chain(g.m.scp, g1.m.scp, h.m.scp);
                    },
                    Err(_) => {},
                }
            },
            Err(_) => {},
        }
    }
}

#[verifier::rlimit(60)]
#[verifier::spinoff_prover]
proof fn lemma_node_place(env: Env, n: Tree, g: GenM, fuel: nat)
    ensures
        handle_node(env, n, g, fuel) matches Ok(h) ==> same_place(g, h),
    decreases fuel, n, 1int,
{
    lemma_kept_self(g.m.scp);
    match n {
        Node::Local(s) => {
            let g1 = g_flush(g_skip_ws(g), env.html);
            lemma_stmt_keeps(s, g1.m, g1.on);
        },
        Node::Safe(ws, e) => {
            lemma_expr_keeps(e, g.m, g.on);
        },
        Node::Expr(ws, e) => {
            lemma_expr_keeps(e, MachineM { wrapped: false, ..g.m }, g.on);
        },
        Node::Lit(l, b, r) => {},
        Node::Comment(_) => {},
        Node::Helper(h) => match h {
            Helper::Each(ws, e, b) => {
                lemma_each_place(env, ws, e, b, g, fuel);
            },
            Helper::If(_, _, _) => {
                lemma_if_place(env, h, g, fuel);
            },
            Helper::With(ws, e, b) => {
                lemma_with_place(env, ws, e, b, g, fuel);
            },
            Helper::Unless(ws, e, b) => {
                lemma_unless_place(env, ws, e, b, g, fuel);
            },
            Helper::Defined(_, _, _, _) => {},
        },
        Node::Partial(ws, name, args) => {
            lemma_partial_place(env, ws, name, args, g, fuel);
        },
    }
}

#[verifier::rlimit(60)]
#[verifier::spinoff_prover]
proof fn lemma_each_place(env: Env, ws: (Ws, Ws), e: Expr, b: Vec<Tree>, g: GenM, fuel: nat)
    ensures
        each_spec(env, ws, e, b, g, fuel) matches Ok(h) ==> same_place(g, h) && (still(
            ops_expr(e, Seq::empty()),
        ) ==> restored(g, h)),
    decreases fuel, b, 2int,
{
    let g1 = g_flush(g_handle_ws(g, ws.0), env.html);
    lemma_expr_keeps(e, g1.m, g1.on);
    match frag(g1.m, g1.on, ops_expr(e, Seq::empty())) {
        Ok((m, t)) => {
            match loop_var(env, g1.on_path, b@, 0, fuel) {
                Ok(indexed) => {
                    let g2 = g_each_begin(GenM { m, ..g1 }, indexed, e is Range, t);
                    lemma_nodes_place(env, b@, 0, g2, fuel);
                    match handle_from(env, b@, 0, g2, fuel) {
                        Ok(g3) => {
                            lemma_closed(m.scp, g2.m.scp.last(), g3.m.scp);
                            assert(g2.m.scp.drop_last() =~= m.scp);
                            assert(g1.on.push(On::Each(m.scp.len() as usize)).drop_last()
                                =~= g1.on);
                        },
                        Err(_) => {},
                    }
                },
                Err(_) => {},
            }
        },
        Err(_) => {},
    }
}

proof fn lemma_branch_place(env: Env, head: &str, e: Expr, b: Vec<Tree>, g: GenM, fuel: nat)
    ensures
        branch_spec(env, head, e, b, g, fuel) matches Ok(h) ==> restored(g, h),
    decreases fuel, b, 2int,
{
    let g1 = g_open(g, Seq::empty());
    lemma_expr_keeps(e, g1.m, g1.on);
    match frag(g1.m, g1.on, ops_expr(e, Seq::empty())) {
        Ok((m, t)) => {
            let g2 = g_line(GenM { m, ..g1 }, text(head) + t + text(" {"));
            lemma_nodes_place(env, b@, 0, g2, fuel);
            match handle_from(env, b@, 0, g2, fuel) {
                Ok(g3) => {
                    lemma_kept_chain(g1.m.scp, m.scp, g3.m.scp);
                    lemma_closed(g.m.scp, Seq::empty(), g3.m.scp);
                },
                Err(_) => {},
            }
        },
        Err(_) => {},
    }
}

proof fn lemma_branches_place(
    env: Env,
    branches: Seq<(Ws, Expr, Vec<Tree>)>,
    k: int,
    g: GenM,
    fuel: nat,
)
    requires
        0 <= k,
    ensures
        branches_from(env, branches, k, g, fuel) matches Ok(h) ==> restored(g, h),
    decreases fuel, branches, branches.len() - k,
{
    if k < branches.len() {
        let g0 = g_flush(g_handle_ws(g, branches[k].0), env.html);
        lemma_branch_place(env, "} else if ", branches[k].1, branches[k].2, g0, fuel);
        match branch_spec(env, "} else if ", branches[k].1, branches[k].2, g0, fuel) {
            Ok(g1) => {
                lemma_branches_place(env, branches, k + 1, g1, fuel);
            },
            Err(_) => {},
        }
    }
}

proof fn lemma_else_place(env: Env, els: Option<(Ws, Vec<Tree>)>, g: GenM, fuel: nat)
    ensures
        else_spec(env, els, g, fuel) matches Ok(h) ==> restored(g, h),
    decreases fuel, els, 2int,
{
    match els {
        None => {},
        Some(t) => {
            let g1 = g_open(
                g_line(g_flush(g_handle_ws(g, t.0), env.html), text("} else {")),
                Seq::empty(),
            );
            lemma_nodes_place(env, t.1@, 0, g1, fuel);
            match handle_from(env, t.1@, 0, g1, fuel) {
                Ok(g2) => {
                    lemma_closed(g.m.scp, Seq::empty(), g2.m.scp);
                },
                Err(_) => {},
            }
        },
    }
}

#[verifier::rlimit(60)]
#[verifier::spinoff_prover]
proof fn lemma_if_place(env: Env, h: Helper<Expr, Stmt>, g: GenM, fuel: nat)
    ensures
        if_spec(env, h, g, fuel) matches Ok(r) ==> restored(g, r),
    decreases fuel, h, 0int,
{
    match h {
        Helper::If(first, elifs, els) => {
            let g0 = g_flush(g_handle_ws(g, first.0.0), env.html);
            lemma_branch_place(env, "if ", first.1, first.2, g0, fuel);
            match branch_spec(env, "if ", first.1, first.2, g0, fuel) {
                Ok(g1) => {
                    lemma_branches_place(env, elifs@, 0, g1, fuel);
                    match branches_from(env, elifs@, 0, g1, fuel) {
                        Ok(g2) => {
                            lemma_else_place(env, els, g2, fuel);
                        },
                        Err(_) => {},
                    }
                },
                Err(_) => {},
            }
        },
        _ => {},
    }
}

proof fn lemma_with_place(env: Env, ws: (Ws, Ws), e: Expr, b: Vec<Tree>, g: GenM, fuel: nat)
    ensures
        with_spec(env, ws, e, b, g, fuel) matches Ok(h) ==> same_place(g, h) && (still(
            ops_expr(e, Seq::empty()),
        ) ==> restored(g, h)),
    decreases fuel, b, 2int,
{
    let g1 = g_handle_ws(g, ws.0);
    lemma_expr_keeps(e, g1.m, g1.on);
    match frag(g1.m, g1.on, ops_expr(e, Seq::empty())) {
        Ok((m, t)) => {
            let g2 = g_open(
                GenM { m, on: g1.on.push(On::With(m.scp.len() as usize)), ..g1 },
                seq![t],
            );
            lemma_nodes_place(env, b@, 0, g2, fuel);
            match handle_from(env, b@, 0, g2, fuel) {
                Ok(g3) => {
                    lemma_closed(m.scp, seq![t], g3.m.scp);
                    assert(g1.on.push(On::With(m.scp.len() as usize)).drop_last() =~= g1.on);
                },
                Err(_) => {},
            }
        },
        Err(_) => {},
    }
}

proof fn lemma_unless_place(env: Env, ws: (Ws, Ws), e: Expr, b: Vec<Tree>, g: GenM, fuel: nat)
    ensures
        unless_spec(env, ws, e, b, g, fuel) matches Ok(h) ==> same_place(g, h) && (still(
            ops_expr(e, Seq::empty()),
        ) ==> restored(g, h)),
    decreases fuel, b, 2int,
{
    let g1 = g_flush(g_handle_ws(g, ws.0), env.html);
    lemma_expr_keeps(e, g1.m, g1.on);
    match frag(g1.m, g1.on, ops_expr(e, Seq::empty())) {
        Ok((m, t)) => {
            let g2 = g_open(
                g_line(GenM { m, ..g1 }, text("if !(") + t + text(") {")),
                Seq::empty(),
            );
            lemma_nodes_place(env, b@, 0, g2, fuel);
            match handle_from(env, b@, 0, g2, fuel) {
                Ok(g3) => {
                    lemma_closed(m.scp, Seq::empty(), g3.m.scp);
                },
                Err(_) => {},
            }
        },
        Err(_) => {},
    }
}

proof fn lemma_partial_place(
    env: Env,
    ws: Ws,
    name: Vec<u8>,
    args: Vec<Expr>,
    g: GenM,
    fuel: nat,
)
    ensures
        partial_spec(env, ws, name, args, g, fuel) matches Ok(h) ==> same_place(g, h) && (
        args@.len() != 1 ==> restored(g, h)),
    decreases fuel, args, 0int,
{
    lemma_kept_self(g.m.scp);
    if fuel > 0 {
        match resolved(env, g.on_path, name@) {
            None => {},
            Some(ix) => {
                let g1 = g_flush_ws(GenM { on_path: env.ctx.paths@[ix]@, ..g }, ws);
                let nodes = env.ctx.trees@[ix]@;
                if args@.len() == 0 {
                    let g2 = g_open(g1, Seq::empty());
                    lemma_nodes_place(env, nodes, 0, g2, (fuel - 1) as nat);
                    match handle_from(env, nodes, 0, g2, (fuel - 1) as nat) {
                        Ok(g3) => {
                            lemma_closed(g.m.scp, Seq::empty(), g3.m.scp);
                        },
                        Err(_) => {},
                    }
                } else if args@.len() == 1 {
                    lemma_expr_keeps(args@[0], g1.m, g1.on);
                    match frag(g1.m, g1.on, ops_expr(args@[0], Seq::empty())) {
                        Ok((m, t)) => {
                            lemma_nodes_place(
                                env,
                                nodes,
                                0,
                                GenM {
                                    m: MachineM { scp: seq![seq![t]], ..m },
                                    on: Seq::empty(),
                                    ..g1
                                },
                                (fuel - 1) as nat,
                            );
                        },
                        Err(_) => {},
                    }
                }
            },
        }
    }
}

/// What follows a node resolves in the place where the node stood: whatever
/// the nodes are, after them the generator is in the same file, in the same
/// context frames and in the same scopes as before them. The scope that the
/// nodes stand in may have gained names, from their `let`s; the scopes around
/// it have not changed.
pub proof fn lemma_template_balanced(env: Env, nodes: Seq<Tree>, g: GenM, fuel: nat)
    ensures
        handle_from(env, nodes, 0, g, fuel) matches Ok(h) ==> same_place(g, h),
{
    lemma_nodes_place(env, nodes, 0, g, fuel);
}

/// After an `if` with all its branches every scope and every context frame
/// is as it was before: the names that the condition of a branch binds, as
/// in `if let`, and the names that a `let` in a branch binds, end with the
/// branch. An identifier after the `if` resolves as it did before it.
pub proof fn lemma_if_restores(env: Env, h: Helper<Expr, Stmt>, g: GenM, fuel: nat)
    ensures
        if_spec(env, h, g, fuel) matches Ok(r) ==> restored(g, r),
{
    lemma_if_place(env, h, g, fuel);
}

/// After an `each` every context frame is as it was before, and every scope
/// but that the innermost may have gained names at its end; where the
/// expression that is iterated over binds no name outside a scope of its own
/// (it is `still`), every scope is as it was before. The loop's frame, with
/// the key and the index, ends with the loop.
pub proof fn lemma_each_restores(
    env: Env,
    ws: (Ws, Ws),
    e: Expr,
    b: Vec<Tree>,
    g: GenM,
    fuel: nat,
)
    ensures
        each_spec(env, ws, e, b, g, fuel) matches Ok(h) ==> same_place(g, h) && (still(
            ops_expr(e, Seq::empty()),
        ) ==> restored(g, h)),
{
    lemma_each_place(env, ws, e, b, g, fuel);
}

/// After a `with` and after an `unless` the same holds as after an `each`.
pub proof fn lemma_with_unless_restore(
    env: Env,
    ws: (Ws, Ws),
    e: Expr,
    b: Vec<Tree>,
    g: GenM,
    fuel: nat,
)
    ensures
        with_spec(env, ws, e, b, g, fuel) matches Ok(h) ==> same_place(g, h) && (still(
            ops_expr(e, Seq::empty()),
        ) ==> restored(g, h)),
        unless_spec(env, ws, e, b, g, fuel) matches Ok(h) ==> same_place(g, h) && (still(
            ops_expr(e, Seq::empty()),
        ) ==> restored(g, h)),
{
    lemma_with_place(env, ws, e, b, g, fuel);
    lemma_unless_place(env, ws, e, b, g, fuel);
}

} // verus!
