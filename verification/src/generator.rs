//! The code generator: it walks the node tree of the root template and writes
//! the body of the rendering routine.
//!
//! Literals and expressions are gathered and written together: neighbouring
//! literals become one `write_str`, every expression one `fmt`. A tag's
//! whitespace control decides over the whitespace at the edge of the literals
//! beside it. Helpers open scopes and context frames for their bodies, and a
//! partial's nodes are written in the place of its tag.
use vstd::prelude::*;
use crate::analysis::{find_loop_var, loop_var, resolve, resolved, Env, Tree};
use crate::ast::{Expr, Stmt};
use crate::buffer::{with_line, Buffer, BufferM};
use crate::lower::{
    bytes_of, dup, lower_expr, lower_stmt, names_view, ops_expr, ops_stmt, ops_view, text, Op, OpM,
    Reason,
};
use crate::machine::{first_reject, run_from, validate, Machine, MachineM, On};
use crate::node::{Helper, Node, Ws};
use crate::text::{decimal, digits, quote, quoted};

verus! {

broadcast use vstd::std_specs::vec::group_vec_axioms;

/// Something waiting to be written: literal text, or the code of an
/// expression with the mark that says whether it needs no escaping.
#[derive(Debug, PartialEq)]
pub enum Writable {
    Lit(Vec<u8>),
    Expr(Vec<u8>, bool),
}

pub enum WritableM {
    Lit(Seq<u8>),
    Expr(Seq<u8>, bool),
}

pub open spec fn writable_view(w: Writable) -> WritableM {
    match w {
        Writable::Lit(t) => WritableM::Lit(t@),
        Writable::Expr(t, s) => WritableM::Expr(t@, s),
    }
}

pub open spec fn pending_view(v: Seq<Writable>) -> Seq<WritableM> {
    Seq::new(v.len(), |k: int| writable_view(v[k]))
}

/// The state of the generator.
pub struct Generator {
    /// The machine that writes fragments, with the scope stack.
    pub machine: Machine,
    /// The context frames, innermost last.
    pub on: Vec<On>,
    /// What waits to be written.
    pub buf_w: Vec<Writable>,
    /// The whitespace at the end of the last literal: it is written unless
    /// the next tag suppresses it.
    pub next_ws: Option<Vec<u8>>,
    /// Whether the last tag suppresses the whitespace at the start of the
    /// next literal.
    pub skip_ws: bool,
    /// The file whose nodes are being written.
    pub on_path: Vec<u8>,
    /// How many bytes of literal text have been written.
    pub size_hint: usize,
    /// The code written so far.
    pub out: Buffer,
}

/// What a generator stands for.
pub struct GenM {
    pub m: MachineM,
    pub on: Seq<On>,
    pub pending: Seq<WritableM>,
    pub next_ws: Option<Seq<u8>>,
    pub skip_ws: bool,
    pub on_path: Seq<u8>,
    pub size_hint: usize,
    pub out: BufferM,
}

pub open spec fn opt_view(o: Option<Vec<u8>>) -> Option<Seq<u8>> {
    match o {
        Some(v) => Some(v@),
        None => None,
    }
}

/// The whitespace kept from the last literal is written, unless the tag
/// suppresses the whitespace before it.
pub open spec fn g_flush_ws(g: GenM, ws: Ws) -> GenM {
    GenM {
        pending: match g.next_ws {
            Some(v) => if !ws.0 && v.len() > 0 {
                g.pending.push(WritableM::Lit(v))
            } else {
                g.pending
            },
            None => g.pending,
        },
        next_ws: None,
        ..g
    }
}

/// The tag decides over the whitespace at the start of the next literal.
pub open spec fn g_prepare_ws(g: GenM, ws: Ws) -> GenM {
    GenM { skip_ws: ws.1, ..g }
}

pub open spec fn g_handle_ws(g: GenM, ws: Ws) -> GenM {
    g_prepare_ws(g_flush_ws(g, ws), ws)
}

/// The whitespace on both sides is suppressed.
pub open spec fn g_skip_ws(g: GenM) -> GenM {
    GenM { next_ws: None, skip_ws: true, ..g }
}

/// A literal: its body waits to be written; the whitespace before it does so
/// too unless the last tag suppressed it, and the whitespace after it is kept
/// for the next tag to decide. A literal of whitespace alone is kept whole.
pub open spec fn g_lit(g: GenM, l: Seq<u8>, b: Seq<u8>, r: Seq<u8>) -> GenM {
    let g1 = if l.len() == 0 {
        g
    } else if g.skip_ws {
        GenM { skip_ws: false, ..g }
    } else if b.len() == 0 {
        GenM { next_ws: Some(l), ..g }
    } else {
        GenM { pending: g.pending.push(WritableM::Lit(l)), ..g }
    };
    let g2 = if b.len() > 0 {
        GenM { pending: g1.pending.push(WritableM::Lit(b)), ..g1 }
    } else {
        g1
    };
    if r.len() > 0 {
        GenM { next_ws: Some(r), ..g2 }
    } else {
        g2
    }
}

/// `_fmt.write_str("..")?;`
pub open spec fn write_str_line(lit: Seq<u8>) -> Seq<u8> {
    text("_fmt.write_str(") + quoted(lit) + text(")?;")
}

/// `(code).fmt(_fmt)?;`, with the code inside the escape adapter unless it
/// is safe.
pub open spec fn fmt_line(code: Seq<u8>, safe: bool) -> Seq<u8> {
    if safe {
        text("(") + code + text(").fmt(_fmt)?;")
    } else {
        text("(::yarte::MarkupAsStr::from(&") + code + text(")).fmt(_fmt)?;")
    }
}

/// The sum, or the largest number where the sum is larger.
pub open spec fn sat_add(a: usize, b: nat) -> usize {
    if a + b > usize::MAX {
        usize::MAX
    } else {
        (a + b) as usize
    }
}

/// The buffer and the count of literal bytes after the literal text `lit`.
pub open spec fn lit_flushed(lit: Seq<u8>, out: BufferM, hint: usize) -> (BufferM, usize) {
    if lit.len() > 0 {
        (with_line(out, write_str_line(lit)), sat_add(hint, lit.len()))
    } else {
        (out, hint)
    }
}

/// The buffer and the count of literal bytes after the pending items from the
/// `k`-th on, given the literal text `lit` gathered before them.
pub open spec fn flush_from(
    pending: Seq<WritableM>,
    k: int,
    lit: Seq<u8>,
    out: BufferM,
    hint: usize,
    html: bool,
) -> (BufferM, usize)
    decreases pending.len() - k,
{
    if 0 <= k < pending.len() {
        match pending[k] {
            WritableM::Lit(s) => flush_from(pending, k + 1, lit + s, out, hint, html),
            WritableM::Expr(s, safe) => {
                let f = lit_flushed(lit, out, hint);
                flush_from(
                    pending,
                    k + 1,
                    Seq::empty(),
                    with_line(f.0, fmt_line(s, safe || !html)),
                    f.1,
                    html,
                )
            },
        }
    } else {
        lit_flushed(lit, out, hint)
    }
}

/// Whether all that is pending is literal text.
pub open spec fn all_literal(pending: Seq<WritableM>) -> bool {
    forall|k: int| 0 <= k < pending.len() ==> #[trigger] pending[k] is Lit
}

/// The literal texts from the `k`-th item on, one after the other, after
/// `acc`.
pub open spec fn joined_from(pending: Seq<WritableM>, k: int, acc: Seq<u8>) -> Seq<u8>
    decreases pending.len() - k,
{
    if 0 <= k < pending.len() {
        match pending[k] {
            WritableM::Lit(s) => joined_from(pending, k + 1, acc + s),
            WritableM::Expr(_, _) => joined_from(pending, k + 1, acc),
        }
    } else {
        acc
    }
}

/// Everything pending is written. Where nothing is pending, nothing is
/// written. Where literals alone are pending, they are written as one
/// `write_str`, whatever their text. Else every expression is written as one
/// `fmt`, and the literals between two expressions as one `write_str` where
/// they hold any text.
pub open spec fn g_flush(g: GenM, html: bool) -> GenM {
    if g.pending.len() == 0 {
        g
    } else if all_literal(g.pending) {
        let lit = joined_from(g.pending, 0, Seq::empty());
        GenM {
            pending: Seq::empty(),
            out: with_line(g.out, write_str_line(lit)),
            size_hint: sat_add(g.size_hint, lit.len()),
            ..g
        }
    } else {
        let f = flush_from(g.pending, 0, Seq::empty(), g.out, g.size_hint, html);
        GenM { pending: Seq::empty(), out: f.0, size_hint: f.1, ..g }
    }
}

pub open spec fn g_line(g: GenM, s: Seq<u8>) -> GenM {
    GenM { out: with_line(g.out, s), ..g }
}

pub open spec fn g_open(g: GenM, names: Seq<Seq<u8>>) -> GenM {
    GenM { m: MachineM { scp: g.m.scp.push(names), ..g.m }, ..g }
}

pub open spec fn g_close(g: GenM) -> Result<GenM, Reason> {
    if g.m.scp.len() > 0 {
        Ok(GenM { m: MachineM { scp: g.m.scp.drop_last(), ..g.m }, ..g })
    } else {
        Err(Reason::MissingFrame)
    }
}

pub open spec fn g_on_pop(g: GenM) -> Result<GenM, Reason> {
    if g.on.len() > 0 {
        Ok(GenM { on: g.on.drop_last(), ..g })
    } else {
        Err(Reason::MissingFrame)
    }
}

/// The text of a lowered fragment and the machine after writing it, or the
/// reason why the fragment is refused.
pub open spec fn frag(m: MachineM, on: Seq<On>, ops: Seq<OpM>) -> Result<
    (MachineM, Seq<u8>),
    Reason,
> {
    match first_reject(ops, 0) {
        Some(r) => Err(r),
        None => match run_from(m, on, ops, 0) {
            Err(r) => Err(r),
            Ok(m2) => Ok((MachineM { buf: Seq::empty(), ..m2 }, m2.buf)),
        },
    }
}

/// The head of the loop that an `each` becomes.
pub open spec fn each_head(
    indexed: bool,
    range: bool,
    key: Seq<u8>,
    index: Seq<u8>,
    code: Seq<u8>,
) -> Seq<u8> {
    if indexed {
        if range {
            text("for (") + index + text(", ") + key + text(") in (") + code + text(
                ").enumerate() {",
            )
        } else {
            text("for (") + index + text(", ") + key + text(") in (&") + code + text(
                ").into_iter().enumerate() {",
            )
        }
    } else {
        if range {
            text("for ") + key + text(" in ") + code + text(" {")
        } else {
            text("for ") + key + text(" in (&") + code + text(").into_iter() {")
        }
    }
}

pub open spec fn key_name(id: nat) -> Seq<u8> {
    text("_key_") + digits(id)
}

pub open spec fn index_name(id: nat) -> Seq<u8> {
    text("_index_") + digits(id)
}

/// The generator after the nodes from the `k`-th on.
pub open spec fn handle_from(env: Env, nodes: Seq<Tree>, k: int, g: GenM, fuel: nat) -> Result<
    GenM,
    Reason,
>
    decreases fuel, nodes, nodes.len() - k,
{
    if 0 <= k < nodes.len() {
        match handle_node(env, nodes[k], g, fuel) {
            Ok(g1) => handle_from(env, nodes, k + 1, g1, fuel),
            Err(r) => Err(r),
        }
    } else {
        Ok(g)
    }
}

/// The generator after one node.
pub open spec fn handle_node(env: Env, n: Tree, g: GenM, fuel: nat) -> Result<GenM, Reason>
    decreases fuel, n, 1int,
{
    match n {
        Node::Local(s) => {
            let g1 = g_flush(g_skip_ws(g), env.html);
            match frag(g1.m, g1.on, ops_stmt(s, Seq::empty())) {
                Err(r) => Err(r),
                Ok((m, t)) => Ok(g_line(GenM { m, ..g1 }, t)),
            }
        },
        Node::Safe(ws, e) => match frag(g.m, g.on, ops_expr(e, Seq::empty())) {
            Err(r) => Err(r),
            Ok((m, t)) => {
                let g1 = g_handle_ws(GenM { m, ..g }, ws);
                Ok(GenM { pending: g1.pending.push(WritableM::Expr(t, true)), ..g1 })
            },
        },
        Node::Expr(ws, e) => match frag(
            MachineM { wrapped: false, ..g.m },
            g.on,
            ops_expr(e, Seq::empty()),
        ) {
            Err(r) => Err(r),
            Ok((m, t)) => {
                let g1 = g_handle_ws(GenM { m, ..g }, ws);
                Ok(GenM { pending: g1.pending.push(WritableM::Expr(t, m.wrapped)), ..g1 })
            },
        },
        Node::Lit(l, b, r) => Ok(g_lit(g, l@, b@, r@)),
        Node::Comment(_) => Ok(g_skip_ws(g)),
        Node::Helper(h) => match h {
            Helper::Each(ws, e, b) => each_spec(env, ws, e, b, g, fuel),
            Helper::If(_, _, _) => if_spec(env, h, g, fuel),
            Helper::With(ws, e, b) => with_spec(env, ws, e, b, g, fuel),
            Helper::Unless(ws, e, b) => unless_spec(env, ws, e, b, g, fuel),
            Helper::Defined(_, _, _, _) => Err(Reason::UnknownHelper),
        },
        Node::Partial(ws, name, args) => partial_spec(env, ws, name, args, g, fuel),
    }
}

/// The generator after an `each`: a loop over the expression, with a counter
/// if the body names the index, and the body in a new scope and context frame.
pub open spec fn each_spec(env: Env, ws: (Ws, Ws), e: Expr, b: Vec<Tree>, g: GenM, fuel: nat)
    -> Result<GenM, Reason>
    decreases fuel, b, 2int,
{
    let g1 = g_flush(g_handle_ws(g, ws.0), env.html);
    match loop_var(env, g1.on_path, b@, 0, fuel) {
        Err(r) => Err(r),
        Ok(indexed) => match frag(g1.m, g1.on, ops_expr(e, Seq::empty())) {
            Err(r) => Err(r),
            Ok((m, t)) => match handle_from(
                env,
                b@,
                0,
                g_each_begin(GenM { m, ..g1 }, indexed, e is Range, t),
                fuel,
            ) {
                Err(r) => Err(r),
                Ok(g3) => g_block_end(g_flush(g_handle_ws(g3, ws.1), env.html)),
            },
        },
    }
}

/// The generator at the start of a loop's body: the head of the loop is
/// written, and the names of the key and, if the loop is indexed, of the index
/// stand in a new scope that is a new context frame.
pub open spec fn g_each_begin(g: GenM, indexed: bool, range: bool, code: Seq<u8>) -> GenM {
    let id = g.m.scp.len();
    g_open(
        GenM {
            on: g.on.push(On::Each(id as usize)),
            out: with_line(g.out, each_head(indexed, range, key_name(id), index_name(id), code)),
            ..g
        },
        if indexed {
            seq![key_name(id), index_name(id)]
        } else {
            seq![key_name(id)]
        },
    )
}

/// The generator after the end of a loop: scope and context frame are left
/// and the loop is closed.
pub open spec fn g_block_end(g: GenM) -> Result<GenM, Reason> {
    match g_close(g) {
        Err(r) => Err(r),
        Ok(g1) => match g_on_pop(g1) {
            Err(r) => Err(r),
            Ok(g2) => Ok(g_line(g2, text("}"))),
        },
    }
}

/// The generator after the head of a branch with a condition and the branch's
/// body: the condition is written in the scope of the body.
pub open spec fn branch_spec(env: Env, head: &str, e: Expr, b: Vec<Tree>, g: GenM, fuel: nat)
    -> Result<GenM, Reason>
    decreases fuel, b, 2int,
{
    let g1 = g_open(g, Seq::empty());
    match frag(g1.m, g1.on, ops_expr(e, Seq::empty())) {
        Err(r) => Err(r),
        Ok((m, t)) => match handle_from(
            env,
            b@,
            0,
            g_line(GenM { m, ..g1 }, text(head) + t + text(" {")),
            fuel,
        ) {
            Err(r) => Err(r),
            Ok(g2) => g_close(g2),
        },
    }
}

/// The generator after the `else if` branches from the `k`-th on.
pub open spec fn branches_from(
    env: Env,
    branches: Seq<(Ws, Expr, Vec<Tree>)>,
    k: int,
    g: GenM,
    fuel: nat,
) -> Result<GenM, Reason>
    decreases fuel, branches, branches.len() - k,
{
    if 0 <= k < branches.len() {
        match branch_spec(
            env,
            "} else if ",
            branches[k].1,
            branches[k].2,
            g_flush(g_handle_ws(g, branches[k].0), env.html),
            fuel,
        ) {
            Err(r) => Err(r),
            Ok(g1) => branches_from(env, branches, k + 1, g1, fuel),
        }
    } else {
        Ok(g)
    }
}

/// The generator after an `if` with its branches.
pub open spec fn if_spec(env: Env, h: Helper<Expr, Stmt>, g: GenM, fuel: nat) -> Result<
    GenM,
    Reason,
>
    decreases fuel, h, 0int,
{
    match h {
        Helper::If(first, elifs, els) => match branch_spec(
            env,
            "if ",
            first.1,
            first.2,
            g_flush(g_handle_ws(g, first.0.0), env.html),
            fuel,
        ) {
            Err(r) => Err(r),
            Ok(g1) => match branches_from(env, elifs@, 0, g1, fuel) {
                Err(r) => Err(r),
                Ok(g2) => match else_spec(env, els, g2, fuel) {
                    Err(r) => Err(r),
                    Ok(g3) => Ok(g_line(g_flush(g_handle_ws(g3, first.0.1), env.html), text("}"))),
                },
            },
        },
        _ => Err(Reason::UnknownHelper),
    }
}

/// The generator after the `else` branch, if there is one.
pub open spec fn else_spec(env: Env, els: Option<(Ws, Vec<Tree>)>, g: GenM, fuel: nat) -> Result<
    GenM,
    Reason,
>
    decreases fuel, els, 2int,
{
    match els {
        None => Ok(g),
        Some(t) => match handle_from(
            env,
            t.1@,
            0,
            g_open(g_line(g_flush(g_handle_ws(g, t.0), env.html), text("} else {")), Seq::empty()),
            fuel,
        ) {
            Err(r) => Err(r),
            Ok(g1) => g_close(g1),
        },
    }
}

/// The generator after a `with`: the body in a context frame that the
/// expression names.
pub open spec fn with_spec(env: Env, ws: (Ws, Ws), e: Expr, b: Vec<Tree>, g: GenM, fuel: nat)
    -> Result<GenM, Reason>
    decreases fuel, b, 2int,
{
    let g1 = g_handle_ws(g, ws.0);
    match frag(g1.m, g1.on, ops_expr(e, Seq::empty())) {
        Err(r) => Err(r),
        Ok((m, t)) => {
            let g2 = g_open(
                GenM { m, on: g1.on.push(On::With(m.scp.len() as usize)), ..g1 },
                seq![t],
            );
            match handle_from(env, b@, 0, g2, fuel) {
                Err(r) => Err(r),
                Ok(g3) => match g_close(g3) {
                    Err(r) => Err(r),
                    Ok(g4) => match g_on_pop(g4) {
                        Err(r) => Err(r),
                        Ok(g5) => Ok(g_handle_ws(g5, ws.1)),
                    },
                },
            }
        },
    }
}

/// The generator after an `unless`: the body under the negated condition.
pub open spec fn unless_spec(env: Env, ws: (Ws, Ws), e: Expr, b: Vec<Tree>, g: GenM, fuel: nat)
    -> Result<GenM, Reason>
    decreases fuel, b, 2int,
{
    let g1 = g_flush(g_handle_ws(g, ws.0), env.html);
    match frag(g1.m, g1.on, ops_expr(e, Seq::empty())) {
        Err(r) => Err(r),
        Ok((m, t)) => match handle_from(
            env,
            b@,
            0,
            g_open(g_line(GenM { m, ..g1 }, text("if !(") + t + text(") {")), Seq::empty()),
            fuel,
        ) {
            Err(r) => Err(r),
            Ok(g2) => match g_close(g2) {
                Err(r) => Err(r),
                Ok(g3) => Ok(g_line(g_flush(g_handle_ws(g3, ws.1), env.html), text("}"))),
            },
        },
    }
}

/// The generator after a partial: the nodes of the template that it names,
/// in a scope of their own. With no argument they see the context around the
/// tag; with one, the argument is their record and the context around the tag
/// is out of sight; with more they are not written.
pub open spec fn partial_spec(
    env: Env,
    ws: Ws,
    name: Vec<u8>,
    args: Vec<Expr>,
    g: GenM,
    fuel: nat,
) -> Result<GenM, Reason>
    decreases fuel, args, 0int,
{
    if fuel == 0 {
        Err(Reason::CircularPartial)
    } else {
        match resolved(env, g.on_path, name@) {
            None => Err(Reason::MissingPartial),
            Some(ix) => {
                let g1 = g_flush_ws(GenM { on_path: env.ctx.paths@[ix]@, ..g }, ws);
                let nodes = env.ctx.trees@[ix]@;
                let r = if args@.len() == 0 {
                    match handle_from(env, nodes, 0, g_open(g1, Seq::empty()), (fuel - 1) as nat) {
                        Err(r) => Err(r),
                        Ok(g2) => g_close(g2),
                    }
                } else if args@.len() == 1 {
                    match frag(g1.m, g1.on, ops_expr(args@[0], Seq::empty())) {
                        Err(r) => Err(r),
                        Ok((m, t)) => match handle_from(
                            env,
                            nodes,
                            0,
                            GenM {
                                m: MachineM { scp: seq![seq![t]], ..m },
                                on: Seq::empty(),
                                ..g1
                            },
                            (fuel - 1) as nat,
                        ) {
                            Err(r) => Err(r),
                            Ok(g2) => Ok(
                                GenM { m: MachineM { scp: m.scp, ..g2.m }, on: g1.on, ..g2 },
                            ),
                        },
                    }
                } else {
                    Ok(g1)
                };
                match r {
                    Err(r) => Err(r),
                    Ok(g3) => Ok(GenM { on_path: g.on_path, ..g_prepare_ws(g3, ws) }),
                }
            },
        }
    }
}

/// The outcome of a step of the generator, as the generator it leaves or the
/// reason why there is none.
pub open spec fn outcome(r: Result<(), Reason>, g: GenM) -> Result<GenM, Reason> {
    match r {
        Ok(()) => Ok(g),
        Err(e) => Err(e),
    }
}

fn say(a: &mut Vec<u8>, s: &str)
    ensures
        final(a)@ == old(a)@ + text(s),
{
    a.extend_from_slice(s.as_bytes());
}

fn cat(a: &mut Vec<u8>, t: &Vec<u8>)
    ensures
        final(a)@ == old(a)@ + t@,
{
    a.extend_from_slice(t.as_slice());
}

fn key_of(id: usize) -> (r: Vec<u8>)
    ensures
        r@ == key_name(id as nat),
{
    let mut r = bytes_of("_key_");
    let d = decimal(id);
    cat(&mut r, &d);
    r
}

fn index_of(id: usize) -> (r: Vec<u8>)
    ensures
        r@ == index_name(id as nat),
{
    let mut r = bytes_of("_index_");
    let d = decimal(id);
    cat(&mut r, &d);
    r
}

fn head_of(indexed: bool, range: bool, key: &Vec<u8>, index: &Vec<u8>, code: &Vec<u8>) -> (r: Vec<
    u8,
>)
    ensures
        r@ == each_head(indexed, range, key@, index@, code@),
{
    let mut r: Vec<u8> = Vec::new();
    if indexed {
        say(&mut r, "for (");
        cat(&mut r, index);
        say(&mut r, ", ");
        cat(&mut r, key);
        if range {
            say(&mut r, ") in (");
            cat(&mut r, code);
            say(&mut r, ").enumerate() {");
        } else {
            say(&mut r, ") in (&");
            cat(&mut r, code);
            say(&mut r, ").into_iter().enumerate() {");
        }
    } else {
        say(&mut r, "for ");
        cat(&mut r, key);
        if range {
            say(&mut r, " in ");
            cat(&mut r, code);
            say(&mut r, " {");
        } else {
            say(&mut r, " in (&");
            cat(&mut r, code);
            say(&mut r, ").into_iter() {");
        }
    }
    proof {
        assert(r@ =~= each_head(indexed, range, key@, index@, code@));
    }
    r
}

fn write_str_code(lit: &Vec<u8>) -> (r: Vec<u8>)
    ensures
        r@ == write_str_line(lit@),
{
    let mut r = bytes_of("_fmt.write_str(");
    quote(&mut r, lit.as_slice());
    say(&mut r, ")?;");
    r
}

fn fmt_code(code: &Vec<u8>, safe: bool) -> (r: Vec<u8>)
    ensures
        r@ == fmt_line(code@, safe),
{
    let mut r: Vec<u8> = Vec::new();
    if safe {
        say(&mut r, "(");
        cat(&mut r, code);
        say(&mut r, ").fmt(_fmt)?;");
    } else {
        say(&mut r, "(::yarte::MarkupAsStr::from(&");
        cat(&mut r, code);
        say(&mut r, ")).fmt(_fmt)?;");
    }
    proof {
        assert(r@ =~= fmt_line(code@, safe));
    }
    r
}

fn is_range(e: &Expr) -> (r: bool)
    ensures
        r == (*e is Range),
{
    match e {
        Expr::Range { from, limits, to } => true,
        _ => false,
    }
}

impl Generator {
    pub open spec fn view(&self) -> GenM {
        GenM {
            m: self.machine@,
            on: self.on@,
            pending: pending_view(self.buf_w@),
            next_ws: opt_view(self.next_ws),
            skip_ws: self.skip_ws,
            on_path: self.on_path@,
            size_hint: self.size_hint,
            out: self.out@,
        }
    }

    /// A generator that has written nothing, for the template at `path`. The
    /// record goes by the name `self`.
    pub fn new(path: Vec<u8>) -> (r: Generator)
        ensures
            r@ == (GenM {
                m: MachineM {
                    buf: Seq::empty(),
                    scp: seq![seq![text("self")]],
                    shelf: Seq::empty(),
                    flags: Seq::empty(),
                    wrapped: true,
                    will_wrap: true,
                },
                on: Seq::empty(),
                pending: Seq::empty(),
                next_ws: None,
                skip_ws: false,
                on_path: path@,
                size_hint: 0,
                out: BufferM { buf: Seq::empty(), indent: 0, start: true },
            }),
    {
        let g = Generator {
            machine: Machine::new(bytes_of("self")),
            on: Vec::new(),
            buf_w: Vec::new(),
            next_ws: None,
            skip_ws: false,
            on_path: path,
            size_hint: 0,
            out: Buffer::new(0),
        };
        proof {
            assert(pending_view(g.buf_w@) =~= Seq::<WritableM>::empty());
        }
        g
    }

    pub fn push_writable(&mut self, w: Writable)
        ensures
            final(self)@ == (GenM {
                pending: old(self)@.pending.push(writable_view(w)),
                ..old(self)@
            }),
    {
        self.buf_w.push(w);
        proof {
            assert(pending_view(self.buf_w@) =~= pending_view(old(self).buf_w@).push(
                writable_view(w),
            ));
        }
    }

    pub fn skip_ws(&mut self)
        ensures
            final(self)@ == g_skip_ws(old(self)@),
    {
        self.next_ws = None;
        self.skip_ws = true;
    }

    pub fn flush_ws(&mut self, ws: &Ws)
        ensures
            final(self)@ == g_flush_ws(old(self)@, *ws),
    {
        let mut held: Option<Vec<u8>> = None;
        std::mem::swap(&mut self.next_ws, &mut held);
        match held {
            Some(val) => {
                if !ws.0 && val.len() > 0 {
                    self.push_writable(Writable::Lit(val));
                }
            },
            None => {},
        }
    }

    pub fn prepare_ws(&mut self, ws: &Ws)
        ensures
            final(self)@ == g_prepare_ws(old(self)@, *ws),
    {
        self.skip_ws = ws.1;
    }

    pub fn handle_ws(&mut self, ws: &Ws)
        ensures
            final(self)@ == g_handle_ws(old(self)@, *ws),
    {
        self.flush_ws(ws);
        self.prepare_ws(ws);
    }

    pub fn visit_lit(&mut self, lws: &Vec<u8>, lit: &Vec<u8>, rws: &Vec<u8>)
        ensures
            final(self)@ == g_lit(old(self)@, lws@, lit@, rws@),
    {
        if lws.len() > 0 {
            if self.skip_ws {
                self.skip_ws = false;
            } else if lit.len() == 0 {
                self.next_ws = Some(dup(lws));
            } else {
                self.push_writable(Writable::Lit(dup(lws)));
            }
        }
        if lit.len() > 0 {
            self.push_writable(Writable::Lit(dup(lit)));
        }
        if rws.len() > 0 {
            self.next_ws = Some(dup(rws));
        }
    }

    pub fn line(&mut self, s: &Vec<u8>)
        ensures
            final(self)@ == g_line(old(self)@, s@),
    {
        self.out.writeln(s.as_slice());
    }

    fn flush_lit(&mut self, lit: &Vec<u8>)
        ensures
            final(self)@ == (GenM {
                out: lit_flushed(lit@, old(self)@.out, old(self)@.size_hint).0,
                size_hint: lit_flushed(lit@, old(self)@.out, old(self)@.size_hint).1,
                ..old(self)@
            }),
    {
        if lit.len() > 0 {
            let code = write_str_code(lit);
            self.out.writeln(code.as_slice());
            if lit.len() > usize::MAX - self.size_hint {
                self.size_hint = usize::MAX;
            } else {
                self.size_hint = self.size_hint + lit.len();
            }
        }
    }

    fn count_hint(&mut self, n: usize)
        ensures
            final(self)@ == (GenM { size_hint: sat_add(old(self)@.size_hint, n as nat), ..old(self)@ }),
    {
        if n > usize::MAX - self.size_hint {
            self.size_hint = usize::MAX;
        } else {
            self.size_hint = self.size_hint + n;
        }
    }

    /// Writes what is pending. Literals alone become one `write_str`,
    /// whatever their text. Else every expression becomes one `fmt`, inside
    /// the escape adapter if the template escapes HTML and the expression is
    /// not marked, and the literals between two expressions one `write_str`
    /// where they hold any text.
    pub fn write_buf_writable(&mut self, html: bool)
        ensures
            final(self)@ == g_flush(old(self)@, html),
    {
        let mut pending: Vec<Writable> = Vec::new();
        std::mem::swap(&mut self.buf_w, &mut pending);
        proof {
            assert(pending_view(self.buf_w@) =~= Seq::<WritableM>::empty());
        }
        if pending.len() == 0 {
            proof {
                assert(old(self)@.pending =~= Seq::<WritableM>::empty());
            }
            return ;
        }
        let mut only: bool = true;
        let mut lit: Vec<u8> = Vec::new();
        let mut k: usize = 0;
        while k < pending.len()
            invariant
                k <= pending@.len(),
                only <==> forall|j: int| 0 <= j < k ==> #[trigger] pending_view(pending@)[j] is Lit,
                joined_from(pending_view(pending@), k as int, lit@) == joined_from(
                    pending_view(pending@),
                    0,
                    Seq::empty(),
                ),
            decreases pending@.len() - k,
        {
            match &pending[k] {
                Writable::Lit(s) => {
                    cat(&mut lit, s);
                },
                Writable::Expr(_, _) => {
                    only = false;
                },
            }
            k += 1;
        }
        if only {
            let code = write_str_code(&lit);
            self.out.writeln(code.as_slice());
            self.count_hint(lit.len());
            return ;
        }
        let mut lit: Vec<u8> = Vec::new();
        let mut k: usize = 0;
        while k < pending.len()
            invariant
                k <= pending@.len(),
                pending@ == old(self).buf_w@,
                self@ == (GenM {
                    pending: Seq::empty(),
                    out: self@.out,
                    size_hint: self@.size_hint,
                    ..old(self)@
                }),
                flush_from(
                    pending_view(pending@),
                    k as int,
                    lit@,
                    self@.out,
                    self@.size_hint,
                    html,
                ) == flush_from(
                    pending_view(pending@),
                    0,
                    Seq::empty(),
                    old(self)@.out,
                    old(self)@.size_hint,
                    html,
                ),
            decreases pending@.len() - k,
        {
            match &pending[k] {
                Writable::Lit(s) => {
                    cat(&mut lit, s);
                },
                Writable::Expr(s, safe) => {
                    self.flush_lit(&lit);
                    lit = Vec::new();
                    let code = fmt_code(s, *safe || !html);
                    self.line(&code);
                },
            }
            k += 1;
        }
        self.flush_lit(&lit);
    }

    /// Ends the template: writes the whitespace that the last literal ends
    /// with and all that is pending.
    pub fn finish(&mut self, html: bool)
        ensures
            final(self)@ == g_flush(g_flush_ws(old(self)@, (false, false)), html),
    {
        let ws: Ws = (false, false);
        self.flush_ws(&ws);
        self.write_buf_writable(html);
    }

    pub fn open_scope(&mut self, names: Vec<Vec<u8>>)
        ensures
            final(self)@ == g_open(old(self)@, names_view(names@)),
    {
        self.machine.open(names);
    }

    pub fn close_scope(&mut self) -> (r: Result<(), Reason>)
        ensures
            outcome(r, final(self)@) == g_close(old(self)@),
    {
        match self.machine.close() {
            Some(_) => Ok(()),
            None => Err(Reason::MissingFrame),
        }
    }

    pub fn pop_on(&mut self) -> (r: Result<(), Reason>)
        ensures
            outcome(r, final(self)@) == g_on_pop(old(self)@),
    {
        match self.on.pop() {
            Some(_) => Ok(()),
            None => Err(Reason::MissingFrame),
        }
    }

    /// Checks a lowered fragment and writes it. Gives the text.
    pub fn fragment(&mut self, ops: &Vec<Op>) -> (r: Result<Vec<u8>, Reason>)
        ensures
            match r {
                Ok(t) => frag(old(self)@.m, old(self)@.on, ops_view(ops@)) == Ok::<
                    (MachineM, Seq<u8>),
                    Reason,
                >((final(self)@.m, t@)) && final(self)@ == (GenM {
                    m: final(self)@.m,
                    ..old(self)@
                }),
                Err(e) => frag(old(self)@.m, old(self)@.on, ops_view(ops@)) == Err::<
                    (MachineM, Seq<u8>),
                    Reason,
                >(e),
            },
    {
        match validate(ops) {
            Err(e) => {
                return Err(e);
            },
            Ok(()) => {},
        }
        match self.machine.run(&self.on, ops) {
            Err(e) => Err(e),
            Ok(()) => Ok(self.machine.take()),
        }
    }

    pub fn expr_code(&mut self, e: &Expr) -> (r: Result<Vec<u8>, Reason>)
        ensures
            match r {
                Ok(t) => frag(old(self)@.m, old(self)@.on, ops_expr(*e, Seq::empty())) == Ok::<
                    (MachineM, Seq<u8>),
                    Reason,
                >((final(self)@.m, t@)) && final(self)@ == (GenM {
                    m: final(self)@.m,
                    ..old(self)@
                }),
                Err(e2) => frag(old(self)@.m, old(self)@.on, ops_expr(*e, Seq::empty())) == Err::<
                    (MachineM, Seq<u8>),
                    Reason,
                >(e2),
            },
    {
        let mut ops: Vec<Op> = Vec::new();
        proof {
            assert(ops_view(ops@) =~= Seq::<OpM>::empty());
        }
        lower_expr(e, &mut ops);
        self.fragment(&ops)
    }

    pub fn stmt_code(&mut self, s: &Stmt) -> (r: Result<Vec<u8>, Reason>)
        ensures
            match r {
                Ok(t) => frag(old(self)@.m, old(self)@.on, ops_stmt(*s, Seq::empty())) == Ok::<
                    (MachineM, Seq<u8>),
                    Reason,
                >((final(self)@.m, t@)) && final(self)@ == (GenM {
                    m: final(self)@.m,
                    ..old(self)@
                }),
                Err(e2) => frag(old(self)@.m, old(self)@.on, ops_stmt(*s, Seq::empty())) == Err::<
                    (MachineM, Seq<u8>),
                    Reason,
                >(e2),
            },
    {
        let mut ops: Vec<Op> = Vec::new();
        proof {
            assert(ops_view(ops@) =~= Seq::<OpM>::empty());
        }
        lower_stmt(s, &mut ops);
        self.fragment(&ops)
    }

    /// Writes the nodes in order. Partials are followed at most `fuel` deep.
    pub fn handle(&mut self, env: &Env, nodes: &Vec<Tree>, fuel: usize) -> (r: Result<(), Reason>)
        ensures
            outcome(r, final(self)@) == handle_from(*env, nodes@, 0, old(self)@, fuel as nat),
        decreases fuel, nodes, 0int,
    {
        let mut k: usize = 0;
        while k < nodes.len()
            invariant
                k <= nodes@.len(),
                handle_from(*env, nodes@, k as int, self@, fuel as nat) == handle_from(
                    *env,
                    nodes@,
                    0,
                    old(self)@,
                    fuel as nat,
                ),
            decreases nodes@.len() - k,
        {
            match self.visit_node(env, &nodes[k], fuel) {
                Ok(()) => {},
                Err(e) => {
                    return Err(e);
                },
            }
            k += 1;
        }
        Ok(())
    }

    pub fn visit_node(&mut self, env: &Env, n: &Tree, fuel: usize) -> (r: Result<(), Reason>)
        ensures
            outcome(r, final(self)@) == handle_node(*env, *n, old(self)@, fuel as nat),
        decreases fuel, n, 1int,
    {
        match n {
            Node::Local(s) => {
                self.skip_ws();
                self.write_buf_writable(env.html);
                let t = self.stmt_code(s)?;
                self.line(&t);
                Ok(())
            },
            Node::Safe(ws, e) => {
                let t = self.expr_code(e)?;
                self.handle_ws(ws);
                self.push_writable(Writable::Expr(t, true));
                Ok(())
            },
            Node::Expr(ws, e) => {
                self.machine.wrapped = false;
                let t = self.expr_code(e)?;
                self.handle_ws(ws);
                let safe = self.machine.wrapped;
                self.push_writable(Writable::Expr(t, safe));
                Ok(())
            },
            Node::Lit(l, b, r) => {
                self.visit_lit(l, b, r);
                Ok(())
            },
            Node::Comment(_) => {
                self.skip_ws();
                Ok(())
            },
            Node::Helper(h) => self.visit_helper(env, h, fuel),
            Node::Partial(ws, name, args) => self.visit_partial(env, ws, name, args, fuel),
        }
    }

    pub fn visit_helper(&mut self, env: &Env, h: &Helper<Expr, Stmt>, fuel: usize) -> (r: Result<
        (),
        Reason,
    >)
        ensures
            outcome(r, final(self)@) == handle_node(
                *env,
                Node::Helper(*h),
                old(self)@,
                fuel as nat,
            ),
        decreases fuel, h, 4int,
    {
        match h {
            Helper::Each(ws, e, b) => self.visit_each(env, ws, e, b, fuel),
            Helper::If(_, _, _) => self.visit_if(env, h, fuel),
            Helper::With(ws, e, b) => self.visit_with(env, ws, e, b, fuel),
            Helper::Unless(ws, e, b) => self.visit_unless(env, ws, e, b, fuel),
            Helper::Defined(_, _, _, _) => Err(Reason::UnknownHelper),
        }
    }

    pub fn visit_each(&mut self, env: &Env, ws: &(Ws, Ws), e: &Expr, b: &Vec<Tree>, fuel: usize) -> (r:
        Result<(), Reason>)
        ensures
            outcome(r, final(self)@) == each_spec(*env, *ws, *e, *b, old(self)@, fuel as nat),
        decreases fuel, b, 2int,
    {
        self.handle_ws(&ws.0);
        self.write_buf_writable(env.html);
        let indexed = find_loop_var(env, &self.on_path, b, fuel)?;
        let t = self.expr_code(e)?;
        self.each_begin(indexed, is_range(e), &t);
        self.handle(env, b, fuel)?;
        self.handle_ws(&ws.1);
        self.write_buf_writable(env.html);
        self.block_end()
    }

    pub fn each_begin(&mut self, indexed: bool, range: bool, code: &Vec<u8>)
        ensures
            final(self)@ == g_each_begin(old(self)@, indexed, range, code@),
    {
        let id = self.machine.scp.len();
        let key = key_of(id);
        let index = index_of(id);
        let head = head_of(indexed, range, &key, &index, code);
        self.line(&head);
        self.on.push(On::Each(id));
        let mut names: Vec<Vec<u8>> = Vec::new();
        names.push(key);
        if indexed {
            names.push(index);
        }
        proof {
            assert(names_view(names@) =~= if indexed {
                seq![key_name(id as nat), index_name(id as nat)]
            } else {
                seq![key_name(id as nat)]
            });
        }
        self.open_scope(names);
    }

    pub fn block_end(&mut self) -> (r: Result<(), Reason>)
        ensures
            outcome(r, final(self)@) == g_block_end(old(self)@),
    {
        self.close_scope()?;
        self.pop_on()?;
        let end = bytes_of("}");
        self.line(&end);
        Ok(())
    }

    pub fn visit_branch(&mut self, env: &Env, head: &str, e: &Expr, b: &Vec<Tree>, fuel: usize) -> (r:
        Result<(), Reason>)
        ensures
            outcome(r, final(self)@) == branch_spec(*env, head, *e, *b, old(self)@, fuel as nat),
        decreases fuel, b, 2int,
    {
        let names: Vec<Vec<u8>> = Vec::new();
        proof {
            assert(names_view(names@) =~= Seq::<Seq<u8>>::empty());
        }
        self.open_scope(names);
        let t = self.expr_code(e)?;
        let mut code = bytes_of(head);
        cat(&mut code, &t);
        say(&mut code, " {");
        self.line(&code);
        self.handle(env, b, fuel)?;
        self.close_scope()
    }

    pub fn visit_branches(
        &mut self,
        env: &Env,
        branches: &Vec<(Ws, Expr, Vec<Tree>)>,
        fuel: usize,
    ) -> (r: Result<(), Reason>)
        ensures
            outcome(r, final(self)@) == branches_from(
                *env,
                branches@,
                0,
                old(self)@,
                fuel as nat,
            ),
        decreases fuel, branches, 1int,
    {
        let mut k: usize = 0;
        while k < branches.len()
            invariant
                k <= branches@.len(),
                branches_from(*env, branches@, k as int, self@, fuel as nat) == branches_from(
                    *env,
                    branches@,
                    0,
                    old(self)@,
                    fuel as nat,
                ),
            decreases branches@.len() - k,
        {
            let br = &branches[k];
            self.handle_ws(&br.0);
            self.write_buf_writable(env.html);
            match self.visit_branch(env, "} else if ", &br.1, &br.2, fuel) {
                Ok(()) => {},
                Err(e) => {
                    return Err(e);
                },
            }
            k += 1;
        }
        Ok(())
    }

    pub fn visit_else(&mut self, env: &Env, els: &Option<(Ws, Vec<Tree>)>, fuel: usize) -> (r: Result<
        (),
        Reason,
    >)
        ensures
            outcome(r, final(self)@) == else_spec(*env, *els, old(self)@, fuel as nat),
        decreases fuel, els, 2int,
    {
        match els {
            None => Ok(()),
            Some(t) => {
                self.handle_ws(&t.0);
                self.write_buf_writable(env.html);
                let code = bytes_of("} else {");
                self.line(&code);
                let names: Vec<Vec<u8>> = Vec::new();
                proof {
                    assert(names_view(names@) =~= Seq::<Seq<u8>>::empty());
                }
                self.open_scope(names);
                self.handle(env, &t.1, fuel)?;
                self.close_scope()
            },
        }
    }

    pub fn visit_if(&mut self, env: &Env, h: &Helper<Expr, Stmt>, fuel: usize) -> (r: Result<
        (),
        Reason,
    >)
        ensures
            outcome(r, final(self)@) == if_spec(*env, *h, old(self)@, fuel as nat),
        decreases fuel, h, 0int,
    {
        match h {
            Helper::If(first, elifs, els) => {
                self.handle_ws(&first.0.0);
                self.write_buf_writable(env.html);
                self.visit_branch(env, "if ", &first.1, &first.2, fuel)?;
                self.visit_branches(env, elifs, fuel)?;
                self.visit_else(env, els, fuel)?;
                self.handle_ws(&first.0.1);
                self.write_buf_writable(env.html);
                let end = bytes_of("}");
                self.line(&end);
                Ok(())
            },
            _ => Err(Reason::UnknownHelper),
        }
    }

    pub fn visit_with(&mut self, env: &Env, ws: &(Ws, Ws), e: &Expr, b: &Vec<Tree>, fuel: usize) -> (r:
        Result<(), Reason>)
        ensures
            outcome(r, final(self)@) == with_spec(*env, *ws, *e, *b, old(self)@, fuel as nat),
        decreases fuel, b, 2int,
    {
        self.handle_ws(&ws.0);
        let t = self.expr_code(e)?;
        let id = self.machine.scp.len();
        self.on.push(On::With(id));
        let ghost tv = t@;
        let mut names: Vec<Vec<u8>> = Vec::new();
        names.push(t);
        proof {
            assert(names_view(names@) =~= seq![tv]);
        }
        self.open_scope(names);
        self.handle(env, b, fuel)?;
        self.close_scope()?;
        self.pop_on()?;
        self.handle_ws(&ws.1);
        Ok(())
    }

    pub fn visit_unless(&mut self, env: &Env, ws: &(Ws, Ws), e: &Expr, b: &Vec<Tree>, fuel: usize) -> (r:
        Result<(), Reason>)
        ensures
            outcome(r, final(self)@) == unless_spec(*env, *ws, *e, *b, old(self)@, fuel as nat),
        decreases fuel, b, 2int,
    {
        self.handle_ws(&ws.0);
        self.write_buf_writable(env.html);
        let t = self.expr_code(e)?;
        let mut code = bytes_of("if !(");
        cat(&mut code, &t);
        say(&mut code, ") {");
        self.line(&code);
        let names: Vec<Vec<u8>> = Vec::new();
        proof {
            assert(names_view(names@) =~= Seq::<Seq<u8>>::empty());
        }
        self.open_scope(names);
        self.handle(env, b, fuel)?;
        self.close_scope()?;
        self.handle_ws(&ws.1);
        self.write_buf_writable(env.html);
        let end = bytes_of("}");
        self.line(&end);
        Ok(())
    }

    pub fn visit_partial(
        &mut self,
        env: &Env,
        ws: &Ws,
        name: &Vec<u8>,
        args: &Vec<Expr>,
        fuel: usize,
    ) -> (r: Result<(), Reason>)
        ensures
            outcome(r, final(self)@) == partial_spec(
                *env,
                *ws,
                *name,
                *args,
                old(self)@,
                fuel as nat,
            ),
        decreases fuel, args, 0int,
    {
        if fuel == 0 {
            return Err(Reason::CircularPartial);
        }
        let ix = match resolve(env, &self.on_path, name) {
            None => {
                return Err(Reason::MissingPartial);
            },
            Some(ix) => ix,
        };
        let mut parent = dup(&env.ctx.paths[ix]);
        std::mem::swap(&mut self.on_path, &mut parent);
        self.flush_ws(ws);
        let nodes = &env.ctx.trees[ix];
        if args.len() == 0 {
            let names: Vec<Vec<u8>> = Vec::new();
            proof {
                assert(names_view(names@) =~= Seq::<Seq<u8>>::empty());
            }
            self.open_scope(names);
            self.handle(env, nodes, fuel - 1)?;
            self.close_scope()?;
        } else if args.len() == 1 {
            let t = self.expr_code(&args[0])?;
            let ghost tv = t@;
            let mut names: Vec<Vec<u8>> = Vec::new();
            names.push(t);
            let mut scp: Vec<Vec<Vec<u8>>> = Vec::new();
            scp.push(names);
            let mut on: Vec<On> = Vec::new();
            proof {
                assert(names_view(names@) =~= seq![tv]);
                assert(crate::machine::frames_view(scp@) =~= seq![seq![tv]]);
            }
            std::mem::swap(&mut self.machine.scp, &mut scp);
            std::mem::swap(&mut self.on, &mut on);
            self.handle(env, nodes, fuel - 1)?;
            std::mem::swap(&mut self.machine.scp, &mut scp);
            std::mem::swap(&mut self.on, &mut on);
        }
        self.prepare_ws(ws);
        std::mem::swap(&mut self.on_path, &mut parent);
        Ok(())
    }
}

} // verus!
