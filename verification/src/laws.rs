//! What holds of every template: properties of the parser, the generator and
//! the runtime taken together, each proved from their definitions.
use vstd::prelude::*;
use vstd::string::StringSliceAdditionalSpecFns;
use crate::analysis::{loop_var, mentions, names_index, node_uses, Env, Tree};
use crate::ast::{Expr, Stmt};
use crate::buffer::{with_line, BufferM};
use crate::bytes::{
    find_byte, is_ws, lemma_find_byte_bounds, lemma_skip_ws_bounds, lemma_trim, skip_ws,
    trim_spec, OPEN,
};
use crate::derive::{finished, start};
use crate::generator::{
    all_literal, each_head, flush_from, g_each_begin, fmt_line, frag, g_flush, g_flush_ws, g_handle_ws, g_lit,
    g_prepare_ws, joined_from,
    handle_from, handle_node, index_name, key_name, lit_flushed, sat_add, write_str_line, GenM,
    WritableM,
};
use crate::lower::{names_view, ops_expr, text, OpM, Reason};
use crate::machine::{
    bound, each_text, each_var, frame_name, is_const_name, is_each_var, single, wrote,
    wrote_safe, MachineM, On,
};
use crate::node::{Node, NodeM, Ws};
use crate::syntax::{eat_from, eat_spec, lit_of, parse_spec, ParseError, Within};
use crate::text::{denoted_from, escaped_from, lemma_quote_denotes, quoted};

verus! {

/// No tag opens in the text: nowhere do two `{` follow each other.
pub open spec fn tagless(i: Seq<u8>) -> bool {
    forall|k: int| 0 <= k && k + 1 < i.len() ==> !(#[trigger] i[k] == OPEN && i[k + 1] == OPEN)
}

proof fn lemma_eat_tagless(i: Seq<u8>, at: int, acc: Seq<NodeM>, within: Within)
    requires
        tagless(i),
        0 <= at,
    ensures
        eat_from(i, 0, at, acc, within) == Ok::<(int, Seq<NodeM>), ParseError>(
            (i.len() as int, acc + lit_of(i, 0, i.len() as int)),
        ),
    decreases i.len() - at,
{
    if at <= i.len() {
        lemma_find_byte_bounds(i, at, OPEN);
    }
    let q = find_byte(i, at, OPEN);
    if q + 2 < i.len() {
        assert(i[q] == OPEN);
        assert(i[q + 1] != OPEN);
        lemma_eat_tagless(i, q + 2, acc, within);
    }
}

/// A template without tags parses to one literal that holds all of it: its
/// whitespace at the start, its body, and its whitespace at the end. The empty
/// template parses to no node.
pub proof fn lemma_parse_tagless(i: Seq<u8>)
    requires
        tagless(i),
    ensures
        parse_spec(i) == Ok::<Seq<NodeM>, ParseError>(lit_of(i, 0, i.len() as int)),
        i.len() > 0 ==> lit_of(i, 0, i.len() as int) == seq![
            NodeM::Lit(trim_spec(i).0, trim_spec(i).1, trim_spec(i).2),
        ],
        trim_spec(i).0 + trim_spec(i).1 + trim_spec(i).2 == i,
{
    lemma_eat_tagless(i, 0, Seq::empty(), Within::Template);
    lemma_trim(i);
    assert(Seq::<NodeM>::empty() + lit_of(i, 0, i.len() as int) =~= lit_of(i, 0, i.len() as int));
    assert(i.subrange(0, i.len() as int) =~= i);
}

/// A template that is one literal is rendered by one statement that writes a
/// string literal, and that literal denotes the template's text, byte for
/// byte. The count of literal bytes is the length of the text.
pub proof fn lemma_literal_round_trip(env: Env, l: Vec<u8>, b: Vec<u8>, r: Vec<u8>, path: Seq<u8>)
    requires
        (l@, b@, r@) == trim_spec(l@ + b@ + r@),
        (l@ + b@ + r@).len() > 0,
    ensures
        ({
            let i = l@ + b@ + r@;
            let nodes: Seq<Tree> = seq![Node::Lit(l, b, r)];
            let g = start(path);
            match handle_from(env, nodes, 0, g, 0) {
                Ok(g1) => {
                    &&& finished(g1, env.html).out == with_line(g.out, write_str_line(i))
                    &&& finished(g1, env.html).size_hint == sat_add(0, i.len())
                    &&& write_str_line(i) == text("_fmt.write_str(") + quoted(i) + text(")?;")
                    &&& denoted_from(escaped_from(i, 0), 0) == i
                },
                Err(_) => false,
            }
        }),
{
    let i = l@ + b@ + r@;
    let nodes: Seq<Tree> = seq![Node::Lit(l, b, r)];
    let g = start(path);
    lemma_quote_denotes(i);
    lemma_trim(i);
    let g1 = g_lit(g, l@, b@, r@);
    assert(handle_node(env, nodes[0], g, 0) == Ok::<GenM, Reason>(g1));
    assert(handle_from(env, nodes, 1, g1, 0) == Ok::<GenM, Reason>(g1));
    assert(handle_from(env, nodes, 0, g, 0) == Ok::<GenM, Reason>(g1));
    lemma_literal_joined(g, l@, b@, r@);
}

/// A literal that is neither preceded nor followed by a tag is pending whole
/// at the end: its whitespace at the start, its body, and its whitespace at
/// the end, in that order and as literals alone.
proof fn lemma_literal_joined(g: GenM, l: Seq<u8>, b: Seq<u8>, r: Seq<u8>)
    requires
        g.pending.len() == 0,
        g.next_ws is None,
        !g.skip_ws,
        (l + b + r).len() > 0,
        b.len() == 0 ==> r.len() == 0,
    ensures
        ({
            let p = g_flush_ws(g_lit(g, l, b, r), (false, false)).pending;
            p.len() > 0 && all_literal(p) && joined_from(p, 0, Seq::empty()) == l + b + r
        }),
{
    let i = l + b + r;
    let p = g_flush_ws(g_lit(g, l, b, r), (false, false)).pending;
    let e = Seq::<u8>::empty();
    assert(g.pending =~= Seq::<WritableM>::empty());
    if b.len() == 0 {
        assert(l =~= i);
        assert(p =~= seq![WritableM::Lit(l)]);
        assert(e + l =~= i);
        assert(joined_from(p, 1, i) == i);
        assert(joined_from(p, 0, e) == i);
    } else if l.len() == 0 && r.len() == 0 {
        assert(b =~= i);
        assert(p =~= seq![WritableM::Lit(b)]);
        assert(e + b =~= i);
        assert(joined_from(p, 1, i) == i);
        assert(joined_from(p, 0, e) == i);
    } else if l.len() == 0 {
        assert(p =~= seq![WritableM::Lit(b), WritableM::Lit(r)]);
        assert(e + b + r =~= i);
        assert(joined_from(p, 2, i) == i);
        assert(joined_from(p, 1, e + b) == i);
        assert(joined_from(p, 0, e) == i);
    } else if r.len() == 0 {
        assert(p =~= seq![WritableM::Lit(l), WritableM::Lit(b)]);
        assert(e + l + b =~= i);
        assert(joined_from(p, 2, i) == i);
        assert(joined_from(p, 1, e + l) == i);
        assert(joined_from(p, 0, e) == i);
    } else {
        assert(p =~= seq![WritableM::Lit(l), WritableM::Lit(b), WritableM::Lit(r)]);
        assert(e + l + b + r =~= i);
        assert(joined_from(p, 3, i) == i);
        assert(joined_from(p, 2, e + l + b) == i);
        assert(joined_from(p, 1, e + l) == i);
        assert(joined_from(p, 0, e) == i);
    }
}

/// Literals that are pending alone are written as one statement, whatever
/// their text; also as `_fmt.write_str("")?;` where they hold none.
pub proof fn lemma_literals_are_one_statement(g: GenM, html: bool)
    requires
        g.pending.len() > 0,
        all_literal(g.pending),
    ensures
        g_flush(g, html).out == with_line(
            g.out,
            write_str_line(joined_from(g.pending, 0, Seq::empty())),
        ),
        g_flush(g, html).pending.len() == 0,
{
}

/// Where the template escapes HTML, an expression that is not marked is
/// written inside the escape adapter; a safe expression, and any expression
/// where the template does not escape, is written as it is.
pub proof fn lemma_escape_dispatch(code: Seq<u8>, safe: bool, out: BufferM, hint: usize, html: bool)
    ensures
        flush_from(seq![WritableM::Expr(code, safe)], 0, Seq::empty(), out, hint, html) == (
            with_line(out, fmt_line(code, safe || !html)),
            hint,
        ),
        fmt_line(code, false) == text("(::yarte::MarkupAsStr::from(&") + code + text(
            ")).fmt(_fmt)?;",
        ),
        fmt_line(code, true) == text("(") + code + text(").fmt(_fmt)?;"),
{
    let p = seq![WritableM::Expr(code, safe)];
    let o = with_line(out, fmt_line(code, safe || !html));
    assert(flush_from(p, 1, Seq::empty(), o, hint, html) == (o, hint));
}

/// A safe node waits to be written as safe: it is never escaped. An expression
/// node is safe only if its fragment marked itself so.
pub proof fn lemma_node_marks(env: Env, ws: Ws, e: Expr, g: GenM, fuel: nat)
    ensures
        handle_node(env, Node::Safe(ws, e), g, fuel) matches Ok(g1) ==> g1.pending.len() > 0 && (
        g1.pending.last() matches WritableM::Expr(_, s) && s),
        handle_node(env, Node::Expr(ws, e), g, fuel) matches Ok(g1) ==> g1.pending.len() > 0 && (
        g1.pending.last() matches WritableM::Expr(_, s) && (s <==> g1.m.wrapped)),
{
}

/// A name that a scope binds is written as it is, whatever helpers are open:
/// it is not taken for a field.
pub proof fn lemma_bound_verbatim(m: MachineM, on: Seq<On>, id: Seq<u8>)
    requires
        bound(m.scp, id),
        id != text("self"),
    ensures
        single(m, on, id) == Ok::<MachineM, Reason>(wrote(m, id)),
{
}

/// A name that no scope binds, and that is neither a constant nor `self` nor a
/// pseudo-variable of a loop, is written as a field: of the record where no
/// helper is open, and of what the innermost context frame names else.
pub proof fn lemma_unbound_is_field(m: MachineM, on: Seq<On>, id: Seq<u8>)
    requires
        !bound(m.scp, id),
        !is_const_name(id),
        id != text("self"),
        !is_each_var(id),
    ensures
        on.len() == 0 ==> single(m, on, id) == crate::machine::field_of(m, 0, id),
        on.len() > 0 ==> single(m, on, id) == crate::machine::field_of(
            m,
            crate::machine::scope_of(on.last()),
            id,
        ),
{
}

/// The names of the pseudo-variables are three different names.
proof fn lemma_index_names()
    ensures
        text("index") != text("index0"),
        text("first") != text("index0"),
        text("first") != text("index"),
{
    reveal_strlit("index0");
    reveal_strlit("index");
    reveal_strlit("first");
    vstd::string::is_ascii_spec_bytes("index0");
    vstd::string::is_ascii_spec_bytes("index");
    vstd::string::is_ascii_spec_bytes("first");
    assert("index0"@.len() == 6);
    assert("index"@.len() == 5);
    assert("first"@.len() == 5);
    assert(text("index0").len() == 6);
    assert(text("index").len() == 5);
    assert(text("first")[0] == 0x66);
    assert(text("index")[0] == 0x69);
}

/// The pseudo-variables of a loop are written over the loop's one counter:
/// `index0` is the counter, `index` the counter plus one, and `first` says
/// whether the counter is zero. The counter is the one that the head of an
/// indexed loop binds with `enumerate`.
pub proof fn lemma_loop_index(key: Seq<u8>, index: Seq<u8>, code: Seq<u8>)
    ensures
        each_text(text("index0"), key, index) == index,
        each_text(text("index"), key, index) == text("(") + each_text(text("index0"), key, index)
            + text(" + 1)"),
        each_text(text("first"), key, index) == text("(") + each_text(text("index0"), key, index)
            + text(" == 0)"),
        each_head(true, false, key, index, code) == text("for (") + index + text(", ") + key
            + text(") in (&") + code + text(").into_iter().enumerate() {"),
        each_head(true, true, key, index, code) == text("for (") + index + text(", ") + key + text(
            ") in (",
        ) + code + text(").enumerate() {"),
{
    lemma_index_names();
}

/// An `each` that is entered with `n` scopes opens the scope number `n`
/// for its body, as a context frame: it holds the key `_key_n` and, in an
/// indexed loop, the index `_index_n`, which are the names that the head of
/// the loop binds, by `enumerate` where the loop is indexed.
pub proof fn lemma_each_binds(g: GenM, indexed: bool, range: bool, code: Seq<u8>)
    ensures
        ({
            let n = g.m.scp.len();
            let h = g_each_begin(g, indexed, range, code);
            &&& h.m.scp.len() == n + 1
            &&& h.m.scp.drop_last() == g.m.scp
            &&& h.on.drop_last() == g.on
            &&& h.on.last() == On::Each(n as usize)
            &&& h.m.scp.last()[0] == key_name(n)
            &&& indexed ==> h.m.scp.last().len() == 2 && h.m.scp.last()[1] == index_name(n)
            &&& !indexed ==> h.m.scp.last().len() == 1
            &&& h.out == with_line(g.out, each_head(indexed, range, key_name(n), index_name(n), code))
        }),
{
    let n = g.m.scp.len();
    let h = g_each_begin(g, indexed, range, code);
    assert(h.m.scp.drop_last() =~= g.m.scp);
    assert(h.on.drop_last() =~= g.on);
}

/// In the frame that an indexed loop opens, with a key and an index, every
/// pseudo-variable can be written; all but `key` mark the fragment as
/// needing no escaping.
pub proof fn lemma_indexed_frame(m: MachineM, id: Seq<u8>, j: int)
    requires
        is_each_var(id),
        0 <= j < m.scp.len(),
        m.scp[j].len() >= 2,
    ensures
        each_var(m, id, j) is Ok,
        id != text("key") ==> each_var(m, id, j) == Ok::<MachineM, Reason>(
            wrote_safe(m, each_text(id, m.scp[j][0], m.scp[j][1])),
        ),
        id == text("key") ==> each_var(m, id, j) == Ok::<MachineM, Reason>(
            wrote(m, m.scp[j][0]),
        ),
{
}

/// A `let` is written as a statement of its own: whatever was pending is
/// written before it, and nothing is pending after it.
pub proof fn lemma_local_flushes(env: Env, s: Stmt, g: GenM, fuel: nat)
    ensures
        handle_node(env, Node::Local(s), g, fuel) matches Ok(g1) ==> g1.pending.len() == 0
            && g1.next_ws is None && g1.skip_ws,
{
}

/// A block is closed under the name that it was opened under: a closing tag
/// of another name, or of no name, refuses the template.
pub proof fn lemma_close_names(
    i: Seq<u8>,
    c: int,
    n1: int,
    n2: int,
    above: Ws,
    args: Seq<u8>,
    body: Seq<NodeM>,
)
    ensures
        crate::syntax::close_spec(i, c, n1, n2, above, args, body) matches crate::syntax::Step::Done(
            (d, node),
        ) ==> {
            let c1 = skip_ws(i, crate::syntax::opt_dash(i, c));
            &&& crate::syntax::identifier_spec(i, c1) matches Some(c2)
            &&& i.subrange(c1, c2) == i.subrange(n1, n2)
        },
{
}

/// The whitespace at the end of a literal is dropped by a tag that begins
/// with `-`, and written byte for byte by one that does not.
pub proof fn lemma_flush_ws(g: GenM, ws: Ws, v: Seq<u8>)
    requires
        g.next_ws == Some(v),
        v.len() > 0,
    ensures
        ws.0 ==> g_flush_ws(g, ws).pending == g.pending,
        !ws.0 ==> g_flush_ws(g, ws).pending == g.pending.push(WritableM::Lit(v)),
        g_flush_ws(g, ws).next_ws is None,
{
}

/// The whitespace at the start of a literal is dropped after a tag that ends
/// with `-`, and kept byte for byte after one that does not: written before
/// the literal's body, or held for the next tag where the literal has no body.
pub proof fn lemma_prepare_ws(g: GenM, ws: Ws, l: Seq<u8>, b: Seq<u8>)
    requires
        l.len() > 0,
    ensures
        ({
            let g1 = g_prepare_ws(g, ws);
            let g2 = g_lit(g1, l, b, Seq::empty());
            &&& ws.1 && b.len() > 0 ==> g2.pending == g.pending.push(WritableM::Lit(b))
            &&& ws.1 && b.len() == 0 ==> g2.pending == g.pending && g2.next_ws == g.next_ws
            &&& !ws.1 && b.len() > 0 ==> g2.pending == g.pending.push(WritableM::Lit(l)).push(
                WritableM::Lit(b),
            )
            &&& !ws.1 && b.len() == 0 ==> g2.pending == g.pending && g2.next_ws == Some(l)
        }),
{
}

} // verus!
