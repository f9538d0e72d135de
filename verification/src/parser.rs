//! The template parser: template text in, node tree out.
use vstd::prelude::*;
use vstd::slice::slice_subrange;
use vstd::string::StringSliceAdditionalSpecFns;
use crate::bytes::{
    copy_range, find_from, find_seq_from, has_at, ident_part, ident_start, is_path,
    lemma_find_byte_bounds, lemma_skip_ws_bounds, same, skip_ws, skip_ws_from, starts_with_at,
    trim, trim_spec, BANG, CLOSE, DASH, GT, HASH, OPEN, SEMI, SLASH,
};
use crate::host::{expr_parses, host_expr_ok, host_stmt_ok, stmt_parses};
use crate::node::{
    branches_view, helper_view, lemma_branches_view_push, lemma_nodes_view_push, node_view,
    nodes_view, Helper, HelperM, Node, NodeM, TextNode, Ws,
};
use crate::syntax::{
    args_node, arguments_from, arguments_spec, block_of, body_of, byte_is, chain_spec, close2,
    close_spec, closes_at, comment_end, comment_spec, dashes, eat_from, eat_spec, else_at,
    helper_spec, identifier_spec, if_else_spec, kw_each, kw_else, kw_if, kw_let, kw_unless,
    kw_with, lit_of, long_comment_end, opt_dash, parse_spec, partial_node_spec, partial_spec,
    partials_from,
    skip_graphic, skip_ident, tag_from, tag_node_spec, tag_spec, with_semi, ErrorKind,
    ParseError, Step, Within,
};

verus! {

/// What a step of the parser stands for.
pub open spec fn step_view(r: Step<(usize, TextNode)>) -> Step<(int, NodeM)> {
    match r {
        Step::Done((c, n)) => Step::Done((c as int, node_view(n))),
        Step::Skip => Step::Skip,
        Step::Fail(e) => Step::Fail(e),
    }
}

/// What a step that read arguments stands for.
pub open spec fn args_view(r: Step<(usize, Vec<u8>, bool)>) -> Step<(int, Seq<u8>, bool)> {
    match r {
        Step::Done((c, t, w)) => Step::Done((c as int, t@, w)),
        Step::Skip => Step::Skip,
        Step::Fail(e) => Step::Fail(e),
    }
}

/// What a list of nodes with the position after it stands for.
pub open spec fn eaten_view(r: Result<(usize, Vec<TextNode>), ParseError>) -> Result<
    (int, Seq<NodeM>),
    ParseError,
> {
    match r {
        Ok((c, nodes)) => Ok((c as int, nodes_view(nodes@))),
        Err(e) => Err(e),
    }
}

fn word_else() -> (r: Vec<u8>)
    ensures
        r@ == kw_else(),
{
    vec![0x65u8, 0x6cu8, 0x73u8, 0x65u8]
}

fn word_if() -> (r: Vec<u8>)
    ensures
        r@ == kw_if(),
{
    vec![0x69u8, 0x66u8]
}

fn word_let() -> (r: Vec<u8>)
    ensures
        r@ == kw_let(),
{
    vec![0x6cu8, 0x65u8, 0x74u8, 0x20u8]
}

fn word_each() -> (r: Vec<u8>)
    ensures
        r@ == kw_each(),
{
    vec![0x65u8, 0x61u8, 0x63u8, 0x68u8]
}

fn word_with() -> (r: Vec<u8>)
    ensures
        r@ == kw_with(),
{
    vec![0x77u8, 0x69u8, 0x74u8, 0x68u8]
}

fn word_unless() -> (r: Vec<u8>)
    ensures
        r@ == kw_unless(),
{
    vec![0x75u8, 0x6eu8, 0x6cu8, 0x65u8, 0x73u8, 0x73u8]
}

fn word_close() -> (r: Vec<u8>)
    ensures
        r@ == close2(),
{
    vec![CLOSE, CLOSE]
}

/// Whether a `-` stands at `p`, and the position after it if one does.
fn dash(i: &[u8], p: usize) -> (r: (bool, usize))
    requires
        p <= i@.len(),
    ensures
        r.0 == byte_is(i@, p as int, DASH),
        r.1 == opt_dash(i@, p as int),
        p <= r.1 <= i@.len(),
{
    if p < i.len() && i[p] == DASH {
        (true, p + 1)
    } else {
        (false, p)
    }
}

fn skip_graphic_from(i: &[u8], p: usize) -> (q: usize)
    requires
        p <= i@.len(),
    ensures
        q == skip_graphic(i@, p as int),
        p <= q <= i@.len(),
{
    let mut k: usize = p;
    while k < i.len() && is_path(i[k])
        invariant
            p <= k <= i@.len(),
            skip_graphic(i@, k as int) == skip_graphic(i@, p as int),
        decreases i@.len() - k,
    {
        k += 1;
    }
    k
}

fn skip_ident_from(i: &[u8], p: usize) -> (q: usize)
    requires
        p <= i@.len(),
    ensures
        q == skip_ident(i@, p as int),
        p <= q <= i@.len(),
{
    let mut k: usize = p;
    while k < i.len() && ident_part(i[k])
        invariant
            p <= k <= i@.len(),
            skip_ident(i@, k as int) == skip_ident(i@, p as int),
        decreases i@.len() - k,
    {
        k += 1;
    }
    k
}

/// The end of the identifier that begins at `p`: a letter or `_`, then
/// letters, digits and `_`.
pub fn identifier(i: &[u8], p: usize) -> (r: Option<usize>)
    requires
        p <= i@.len(),
    ensures
        match r {
            Some(q) => identifier_spec(i@, p as int) == Some(q as int) && p < q <= i@.len(),
            None => identifier_spec(i@, p as int) is None,
        },
{
    if p < i.len() && ident_start(i[p]) {
        Some(skip_ident_from(i, p + 1))
    } else {
        None
    }
}

/// The text of `i[lo..hi]` without the whitespace around it.
fn body(i: &[u8], lo: usize, hi: usize) -> (r: Vec<u8>)
    requires
        lo <= hi <= i@.len(),
    ensures
        r@ == body_of(i@, lo as int, hi as int),
{
    let t = trim(slice_subrange(i, lo, hi));
    copy_range(t.1, 0, t.1.len())
}

/// Reads a comment from the position after `{{!`.
pub fn comment(i: &[u8], p: usize) -> (r: Step<(usize, TextNode)>)
    requires
        p <= i@.len(),
    ensures
        step_view(r) == comment_spec(i@, p as int),
        r matches Step::Done((c, _)) ==> p < c <= i@.len(),
{
    let n = i.len();
    let two: Vec<u8> = vec![DASH, DASH];
    let long: Vec<u8> = vec![DASH, DASH, BANG, CLOSE, CLOSE];
    let short: Vec<u8> = vec![BANG, CLOSE, CLOSE];
    if starts_with_at(i, p, two.as_slice()) {
        let a = find_seq_from(i, p + 2, long.as_slice());
        if a < n {
            return Step::Done((a + 5, Node::Comment(copy_range(i, p + 2, a))));
        }
    }
    let b = find_seq_from(i, p, short.as_slice());
    if b < n {
        Step::Done((b + 3, Node::Comment(copy_range(i, p, b))))
    } else {
        Step::Skip
    }
}

/// Reads a partial from the position after `{{>`.
pub fn partial(i: &[u8], p: usize) -> (r: Step<(usize, TextNode)>)
    requires
        p <= i@.len(),
    ensures
        step_view(r) == partial_spec(i@, p as int),
        r matches Step::Done((c, _)) ==> p < c <= i@.len(),
{
    let n = i.len();
    let (lws, at0) = dash(i, p);
    let at1 = skip_ws_from(i, at0);
    let at2 = skip_graphic_from(i, at1);
    if at2 == at1 {
        return Step::Skip;
    }
    let at3 = skip_ws_from(i, at2);
    let (rws, at4) = dash(i, at3);
    let end = word_close();
    if starts_with_at(i, at4, end.as_slice()) {
        let args: Vec<Vec<u8>> = Vec::new();
        proof {
            assert(crate::node::texts_view(args@) =~= Seq::<Seq<u8>>::empty());
        }
        return Step::Done((at4 + 2, Node::Partial((lws, rws), copy_range(i, at1, at2), args)));
    }
    let q = find_seq_from(i, at3, end.as_slice());
    if q >= n {
        return Step::Skip;
    }
    let rws = i[q - 1] == DASH;
    let arg = body(i, at3, if rws { q - 1 } else { q });
    let ok = expr_parses(arg.as_slice());
    partial_node((lws, rws), copy_range(i, at1, at2), arg, q + 2, ok)
}

/// The node of a partial with an argument, given the host parser's word on
/// the argument.
pub fn partial_node(ws: Ws, path: Vec<u8>, arg: Vec<u8>, next: usize, ok: bool) -> (r: Step<
    (usize, TextNode),
>)
    ensures
        step_view(r) == partial_node_spec(ws, path@, arg@, next as int, ok),
{
    if ok {
        let ghost a = arg@;
        let mut args: Vec<Vec<u8>> = Vec::new();
        args.push(arg);
        proof {
            assert(crate::node::texts_view(args@) =~= seq![a]);
        }
        Step::Done((next, Node::Partial(ws, path, args)))
    } else {
        Step::Skip
    }
}

/// What [`arguments`] returns for a text, given the host parser's word on it.
pub fn arguments_node(text: Vec<u8>, rws: bool, next: usize, lo: usize, hi: usize, ok: bool) -> (r:
    Step<(usize, Vec<u8>, bool)>)
    ensures
        args_view(r) == args_node(text@, rws, next as int, lo as int, hi as int, ok),
{
    if ok {
        Step::Done((next, text, rws))
    } else {
        Step::Fail(ParseError { kind: ErrorKind::BadExpression, start: lo, end: hi })
    }
}

/// Reads the arguments of a helper from `p` up to the first `}}`.
pub fn arguments(i: &[u8], p: usize) -> (r: Step<(usize, Vec<u8>, bool)>)
    requires
        p <= i@.len(),
    ensures
        args_view(r) == arguments_spec(i@, p as int),
        r matches Step::Done((c, _, _)) ==> p < c <= i@.len(),
{
    let n = i.len();
    let mut at: usize = p;
    loop
        invariant
            p <= at <= i@.len(),
            n == i@.len(),
            arguments_from(i@, p as int, at as int) == arguments_spec(i@, p as int),
        decreases i@.len() - at,
    {
        let q = find_from(i, at, CLOSE);
        if q >= n || q + 1 >= n {
            return Step::Skip;
        }
        if i[q + 1] != CLOSE {
            at = q + 2;
            continue ;
        }
        if q <= p {
            return Step::Fail(ParseError { kind: ErrorKind::BadArguments, start: p, end: p });
        }
        let rws = i[q - 1] == DASH;
        let e = if rws { q - 1 } else { q };
        let text = body(i, p, e);
        let ok = expr_parses(text.as_slice());
        return arguments_node(text, rws, q + 2, p, e, ok);
    }
}

/// The node of an expression tag with the given text, given the host parser's
/// word on the text as a statement and as an expression.
pub fn tag_node(
    text: Vec<u8>,
    ws: Ws,
    safe: bool,
    next: usize,
    lo: usize,
    hi: usize,
    stmt_ok: bool,
    expr_ok: bool,
) -> (r: Step<(usize, TextNode)>)
    ensures
        step_view(r) == tag_node_spec(
            text@,
            ws,
            safe,
            next as int,
            lo as int,
            hi as int,
            stmt_ok,
            expr_ok,
        ),
{
    let word = word_let();
    let is_let = starts_with_at(text.as_slice(), 0, word.as_slice());
    if is_let && stmt_ok {
        Step::Done((next, Node::Local(semi(text))))
    } else if expr_ok {
        if safe {
            Step::Done((next, Node::Safe(ws, text)))
        } else {
            Step::Done((next, Node::Expr(ws, text)))
        }
    } else if is_let {
        Step::Fail(ParseError { kind: ErrorKind::BadStatement, start: lo, end: hi })
    } else {
        Step::Fail(ParseError { kind: ErrorKind::BadExpression, start: lo, end: hi })
    }
}

/// The text with a `;` at its end.
fn semi(text: Vec<u8>) -> (r: Vec<u8>)
    ensures
        r@ == with_semi(text@),
{
    let mut text = text;
    let n = text.len();
    if n > 0 && text[n - 1] == SEMI {
        text
    } else {
        text.push(SEMI);
        text
    }
}

/// Reads an expression tag from the position after its opening braces: two
/// for an expression, three for a safe one.
fn tag(i: &[u8], p: usize, safe: bool) -> (r: Step<(usize, TextNode)>)
    requires
        p <= i@.len(),
    ensures
        step_view(r) == tag_spec(i@, p as int, safe),
        r matches Step::Done((c, _)) ==> p < c <= i@.len(),
{
    let n = i.len();
    let (lws, lo) = dash(i, p);
    let end = word_close();
    let mut at: usize = lo;
    loop
        invariant
            p <= at <= i@.len(),
            n == i@.len(),
            end@ == close2(),
            lws == byte_is(i@, p as int, DASH),
            lo == opt_dash(i@, p as int),
            tag_from(i@, p as int, at as int, safe) == tag_spec(i@, p as int, safe),
        decreases i@.len() - at,
    {
        let q = find_from(i, at, CLOSE);
        if q >= n || q + 1 >= n {
            return Step::Skip;
        }
        let closes = if safe {
            starts_with_at(i, q + 1, end.as_slice())
        } else {
            i[q + 1] == CLOSE
        };
        if !(closes && q > p) {
            at = q + 2;
            continue ;
        }
        let rws = i[q - 1] == DASH;
        let hi = if rws { q - 1 } else { q };
        if lo > hi {
            return Step::Skip;
        }
        let text = body(i, lo, hi);
        let word = word_let();
        let stmt_ok = if starts_with_at(text.as_slice(), 0, word.as_slice()) {
            let with = semi(copy_range(text.as_slice(), 0, text.len()));
            proof {
                assert(text@.subrange(0, text@.len() as int) =~= text@);
            }
            stmt_parses(with.as_slice())
        } else {
            false
        };
        let expr_ok = expr_parses(text.as_slice());
        let next = if safe { q + 3 } else { q + 2 };
        return tag_node(text, (lws, rws), safe, next, lo, hi, stmt_ok, expr_ok);
    }
}

/// Reads a safe expression from the position after `{{{`.
pub fn safe(i: &[u8], p: usize) -> (r: Step<(usize, TextNode)>)
    requires
        p <= i@.len(),
    ensures
        step_view(r) == tag_spec(i@, p as int, true),
        r matches Step::Done((c, _)) ==> p < c <= i@.len(),
{
    tag(i, p, true)
}

/// Reads an expression or a `let` from the position after `{{`.
pub fn expr(i: &[u8], p: usize) -> (r: Step<(usize, TextNode)>)
    requires
        p <= i@.len(),
    ensures
        step_view(r) == tag_spec(i@, p as int, false),
        r matches Step::Done((c, _)) ==> p < c <= i@.len(),
{
    tag(i, p, false)
}

/// Adds the literal `i[s..e]` to the nodes, if the range holds anything.
fn push_lit(nodes: &mut Vec<TextNode>, i: &[u8], s: usize, e: usize)
    requires
        e <= i@.len(),
    ensures
        nodes_view(final(nodes)@) == nodes_view(old(nodes)@) + lit_of(i@, s as int, e as int),
{
    if s < e {
        let t = trim(slice_subrange(i, s, e));
        let node: TextNode = Node::Lit(
            copy_range(t.0, 0, t.0.len()),
            copy_range(t.1, 0, t.1.len()),
            copy_range(t.2, 0, t.2.len()),
        );
        proof {
            lemma_nodes_view_push(nodes@, node);
            assert(t.0@.subrange(0, t.0@.len() as int) =~= t.0@);
            assert(t.1@.subrange(0, t.1@.len() as int) =~= t.1@);
            assert(t.2@.subrange(0, t.2@.len() as int) =~= t.2@);
            assert(nodes_view(nodes@).push(node_view(node)) =~= nodes_view(nodes@) + lit_of(
                i@,
                s as int,
                e as int,
            ));
        }
        nodes.push(node);
    } else {
        proof {
            assert(nodes_view(nodes@) + lit_of(i@, s as int, e as int) =~= nodes_view(nodes@));
        }
    }
}

/// The helper of the given name.
fn block(name: Vec<u8>, ws: (Ws, Ws), args: Vec<u8>, body: Vec<TextNode>) -> (r: Helper<
    Vec<u8>,
    Vec<u8>,
>)
    ensures
        helper_view(r) == block_of(name@, ws, args@, nodes_view(body@)),
{
    let each = word_each();
    let with = word_with();
    let unless = word_unless();
    if same(name.as_slice(), each.as_slice()) {
        Helper::Each(ws, args, body)
    } else if same(name.as_slice(), with.as_slice()) {
        Helper::With(ws, args, body)
    } else if same(name.as_slice(), unless.as_slice()) {
        Helper::Unless(ws, args, body)
    } else {
        Helper::Defined(ws, name, args, body)
    }
}

/// Reads the nodes from `p` on up to the end of the input or to the tag that
/// ends what they stand in: a closing tag, or in a branch of an `if` an
/// `else`. In the template itself a closing tag refuses the template.
fn eat_nodes(i: &[u8], p: usize, within: Within) -> (r: Result<(usize, Vec<TextNode>), ParseError>)
    requires
        p <= i@.len(),
    ensures
        eaten_view(r) == eat_spec(i@, p as int, within),
        r matches Ok((c, _)) ==> p <= c <= i@.len(),
    decreases i@.len() - p, 1int,
{
    let n = i.len();
    let mut nodes: Vec<TextNode> = Vec::new();
    let mut start: usize = p;
    let mut at: usize = p;
    let word = word_else();
    loop
        invariant
            p <= start <= at <= i@.len(),
            n == i@.len(),
            word@ == kw_else(),
            eat_from(i@, start as int, at as int, nodes_view(nodes@), within) == eat_spec(
                i@,
                p as int,
                within,
            ),
        decreases i@.len() - at,
    {
        let q = find_from(i, at, OPEN);
        if q >= n || n - q <= 2 {
            push_lit(&mut nodes, i, start, n);
            return Ok((n, nodes));
        }
        if i[q + 1] != OPEN {
            at = q + 2;
            continue ;
        }
        let k = i[q + 2];
        if k == SLASH {
            if within == Within::Template {
                return Err(
                    ParseError { kind: ErrorKind::UnexpectedClose, start: q + 3, end: q + 3 },
                );
            }
            push_lit(&mut nodes, i, start, q);
            return Ok((q + 3, nodes));
        }
        if k != OPEN && k != BANG && k != HASH && k != GT && within == Within::Branch {
            let (_, d) = dash(i, q + 2);
            let w = skip_ws_from(i, d);
            if starts_with_at(i, w, word.as_slice()) {
                push_lit(&mut nodes, i, start, q);
                return Ok((q + 2, nodes));
            }
        }
        let r = if k == OPEN {
            safe(i, q + 3)
        } else if k == BANG {
            comment(i, q + 3)
        } else if k == HASH {
            helper(i, q + 3)
        } else if k == GT {
            partial(i, q + 3)
        } else {
            expr(i, q + 2)
        };
        match r {
            Step::Done((c, node)) => {
                push_lit(&mut nodes, i, start, q);
                proof {
                    lemma_nodes_view_push(nodes@, node);
                }
                nodes.push(node);
                start = c;
                at = c;
            },
            Step::Skip => {
                at = q + 3;
            },
            Step::Fail(e) => {
                return Err(e);
            },
        }
    }
}

/// Reads the nodes of a block's body from `p` on: up to the end of the input
/// or to a closing tag. Gives the position after the `{{/`.
pub fn eat(i: &[u8], p: usize) -> (r: Result<(usize, Vec<TextNode>), ParseError>)
    requires
        p <= i@.len(),
    ensures
        eaten_view(r) == eat_spec(i@, p as int, Within::Block),
        r matches Ok((c, _)) ==> p <= c <= i@.len(),
    decreases i@.len() - p, 2int,
{
    eat_nodes(i, p, Within::Block)
}

/// Reads the nodes of a branch of an `if` from `p` on: as [`eat`], and an
/// `else` ends the branch too. Gives the position after the `{{` of the
/// `else`.
pub fn eat_if(i: &[u8], p: usize) -> (r: Result<(usize, Vec<TextNode>), ParseError>)
    requires
        p <= i@.len(),
    ensures
        eaten_view(r) == eat_spec(i@, p as int, Within::Branch),
        r matches Ok((c, _)) ==> p <= c <= i@.len(),
    decreases i@.len() - p, 2int,
{
    eat_nodes(i, p, Within::Branch)
}

/// Reads a block helper from the position after `{{#`.
pub fn helper(i: &[u8], p: usize) -> (r: Step<(usize, TextNode)>)
    requires
        p <= i@.len(),
    ensures
        step_view(r) == helper_spec(i@, p as int),
        r matches Step::Done((c, _)) ==> p < c <= i@.len(),
    decreases i@.len() - p, 5int,
{
    let (lws, at0) = dash(i, p);
    let at1 = skip_ws_from(i, at0);
    let at2 = match identifier(i, at1) {
        None => {
            return Step::Skip;
        },
        Some(at2) => at2,
    };
    let (at3, args, rws) = match arguments(i, at2) {
        Step::Skip => {
            return Step::Skip;
        },
        Step::Fail(e) => {
            return Step::Fail(e);
        },
        Step::Done(a) => a,
    };
    let word = word_if();
    if same(slice_subrange(i, at1, at2), word.as_slice()) {
        return if_else((lws, rws), i, at3, args);
    }
    match eat(i, at3) {
        Err(e) => Step::Fail(e),
        Ok((c, body)) => close(i, c, at1, at2, (lws, rws), args, body),
    }
}

/// Reads the closing tag of the block named by `i[n1..n2]` from the position
/// after its `{{/`, and makes the block's node.
fn close(
    i: &[u8],
    c: usize,
    n1: usize,
    n2: usize,
    above: Ws,
    args: Vec<u8>,
    body: Vec<TextNode>,
) -> (r: Step<(usize, TextNode)>)
    requires
        c <= i@.len(),
        n1 <= n2 <= i@.len(),
    ensures
        step_view(r) == close_spec(
            i@,
            c as int,
            n1 as int,
            n2 as int,
            above,
            args@,
            nodes_view(body@),
        ),
        r matches Step::Done((d, _)) ==> c < d <= i@.len(),
{
    let (lws, c0) = dash(i, c);
    let c1 = skip_ws_from(i, c0);
    let c2 = match identifier(i, c1) {
        None => {
            if c1 >= i.len() {
                return Step::Fail(
                    ParseError { kind: ErrorKind::UnclosedBlock, start: n1, end: n2 },
                );
            } else {
                return Step::Fail(
                    ParseError { kind: ErrorKind::BadIdentifier, start: c1, end: c1 },
                );
            }
        },
        Some(c2) => c2,
    };
    let c3 = skip_ws_from(i, c2);
    let (rws, c4) = dash(i, c3);
    let end = word_close();
    if !starts_with_at(i, c4, end.as_slice()) {
        return Step::Fail(ParseError { kind: ErrorKind::UnclosedBlock, start: n1, end: n2 });
    }
    if !same(slice_subrange(i, c1, c2), slice_subrange(i, n1, n2)) {
        return Step::Fail(ParseError { kind: ErrorKind::MismatchedClose, start: c1, end: c2 });
    }
    let name = copy_range(i, n1, n2);
    let n = i.len();
    proof {
        assert(c4 + 2 <= n);
    }
    Step::Done((c4 + 2, Node::Helper(block(name, (above, (lws, rws)), args, body))))
}

/// What the `else` branch of a chain stands for.
pub open spec fn tail_view(t: Option<(Ws, Vec<TextNode>)>) -> Option<(Ws, Seq<NodeM>)> {
    match t {
        Some(b) => Some((b.0, nodes_view(b.1@))),
        None => None,
    }
}

/// Reads an `if` block from the position after its opening tag, whose
/// whitespace control and condition are given.
pub fn if_else(above: Ws, i: &[u8], p: usize, args: Vec<u8>) -> (r: Step<(usize, TextNode)>)
    requires
        p <= i@.len(),
    ensures
        step_view(r) == if_else_spec(i@, p as int, above, args@),
        r matches Step::Done((c, _)) ==> p < c <= i@.len(),
    decreases i@.len() - p, 4int,
{
    let n = i.len();
    let (c, first) = match eat_if(i, p) {
        Err(e) => {
            return Step::Fail(e);
        },
        Ok(x) => x,
    };
    let mut elifs: Vec<(Ws, Vec<u8>, Vec<TextNode>)> = Vec::new();
    let mut tail: Option<(Ws, Vec<TextNode>)> = None;
    let (l, d) = dash(i, c);
    let mut lws = l;
    let mut at: usize = skip_ws_from(i, d);
    let welse = word_else();
    let wif = word_if();
    let end = word_close();
    loop
        invariant
            p <= at <= i@.len(),
            n == i@.len(),
            welse@ == kw_else(),
            wif@ == kw_if(),
            end@ == close2(),
            chain_spec(
                i@,
                at as int,
                lws,
                above,
                args@,
                nodes_view(first@),
                branches_view(elifs@),
                tail_view(tail),
            ) == if_else_spec(i@, p as int, above, args@),
        decreases i@.len() - at,
    {
        if starts_with_at(i, at, welse.as_slice()) {
            let j = skip_ws_from(i, at + 4);
            if starts_with_at(i, j, wif.as_slice()) {
                let (at3, cond, rws) = match arguments(i, j + 2) {
                    Step::Skip => {
                        return Step::Fail(
                            ParseError { kind: ErrorKind::MalformedIfChain, start: at, end: at },
                        );
                    },
                    Step::Fail(e) => {
                        return Step::Fail(e);
                    },
                    Step::Done(a) => a,
                };
                let (c, body) = match eat_if(i, at3) {
                    Err(e) => {
                        return Step::Fail(e);
                    },
                    Ok(x) => x,
                };
                proof {
                    lemma_branches_view_push(elifs@, ((lws, rws), cond, body));
                }
                elifs.push(((lws, rws), cond, body));
                let (l, d) = dash(i, c);
                lws = l;
                at = skip_ws_from(i, d);
            } else {
                let (rws, j2) = dash(i, j);
                if !starts_with_at(i, j2, end.as_slice()) {
                    return Step::Fail(
                        ParseError { kind: ErrorKind::MalformedIfChain, start: at, end: at },
                    );
                }
                let (c, body) = match eat(i, j2 + 2) {
                    Err(e) => {
                        return Step::Fail(e);
                    },
                    Ok(x) => x,
                };
                tail = Some(((lws, rws), body));
                let (l, d) = dash(i, c);
                lws = l;
                at = skip_ws_from(i, d);
            }
        } else if starts_with_at(i, at, wif.as_slice()) {
            let k = skip_ws_from(i, at + 2);
            let (rws, k2) = dash(i, k);
            if starts_with_at(i, k2, end.as_slice()) {
                return Step::Done(
                    (
                        k2 + 2,
                        Node::Helper(Helper::If(((above, (lws, rws)), args, first), elifs, tail)),
                    ),
                );
            } else {
                return Step::Fail(
                    ParseError { kind: ErrorKind::MalformedIfChain, start: at, end: at },
                );
            }
        } else if at >= n {
            return Step::Fail(ParseError { kind: ErrorKind::UnexpectedEof, start: at, end: at });
        } else {
            return Step::Fail(
                ParseError { kind: ErrorKind::MalformedIfChain, start: at, end: at },
            );
        }
    }
}

/// What the outcome of parsing a template stands for.
pub open spec fn parsed_view(r: Result<Vec<TextNode>, ParseError>) -> Result<
    Seq<NodeM>,
    ParseError,
> {
    match r {
        Ok(nodes) => Ok(nodes_view(nodes@)),
        Err(e) => Err(e),
    }
}

/// Parses a template given as bytes.
pub fn parse_bytes(src: &[u8]) -> (r: Result<Vec<TextNode>, ParseError>)
    ensures
        parsed_view(r) == parse_spec(src@),
{
    match eat_nodes(src, 0, Within::Template) {
        Err(e) => Err(e),
        Ok((c, nodes)) => Ok(nodes),
    }
}

/// Parses a template.
pub fn parse(src: &str) -> (r: Result<Vec<TextNode>, ParseError>)
    ensures
        parsed_view(r) == parse_spec(src.spec_bytes()),
{
    parse_bytes(src.as_bytes())
}

/// Finds the partials that a template names, without parsing the rest.
pub fn parse_partials(src: &[u8]) -> (r: Vec<TextNode>)
    ensures
        nodes_view(r@) == partials_from(src@, 0, Seq::empty()),
{
    let n = src.len();
    let mut nodes: Vec<TextNode> = Vec::new();
    let mut at: usize = 0;
    loop
        invariant
            at <= src@.len(),
            n == src@.len(),
            partials_from(src@, at as int, nodes_view(nodes@)) == partials_from(
                src@,
                0,
                Seq::empty(),
            ),
        decreases src@.len() - at,
    {
        let q = find_from(src, at, OPEN);
        if q >= n {
            return nodes;
        }
        if n - q > 2 && src[q + 1] == OPEN && src[q + 2] == GT {
            match partial(src, q + 3) {
                Step::Done((c, node)) => {
                    proof {
                        lemma_nodes_view_push(nodes@, node);
                    }
                    nodes.push(node);
                    at = c;
                },
                _ => {
                    at = q + 3;
                },
            }
        } else {
            at = q + 1;
        }
    }
}

} // verus!
