//! The grammar of templates, as functions on bytes.
//!
//! A tag opens with two braces. The byte after them decides what it is: a
//! third brace opens a safe expression, `!` a comment, `#` a block helper,
//! `>` a partial and `/` closes a block; anything else opens an expression or
//! a `let`. A `-` directly inside a delimiter suppresses the whitespace on that
//! side of the tag. Braces that open no well-formed tag are literal text.
//!
//! Every function here takes the whole input and a position in it, and gives
//! positions back.
use vstd::prelude::*;
use crate::bytes::{
    find_byte, find_seq, has_at, lemma_find_byte_bounds, lemma_skip_ws_bounds, is_graphic, is_ident_part, is_ident_start, skip_ws, trim_spec,
    BANG, CLOSE, DASH, GT, HASH, OPEN, SEMI, SLASH,
};
use crate::host::{host_expr_ok, host_stmt_ok};
use crate::node::{HelperM, NodeM, Ws};

verus! {

/// Why a template is refused.
#[derive(Debug, PartialEq, Eq, Clone, Copy, Structural)]
pub enum ErrorKind {
    /// The input ends inside an `if` block.
    UnexpectedEof,
    /// A block is not closed, or its closing tag is not well formed.
    UnclosedBlock,
    /// A block is closed under another name than it was opened.
    MismatchedClose,
    /// The host parser refuses an expression.
    BadExpression,
    /// The host parser refuses a `let`.
    BadStatement,
    /// A closing tag names nothing.
    BadIdentifier,
    /// A helper has no arguments.
    BadArguments,
    /// Neither `else` nor the end of the `if` follows a branch.
    MalformedIfChain,
    /// A closing tag stands outside any block.
    UnexpectedClose,
}

/// A refusal, with the span of input it speaks of: the block's name, the
/// fragment, or the place where something is missing.
#[derive(Debug, PartialEq, Eq, Clone, Copy, Structural)]
pub struct ParseError {
    pub kind: ErrorKind,
    pub start: usize,
    pub end: usize,
}

/// What the nodes that are being read stand in: the template itself, the
/// body of a block, or a branch of an `if`.
#[derive(Debug, PartialEq, Eq, Clone, Copy, Structural)]
pub enum Within {
    Template,
    Block,
    Branch,
}

/// How parsing one tag ended.
#[derive(Debug, PartialEq)]
pub enum Step<T> {
    /// A tag was read.
    Done(T),
    /// No well-formed tag stands here: the braces are literal text.
    Skip,
    /// The template is refused.
    Fail(ParseError),
}

pub open spec fn fail<T>(kind: ErrorKind, start: int, end: int) -> Step<T> {
    Step::Fail(ParseError { kind, start: start as usize, end: end as usize })
}

pub open spec fn kw_else() -> Seq<u8> {
    seq![0x65u8, 0x6cu8, 0x73u8, 0x65u8]
}

pub open spec fn kw_if() -> Seq<u8> {
    seq![0x69u8, 0x66u8]
}

pub open spec fn kw_let() -> Seq<u8> {
    seq![0x6cu8, 0x65u8, 0x74u8, 0x20u8]
}

pub open spec fn kw_each() -> Seq<u8> {
    seq![0x65u8, 0x61u8, 0x63u8, 0x68u8]
}

pub open spec fn kw_with() -> Seq<u8> {
    seq![0x77u8, 0x69u8, 0x74u8, 0x68u8]
}

pub open spec fn kw_unless() -> Seq<u8> {
    seq![0x75u8, 0x6eu8, 0x6cu8, 0x65u8, 0x73u8, 0x73u8]
}

/// `}}`
pub open spec fn close2() -> Seq<u8> {
    seq![CLOSE, CLOSE]
}

/// `!}}`
pub open spec fn comment_end() -> Seq<u8> {
    seq![BANG, CLOSE, CLOSE]
}

/// `--`
pub open spec fn dashes() -> Seq<u8> {
    seq![DASH, DASH]
}

/// `--!}}`
pub open spec fn long_comment_end() -> Seq<u8> {
    seq![DASH, DASH, BANG, CLOSE, CLOSE]
}

pub open spec fn byte_is(i: Seq<u8>, p: int, b: u8) -> bool {
    0 <= p < i.len() && i[p] == b
}

/// The position after a `-` at `p`, or `p` where none stands there.
pub open spec fn opt_dash(i: Seq<u8>, p: int) -> int {
    if byte_is(i, p, DASH) {
        p + 1
    } else {
        p
    }
}

/// The end of the run of path bytes that begins at `p`.
pub open spec fn skip_graphic(i: Seq<u8>, p: int) -> int
    decreases i.len() - p,
{
    if 0 <= p < i.len() && is_graphic(i[p]) {
        skip_graphic(i, p + 1)
    } else {
        p
    }
}

/// The end of the run of identifier bytes that begins at `p`.
pub open spec fn skip_ident(i: Seq<u8>, p: int) -> int
    decreases i.len() - p,
{
    if 0 <= p < i.len() && is_ident_part(i[p]) {
        skip_ident(i, p + 1)
    } else {
        p
    }
}

/// The end of the identifier that begins at `p`, if one does.
pub open spec fn identifier_spec(i: Seq<u8>, p: int) -> Option<int> {
    if 0 <= p < i.len() && is_ident_start(i[p]) {
        Some(skip_ident(i, p + 1))
    } else {
        None
    }
}

/// The bytes of `i[lo..hi]` without the whitespace around them.
pub open spec fn body_of(i: Seq<u8>, lo: int, hi: int) -> Seq<u8> {
    trim_spec(i.subrange(lo, hi)).1
}

/// A comment, from the position after `{{!`: either `-- text --!}}` or
/// `text !}}`.
pub open spec fn comment_spec(i: Seq<u8>, p: int) -> Step<(int, NodeM)> {
    let a = find_seq(i, p + 2, long_comment_end());
    let b = find_seq(i, p, comment_end());
    if has_at(i, p, dashes()) && a < i.len() {
        Step::Done((a + 5, NodeM::Comment(i.subrange(p + 2, a))))
    } else if b < i.len() {
        Step::Done((b + 3, NodeM::Comment(i.subrange(p, b))))
    } else {
        Step::Skip
    }
}

/// A partial, from the position after `{{>`: a path, then nothing or one
/// expression that becomes the partial's context.
pub open spec fn partial_spec(i: Seq<u8>, p: int) -> Step<(int, NodeM)> {
    let lws = byte_is(i, p, DASH);
    let at1 = skip_ws(i, opt_dash(i, p));
    let at2 = skip_graphic(i, at1);
    let at3 = skip_ws(i, at2);
    let q = find_seq(i, at3, close2());
    if at2 == at1 {
        Step::Skip
    } else if has_at(i, opt_dash(i, at3), close2()) {
        Step::Done(
            (
                opt_dash(i, at3) + 2,
                NodeM::Partial((lws, byte_is(i, at3, DASH)), i.subrange(at1, at2), Seq::empty()),
            ),
        )
    } else if q >= i.len() {
        Step::Skip
    } else {
        let rws = byte_is(i, q - 1, DASH);
        let arg = body_of(
            i,
            at3,
            if rws {
                q - 1
            } else {
                q
            },
        );
        partial_node_spec((lws, rws), i.subrange(at1, at2), arg, q + 2, host_expr_ok(arg))
    }
}

/// The node of a partial with an argument, once the host parser has said
/// whether the argument is an expression. One that is none leaves the tag as
/// literal text.
pub open spec fn partial_node_spec(ws: Ws, path: Seq<u8>, arg: Seq<u8>, next: int, ok: bool)
    -> Step<(int, NodeM)> {
    if ok {
        Step::Done((next, NodeM::Partial(ws, path, seq![arg])))
    } else {
        Step::Skip
    }
}

/// The arguments of a helper, from position `p` on: the text up to the first
/// `}}` found from `at` on, as one expression. Gives the position after the
/// `}}`, the expression and whether a `-` stands before the `}}`.
pub open spec fn arguments_from(i: Seq<u8>, p: int, at: int) -> Step<(int, Seq<u8>, bool)>
    decreases i.len() - at,
{
    let q = find_byte(i, at, CLOSE);
    if at < 0 || q + 1 >= i.len() {
        Step::Skip
    } else if i[q + 1] != CLOSE {
        proof {
            lemma_find_byte_bounds(i, at, CLOSE);
        }
        arguments_from(i, p, q + 2)
    } else if q <= p {
        fail(ErrorKind::BadArguments, p, p)
    } else {
        let rws = i[q - 1] == DASH;
        let e = if rws {
            q - 1
        } else {
            q
        };
        args_node(body_of(i, p, e), rws, q + 2, p, e, host_expr_ok(body_of(i, p, e)))
    }
}

/// What `arguments_from` gives once the host parser has said whether the text
/// is an expression.
pub open spec fn args_node(text: Seq<u8>, rws: bool, next: int, lo: int, hi: int, ok: bool) -> Step<
    (int, Seq<u8>, bool),
> {
    if ok {
        Step::Done((next, text, rws))
    } else {
        fail(ErrorKind::BadExpression, lo, hi)
    }
}

pub open spec fn arguments_spec(i: Seq<u8>, p: int) -> Step<(int, Seq<u8>, bool)> {
    arguments_from(i, p, p)
}

/// The text of a `let` as it is handed to the host parser: with a `;` at its
/// end.
pub open spec fn with_semi(text: Seq<u8>) -> Seq<u8> {
    if text.len() > 0 && text.last() == SEMI {
        text
    } else {
        text.push(SEMI)
    }
}

/// The node of an expression tag, once the host parser has said whether its
/// text is a statement and whether it is an expression. Text that begins with
/// `let ` is a statement first.
pub open spec fn tag_node_spec(
    text: Seq<u8>,
    ws: Ws,
    safe: bool,
    next: int,
    lo: int,
    hi: int,
    stmt_ok: bool,
    expr_ok: bool,
) -> Step<(int, NodeM)> {
    if has_at(text, 0, kw_let()) && stmt_ok {
        Step::Done((next, NodeM::Local(with_semi(text))))
    } else if expr_ok {
        Step::Done(
            (
                next,
                if safe {
                    NodeM::Safe(ws, text)
                } else {
                    NodeM::Expr(ws, text)
                },
            ),
        )
    } else if has_at(text, 0, kw_let()) {
        fail(ErrorKind::BadStatement, lo, hi)
    } else {
        fail(ErrorKind::BadExpression, lo, hi)
    }
}

/// Whether the tag that a `}` at `q` may end is ended there: by `}}` for an
/// expression, by `}}}` for a safe one.
pub open spec fn closes_at(i: Seq<u8>, q: int, safe: bool) -> bool {
    if safe {
        has_at(i, q + 1, close2())
    } else {
        byte_is(i, q + 1, CLOSE)
    }
}

/// An expression tag, from the position `p` after its opening braces,
/// searching for its end from `at` on.
pub open spec fn tag_from(i: Seq<u8>, p: int, at: int, safe: bool) -> Step<(int, NodeM)>
    decreases i.len() - at,
{
    let q = find_byte(i, at, CLOSE);
    if at < 0 || q + 1 >= i.len() {
        Step::Skip
    } else if !(closes_at(i, q, safe) && q > p) {
        proof {
            lemma_find_byte_bounds(i, at, CLOSE);
        }
        tag_from(i, p, q + 2, safe)
    } else {
        let lo = opt_dash(i, p);
        let rws = i[q - 1] == DASH;
        let hi = if rws {
            q - 1
        } else {
            q
        };
        let text = body_of(i, lo, hi);
        if lo > hi {
            Step::Skip
        } else {
            tag_node_spec(
                text,
                (byte_is(i, p, DASH), rws),
                safe,
                q + if safe {
                    3int
                } else {
                    2int
                },
                lo,
                hi,
                host_stmt_ok(with_semi(text)),
                host_expr_ok(text),
            )
        }
    }
}

/// Skipping a `-` and whitespace moves forward and stays in the input.
pub proof fn lemma_after_dash(i: Seq<u8>, c: int)
    requires
        0 <= c <= i.len(),
    ensures
        c <= opt_dash(i, c) <= skip_ws(i, opt_dash(i, c)) <= i.len(),
{
    lemma_skip_ws_bounds(i, opt_dash(i, c));
}

pub open spec fn tag_spec(i: Seq<u8>, p: int, safe: bool) -> Step<(int, NodeM)> {
    tag_from(i, p, opt_dash(i, p), safe)
}

/// The literal node for `i[s..e]`, if the range holds anything.
pub open spec fn lit_of(i: Seq<u8>, s: int, e: int) -> Seq<NodeM> {
    if 0 <= s < e <= i.len() {
        let t = trim_spec(i.subrange(s, e));
        seq![NodeM::Lit(t.0, t.1, t.2)]
    } else {
        Seq::empty()
    }
}

/// The helper of a given name.
pub open spec fn block_of(
    name: Seq<u8>,
    ws: (Ws, Ws),
    args: Seq<u8>,
    body: Seq<NodeM>,
) -> HelperM {
    if name == kw_each() {
        HelperM::Each(ws, args, body)
    } else if name == kw_with() {
        HelperM::With(ws, args, body)
    } else if name == kw_unless() {
        HelperM::Unless(ws, args, body)
    } else {
        HelperM::Defined(ws, name, args, body)
    }
}

/// Whether an `else` tag opens at `q`: `{{`, at most one `-`, whitespace,
/// `else`.
pub open spec fn else_at(i: Seq<u8>, q: int) -> bool {
    has_at(i, skip_ws(i, opt_dash(i, q + 2)), kw_else())
}

/// The nodes from `start` on, up to the end of the input or to the tag that
/// ends the block: a closing tag, or in a branch of an `if` an `else`. In the
/// template itself a closing tag closes nothing and refuses the template. `at` is where
/// the search for the next tag goes on and `acc` holds the nodes read before
/// `start`. Gives the position after the `{{/` of the closing tag, after the
/// `{{` of an `else`, or the end of the input.
pub open spec fn eat_from(i: Seq<u8>, start: int, at: int, acc: Seq<NodeM>, within: Within) -> Result<
    (int, Seq<NodeM>),
    ParseError,
>
    decreases i.len() - at, 0int,
{
    let q = find_byte(i, at, OPEN);
    proof {
        if 0 <= at <= i.len() {
            lemma_find_byte_bounds(i, at, OPEN);
        }
    }
    if at < 0 || q + 2 >= i.len() {
        Ok((i.len() as int, acc + lit_of(i, start, i.len() as int)))
    } else if i[q + 1] != OPEN {
        eat_from(i, start, q + 2, acc, within)
    } else if i[q + 2] == SLASH {
        if within == Within::Template {
            Err(
                ParseError {
                    kind: ErrorKind::UnexpectedClose,
                    start: (q + 3) as usize,
                    end: (q + 3) as usize,
                },
            )
        } else {
            Ok((q + 3, acc + lit_of(i, start, q)))
        }
    } else if i[q + 2] != OPEN && i[q + 2] != BANG && i[q + 2] != HASH && i[q + 2] != GT && within == Within::Branch
        && else_at(i, q) {
        Ok((q + 2, acc + lit_of(i, start, q)))
    } else {
        let r = if i[q + 2] == OPEN {
            tag_spec(i, q + 3, true)
        } else if i[q + 2] == BANG {
            comment_spec(i, q + 3)
        } else if i[q + 2] == HASH {
            helper_spec(i, q + 3)
        } else if i[q + 2] == GT {
            partial_spec(i, q + 3)
        } else {
            tag_spec(i, q + 2, false)
        };
        match r {
            // A tag ends after it begins, so the search always goes on further right.
            Step::Done((c, node)) => if q < c <= i.len() {
                eat_from(i, c, c, (acc + lit_of(i, start, q)).push(node), within)
            } else {
                Err(ParseError { kind: ErrorKind::UnexpectedEof, start: 0, end: 0 })
            },
            Step::Skip => eat_from(i, start, q + 3, acc, within),
            Step::Fail(e) => Err(e),
        }
    }
}

pub open spec fn eat_spec(i: Seq<u8>, p: int, within: Within) -> Result<(int, Seq<NodeM>), ParseError>
    decreases i.len() - p, 1int,
{
    eat_from(i, p, p, Seq::empty(), within)
}

/// A block helper, from the position after `{{#`.
pub open spec fn helper_spec(i: Seq<u8>, p: int) -> Step<(int, NodeM)>
    decreases i.len() - p, 4int,
{
    let lws = byte_is(i, p, DASH);
    let at1 = skip_ws(i, opt_dash(i, p));
    match identifier_spec(i, at1) {
        None => Step::Skip,
        Some(at2) => match arguments_spec(i, at2) {
            Step::Skip => Step::Skip,
            Step::Fail(e) => Step::Fail(e),
            Step::Done((at3, args, rws)) => if !(p < at3 <= i.len()) {
                Step::Skip
            } else if i.subrange(at1, at2) == kw_if() {
                if_else_spec(i, at3, (lws, rws), args)
            } else {
                match eat_spec(i, at3, Within::Block) {
                    Err(e) => Step::Fail(e),
                    Ok((c, body)) => close_spec(i, c, at1, at2, (lws, rws), args, body),
                }
            },
        },
    }
}

/// The closing tag of the block named by `i[n1..n2]`, from the position after
/// its `{{/`.
pub open spec fn close_spec(
    i: Seq<u8>,
    c: int,
    n1: int,
    n2: int,
    above: Ws,
    args: Seq<u8>,
    body: Seq<NodeM>,
) -> Step<(int, NodeM)> {
    let c1 = skip_ws(i, opt_dash(i, c));
    match identifier_spec(i, c1) {
        None => if c1 >= i.len() {
            fail(ErrorKind::UnclosedBlock, n1, n2)
        } else {
            fail(ErrorKind::BadIdentifier, c1, c1)
        },
        Some(c2) => {
            let c3 = skip_ws(i, c2);
            if !has_at(i, opt_dash(i, c3), close2()) {
                fail(ErrorKind::UnclosedBlock, n1, n2)
            } else if i.subrange(c1, c2) != i.subrange(n1, n2) {
                fail(ErrorKind::MismatchedClose, c1, c2)
            } else {
                Step::Done(
                    (
                        opt_dash(i, c3) + 2,
                        NodeM::Helper(
                            block_of(
                                i.subrange(n1, n2),
                                (above, (byte_is(i, c, DASH), byte_is(i, c3, DASH))),
                                args,
                                body,
                            ),
                        ),
                    ),
                )
            }
        },
    }
}

/// An `if` block, from the position after its opening tag.
pub open spec fn if_else_spec(i: Seq<u8>, p: int, above: Ws, args: Seq<u8>) -> Step<(int, NodeM)>
    decreases i.len() - p, 3int,
{
    match eat_spec(i, p, Within::Branch) {
        Err(e) => Step::Fail(e),
        Ok((c, first)) => if 0 <= p <= c <= i.len() {
            proof {
                lemma_after_dash(i, c);
            }
            chain_spec(
                i,
                skip_ws(i, opt_dash(i, c)),
                byte_is(i, c, DASH),
                above,
                args,
                first,
                Seq::empty(),
                None,
            )
        } else {
            Step::Skip
        },
    }
}

/// What follows a branch of an `if` block, from the name in the tag that ended
/// the branch: `else if`, `else`, or the `if` of the closing tag. `lws` says
/// whether that tag began with `-`.
pub open spec fn chain_spec(
    i: Seq<u8>,
    p: int,
    lws: bool,
    above: Ws,
    args: Seq<u8>,
    first: Seq<NodeM>,
    elifs: Seq<(Ws, Seq<u8>, Seq<NodeM>)>,
    tail: Option<(Ws, Seq<NodeM>)>,
) -> Step<(int, NodeM)>
    decreases i.len() - p, 2int,
{
    let j = skip_ws(i, p + 4);
    let k = skip_ws(i, p + 2);
    proof {
        if 0 <= p && p + 4 <= i.len() {
            lemma_skip_ws_bounds(i, p + 4);
        }
    }
    if has_at(i, p, kw_else()) && has_at(i, j, kw_if()) {
        match arguments_spec(i, j + 2) {
            Step::Skip => fail(ErrorKind::MalformedIfChain, p, p),
            Step::Fail(e) => Step::Fail(e),
            Step::Done((at3, cond, rws)) => if !(p < at3 <= i.len()) {
                Step::Skip
            } else {
                match eat_spec(i, at3, Within::Branch) {
                    Err(e) => Step::Fail(e),
                    Ok((c, body)) => if 0 <= at3 <= c <= i.len() {
                        proof {
                            lemma_after_dash(i, c);
                        }
                        chain_spec(
                            i,
                            skip_ws(i, opt_dash(i, c)),
                            byte_is(i, c, DASH),
                            above,
                            args,
                            first,
                            elifs.push(((lws, rws), cond, body)),
                            tail,
                        )
                    } else {
                        Step::Skip
                    },
                }
            },
        }
    } else if has_at(i, p, kw_else()) {
        if !has_at(i, opt_dash(i, j), close2()) {
            fail(ErrorKind::MalformedIfChain, p, p)
        } else {
            match eat_spec(i, opt_dash(i, j) + 2, Within::Block) {
                Err(e) => Step::Fail(e),
                Ok((c, body)) => if 0 <= p < c <= i.len() {
                    proof {
                        lemma_after_dash(i, c);
                    }
                    chain_spec(
                        i,
                        skip_ws(i, opt_dash(i, c)),
                        byte_is(i, c, DASH),
                        above,
                        args,
                        first,
                        elifs,
                        Some(((lws, byte_is(i, j, DASH)), body)),
                    )
                } else {
                    Step::Skip
                },
            }
        }
    } else if has_at(i, p, kw_if()) {
        if has_at(i, opt_dash(i, k), close2()) {
            Step::Done(
                (
                    opt_dash(i, k) + 2,
                    NodeM::Helper(
                        HelperM::If(((above, (lws, byte_is(i, k, DASH))), args, first), elifs, tail),
                    ),
                ),
            )
        } else {
            fail(ErrorKind::MalformedIfChain, p, p)
        }
    } else if p >= i.len() {
        fail(ErrorKind::UnexpectedEof, p, p)
    } else {
        fail(ErrorKind::MalformedIfChain, p, p)
    }
}

/// The nodes of a whole template. A closing tag that closes nothing refuses
/// the template, wherever it stands.
pub open spec fn parse_spec(i: Seq<u8>) -> Result<Seq<NodeM>, ParseError> {
    match eat_spec(i, 0, Within::Template) {
        Err(e) => Err(e),
        Ok((c, nodes)) => Ok(nodes),
    }
}

/// The partials that a template names, found without parsing the rest: from
/// `at` on, every `{{>` that opens a well-formed partial tag.
pub open spec fn partials_from(i: Seq<u8>, at: int, acc: Seq<NodeM>) -> Seq<NodeM>
    decreases i.len() - at,
{
    let q = find_byte(i, at, OPEN);
    proof {
        if 0 <= at <= i.len() {
            lemma_find_byte_bounds(i, at, OPEN);
        }
    }
    if at < 0 || q >= i.len() {
        acc
    } else if q + 2 < i.len() && i[q + 1] == OPEN && i[q + 2] == GT {
        match partial_spec(i, q + 3) {
            Step::Done((c, node)) => if q < c <= i.len() {
                partials_from(i, c, acc.push(node))
            } else {
                acc
            },
            _ => partials_from(i, q + 3, acc),
        }
    } else {
        partials_from(i, q + 1, acc)
    }
}

} // verus!
