//! From the parser's tree to the generator's: every fragment's text is
//! replaced by its syntax tree, and nothing else changes.
//!
//! The syntax trees come from the host parser, which the library does not
//! read; the two functions that make them are handed in.
use vstd::prelude::*;
use crate::analysis::Tree;
use crate::ast::{Expr, Stmt};
use crate::lower::dup;
use crate::node::{Helper, Node, TextNode, Ws};

verus! {

broadcast use vstd::std_specs::vec::group_vec_axioms;

/// Whether `t` is `n` with every fragment replaced by what `f`, for an
/// expression, or `g`, for a statement, makes of its text.
pub open spec fn bound_node<F: Fn(&Vec<u8>) -> Expr, G: Fn(&Vec<u8>) -> Stmt>(
    n: TextNode,
    t: Tree,
    f: F,
    g: G,
) -> bool
    decreases n,
{
    match (n, t) {
        (Node::Local(s), Node::Local(h)) => g.ensures((&s,), h),
        (Node::Lit(l, b, r), Node::Lit(l2, b2, r2)) => l@ == l2@ && b@ == b2@ && r@ == r2@,
        (Node::Comment(c), Node::Comment(c2)) => c@ == c2@,
        (Node::Safe(ws, e), Node::Safe(ws2, h)) => ws == ws2 && f.ensures((&e,), h),
        (Node::Expr(ws, e), Node::Expr(ws2, h)) => ws == ws2 && f.ensures((&e,), h),
        (Node::Partial(ws, p, args), Node::Partial(ws2, q, hs)) => ws == ws2 && p@ == q@
            && bound_args(args@, hs@, f),
        (Node::Helper(a), Node::Helper(b)) => match (a, b) {
            (Helper::Each(ws, e, body), Helper::Each(ws2, h, body2)) => ws == ws2 && f.ensures(
                (&e,),
                h,
            ) && bound_nodes(body@, body2@, f, g),
            (Helper::With(ws, e, body), Helper::With(ws2, h, body2)) => ws == ws2 && f.ensures(
                (&e,),
                h,
            ) && bound_nodes(body@, body2@, f, g),
            (Helper::Unless(ws, e, body), Helper::Unless(ws2, h, body2)) => ws == ws2
                && f.ensures((&e,), h) && bound_nodes(body@, body2@, f, g),
            (Helper::Defined(ws, name, e, body), Helper::Defined(ws2, name2, h, body2)) => ws
                == ws2 && name@ == name2@ && f.ensures((&e,), h) && bound_nodes(
                body@,
                body2@,
                f,
                g,
            ),
            (Helper::If(first, elifs, els), Helper::If(first2, elifs2, els2)) => first.0
                == first2.0 && f.ensures((&first.1,), first2.1) && bound_nodes(
                first.2@,
                first2.2@,
                f,
                g,
            ) && bound_branches(elifs@, elifs2@, f, g) && match (els, els2) {
                (Some(x), Some(y)) => x.0 == y.0 && bound_nodes(x.1@, y.1@, f, g),
                (None, None) => true,
                _ => false,
            },
            _ => false,
        },
        _ => false,
    }
}

/// Whether the arguments of a partial are bound one by one.
pub open spec fn bound_args<F: Fn(&Vec<u8>) -> Expr>(args: Seq<Vec<u8>>, hs: Seq<Expr>, f: F)
    -> bool {
    args.len() == hs.len() && forall|k: int|
        0 <= k < args.len() ==> f.ensures((&#[trigger] args[k],), hs[k])
}

/// Whether the nodes are bound one by one.
pub open spec fn bound_nodes<F: Fn(&Vec<u8>) -> Expr, G: Fn(&Vec<u8>) -> Stmt>(
    ns: Seq<TextNode>,
    ts: Seq<Tree>,
    f: F,
    g: G,
) -> bool
    decreases ns,
{
    ns.len() == ts.len() && forall|k: int|
        0 <= k < ns.len() ==> bound_node(#[trigger] ns[k], ts[k], f, g)
}

/// Whether the `else if` branches are bound one by one.
pub open spec fn bound_branches<F: Fn(&Vec<u8>) -> Expr, G: Fn(&Vec<u8>) -> Stmt>(
    bs: Seq<(Ws, Vec<u8>, Vec<TextNode>)>,
    ts: Seq<(Ws, Expr, Vec<Tree>)>,
    f: F,
    g: G,
) -> bool
    decreases bs,
{
    bs.len() == ts.len() && forall|k: int|
        0 <= k < bs.len() ==> (#[trigger] bs[k]).0 == ts[k].0 && f.ensures((&bs[k].1,), ts[k].1)
            && bound_nodes(bs[k].2@, ts[k].2@, f, g)
}

/// Replaces every fragment of the nodes by its syntax tree: `f` makes the
/// tree of an expression from its text and `g` that of a statement.
pub fn bind<F: Fn(&Vec<u8>) -> Expr, G: Fn(&Vec<u8>) -> Stmt>(nodes: &Vec<TextNode>, f: &F, g: &G)
    -> (r: Vec<Tree>)
    requires
        forall|t: &Vec<u8>| f.requires((t,)),
        forall|t: &Vec<u8>| g.requires((t,)),
    ensures
        bound_nodes(nodes@, r@, *f, *g),
    decreases nodes, 1int,
{
    let mut r: Vec<Tree> = Vec::new();
    let mut k: usize = 0;
    while k < nodes.len()
        invariant
            k <= nodes@.len(),
            r@.len() == k,
            forall|t: &Vec<u8>| f.requires((t,)),
            forall|t: &Vec<u8>| g.requires((t,)),
            forall|j: int| 0 <= j < k ==> bound_node(#[trigger] nodes@[j], r@[j], *f, *g),
        decreases nodes@.len() - k,
    {
        let t = bind_node(&nodes[k], f, g);
        r.push(t);
        k += 1;
    }
    r
}

fn bind_args<F: Fn(&Vec<u8>) -> Expr>(args: &Vec<Vec<u8>>, f: &F) -> (r: Vec<Expr>)
    requires
        forall|t: &Vec<u8>| f.requires((t,)),
    ensures
        bound_args(args@, r@, *f),
{
    let mut r: Vec<Expr> = Vec::new();
    let mut k: usize = 0;
    while k < args.len()
        invariant
            k <= args@.len(),
            r@.len() == k,
            forall|t: &Vec<u8>| f.requires((t,)),
            forall|j: int| 0 <= j < k ==> f.ensures((&#[trigger] args@[j],), r@[j]),
        decreases args@.len() - k,
    {
        let e = f(&args[k]);
        r.push(e);
        k += 1;
    }
    r
}

fn bind_branches<F: Fn(&Vec<u8>) -> Expr, G: Fn(&Vec<u8>) -> Stmt>(
    bs: &Vec<(Ws, Vec<u8>, Vec<TextNode>)>,
    f: &F,
    g: &G,
) -> (r: Vec<(Ws, Expr, Vec<Tree>)>)
    requires
        forall|t: &Vec<u8>| f.requires((t,)),
        forall|t: &Vec<u8>| g.requires((t,)),
    ensures
        bound_branches(bs@, r@, *f, *g),
    decreases bs, 1int,
{
    let mut r: Vec<(Ws, Expr, Vec<Tree>)> = Vec::new();
    let mut k: usize = 0;
    while k < bs.len()
        invariant
            k <= bs@.len(),
            r@.len() == k,
            forall|t: &Vec<u8>| f.requires((t,)),
            forall|t: &Vec<u8>| g.requires((t,)),
            forall|j: int|
                0 <= j < k ==> (#[trigger] bs@[j]).0 == r@[j].0 && f.ensures(
                    (&bs@[j].1,),
                    r@[j].1,
                ) && bound_nodes(bs@[j].2@, r@[j].2@, *f, *g),
        decreases bs@.len() - k,
    {
        let b = &bs[k];
        let e = f(&b.1);
        let body = bind(&b.2, f, g);
        r.push((b.0, e, body));
        k += 1;
    }
    r
}

fn bind_node<F: Fn(&Vec<u8>) -> Expr, G: Fn(&Vec<u8>) -> Stmt>(n: &TextNode, f: &F, g: &G) -> (r:
    Tree)
    requires
        forall|t: &Vec<u8>| f.requires((t,)),
        forall|t: &Vec<u8>| g.requires((t,)),
    ensures
        bound_node(*n, r, *f, *g),
    decreases n, 0int,
{
    match n {
        Node::Local(s) => Node::Local(g(s)),
        Node::Lit(l, b, r) => Node::Lit(dup(l), dup(b), dup(r)),
        Node::Comment(c) => Node::Comment(dup(c)),
        Node::Safe(ws, e) => Node::Safe(*ws, f(e)),
        Node::Expr(ws, e) => Node::Expr(*ws, f(e)),
        Node::Partial(ws, p, args) => Node::Partial(*ws, dup(p), bind_args(args, f)),
        Node::Helper(h) => Node::Helper(
            match h {
                Helper::Each(ws, e, body) => Helper::Each(*ws, f(e), bind(body, f, g)),
                Helper::With(ws, e, body) => Helper::With(*ws, f(e), bind(body, f, g)),
                Helper::Unless(ws, e, body) => Helper::Unless(*ws, f(e), bind(body, f, g)),
                Helper::Defined(ws, name, e, body) => Helper::Defined(
                    *ws,
                    dup(name),
                    f(e),
                    bind(body, f, g),
                ),
                Helper::If(first, elifs, els) => Helper::If(
                    (first.0, f(&first.1), bind(&first.2, f, g)),
                    bind_branches(elifs, f, g),
                    match els {
                        Some(x) => Some((x.0, bind(&x.1, f, g))),
                        None => None,
                    },
                ),
            },
        ),
    }
}

} // verus!
