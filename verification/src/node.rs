//! The parse tree of a template.
//!
//! A tree is generic in what it holds for an embedded host fragment: the
//! parser leaves the fragment's text there, the generator wants its syntax
//! tree.
use vstd::prelude::*;

verus! {

/// Whitespace control of one tag: whether it suppresses the whitespace before
/// it (first) and after it (second).
pub type Ws = (bool, bool);

/// One element of a template: `E` stands for an embedded expression, `S` for
/// an embedded statement.
#[derive(Debug, PartialEq)]
pub enum Node<E, S> {
    /// A `let` written in the template.
    Local(S),
    /// Literal text: leading whitespace, body, trailing whitespace.
    Lit(Vec<u8>, Vec<u8>, Vec<u8>),
    /// A comment; nothing is emitted for it.
    Comment(Vec<u8>),
    /// An expression written out as it is.
    Safe(Ws, E),
    /// An expression written out escaped, where the template escapes.
    Expr(Ws, E),
    /// A block helper.
    Helper(Helper<E, S>),
    /// The inclusion of another template, with at most one context argument.
    Partial(Ws, Vec<u8>, Vec<E>),
}

/// A block helper with its body. Each carries the whitespace control of its
/// opening and of its closing tag.
#[derive(Debug, PartialEq)]
pub enum Helper<E, S> {
    /// Iteration over a range or over an iterable.
    Each((Ws, Ws), E, Vec<Node<E, S>>),
    /// The first branch, the `else if` branches and the `else` branch.
    If(
        ((Ws, Ws), E, Vec<Node<E, S>>),
        Vec<(Ws, E, Vec<Node<E, S>>)>,
        Option<(Ws, Vec<Node<E, S>>)>,
    ),
    /// A body read against another context value.
    With((Ws, Ws), E, Vec<Node<E, S>>),
    /// A body guarded by the negation of a condition.
    Unless((Ws, Ws), E, Vec<Node<E, S>>),
    /// A helper of another name.
    Defined((Ws, Ws), Vec<u8>, E, Vec<Node<E, S>>),
}

/// A tree as the parser returns it: fragments are held as text.
pub type TextNode = Node<Vec<u8>, Vec<u8>>;

/// What a [`TextNode`] stands for.
pub enum NodeM {
    Local(Seq<u8>),
    Lit(Seq<u8>, Seq<u8>, Seq<u8>),
    Comment(Seq<u8>),
    Safe(Ws, Seq<u8>),
    Expr(Ws, Seq<u8>),
    Helper(HelperM),
    Partial(Ws, Seq<u8>, Seq<Seq<u8>>),
}

/// What a helper of text nodes stands for.
pub enum HelperM {
    Each((Ws, Ws), Seq<u8>, Seq<NodeM>),
    If(((Ws, Ws), Seq<u8>, Seq<NodeM>), Seq<(Ws, Seq<u8>, Seq<NodeM>)>, Option<(Ws, Seq<NodeM>)>),
    With((Ws, Ws), Seq<u8>, Seq<NodeM>),
    Unless((Ws, Ws), Seq<u8>, Seq<NodeM>),
    Defined((Ws, Ws), Seq<u8>, Seq<u8>, Seq<NodeM>),
}

pub open spec fn texts_view(v: Seq<Vec<u8>>) -> Seq<Seq<u8>> {
    Seq::new(v.len(), |k: int| v[k]@)
}

pub open spec fn node_view(n: TextNode) -> NodeM
    decreases n, 1int,
{
    match n {
        Node::Local(s) => NodeM::Local(s@),
        Node::Lit(l, b, r) => NodeM::Lit(l@, b@, r@),
        Node::Comment(c) => NodeM::Comment(c@),
        Node::Safe(ws, e) => NodeM::Safe(ws, e@),
        Node::Expr(ws, e) => NodeM::Expr(ws, e@),
        Node::Helper(h) => NodeM::Helper(helper_view(h)),
        Node::Partial(ws, p, args) => NodeM::Partial(ws, p@, texts_view(args@)),
    }
}

pub open spec fn helper_view(h: Helper<Vec<u8>, Vec<u8>>) -> HelperM
    decreases h, 1int,
{
    match h {
        Helper::Each(ws, e, b) => HelperM::Each(ws, e@, nodes_view(b@)),
        Helper::If(first, elifs, els) => HelperM::If(
            (first.0, first.1@, nodes_view(first.2@)),
            branches_view(elifs@),
            match els {
                Some(t) => Some((t.0, nodes_view(t.1@))),
                None => None,
            },
        ),
        Helper::With(ws, e, b) => HelperM::With(ws, e@, nodes_view(b@)),
        Helper::Unless(ws, e, b) => HelperM::Unless(ws, e@, nodes_view(b@)),
        Helper::Defined(ws, name, e, b) => HelperM::Defined(ws, name@, e@, nodes_view(b@)),
    }
}

pub open spec fn nodes_view(v: Seq<TextNode>) -> Seq<NodeM>
    decreases v, 0int,
{
    if v.len() == 0 {
        Seq::empty()
    } else {
        nodes_view(v.drop_last()).push(node_view(v.last()))
    }
}

pub open spec fn branches_view(v: Seq<(Ws, Vec<u8>, Vec<TextNode>)>) -> Seq<
    (Ws, Seq<u8>, Seq<NodeM>),
>
    decreases v, 0int,
{
    if v.len() == 0 {
        Seq::empty()
    } else {
        branches_view(v.drop_last()).push((v.last().0, v.last().1@, nodes_view(v.last().2@)))
    }
}

/// The view of a list is the list of the views.
pub proof fn lemma_nodes_view(v: Seq<TextNode>)
    ensures
        nodes_view(v).len() == v.len(),
        forall|k: int| 0 <= k < v.len() ==> nodes_view(v)[k] == node_view(#[trigger] v[k]),
    decreases v.len(),
{
    if v.len() > 0 {
        lemma_nodes_view(v.drop_last());
        assert forall|k: int| 0 <= k < v.len() implies nodes_view(v)[k] == node_view(
            #[trigger] v[k],
        ) by {
            if k < v.len() - 1 {
                assert(v.drop_last()[k] == v[k]);
            }
        }
    }
}

pub proof fn lemma_nodes_view_push(v: Seq<TextNode>, n: TextNode)
    ensures
        nodes_view(v.push(n)) == nodes_view(v).push(node_view(n)),
{
    assert(v.push(n).drop_last() =~= v);
}

pub proof fn lemma_branches_view_push(
    v: Seq<(Ws, Vec<u8>, Vec<TextNode>)>,
    b: (Ws, Vec<u8>, Vec<TextNode>),
)
    ensures
        branches_view(v.push(b)) == branches_view(v).push((b.0, b.1@, nodes_view(b.2@))),
{
    assert(v.push(b).drop_last() =~= v);
}

} // verus!
