//! Which loops need a counter: a pass over the body of an `each` that looks
//! for the pseudo-variables that stand for the loop's index.
use vstd::prelude::*;
use crate::ast::{Expr, Stmt};
use crate::bytes::same;
use crate::config::{append_extension, found, with_parent_extension, Config};
use crate::lower::{
    lower_expr, lower_stmt, names_view, ops_expr, ops_stmt, ops_view, text, Op, OpM, Reason,
};
use crate::node::{Helper, Node, Ws};

verus! {

broadcast use vstd::std_specs::vec::group_vec_axioms;

/// A template whose fragments are syntax trees.
pub type Tree = Node<Expr, Stmt>;

/// The parsed templates: the `k`-th path names the `k`-th list of nodes.
pub struct Context {
    pub paths: Vec<Vec<u8>>,
    pub trees: Vec<Vec<Tree>>,
}

/// What the generator works from.
pub struct Env {
    /// Whether the template escapes HTML.
    pub html: bool,
    /// The template directories.
    pub config: Config,
    /// The root template and every partial that it reaches.
    pub ctx: Context,
}

/// The first position of `p` among the paths.
pub open spec fn position(paths: Seq<Seq<u8>>, p: Seq<u8>, k: int) -> Option<int>
    decreases paths.len() - k,
{
    if 0 <= k < paths.len() {
        if paths[k] == p {
            Some(k)
        } else {
            position(paths, p, k + 1)
        }
    } else {
        None
    }
}

/// Which parsed template a partial named `name` in the file `on_path` is: the
/// first of its candidates that is among the parsed ones.
pub open spec fn resolved(env: Env, on_path: Seq<u8>, name: Seq<u8>) -> Option<int> {
    match found(
        names_view(env.config.dirs@),
        names_view(env.ctx.paths@),
        with_parent_extension(on_path, name),
        Some(on_path),
    ) {
        Some(p) => match position(names_view(env.ctx.paths@), p, 0) {
            Some(k) => if k < env.ctx.trees@.len() {
                Some(k)
            } else {
                None
            },
            None => None,
        },
        None => None,
    }
}

/// Finds the parsed template that a partial names.
pub fn resolve(env: &Env, on_path: &Vec<u8>, name: &Vec<u8>) -> (r: Option<usize>)
    ensures
        match r {
            Some(k) => resolved(*env, on_path@, name@) == Some(k as int) && k < env.ctx.paths@.len()
                && k < env.ctx.trees@.len(),
            None => resolved(*env, on_path@, name@) is None,
        },
{
    let file = append_extension(on_path.as_slice(), name.as_slice());
    let p = match env.config.find_template(
        file.as_slice(),
        Some(on_path.as_slice()),
        &env.ctx.paths,
    ) {
        Some(p) => p,
        None => {
            return None;
        },
    };
    let paths = &env.ctx.paths;
    let mut k: usize = 0;
    while k < paths.len()
        invariant
            k <= paths@.len(),
            paths@ == env.ctx.paths@,
            found(
                names_view(env.config.dirs@),
                names_view(env.ctx.paths@),
                with_parent_extension(on_path@, name@),
                Some(on_path@),
            ) == Some(p@),
            position(names_view(paths@), p@, k as int) == position(names_view(paths@), p@, 0),
        decreases paths@.len() - k,
    {
        proof {
            assert(names_view(paths@)[k as int] == paths@[k as int]@);
        }
        if same(paths[k].as_slice(), p.as_slice()) {
            if k < env.ctx.trees.len() {
                return Some(k);
            } else {
                return None;
            }
        }
        k += 1;
    }
    None
}

pub open spec fn is_digit(b: u8) -> bool {
    0x30 <= b <= 0x39
}

/// A name that stands for the index of a loop: `index`, `index0`, `first`,
/// `last`, or `_index_` and a digit and anything.
pub open spec fn is_loop_name(id: Seq<u8>) -> bool {
    id == text("index") || id == text("index0") || id == text("first") || id == text("last") || (
    id.len() > 7 && id.subrange(0, 7) == text("_index_") && is_digit(id[7]))
}

/// Whether an instruction writes a bare path that stands for a loop's index.
pub open spec fn names_index(op: OpM) -> bool {
    match op {
        OpM::Path { segments, text } => segments.len() == 1 && is_loop_name(segments[0]),
        _ => false,
    }
}

/// Whether an instruction from the `k`-th on names a loop's index.
pub open spec fn mentions(ops: Seq<OpM>, k: int) -> bool
    decreases ops.len() - k,
{
    if 0 <= k < ops.len() {
        names_index(ops[k]) || mentions(ops, k + 1)
    } else {
        false
    }
}

/// Whether a node from the `k`-th on names a loop's index.
pub open spec fn loop_var(env: Env, on_path: Seq<u8>, nodes: Seq<Tree>, k: int, fuel: nat)
    -> Result<bool, Reason>
    decreases fuel, nodes, nodes.len() - k,
{
    if 0 <= k < nodes.len() {
        match node_uses(env, on_path, nodes[k], fuel) {
            Ok(false) => loop_var(env, on_path, nodes, k + 1, fuel),
            x => x,
        }
    } else {
        Ok(false)
    }
}

/// Whether a branch of an `if` from the `k`-th on names a loop's index.
pub open spec fn branches_use(
    env: Env,
    on_path: Seq<u8>,
    branches: Seq<(Ws, Expr, Vec<Tree>)>,
    k: int,
    fuel: nat,
) -> Result<bool, Reason>
    decreases fuel, branches, branches.len() - k,
{
    if 0 <= k < branches.len() {
        if mentions(ops_expr(branches[k].1, Seq::empty()), 0) {
            Ok(true)
        } else {
            match loop_var(env, on_path, branches[k].2@, 0, fuel) {
                Ok(false) => branches_use(env, on_path, branches, k + 1, fuel),
                x => x,
            }
        }
    } else {
        Ok(false)
    }
}

/// Whether a node names a loop's index: in one of its fragments, in the body
/// of a helper, or in a partial that it includes. A partial is followed as the
/// generator follows it, and no further than `fuel` deep.
pub open spec fn node_uses(env: Env, on_path: Seq<u8>, n: Tree, fuel: nat) -> Result<bool, Reason>
    decreases fuel, n, 0int,
{
    match n {
        Node::Local(s) => Ok(mentions(ops_stmt(s, Seq::empty()), 0)),
        Node::Expr(_, e) => Ok(mentions(ops_expr(e, Seq::empty()), 0)),
        Node::Safe(_, e) => Ok(mentions(ops_expr(e, Seq::empty()), 0)),
        Node::Lit(_, _, _) => Ok(false),
        Node::Comment(_) => Ok(false),
        Node::Helper(h) => match h {
            Helper::Each(_, e, b) => if mentions(ops_expr(e, Seq::empty()), 0) {
                Ok(true)
            } else {
                loop_var(env, on_path, b@, 0, fuel)
            },
            Helper::With(_, e, b) => if mentions(ops_expr(e, Seq::empty()), 0) {
                Ok(true)
            } else {
                loop_var(env, on_path, b@, 0, fuel)
            },
            Helper::Unless(_, e, b) => if mentions(ops_expr(e, Seq::empty()), 0) {
                Ok(true)
            } else {
                loop_var(env, on_path, b@, 0, fuel)
            },
            Helper::Defined(_, _, e, b) => if mentions(ops_expr(e, Seq::empty()), 0) {
                Ok(true)
            } else {
                loop_var(env, on_path, b@, 0, fuel)
            },
            Helper::If(first, elifs, els) => if mentions(ops_expr(first.1, Seq::empty()), 0) {
                Ok(true)
            } else {
                match loop_var(env, on_path, first.2@, 0, fuel) {
                    Ok(false) => match branches_use(env, on_path, elifs@, 0, fuel) {
                        Ok(false) => match els {
                            Some(t) => loop_var(env, on_path, t.1@, 0, fuel),
                            None => Ok(false),
                        },
                        x => x,
                    },
                    x => x,
                }
            },
        },
        Node::Partial(_, name, _) => if fuel == 0 {
            Err(Reason::CircularPartial)
        } else {
            match resolved(env, on_path, name@) {
                None => Err(Reason::MissingPartial),
                Some(ix) => loop_var(
                    env,
                    env.ctx.paths@[ix]@,
                    env.ctx.trees@[ix]@,
                    0,
                    (fuel - 1) as nat,
                ),
            }
        },
    }
}

fn loop_name(id: &Vec<u8>) -> (r: bool)
    ensures
        r == is_loop_name(id@),
{
    if same(id.as_slice(), "index".as_bytes()) || same(id.as_slice(), "index0".as_bytes()) || same(
        id.as_slice(),
        "first".as_bytes(),
    ) || same(id.as_slice(), "last".as_bytes()) {
        return true;
    }
    if id.len() > 7 {
        let head = vstd::slice::slice_subrange(id.as_slice(), 0, 7);
        let d = id[7];
        same(head, "_index_".as_bytes()) && 0x30 <= d && d <= 0x39
    } else {
        false
    }
}

/// Whether a lowered fragment names a loop's index.
pub fn scan(ops: &Vec<Op>) -> (r: bool)
    ensures
        r == mentions(ops_view(ops@), 0),
{
    let mut k: usize = 0;
    while k < ops.len()
        invariant
            k <= ops@.len(),
            mentions(ops_view(ops@), k as int) == mentions(ops_view(ops@), 0),
        decreases ops@.len() - k,
    {
        match &ops[k] {
            Op::Path { segments, text } => {
                if segments.len() == 1 {
                    proof {
                        assert(names_view(segments@)[0] == segments@[0]@);
                    }
                    if loop_name(&segments[0]) {
                        return true;
                    }
                }
            },
            _ => {},
        }
        k += 1;
    }
    false
}

fn expr_mentions(e: &Expr) -> (r: bool)
    ensures
        r == mentions(ops_expr(*e, Seq::empty()), 0),
{
    let mut ops: Vec<Op> = Vec::new();
    proof {
        assert(ops_view(ops@) =~= Seq::<OpM>::empty());
    }
    lower_expr(e, &mut ops);
    scan(&ops)
}

fn stmt_mentions(s: &Stmt) -> (r: bool)
    ensures
        r == mentions(ops_stmt(*s, Seq::empty()), 0),
{
    let mut ops: Vec<Op> = Vec::new();
    proof {
        assert(ops_view(ops@) =~= Seq::<OpM>::empty());
    }
    lower_stmt(s, &mut ops);
    scan(&ops)
}

/// Whether the body of a loop names the loop's index anywhere: in one of its
/// own fragments, in a nested helper or in a partial. `path` is the file that
/// the body stands in; partials are followed at most `fuel` deep.
pub fn find_loop_var(env: &Env, path: &Vec<u8>, nodes: &Vec<Tree>, fuel: usize) -> (r: Result<
    bool,
    Reason,
>)
    ensures
        r == loop_var(*env, path@, nodes@, 0, fuel as nat),
    decreases fuel, nodes, 1int,
{
    let mut k: usize = 0;
    while k < nodes.len()
        invariant
            k <= nodes@.len(),
            loop_var(*env, path@, nodes@, k as int, fuel as nat) == loop_var(
                *env,
                path@,
                nodes@,
                0,
                fuel as nat,
            ),
        decreases nodes@.len() - k,
    {
        match find_in_node(env, path, &nodes[k], fuel) {
            Ok(false) => {},
            x => {
                return x;
            },
        }
        k += 1;
    }
    Ok(false)
}

/// The search for a loop's index in the nodes of one file.
pub struct FindEach<'a> {
    pub env: &'a Env,
    pub on_path: Vec<u8>,
}

impl<'a> FindEach<'a> {
    /// A search in the file at `on_path`.
    pub fn new(env: &'a Env, on_path: Vec<u8>) -> (r: FindEach<'a>)
        ensures
            r.env == env,
            r.on_path@ == on_path@,
    {
        FindEach { env, on_path }
    }

    /// Whether the nodes name a loop's index, followed through as many
    /// partials as there are templates.
    pub fn find(&self, nodes: &Vec<Tree>) -> (r: Result<bool, Reason>)
        ensures
            r == loop_var(*self.env, self.on_path@, nodes@, 0, self.env.ctx.paths@.len()),
    {
        find_loop_var(self.env, &self.on_path, nodes, self.env.ctx.paths.len())
    }
}

fn find_in_branches(
    env: &Env,
    path: &Vec<u8>,
    branches: &Vec<(Ws, Expr, Vec<Tree>)>,
    fuel: usize,
) -> (r: Result<bool, Reason>)
    ensures
        r == branches_use(*env, path@, branches@, 0, fuel as nat),
    decreases fuel, branches, 1int,
{
    let mut k: usize = 0;
    while k < branches.len()
        invariant
            k <= branches@.len(),
            branches_use(*env, path@, branches@, k as int, fuel as nat) == branches_use(
                *env,
                path@,
                branches@,
                0,
                fuel as nat,
            ),
        decreases branches@.len() - k,
    {
        let b = &branches[k];
        if expr_mentions(&b.1) {
            return Ok(true);
        }
        match find_loop_var(env, path, &b.2, fuel) {
            Ok(false) => {},
            x => {
                return x;
            },
        }
        k += 1;
    }
    Ok(false)
}

fn find_in_node(env: &Env, path: &Vec<u8>, n: &Tree, fuel: usize) -> (r: Result<bool, Reason>)
    ensures
        r == node_uses(*env, path@, *n, fuel as nat),
    decreases fuel, n, 1int,
{
    match n {
        Node::Local(s) => Ok(stmt_mentions(s)),
        Node::Expr(_, e) => Ok(expr_mentions(e)),
        Node::Safe(_, e) => Ok(expr_mentions(e)),
        Node::Lit(_, _, _) => Ok(false),
        Node::Comment(_) => Ok(false),
        Node::Helper(h) => match h {
            Helper::Each(_, e, b) => {
                if expr_mentions(e) {
                    Ok(true)
                } else {
                    find_loop_var(env, path, b, fuel)
                }
            },
            Helper::With(_, e, b) => {
                if expr_mentions(e) {
                    Ok(true)
                } else {
                    find_loop_var(env, path, b, fuel)
                }
            },
            Helper::Unless(_, e, b) => {
                if expr_mentions(e) {
                    Ok(true)
                } else {
                    find_loop_var(env, path, b, fuel)
                }
            },
            Helper::Defined(_, _, e, b) => {
                if expr_mentions(e) {
                    Ok(true)
                } else {
                    find_loop_var(env, path, b, fuel)
                }
            },
            Helper::If(first, elifs, els) => {
                if expr_mentions(&first.1) {
                    return Ok(true);
                }
                match find_loop_var(env, path, &first.2, fuel) {
                    Ok(false) => {},
                    x => {
                        return x;
                    },
                }
                match find_in_branches(env, path, elifs, fuel) {
                    Ok(false) => {},
                    x => {
                        return x;
                    },
                }
                match els {
                    Some(t) => find_loop_var(env, path, &t.1, fuel),
                    None => Ok(false),
                }
            },
        },
        Node::Partial(_, name, _) => {
            if fuel == 0 {
                return Err(Reason::CircularPartial);
            }
            match resolve(env, path, name) {
                None => Err(Reason::MissingPartial),
                Some(ix) => find_loop_var(env, &env.ctx.paths[ix], &env.ctx.trees[ix], fuel - 1),
            }
        },
    }
}

} // verus!
