//! The whole way from a root template to generated code: gather the
//! templates, parse each, bind the fragments to their syntax trees, generate.
use vstd::prelude::*;
use crate::analysis::{Context, Env, Tree};
use crate::ast::{Expr, Stmt};
use crate::bind::{bind, bound_nodes};
use crate::config::Config;
use crate::derive::{generate, generate_spec, Struct};
use crate::loader::{
    acyclic, error_view, lemma_gathered_is_acyclic, load, load_spec, loaded_view, File,
    LoadError, LoadErrorM, Loaded,
};
use crate::lower::{dup, names_view, Reason};
use crate::node::{nodes_view, NodeM, TextNode};
use crate::parser::parse_bytes;
use crate::syntax::{parse_spec, ParseError};

verus! {

/// Why a template is not compiled.
#[derive(Debug, PartialEq)]
pub enum CompileError {
    /// The templates cannot be gathered.
    Load(LoadError),
    /// The template with this number among those gathered does not parse.
    Parse(usize, ParseError),
    /// No code can be generated.
    Generate(Reason),
}

/// The parser's refusal of a text, if it refuses it.
#[verifier::opaque]
pub open spec fn refusal(text: Seq<u8>) -> Option<ParseError> {
    match parse_spec(text) {
        Err(e) => Some(e),
        Ok(_) => None,
    }
}

/// The number and the refusal of the first template from the `k`-th on that
/// does not parse.
pub open spec fn first_refused(loaded: Loaded, k: int) -> Option<(int, ParseError)>
    decreases loaded.len() - k,
{
    if 0 <= k < loaded.len() {
        match refusal(loaded[k].1) {
            Some(e) => Some((k, e)),
            None => first_refused(loaded, k + 1),
        }
    } else {
        None
    }
}

/// Whether the trees are the nodes of the text with every fragment replaced
/// by what `f` and `g` make of it.
#[verifier::opaque]
pub open spec fn file_bound<F: Fn(&Vec<u8>) -> Expr, G: Fn(&Vec<u8>) -> Stmt>(
    text: Seq<u8>,
    trees: Seq<Tree>,
    f: F,
    g: G,
) -> bool {
    exists|nodes: Seq<TextNode>|
        parse_spec(text) == Ok::<Seq<NodeM>, ParseError>(#[trigger] nodes_view(nodes))
            && bound_nodes(nodes, trees, f, g)
}

/// Whether the context holds the gathered templates, in their order, each
/// parsed and bound.
pub open spec fn context_of<F: Fn(&Vec<u8>) -> Expr, G: Fn(&Vec<u8>) -> Stmt>(
    loaded: Loaded,
    ctx: Context,
    f: F,
    g: G,
) -> bool {
    &&& ctx.paths@.len() == loaded.len()
    &&& ctx.trees@.len() == loaded.len()
    &&& forall|k: int|
        0 <= k < loaded.len() ==> (#[trigger] ctx.paths@[k])@ == loaded[k].0 && file_bound(
            loaded[k].1,
            ctx.trees@[k]@,
            f,
            g,
        )
}

/// Whether the outcome is what compiling gives: the failure to gather the
/// templates if they cannot be gathered; else the first refusal of the
/// parser if a template does not parse; else what the generator makes of the
/// templates, parsed and bound.
pub open spec fn compiled<F: Fn(&Vec<u8>) -> Expr, G: Fn(&Vec<u8>) -> Stmt>(
    r: Result<Vec<u8>, CompileError>,
    config: Config,
    files: Seq<File>,
    root: File,
    html: bool,
    s: Struct,
    responder: bool,
    f: F,
    g: G,
) -> bool {
    match load_spec(names_view(config.dirs@), files, root.path@, root.text@) {
        Err(e) => r matches Err(CompileError::Load(x)) && error_view(x) == e,
        Ok(loaded) => match first_refused(loaded, 0) {
            Some((k, e)) => r == Err::<Vec<u8>, CompileError>(CompileError::Parse(k as usize, e)),
            None => exists|ctx: Context| #[trigger]
                context_of(loaded, ctx, f, g) && match generate_spec(
                    Env { html, config, ctx },
                    s,
                    root.path@,
                    responder,
                ) {
                    Ok(code) => r matches Ok(c) && c@ == code,
                    Err(e) => r == Err::<Vec<u8>, CompileError>(CompileError::Generate(e)),
                },
        },
    }
}

/// Code is made only of templates that include each other in no circle:
/// unless compiling fails to gather the templates, those that the root
/// reaches were gathered, and they can be numbered so that every partial
/// names one of a smaller number than the template that it stands in.
pub proof fn lemma_compiled_without_circles<F: Fn(&Vec<u8>) -> Expr, G: Fn(&Vec<u8>) -> Stmt>(
    r: Result<Vec<u8>, CompileError>,
    config: Config,
    files: Seq<File>,
    root: File,
    html: bool,
    s: Struct,
    responder: bool,
    f: F,
    g: G,
)
    requires
        compiled(r, config, files, root, html, s, responder, f, g),
        !(r matches Err(CompileError::Load(_))),
    ensures
        load_spec(names_view(config.dirs@), files, root.path@, root.text@) matches Ok(l)
            && acyclic(names_view(config.dirs@), files, l),
{
    lemma_gathered_is_acyclic(names_view(config.dirs@), files, root.path@, root.text@);
}

/// Parses one template and binds its fragments.
fn parse_file<F: Fn(&Vec<u8>) -> Expr, G: Fn(&Vec<u8>) -> Stmt>(file: &File, f: &F, g: &G) -> (r:
    Result<Vec<Tree>, ParseError>)
    requires
        forall|t: &Vec<u8>| f.requires((t,)),
        forall|t: &Vec<u8>| g.requires((t,)),
    ensures
        match r {
            Ok(trees) => refusal(file.text@) is None && file_bound(file.text@, trees@, *f, *g),
            Err(e) => refusal(file.text@) == Some(e),
        },
{
    proof {
        reveal(refusal);
    }
    let nodes = match parse_bytes(file.text.as_slice()) {
        Err(e) => {
            return Err(e);
        },
        Ok(nodes) => nodes,
    };
    let bound = bind(&nodes, f, g);
    proof {
        reveal(file_bound);
        assert(parse_spec(file.text@) == Ok::<Seq<NodeM>, ParseError>(nodes_view(nodes@)));
    }
    Ok(bound)
}

/// Compiles the template `root` for the record `s`: gathers the templates
/// that `root` reaches among `files`, parses them, has `f` and `g` make the
/// syntax trees of their fragments, and generates the code.
pub fn build_template<F: Fn(&Vec<u8>) -> Expr, G: Fn(&Vec<u8>) -> Stmt>(
    config: Config,
    files: &Vec<File>,
    root: File,
    html: bool,
    s: &Struct,
    responder: bool,
    f: &F,
    g: &G,
) -> (r: Result<Vec<u8>, CompileError>)
    requires
        forall|t: &Vec<u8>| f.requires((t,)),
        forall|t: &Vec<u8>| g.requires((t,)),
    ensures
        compiled(r, config, files@, root, html, *s, responder, *f, *g),
{
    let path = dup(&root.path);
    let loaded = match load(&config, files, root) {
        Err(e) => {
            return Err(CompileError::Load(e));
        },
        Ok(loaded) => loaded,
    };
    let mut paths: Vec<Vec<u8>> = Vec::new();
    let mut trees: Vec<Vec<Tree>> = Vec::new();
    let mut k: usize = 0;
    while k < loaded.len()
        invariant
            k <= loaded@.len(),
            paths@.len() == k,
            trees@.len() == k,
            load_spec(names_view(config.dirs@), files@, root.path@, root.text@) == Ok::<
                Loaded,
                LoadErrorM,
            >(loaded_view(loaded@)),
            forall|t: &Vec<u8>| f.requires((t,)),
            forall|t: &Vec<u8>| g.requires((t,)),
            first_refused(loaded_view(loaded@), k as int) == first_refused(
                loaded_view(loaded@),
                0,
            ),
            forall|j: int|
                0 <= j < k ==> (#[trigger] paths@[j])@ == loaded_view(loaded@)[j].0 && file_bound(
                    loaded_view(loaded@)[j].1,
                    trees@[j]@,
                    *f,
                    *g,
                ),
        decreases loaded@.len() - k,
    {
        let file = &loaded[k];
        let bound = match parse_file(file, f, g) {
            Err(e) => {
                return Err(CompileError::Parse(k, e));
            },
            Ok(bound) => bound,
        };
        paths.push(dup(&file.path));
        trees.push(bound);
        k += 1;
    }
    let env = Env { html, config, ctx: Context { paths, trees } };
    proof {
        assert(context_of(loaded_view(loaded@), env.ctx, *f, *g));
    }
    match generate(&env, s, &path, responder) {
        Ok(code) => Ok(code),
        Err(e) => Err(CompileError::Generate(e)),
    }
}

} // verus!
