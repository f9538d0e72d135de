//! Gathering the templates that a root template reaches through partials.
//!
//! The files that exist are given as a list of paths and texts. A partial is
//! looked for beside the file that names it first and then in the template
//! directories; inclusion in a circle is refused.
use vstd::prelude::*;
use crate::bytes::same;
use crate::config::{append_extension, found, with_parent_extension, Config};
use crate::lower::{dup, names_view};
use crate::node::{nodes_view, Node, NodeM, TextNode};
use crate::parser::parse_partials;
use crate::syntax::partials_from;

verus! {

/// A template file: its path and its text.
#[derive(Debug, PartialEq)]
pub struct File {
    pub path: Vec<u8>,
    pub text: Vec<u8>,
}

/// Why the templates cannot be gathered.
#[derive(Debug, PartialEq, Eq, Clone, Copy, Structural)]
pub enum LoadErrorKind {
    /// A partial is named that is neither beside the file that names it nor
    /// in a template directory.
    TemplateNotFound,
    /// A partial includes a file that is being included.
    Circular,
}

/// A failure to gather the templates: the file that names the partial and the
/// partial's name.
#[derive(Debug, PartialEq)]
pub struct LoadError {
    pub kind: LoadErrorKind,
    pub from: Vec<u8>,
    pub name: Vec<u8>,
}

pub type LoadErrorM = (LoadErrorKind, Seq<u8>, Seq<u8>);

pub type Loaded = Seq<(Seq<u8>, Seq<u8>)>;

pub open spec fn file_paths(files: Seq<File>) -> Seq<Seq<u8>> {
    Seq::new(files.len(), |k: int| files[k].path@)
}

pub open spec fn loaded_view(files: Seq<File>) -> Loaded {
    Seq::new(files.len(), |k: int| (files[k].path@, files[k].text@))
}

/// Whether a file of this path has been gathered.
pub open spec fn has_path(loaded: Loaded, p: Seq<u8>) -> bool {
    exists|k: int| 0 <= k < loaded.len() && (#[trigger] loaded[k]).0 == p
}

/// The text of the first file from the `k`-th on that has the path.
pub open spec fn text_of(files: Seq<File>, p: Seq<u8>, k: int) -> Option<Seq<u8>>
    decreases files.len() - k,
{
    if 0 <= k < files.len() {
        if files[k].path@ == p {
            Some(files[k].text@)
        } else {
            text_of(files, p, k + 1)
        }
    } else {
        None
    }
}

/// The name that a partial tag names.
pub open spec fn partial_name(n: NodeM) -> Seq<u8> {
    match n {
        NodeM::Partial(_, p, _) => p,
        _ => Seq::empty(),
    }
}

/// The names of the partials in a template's text, in the order of the text.
pub open spec fn partial_names(text: Seq<u8>) -> Seq<Seq<u8>> {
    let nodes = partials_from(text, 0, Seq::empty());
    Seq::new(nodes.len(), |k: int| partial_name(nodes[k]))
}

/// What has been gathered after the file at `path` with the given text, and
/// all that it reaches. `stack` holds the files that are being included, and
/// `loaded` what was gathered before. A file is gathered once.
pub open spec fn load_file_spec(
    dirs: Seq<Seq<u8>>,
    files: Seq<File>,
    path: Seq<u8>,
    text: Seq<u8>,
    stack: Seq<Seq<u8>>,
    loaded: Loaded,
    fuel: nat,
) -> Result<Loaded, LoadErrorM>
    decreases fuel, 0int,
{
    if has_path(loaded, path) {
        Ok(loaded)
    } else if fuel == 0 {
        Err((LoadErrorKind::Circular, path, Seq::empty()))
    } else {
        load_names_spec(
            dirs,
            files,
            path,
            partial_names(text),
            0,
            stack.push(path),
            loaded.push((path, text)),
            (fuel - 1) as nat,
        )
    }
}

/// What has been gathered after the partials of the file `from` from the
/// `k`-th on.
pub open spec fn load_names_spec(
    dirs: Seq<Seq<u8>>,
    files: Seq<File>,
    from: Seq<u8>,
    names: Seq<Seq<u8>>,
    k: int,
    stack: Seq<Seq<u8>>,
    loaded: Loaded,
    fuel: nat,
) -> Result<Loaded, LoadErrorM>
    decreases fuel, 1 + names.len() - k,
{
    if 0 <= k < names.len() {
        match found(dirs, file_paths(files), with_parent_extension(from, names[k]), Some(from)) {
            None => Err((LoadErrorKind::TemplateNotFound, from, names[k])),
            Some(p) => if stack.contains(p) {
                Err((LoadErrorKind::Circular, from, names[k]))
            } else {
                match text_of(files, p, 0) {
                    None => Err((LoadErrorKind::TemplateNotFound, from, names[k])),
                    Some(t) => match load_file_spec(
                        dirs,
                        files,
                        p,
                        t,
                        stack,
                        loaded,
                        fuel,
                    ) {
                        Err(e) => Err(e),
                        Ok(l) => load_names_spec(dirs, files, from, names, k + 1, stack, l, fuel),
                    },
                }
            },
        }
    } else {
        Ok(loaded)
    }
}

/// How deep inclusion can go without a circle: one more than there are
/// files, as far as that can be counted.
pub open spec fn load_fuel(n: nat) -> nat {
    if n < usize::MAX {
        n + 1
    } else {
        n
    }
}

/// The root template and all that it reaches, the root first.
pub open spec fn load_spec(dirs: Seq<Seq<u8>>, files: Seq<File>, path: Seq<u8>, text: Seq<u8>)
    -> Result<Loaded, LoadErrorM> {
    load_file_spec(
        dirs,
        files,
        path,
        text,
        Seq::empty(),
        Seq::empty(),
        load_fuel(files.len()),
    )
}

/// A file that has been gathered is not gathered again: including it once
/// more changes nothing.
pub proof fn lemma_load_again(
    dirs: Seq<Seq<u8>>,
    files: Seq<File>,
    path: Seq<u8>,
    text: Seq<u8>,
    stack: Seq<Seq<u8>>,
    loaded: Loaded,
    fuel: nat,
)
    requires
        has_path(loaded, path),
    ensures
        load_file_spec(dirs, files, path, text, stack, loaded, fuel) == Ok::<Loaded, LoadErrorM>(
            loaded,
        ),
{
}

/// A partial that names a file that is being included is refused.
pub proof fn lemma_circle_refused(
    dirs: Seq<Seq<u8>>,
    files: Seq<File>,
    from: Seq<u8>,
    names: Seq<Seq<u8>>,
    k: int,
    stack: Seq<Seq<u8>>,
    loaded: Loaded,
    fuel: nat,
    p: Seq<u8>,
)
    requires
        0 <= k < names.len(),
        found(dirs, file_paths(files), with_parent_extension(from, names[k]), Some(from)) == Some(
            p,
        ),
        stack.contains(p),
    ensures
        load_names_spec(dirs, files, from, names, k, stack, loaded, fuel) == Err::<
            Loaded,
            LoadErrorM,
        >((LoadErrorKind::Circular, from, names[k])),
{
}

/// A template that includes itself is refused, wherever the partial stands.
pub proof fn lemma_self_inclusion_refused(
    dirs: Seq<Seq<u8>>,
    files: Seq<File>,
    path: Seq<u8>,
    text: Seq<u8>,
)
    requires
        partial_names(text).len() > 0,
        found(
            dirs,
            file_paths(files),
            with_parent_extension(path, partial_names(text)[0]),
            Some(path),
        ) == Some(path),
    ensures
        load_spec(dirs, files, path, text) == Err::<Loaded, LoadErrorM>(
            (LoadErrorKind::Circular, path, partial_names(text)[0]),
        ),
{
    let stack = Seq::<Seq<u8>>::empty().push(path);
    assert(stack[0] == path);
    assert(stack.contains(path));
    assert(!has_path(Seq::empty(), path));
}

/// Two templates that include each other are refused: where the first
/// partial of the root names a file whose first partial names the root, the
/// second inclusion is the failure.
pub proof fn lemma_mutual_inclusion_refused(
    dirs: Seq<Seq<u8>>,
    files: Seq<File>,
    a: Seq<u8>,
    text: Seq<u8>,
    b: Seq<u8>,
)
    requires
        a != b,
        partial_names(text).len() > 0,
        found(dirs, file_paths(files), with_parent_extension(a, partial_names(text)[0]), Some(a))
            == Some(b),
        text_of(files, b, 0) matches Some(tb) && partial_names(tb).len() > 0 && found(
            dirs,
            file_paths(files),
            with_parent_extension(b, partial_names(tb)[0]),
            Some(b),
        ) == Some(a),
    ensures
        load_spec(dirs, files, a, text) == Err::<Loaded, LoadErrorM>(
            (LoadErrorKind::Circular, b, partial_names(text_of(files, b, 0)->0)[0]),
        ),
{
    let tb = text_of(files, b, 0)->0;
    let none = Seq::<(Seq<u8>, Seq<u8>)>::empty();
    let fuel = load_fuel(files.len());
    assert(files.len() > 0);
    assert(fuel >= 2);
    let s1 = Seq::<Seq<u8>>::empty().push(a);
    let l1 = none.push((a, text));
    assert(!has_path(none, a));
    assert(s1[0] == a);
    assert(!s1.contains(b)) by {
        if s1.contains(b) {
            let k = choose|k: int| 0 <= k < s1.len() && s1[k] == b;
            assert(s1[k] == a);
        }
    }
    assert(!has_path(l1, b)) by {
        if has_path(l1, b) {
            let k = choose|k: int| 0 <= k < l1.len() && (#[trigger] l1[k]).0 == b;
            assert(l1[k] == (a, text));
        }
    }
    let s2 = s1.push(b);
    let l2 = l1.push((b, tb));
    assert(s2[0] == a);
    assert(s2.contains(a));
    let f1 = (fuel - 1) as nat;
    let f2 = (fuel - 2) as nat;
    assert(load_names_spec(dirs, files, b, partial_names(tb), 0, s2, l2, f2) == Err::<
        Loaded,
        LoadErrorM,
    >((LoadErrorKind::Circular, b, partial_names(tb)[0])));
    assert(load_file_spec(dirs, files, b, tb, s1, l1, f1) == Err::<Loaded, LoadErrorM>(
        (LoadErrorKind::Circular, b, partial_names(tb)[0]),
    ));
    assert(load_names_spec(dirs, files, a, partial_names(text), 0, s1, l1, f1) == Err::<
        Loaded,
        LoadErrorM,
    >((LoadErrorKind::Circular, b, partial_names(tb)[0])));
}

/// The file that a partial named `name` in the file `from` is.
pub open spec fn target(dirs: Seq<Seq<u8>>, files: Seq<File>, from: Seq<u8>, name: Seq<u8>)
    -> Option<Seq<u8>> {
    found(dirs, file_paths(files), with_parent_extension(from, name), Some(from))
}

/// Whether every partial of the template at `p` with the text `t` names a
/// gathered template of a smaller number.
pub open spec fn ranked(
    dirs: Seq<Seq<u8>>,
    files: Seq<File>,
    l: Loaded,
    rank: Map<Seq<u8>, nat>,
    p: Seq<u8>,
    t: Seq<u8>,
) -> bool {
    &&& rank.dom().contains(p)
    &&& forall|k: int|
        0 <= k < partial_names(t).len() ==> edge_down(
            dirs,
            files,
            l,
            rank,
            p,
            #[trigger] partial_names(t)[k],
        )
}

/// Whether the partial `name` in the template at `p` names a gathered
/// template of a smaller number than `p` has.
pub open spec fn edge_down(
    dirs: Seq<Seq<u8>>,
    files: Seq<File>,
    l: Loaded,
    rank: Map<Seq<u8>, nat>,
    p: Seq<u8>,
    name: Seq<u8>,
) -> bool {
    target(dirs, files, p, name) matches Some(v) && has_path(l, v) && rank.dom().contains(v)
        && rank[v] < rank[p]
}

/// Whether the gathered templates include each other in no circle: they can
/// be numbered so that every partial names a template of a smaller number
/// than the template that it stands in.
pub open spec fn acyclic(dirs: Seq<Seq<u8>>, files: Seq<File>, l: Loaded) -> bool {
    exists|rank: Map<Seq<u8>, nat>| #[trigger] numbered(dirs, files, l, rank)
}

/// Whether `rank` numbers the gathered templates so that every partial
/// names a gathered template of a smaller number.
pub open spec fn numbered(
    dirs: Seq<Seq<u8>>,
    files: Seq<File>,
    l: Loaded,
    rank: Map<Seq<u8>, nat>,
) -> bool {
    forall|i: int| 0 <= i < l.len() ==> ranked(dirs, files, l, rank, (#[trigger] l[i]).0, l[i].1)
}

/// What holds while templates are gathered: no path is gathered twice; a
/// template that is not being included is done, and those that are done are
/// numbered below `c` so that each of their partials names one of a smaller
/// number.
pub open spec fn gathering(
    dirs: Seq<Seq<u8>>,
    files: Seq<File>,
    l: Loaded,
    stack: Seq<Seq<u8>>,
    rank: Map<Seq<u8>, nat>,
    c: nat,
) -> bool {
    &&& forall|i: int, j: int| 0 <= i < j < l.len() ==> (#[trigger] l[i]).0 != (#[trigger] l[j]).0
    &&& forall|i: int|
        0 <= i < l.len() ==> stack.contains((#[trigger] l[i]).0) || ranked(
            dirs,
            files,
            l,
            rank,
            l[i].0,
            l[i].1,
        )
    &&& forall|p: Seq<u8>| #[trigger]
        rank.dom().contains(p) ==> has_path(l, p) && !stack.contains(p) && rank[p] < c
}

/// Whether `l2` begins with `l`.
pub open spec fn begins(l: Loaded, l2: Loaded) -> bool {
    l.len() <= l2.len() && forall|i: int| 0 <= i < l.len() ==> #[trigger] l2[i] == l[i]
}

/// Whether `r2` numbers what `r` numbers, in the same way.
pub open spec fn extends(r: Map<Seq<u8>, nat>, r2: Map<Seq<u8>, nat>) -> bool {
    forall|p: Seq<u8>| #[trigger] r.dom().contains(p) ==> r2.dom().contains(p) && r2[p] == r[p]
}

proof fn lemma_has_path_begins(l: Loaded, l2: Loaded, p: Seq<u8>)
    requires
        begins(l, l2),
        has_path(l, p),
    ensures
        has_path(l2, p),
{
    let k = choose|k: int| 0 <= k < l.len() && (#[trigger] l[k]).0 == p;
    assert(l2[k] == l[k]);
}

proof fn lemma_ranked_grows(
    dirs: Seq<Seq<u8>>,
    files: Seq<File>,
    l: Loaded,
    rank: Map<Seq<u8>, nat>,
    l2: Loaded,
    rank2: Map<Seq<u8>, nat>,
    p: Seq<u8>,
    t: Seq<u8>,
)
    requires
        ranked(dirs, files, l, rank, p, t),
        begins(l, l2),
        extends(rank, rank2),
    ensures
        ranked(dirs, files, l2, rank2, p, t),
{
    assert forall|k: int| 0 <= k < partial_names(t).len() implies edge_down(
        dirs,
        files,
        l2,
        rank2,
        p,
        #[trigger] partial_names(t)[k],
    ) by {
        assert(edge_down(dirs, files, l, rank, p, partial_names(t)[k]));
        let v = target(dirs, files, p, partial_names(t)[k])->0;
        lemma_has_path_begins(l, l2, v);
    }
}

proof fn lemma_push_contains(s: Seq<Seq<u8>>, x: Seq<u8>, y: Seq<u8>)
    ensures
        s.push(x).contains(y) <==> (s.contains(y) || y == x),
{
    if s.contains(y) {
        let k = choose|k: int| 0 <= k < s.len() && s[k] == y;
        assert(s.push(x)[k] == y);
    }
    if y == x {
        assert(s.push(x)[s.len() as int] == y);
    }
    if s.push(x).contains(y) {
        let k = choose|k: int| 0 <= k < s.push(x).len() && s.push(x)[k] == y;
        if k < s.len() {
            assert(s[k] == y);
        }
    }
}

/// What gathering one template keeps and gains. Gives the numbering after it
/// and the bound of the numbers.
proof fn lemma_load_file(
    dirs: Seq<Seq<u8>>,
    files: Seq<File>,
    path: Seq<u8>,
    text: Seq<u8>,
    stack: Seq<Seq<u8>>,
    loaded: Loaded,
    fuel: nat,
    rank: Map<Seq<u8>, nat>,
    c: nat,
) -> (r: (Map<Seq<u8>, nat>, nat))
    requires
        gathering(dirs, files, loaded, stack, rank, c),
        !stack.contains(path),
    ensures
        load_file_spec(dirs, files, path, text, stack, loaded, fuel) matches Ok(l2) ==> begins(
            loaded,
            l2,
        ) && gathering(dirs, files, l2, stack, r.0, r.1) && extends(rank, r.0) && c <= r.1
            && r.0.dom().contains(path),
    decreases fuel, 0int,
{
    if has_path(loaded, path) {
        let k = choose|k: int| 0 <= k < loaded.len() && (#[trigger] loaded[k]).0 == path;
        assert(ranked(dirs, files, loaded, rank, loaded[k].0, loaded[k].1));
        (rank, c)
    } else if fuel == 0 {
        (rank, c)
    } else {
        let s1 = stack.push(path);
        let l1 = loaded.push((path, text));
        assert(begins(loaded, l1));
        assert(gathering(dirs, files, l1, s1, rank, c)) by {
            assert forall|i: int, j: int| 0 <= i < j < l1.len() implies (#[trigger] l1[i]).0 != (
            #[trigger] l1[j]).0 by {
                if j == loaded.len() {
                    assert(l1[i] == loaded[i]);
                } else {
                    assert(l1[i] == loaded[i]);
                    assert(l1[j] == loaded[j]);
                }
            }
            assert forall|i: int| 0 <= i < l1.len() implies s1.contains((#[trigger] l1[i]).0)
                || ranked(dirs, files, l1, rank, l1[i].0, l1[i].1) by {
                lemma_push_contains(stack, path, l1[i].0);
                if i < loaded.len() {
                    assert(l1[i] == loaded[i]);
                    if !stack.contains(loaded[i].0) {
                        lemma_ranked_grows(
                            dirs,
                            files,
                            loaded,
                            rank,
                            l1,
                            rank,
                            loaded[i].0,
                            loaded[i].1,
                        );
                    }
                }
            }
            assert forall|p: Seq<u8>| #[trigger] rank.dom().contains(p) implies has_path(l1, p)
                && !s1.contains(p) && rank[p] < c by {
                lemma_has_path_begins(loaded, l1, p);
                lemma_push_contains(stack, path, p);
            }
        }
        let names = partial_names(text);
        let r = lemma_load_names(
            dirs,
            files,
            path,
            names,
            0,
            s1,
            l1,
            (fuel - 1) as nat,
            rank,
            c,
        );
        match load_names_spec(dirs, files, path, names, 0, s1, l1, (fuel - 1) as nat) {
            Ok(l2) => {
                let rank3 = r.0.insert(path, r.1);
                let c3 = (r.1 + 1) as nat;
                assert(l2[loaded.len() as int] == (path, text));
                assert(has_path(l2, path));
                assert(!r.0.dom().contains(path)) by {
                    lemma_push_contains(stack, path, path);
                }
                assert(extends(r.0, rank3));
                assert(begins(loaded, l2));
                assert(ranked(dirs, files, l2, rank3, path, text)) by {
                    assert forall|k: int| 0 <= k < names.len() implies edge_down(
                        dirs,
                        files,
                        l2,
                        rank3,
                        path,
                        #[trigger] names[k],
                    ) by {
                        assert(seen(dirs, files, l2, r.0, r.1, path, names[k]));
                    }
                }
                assert(gathering(dirs, files, l2, stack, rank3, c3)) by {
                    assert forall|i: int| 0 <= i < l2.len() implies stack.contains(
                        (#[trigger] l2[i]).0,
                    ) || ranked(dirs, files, l2, rank3, l2[i].0, l2[i].1) by {
                        lemma_push_contains(stack, path, l2[i].0);
                        if l2[i].0 == path {
                            if i != loaded.len() {
                                if i < loaded.len() as int {
                                    assert(l2[i].0 != l2[loaded.len() as int].0);
                                } else {
                                    assert(l2[loaded.len() as int].0 != l2[i].0);
                                }
                            }
                        } else if !stack.contains(l2[i].0) {
                            lemma_ranked_grows(
                                dirs,
                                files,
                                l2,
                                r.0,
                                l2,
                                rank3,
                                l2[i].0,
                                l2[i].1,
                            );
                        }
                    }
                    assert forall|p: Seq<u8>| #[trigger] rank3.dom().contains(p) implies has_path(
                        l2,
                        p,
                    ) && !stack.contains(p) && rank3[p] < c3 by {
                        if p != path {
                            assert(r.0.dom().contains(p));
                            lemma_push_contains(stack, path, p);
                        }
                    }
                }
                assert(extends(rank, rank3));
                (rank3, c3)
            },
            Err(_) => (rank, c),
        }
    }
}

/// Whether the partial `name` of the template at `from`, which is being
/// included, has been followed: it names a template that is done.
pub open spec fn seen(
    dirs: Seq<Seq<u8>>,
    files: Seq<File>,
    l: Loaded,
    rank: Map<Seq<u8>, nat>,
    c: nat,
    from: Seq<u8>,
    name: Seq<u8>,
) -> bool {
    target(dirs, files, from, name) matches Some(v) && has_path(l, v) && rank.dom().contains(v)
        && rank[v] < c
}

/// What following the partials of one template keeps and gains.
proof fn lemma_load_names(
    dirs: Seq<Seq<u8>>,
    files: Seq<File>,
    from: Seq<u8>,
    names: Seq<Seq<u8>>,
    k: int,
    stack: Seq<Seq<u8>>,
    loaded: Loaded,
    fuel: nat,
    rank: Map<Seq<u8>, nat>,
    c: nat,
) -> (r: (Map<Seq<u8>, nat>, nat))
    requires
        0 <= k,
        gathering(dirs, files, loaded, stack, rank, c),
        forall|j: int| 0 <= j < k && j < names.len() ==> seen(dirs, files, loaded, rank, c, from, #[trigger] names[j]),
    ensures
        load_names_spec(dirs, files, from, names, k, stack, loaded, fuel) matches Ok(l2) ==> begins(
            loaded,
            l2,
        ) && gathering(dirs, files, l2, stack, r.0, r.1) && extends(rank, r.0) && c <= r.1
            && forall|j: int|
            0 <= j < names.len() ==> seen(dirs, files, l2, r.0, r.1, from, #[trigger] names[j]),
    decreases fuel, 1 + names.len() - k,
{
    if k < names.len() {
        match target(dirs, files, from, names[k]) {
            None => (rank, c),
            Some(p) => {
                if stack.contains(p) {
                    (rank, c)
                } else {
                    match text_of(files, p, 0) {
                        None => (rank, c),
                        Some(t) => {
                            let r1 = lemma_load_file(
                                dirs,
                                files,
                                p,
                                t,
                                stack,
                                loaded,
                                fuel,
                                rank,
                                c,
                            );
                            match load_file_spec(dirs, files, p, t, stack, loaded, fuel) {
                                Err(_) => (rank, c),
                                Ok(l1) => {
                                    assert forall|j: int|
                                        0 <= j < k + 1 && j < names.len() implies seen(
                                        dirs,
                                        files,
                                        l1,
                                        r1.0,
                                        r1.1,
                                        from,
                                        #[trigger] names[j],
                                    ) by {
                                        if j < k {
                                            assert(seen(
                                                dirs,
                                                files,
                                                loaded,
                                                rank,
                                                c,
                                                from,
                                                names[j],
                                            ));
                                            let v = target(dirs, files, from, names[j])->0;
                                            lemma_has_path_begins(loaded, l1, v);
                                        } else {
                                            assert(r1.0.dom().contains(p));
                                        }
                                    }
                                    let r2 = lemma_load_names(
                                        dirs,
                                        files,
                                        from,
                                        names,
                                        k + 1,
                                        stack,
                                        l1,
                                        fuel,
                                        r1.0,
                                        r1.1,
                                    );
                                    match load_names_spec(
                                        dirs,
                                        files,
                                        from,
                                        names,
                                        k + 1,
                                        stack,
                                        l1,
                                        fuel,
                                    ) {
                                        Ok(l2) => {
                                            assert(begins(loaded, l2));
                                            assert(extends(rank, r2.0));
                                        },
                                        Err(_) => {},
                                    }
                                    r2
                                },
                            }
                        },
                    }
                }
            },
        }
    } else {
        (rank, c)
    }
}

/// Templates that are gathered include each other in no circle: they can be
/// numbered so that every partial in one of them names one that is gathered
/// too and has a smaller number. A root template from which a circle of
/// partials can be reached is therefore refused, whatever the circle is.
pub proof fn lemma_gathered_is_acyclic(
    dirs: Seq<Seq<u8>>,
    files: Seq<File>,
    path: Seq<u8>,
    text: Seq<u8>,
)
    ensures
        load_spec(dirs, files, path, text) matches Ok(l) ==> acyclic(dirs, files, l),
{
    let none = Seq::<(Seq<u8>, Seq<u8>)>::empty();
    let stack = Seq::<Seq<u8>>::empty();
    let rank = Map::<Seq<u8>, nat>::empty();
    assert(gathering(dirs, files, none, stack, rank, 0));
    let r = lemma_load_file(
        dirs,
        files,
        path,
        text,
        stack,
        none,
        load_fuel(files.len()),
        rank,
        0,
    );
    match load_spec(dirs, files, path, text) {
        Ok(l) => {
            assert forall|i: int| 0 <= i < l.len() implies ranked(
                dirs,
                files,
                l,
                r.0,
                (#[trigger] l[i]).0,
                l[i].1,
            ) by {
                assert(!stack.contains(l[i].0));
            }
            assert(numbered(dirs, files, l, r.0));
        },
        Err(_) => {},
    }
}

fn in_loaded(loaded: &Vec<File>, p: &Vec<u8>) -> (r: bool)
    ensures
        r == has_path(loaded_view(loaded@), p@),
{
    let mut k: usize = 0;
    while k < loaded.len()
        invariant
            k <= loaded@.len(),
            forall|j: int| 0 <= j < k ==> (#[trigger] loaded_view(loaded@)[j]).0 != p@,
        decreases loaded@.len() - k,
    {
        if same(loaded[k].path.as_slice(), p.as_slice()) {
            proof {
                assert(loaded_view(loaded@)[k as int].0 == p@);
            }
            return true;
        }
        k += 1;
    }
    false
}

fn on_stack(stack: &Vec<Vec<u8>>, p: &Vec<u8>) -> (r: bool)
    ensures
        r == names_view(stack@).contains(p@),
{
    crate::config::is_file(stack, p.as_slice())
}

fn text_in(files: &Vec<File>, p: &Vec<u8>) -> (r: Option<Vec<u8>>)
    ensures
        match r {
            Some(t) => text_of(files@, p@, 0) == Some(t@),
            None => text_of(files@, p@, 0) is None,
        },
{
    let mut k: usize = 0;
    while k < files.len()
        invariant
            k <= files@.len(),
            text_of(files@, p@, k as int) == text_of(files@, p@, 0),
        decreases files@.len() - k,
    {
        if same(files[k].path.as_slice(), p.as_slice()) {
            return Some(dup(&files[k].text));
        }
        k += 1;
    }
    None
}

fn paths_of(files: &Vec<File>) -> (r: Vec<Vec<u8>>)
    ensures
        names_view(r@) == file_paths(files@),
{
    let mut r: Vec<Vec<u8>> = Vec::new();
    let mut k: usize = 0;
    while k < files.len()
        invariant
            k <= files@.len(),
            r@.len() == k,
            forall|j: int| 0 <= j < k ==> r@[j]@ == files@[j].path@,
        decreases files@.len() - k,
    {
        r.push(dup(&files[k].path));
        k += 1;
    }
    proof {
        assert(names_view(r@) =~= file_paths(files@));
    }
    r
}

fn names_in(text: &Vec<u8>) -> (r: Vec<Vec<u8>>)
    ensures
        names_view(r@) == partial_names(text@),
{
    let nodes = parse_partials(text.as_slice());
    let mut r: Vec<Vec<u8>> = Vec::new();
    let mut k: usize = 0;
    proof {
        crate::node::lemma_nodes_view(nodes@);
    }
    while k < nodes.len()
        invariant
            k <= nodes@.len(),
            r@.len() == k,
            nodes_view(nodes@) == partials_from(text@, 0, Seq::empty()),
            nodes_view(nodes@).len() == nodes@.len(),
            forall|j: int|
                0 <= j < nodes@.len() ==> nodes_view(nodes@)[j] == crate::node::node_view(
                    #[trigger] nodes@[j],
                ),
            forall|j: int| 0 <= j < k ==> r@[j]@ == partial_name(nodes_view(nodes@)[j]),
        decreases nodes@.len() - k,
    {
        match &nodes[k] {
            Node::Partial(_, p, _) => {
                r.push(dup(p));
            },
            _ => {
                r.push(Vec::new());
            },
        }
        k += 1;
    }
    proof {
        assert(names_view(r@) =~= partial_names(text@));
    }
    r
}

/// What a failure stands for.
pub open spec fn error_view(e: LoadError) -> LoadErrorM {
    (e.kind, e.from@, e.name@)
}

/// The outcome of gathering, as what it stands for.
pub open spec fn gathered(r: Result<(), LoadError>, loaded: Seq<File>) -> Result<
    Loaded,
    LoadErrorM,
> {
    match r {
        Ok(()) => Ok(loaded_view(loaded)),
        Err(e) => Err(error_view(e)),
    }
}

fn load_file(
    config: &Config,
    files: &Vec<File>,
    paths: &Vec<Vec<u8>>,
    path: Vec<u8>,
    text: Vec<u8>,
    stack: &mut Vec<Vec<u8>>,
    loaded: &mut Vec<File>,
    fuel: usize,
) -> (r: Result<(), LoadError>)
    requires
        names_view(paths@) == file_paths(files@),
    ensures
        gathered(r, final(loaded)@) == load_file_spec(
            names_view(config.dirs@),
            files@,
            path@,
            text@,
            names_view(old(stack)@),
            loaded_view(old(loaded)@),
            fuel as nat,
        ),
        r is Ok ==> names_view(final(stack)@) == names_view(old(stack)@),
    decreases fuel, 0int,
{
    if in_loaded(loaded, &path) {
        return Ok(());
    }
    if fuel == 0 {
        return Err(LoadError { kind: LoadErrorKind::Circular, from: path, name: Vec::new() });
    }
    let names = names_in(&text);
    let from = dup(&path);
    let ghost before = stack@;
    stack.push(dup(&path));
    loaded.push(File { path, text });
    proof {
        assert(names_view(stack@) =~= names_view(before).push(from@));
        assert(loaded_view(loaded@) =~= loaded_view(old(loaded)@).push((path@, text@)));
    }
    let r = load_names(config, files, paths, &from, &names, stack, loaded, fuel - 1);
    if r.is_ok() {
        let ghost during = stack@;
        stack.pop();
        proof {
            assert(names_view(stack@) =~= names_view(during).drop_last());
            assert(names_view(before).push(from@).drop_last() =~= names_view(before));
        }
    }
    r
}

fn load_names(
    config: &Config,
    files: &Vec<File>,
    paths: &Vec<Vec<u8>>,
    from: &Vec<u8>,
    names: &Vec<Vec<u8>>,
    stack: &mut Vec<Vec<u8>>,
    loaded: &mut Vec<File>,
    fuel: usize,
) -> (r: Result<(), LoadError>)
    requires
        names_view(paths@) == file_paths(files@),
    ensures
        gathered(r, final(loaded)@) == load_names_spec(
            names_view(config.dirs@),
            files@,
            from@,
            names_view(names@),
            0,
            names_view(old(stack)@),
            loaded_view(old(loaded)@),
            fuel as nat,
        ),
        r is Ok ==> names_view(final(stack)@) == names_view(old(stack)@),
    decreases fuel, 1 + names@.len(),
{
    let mut k: usize = 0;
    while k < names.len()
        invariant
            k <= names@.len(),
            names_view(paths@) == file_paths(files@),
            names_view(stack@) == names_view(old(stack)@),
            load_names_spec(
                names_view(config.dirs@),
                files@,
                from@,
                names_view(names@),
                k as int,
                names_view(stack@),
                loaded_view(loaded@),
                fuel as nat,
            ) == load_names_spec(
                names_view(config.dirs@),
                files@,
                from@,
                names_view(names@),
                0,
                names_view(old(stack)@),
                loaded_view(old(loaded)@),
                fuel as nat,
            ),
        decreases names@.len() - k,
    {
        proof {
            assert(names_view(names@)[k as int] == names@[k as int]@);
        }
        let file = append_extension(from.as_slice(), names[k].as_slice());
        let p = match config.find_template(file.as_slice(), Some(from.as_slice()), paths) {
            None => {
                return Err(
                    LoadError {
                        kind: LoadErrorKind::TemplateNotFound,
                        from: dup(from),
                        name: dup(&names[k]),
                    },
                );
            },
            Some(p) => p,
        };
        if on_stack(stack, &p) {
            return Err(
                LoadError { kind: LoadErrorKind::Circular, from: dup(from), name: dup(&names[k]) },
            );
        }
        let t = match text_in(files, &p) {
            None => {
                return Err(
                    LoadError {
                        kind: LoadErrorKind::TemplateNotFound,
                        from: dup(from),
                        name: dup(&names[k]),
                    },
                );
            },
            Some(t) => t,
        };
        match load_file(config, files, paths, p, t, stack, loaded, fuel) {
            Err(e) => {
                return Err(e);
            },
            Ok(()) => {},
        }
        k += 1;
    }
    Ok(())
}

/// The outcome of loading, as what it stands for.
pub open spec fn load_view(r: Result<Vec<File>, LoadError>) -> Result<Loaded, LoadErrorM> {
    match r {
        Ok(l) => Ok(loaded_view(l@)),
        Err(e) => Err(error_view(e)),
    }
}

/// Gathers the root template and every template that it reaches through
/// partials, each once and the root first. `files` are the template files
/// that exist; the text of each is taken as it is.
pub fn load(config: &Config, files: &Vec<File>, root: File) -> (r: Result<Vec<File>, LoadError>)
    ensures
        load_view(r) == load_spec(names_view(config.dirs@), files@, root.path@, root.text@),
{
    let paths = paths_of(files);
    let mut stack: Vec<Vec<u8>> = Vec::new();
    let mut loaded: Vec<File> = Vec::new();
    proof {
        assert(names_view(stack@) =~= Seq::<Seq<u8>>::empty());
        assert(loaded_view(loaded@) =~= Seq::<(Seq<u8>, Seq<u8>)>::empty());
    }
    let fuel = if files.len() < usize::MAX {
        files.len() + 1
    } else {
        files.len()
    };
    let File { path, text } = root;
    match load_file(config, files, &paths, path, text, &mut stack, &mut loaded, fuel) {
        Ok(()) => Ok(loaded),
        Err(e) => Err(e),
    }
}

} // verus!
