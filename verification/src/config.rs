//! Where templates are found: the configured directories, paths, and the
//! resolution of a partial's name against the file that includes it.
//!
//! A path is a byte string with `/` between its components. The files that
//! exist are a value: the list of their paths, or of their paths and texts.
use vstd::prelude::*;
use vstd::slice::slice_subrange;
use crate::bytes::{copy_range, same, SLASH};
use crate::lower::{dup, names_view};

verus! {

pub const DOT: u8 = 0x2e;

/// The template directories, in the order in which they are searched.
#[derive(Debug, PartialEq)]
pub struct Config {
    pub dirs: Vec<Vec<u8>>,
}

/// Where the last component of a path ends: before the `/` and the `/.`
/// that the path ends with, which name nothing.
pub open spec fn name_end(p: Seq<u8>, e: int) -> int
    decreases e,
{
    if e <= 0 || e > p.len() {
        0
    } else if p[e - 1] == SLASH {
        name_end(p, e - 1)
    } else if p[e - 1] == DOT && e >= 2 && p[e - 2] == SLASH {
        name_end(p, e - 2)
    } else {
        e
    }
}

/// Where the last component of a path begins: after the last `/` before `e`.
pub open spec fn name_start(p: Seq<u8>, e: int) -> int
    decreases e,
{
    if e <= 0 || e > p.len() {
        0
    } else if p[e - 1] == SLASH {
        e
    } else {
        name_start(p, e - 1)
    }
}

/// Whether `p[s..e]` is `.` or `..`.
pub open spec fn dots(p: Seq<u8>, s: int, e: int) -> bool {
    (e - s == 1 && p[s] == DOT) || (e - s == 2 && p[s] == DOT && p[s + 1] == DOT)
}

/// The file name of a path: where its last component begins and ends. A
/// path whose last component is empty, `.` or `..` has no file name.
pub open spec fn file_name(p: Seq<u8>) -> Option<(int, int)> {
    let e = name_end(p, p.len() as int);
    let s = name_start(p, e);
    if s >= e || dots(p, s, e) {
        None
    } else {
        Some((s, e))
    }
}

/// Where the last `.` before `e` stands that stands after position `lo`; `lo`
/// where there is none.
pub open spec fn last_dot(p: Seq<u8>, lo: int, e: int) -> int
    decreases e - lo,
{
    if e <= lo + 1 || e > p.len() {
        lo
    } else if p[e - 1] == DOT {
        e - 1
    } else {
        last_dot(p, lo, e - 1)
    }
}

/// The extension of a path: what follows the last `.` of its file name,
/// unless that `.` begins the name.
pub open spec fn extension(p: Seq<u8>) -> Option<Seq<u8>> {
    match file_name(p) {
        Some((s, e)) => if last_dot(p, s, e) > s {
            Some(p.subrange(last_dot(p, s, e) + 1, e))
        } else {
            None
        },
        None => None,
    }
}

/// The path with the extension of its file name set to `ext`: what follows
/// the file name's stem is cut off, and `.` and `ext` are put there unless
/// `ext` is empty. A path without a file name stays as it is.
pub open spec fn with_extension(p: Seq<u8>, ext: Seq<u8>) -> Seq<u8> {
    match file_name(p) {
        Some((s, e)) => {
            let stem = p.subrange(
                0,
                if last_dot(p, s, e) > s {
                    last_dot(p, s, e)
                } else {
                    e
                },
            );
            if ext.len() > 0 {
                stem + seq![DOT] + ext
            } else {
                stem
            }
        },
        None => p,
    }
}

/// The path `name` below the directory `dir`. A `name` that begins with `/`
/// stands for itself.
pub open spec fn joined(dir: Seq<u8>, name: Seq<u8>) -> Seq<u8> {
    if name.len() > 0 && name[0] == SLASH {
        name
    } else if dir.len() == 0 || dir.last() == SLASH {
        dir + name
    } else {
        dir + seq![SLASH] + name
    }
}

/// Where the directory of a file name that begins at `s` ends: before the
/// `/` and the `/.` that stand between the two, but after a `/` that the
/// path begins with.
pub open spec fn parent_end(p: Seq<u8>, s: int) -> int {
    if name_end(p, s) == 0 && s > 0 && p[0] == SLASH {
        1
    } else {
        name_end(p, s)
    }
}

/// The path with its file name replaced: `name` below the directory of the
/// file, or below the path itself where it has no file name.
pub open spec fn with_file_name(p: Seq<u8>, name: Seq<u8>) -> Seq<u8> {
    match file_name(p) {
        Some((s, e)) => joined(p.subrange(0, parent_end(p, s)), name),
        None => joined(p, name),
    }
}

/// The name of a partial with the extension of the file that includes it,
/// where the name has none and the file has one.
pub open spec fn with_parent_extension(parent: Seq<u8>, name: Seq<u8>) -> Seq<u8> {
    match (extension(name), extension(parent)) {
        (None, Some(e)) => with_extension(name, e),
        _ => name,
    }
}

/// Where a path's last component ends, no `/` and no `/.` stands before.
pub proof fn lemma_name_end(p: Seq<u8>, e: int)
    requires
        0 <= e <= p.len(),
    ensures
        0 <= name_end(p, e) <= e,
        name_end(p, e) > 0 ==> p[name_end(p, e) - 1] != SLASH && !(p[name_end(p, e) - 1] == DOT
            && name_end(p, e) >= 2 && p[name_end(p, e) - 2] == SLASH),
    decreases e,
{
    if e > 0 {
        if p[e - 1] == SLASH {
            lemma_name_end(p, e - 1);
        } else if p[e - 1] == DOT && e >= 2 && p[e - 2] == SLASH {
            lemma_name_end(p, e - 2);
        }
    }
}

/// A path's last component begins at the start or after a `/`, and holds no
/// `/`.
pub proof fn lemma_name_start(p: Seq<u8>, e: int)
    requires
        0 <= e <= p.len(),
    ensures
        0 <= name_start(p, e) <= e,
        name_start(p, e) > 0 ==> p[name_start(p, e) - 1] == SLASH,
        forall|k: int| name_start(p, e) <= k < e ==> p[k] != SLASH,
    decreases e,
{
    if e > 0 && p[e - 1] != SLASH {
        lemma_name_start(p, e - 1);
    }
}

/// The place that begins at the start or after a `/`, with no `/` from there
/// to `e`, is where the last component begins.
pub proof fn lemma_name_start_is(p: Seq<u8>, e: int, s: int)
    requires
        0 <= s <= e <= p.len(),
        s > 0 ==> p[s - 1] == SLASH,
        forall|k: int| s <= k < e ==> p[k] != SLASH,
    ensures
        name_start(p, e) == s,
    decreases e - s,
{
    if e > s {
        lemma_name_start_is(p, e - 1, s);
    }
}

/// After the last `.` no `.` stands, and where there is none, none stands
/// after `lo`.
pub proof fn lemma_last_dot(p: Seq<u8>, lo: int, e: int)
    requires
        0 <= lo <= e <= p.len(),
    ensures
        lo <= last_dot(p, lo, e),
        last_dot(p, lo, e) > lo ==> last_dot(p, lo, e) < e && p[last_dot(p, lo, e)] == DOT,
        forall|k: int| last_dot(p, lo, e) < k < e ==> p[k] != DOT,
    decreases e - lo,
{
    if e > lo + 1 && p[e - 1] != DOT {
        lemma_last_dot(p, lo, e - 1);
    }
}

/// The `.` after `lo` that no `.` follows is the last.
pub proof fn lemma_last_dot_is(p: Seq<u8>, lo: int, e: int, d: int)
    requires
        0 <= lo <= d < e <= p.len(),
        d > lo ==> p[d] == DOT,
        forall|k: int| d < k < e ==> p[k] != DOT,
    ensures
        last_dot(p, lo, e) == d,
    decreases e - d,
{
    if e > d + 1 {
        lemma_last_dot_is(p, lo, e - 1, d);
    }
}

/// A path given an extension has that extension, if it has a file name and
/// the extension is one: not empty, and without `/` and `.`.
pub proof fn lemma_with_extension(p: Seq<u8>, ext: Seq<u8>)
    requires
        file_name(p) is Some,
        ext.len() > 0,
        forall|k: int| 0 <= k < ext.len() ==> ext[k] != SLASH && ext[k] != DOT,
    ensures
        extension(with_extension(p, ext)) == Some(ext),
{
    let n = p.len() as int;
    let (s, e) = file_name(p)->0;
    lemma_name_end(p, n);
    lemma_name_start(p, e);
    lemma_last_dot(p, s, e);
    let d = last_dot(p, s, e);
    let t = if d > s {
        d
    } else {
        e
    };
    let r = with_extension(p, ext);
    let m = r.len() as int;
    assert(r == p.subrange(0, t) + seq![DOT] + ext);
    assert(m == t + 1 + ext.len());
    assert(forall|k: int| 0 <= k < t ==> r[k] == p[k]);
    assert(r[t] == DOT);
    assert(forall|k: int| 0 <= k < ext.len() ==> r[t + 1 + k] == ext[k]);
    assert(r[m - 1] == ext[ext.len() - 1]);
    assert(name_end(r, m) == m);
    assert forall|k: int| s <= k < m implies r[k] != SLASH by {
        if k > t {
            assert(r[k] == ext[k - t - 1]);
        }
    }
    lemma_name_start_is(r, m, s);
    assert(s < t);
    assert(!dots(r, s, m));
    assert forall|k: int| t < k < m implies r[k] != DOT by {
        assert(r[k] == ext[k - t - 1]);
    }
    lemma_last_dot_is(r, s, m, t);
    assert(r.subrange(t + 1, m) =~= ext);
}

/// A path from which the extension is taken has none, and taking it again
/// changes nothing.
pub proof fn lemma_without_extension(p: Seq<u8>)
    requires
        file_name(p) is Some,
        extension(p) is None,
    ensures
        with_extension(p, Seq::empty()) == p.subrange(0, name_end(p, p.len() as int)),
        with_extension(with_extension(p, Seq::empty()), Seq::empty()) == with_extension(
            p,
            Seq::empty(),
        ),
        extension(with_extension(p, Seq::empty())) is None,
{
    let n = p.len() as int;
    let (s, e) = file_name(p)->0;
    lemma_name_end(p, n);
    lemma_name_start(p, e);
    lemma_last_dot(p, s, e);
    let r = p.subrange(0, e);
    assert(forall|k: int| 0 <= k < e ==> r[k] == p[k]);
    assert(name_end(r, e) == e);
    lemma_name_start_is(r, e, s);
    assert(dots(r, s, e) == dots(p, s, e));
    lemma_last_dot_is(r, s, e, s);
    assert(r.subrange(0, e) =~= r);
}

/// What an extension holds: no `/` and no `.`.
pub proof fn lemma_extension_bytes(p: Seq<u8>)
    requires
        extension(p) is Some,
    ensures
        forall|k: int|
            0 <= k < extension(p)->0.len() ==> (#[trigger] extension(p)->0[k]) != SLASH
                && extension(p)->0[k] != DOT,
{
    let n = p.len() as int;
    let (s, e) = file_name(p)->0;
    lemma_name_end(p, n);
    lemma_name_start(p, e);
    lemma_last_dot(p, s, e);
    let d = last_dot(p, s, e);
    let x = p.subrange(d + 1, e);
    assert forall|k: int| 0 <= k < x.len() implies x[k] != SLASH && x[k] != DOT by {
        assert(x[k] == p[d + 1 + k]);
    }
}

/// Giving a name the extension of its parent a second time changes nothing.
pub proof fn lemma_append_extension_idempotent(parent: Seq<u8>, name: Seq<u8>)
    ensures
        with_parent_extension(parent, with_parent_extension(parent, name))
            == with_parent_extension(parent, name),
{
    match (extension(name), extension(parent)) {
        (None, Some(e)) => {
            if file_name(name) is Some {
                if e.len() > 0 {
                    lemma_extension_bytes(parent);
                    lemma_with_extension(name, e);
                } else {
                    lemma_without_extension(name);
                    assert(e =~= Seq::<u8>::empty());
                }
            }
        },
        _ => {},
    }
}

/// Whether `p` is one of the paths.
pub open spec fn exists_in(files: Seq<Seq<u8>>, p: Seq<u8>) -> bool {
    files.contains(p)
}

/// The first of the directories from the `k`-th on below which `path` exists,
/// joined with it.
pub open spec fn first_rooted(dirs: Seq<Seq<u8>>, k: int, files: Seq<Seq<u8>>, path: Seq<u8>)
    -> Option<Seq<u8>>
    decreases dirs.len() - k,
{
    if 0 <= k < dirs.len() {
        if exists_in(files, joined(dirs[k], path)) {
            Some(joined(dirs[k], path))
        } else {
            first_rooted(dirs, k + 1, files, path)
        }
    } else {
        None
    }
}

/// Where a template is found: beside the file `start_at` if it exists there,
/// else below the first directory that holds it.
pub open spec fn found(
    dirs: Seq<Seq<u8>>,
    files: Seq<Seq<u8>>,
    path: Seq<u8>,
    start_at: Option<Seq<u8>>,
) -> Option<Seq<u8>> {
    match start_at {
        Some(s) => if exists_in(files, with_file_name(s, path)) {
            Some(with_file_name(s, path))
        } else {
            first_rooted(dirs, 0, files, path)
        },
        None => first_rooted(dirs, 0, files, path),
    }
}

/// A template beside the including file is found before any in the
/// directories.
pub proof fn lemma_sibling_first(
    dirs: Seq<Seq<u8>>,
    files: Seq<Seq<u8>>,
    path: Seq<u8>,
    start: Seq<u8>,
)
    requires
        exists_in(files, with_file_name(start, path)),
    ensures
        found(dirs, files, path, Some(start)) == Some(with_file_name(start, path)),
{
}

/// What is found exists, and where nothing is found no candidate exists.
pub proof fn lemma_found_exists(
    dirs: Seq<Seq<u8>>,
    files: Seq<Seq<u8>>,
    path: Seq<u8>,
    start_at: Option<Seq<u8>>,
)
    ensures
        match found(dirs, files, path, start_at) {
            Some(p) => exists_in(files, p),
            None => (start_at matches Some(s) ==> !exists_in(files, with_file_name(s, path)))
                && forall|k: int|
                0 <= k < dirs.len() ==> !exists_in(files, #[trigger] joined(dirs[k], path)),
        },
{
    lemma_first_rooted(dirs, 0, files, path);
}

proof fn lemma_first_rooted(dirs: Seq<Seq<u8>>, k: int, files: Seq<Seq<u8>>, path: Seq<u8>)
    requires
        0 <= k,
    ensures
        match first_rooted(dirs, k, files, path) {
            Some(p) => exists_in(files, p),
            None => forall|j: int|
                k <= j < dirs.len() ==> !exists_in(files, #[trigger] joined(dirs[j], path)),
        },
    decreases dirs.len() - k,
{
    if k < dirs.len() {
        lemma_first_rooted(dirs, k + 1, files, path);
    }
}

fn name_end_of(p: &[u8], end: usize) -> (r: usize)
    requires
        end <= p@.len(),
    ensures
        r == name_end(p@, end as int),
        r <= end,
{
    let mut e: usize = end;
    loop
        invariant
            e <= end <= p@.len(),
            name_end(p@, e as int) == name_end(p@, end as int),
        decreases e,
    {
        if e == 0 {
            return 0;
        }
        if p[e - 1] == SLASH {
            e -= 1;
        } else if p[e - 1] == DOT && e >= 2 && p[e - 2] == SLASH {
            e -= 2;
        } else {
            return e;
        }
    }
}

fn name_start_of(p: &[u8], end: usize) -> (r: usize)
    requires
        end <= p@.len(),
    ensures
        r == name_start(p@, end as int),
        r <= end,
{
    let mut e: usize = end;
    while e > 0 && p[e - 1] != SLASH
        invariant
            e <= end <= p@.len(),
            name_start(p@, e as int) == name_start(p@, end as int),
        decreases e,
    {
        e -= 1;
    }
    e
}

/// Where the file name of a path begins and ends, if it has one.
pub fn file_name_of(p: &[u8]) -> (r: Option<(usize, usize)>)
    ensures
        match r {
            Some((s, e)) => file_name(p@) == Some((s as int, e as int)) && s < e <= p@.len(),
            None => file_name(p@) is None,
        },
{
    let e = name_end_of(p, p.len());
    let s = name_start_of(p, e);
    if s >= e {
        return None;
    }
    if (e - s == 1 && p[s] == DOT) || (e - s == 2 && p[s] == DOT && p[s + 1] == DOT) {
        return None;
    }
    Some((s, e))
}

fn last_dot_of(p: &[u8], lo: usize, end: usize) -> (r: usize)
    requires
        lo <= end <= p@.len(),
    ensures
        r == last_dot(p@, lo as int, end as int),
        lo <= r,
        r > lo ==> r < end,
{
    let mut e: usize = end;
    while e - lo > 1 && p[e - 1] != DOT
        invariant
            lo <= e <= end <= p@.len(),
            last_dot(p@, lo as int, e as int) == last_dot(p@, lo as int, end as int),
        decreases e,
    {
        e -= 1;
    }
    if e - lo > 1 {
        e - 1
    } else {
        lo
    }
}

/// The extension of a path, if it has one.
pub fn extension_of(p: &[u8]) -> (r: Option<Vec<u8>>)
    ensures
        match r {
            Some(e) => extension(p@) == Some(e@),
            None => extension(p@) is None,
        },
{
    match file_name_of(p) {
        Some((s, e)) => {
            let d = last_dot_of(p, s, e);
            if d > s {
                Some(copy_range(p, d + 1, e))
            } else {
                None
            }
        },
        None => None,
    }
}

/// The path with the extension of its file name set to `ext`.
pub fn set_extension(p: &[u8], ext: &[u8]) -> (r: Vec<u8>)
    ensures
        r@ == with_extension(p@, ext@),
{
    match file_name_of(p) {
        Some((s, e)) => {
            let d = last_dot_of(p, s, e);
            let mut r = copy_range(p, 0, if d > s { d } else { e });
            if ext.len() > 0 {
                r.push(DOT);
                r.extend_from_slice(ext);
            }
            proof {
                assert(r@ =~= with_extension(p@, ext@));
            }
            r
        },
        None => {
            proof {
                assert(p@.subrange(0, p@.len() as int) =~= p@);
            }
            copy_range(p, 0, p.len())
        },
    }
}

/// The path `name` below the directory `dir`.
pub fn join(dir: &[u8], name: &[u8]) -> (r: Vec<u8>)
    ensures
        r@ == joined(dir@, name@),
{
    if name.len() > 0 && name[0] == SLASH {
        proof {
            assert(name@.subrange(0, name@.len() as int) =~= name@);
        }
        return copy_range(name, 0, name.len());
    }
    let mut r = copy_range(dir, 0, dir.len());
    if dir.len() > 0 && dir[dir.len() - 1] != SLASH {
        r.push(SLASH);
    }
    r.extend_from_slice(name);
    proof {
        assert(dir@.subrange(0, dir@.len() as int) =~= dir@);
        assert(r@ =~= joined(dir@, name@));
    }
    r
}

/// The path with its file name replaced by `name`.
pub fn sibling(p: &[u8], name: &[u8]) -> (r: Vec<u8>)
    ensures
        r@ == with_file_name(p@, name@),
{
    match file_name_of(p) {
        Some((s, e)) => {
            let d = name_end_of(p, s);
            if d == 0 && s > 0 && p[0] == SLASH {
                join(slice_subrange(p, 0, 1), name)
            } else {
                join(slice_subrange(p, 0, d), name)
            }
        },
        None => join(p, name),
    }
}

/// The name of a partial as a file's name: with the extension of the
/// including file, where the name has none. Doing so twice is doing so once
/// (`lemma_append_extension_idempotent`).
pub fn append_extension(parent: &[u8], path: &[u8]) -> (r: Vec<u8>)
    ensures
        r@ == with_parent_extension(parent@, path@),
{
    if extension_of(path).is_some() {
        proof {
            assert(path@.subrange(0, path@.len() as int) =~= path@);
        }
        return copy_range(path, 0, path.len());
    }
    match extension_of(parent) {
        Some(e) => set_extension(path, e.as_slice()),
        None => {
            proof {
                assert(path@.subrange(0, path@.len() as int) =~= path@);
            }
            copy_range(path, 0, path.len())
        },
    }
}

/// Whether `p` is one of the paths.
pub fn is_file(files: &Vec<Vec<u8>>, p: &[u8]) -> (r: bool)
    ensures
        r == exists_in(names_view(files@), p@),
{
    let mut k: usize = 0;
    while k < files.len()
        invariant
            k <= files@.len(),
            forall|j: int| 0 <= j < k ==> names_view(files@)[j] != p@,
        decreases files@.len() - k,
    {
        if same(files[k].as_slice(), p) {
            proof {
                assert(names_view(files@)[k as int] == p@);
            }
            return true;
        }
        k += 1;
    }
    false
}

impl Config {
    /// The configuration for a crate rooted at `root`: the directories that
    /// the configuration file names, each below `root`, or `templates` below
    /// `root` if it names none.
    pub fn new(root: &[u8], dir: Option<Vec<Vec<u8>>>) -> (r: Config)
        ensures
            match dir {
                Some(v) => r.dirs@.len() == v@.len() && forall|k: int|
                    0 <= k < v@.len() ==> (#[trigger] r.dirs@[k])@ == joined(root@, v@[k]@),
                None => r.dirs@.len() == 1 && r.dirs@[0]@ == joined(
                    root@,
                    crate::lower::text("templates"),
                ),
            },
    {
        let mut dirs: Vec<Vec<u8>> = Vec::new();
        match dir {
            Some(v) => {
                let mut k: usize = 0;
                while k < v.len()
                    invariant
                        k <= v@.len(),
                        dirs@.len() == k,
                        forall|j: int|
                            0 <= j < k ==> (#[trigger] dirs@[j])@ == joined(root@, v@[j]@),
                    decreases v@.len() - k,
                {
                    dirs.push(join(root, v[k].as_slice()));
                    k += 1;
                }
            },
            None => {
                dirs.push(join(root, "templates".as_bytes()));
            },
        }
        Config { dirs }
    }

    /// Finds the template `path` among the files that exist: beside
    /// `start_at` first, then below each directory in order. `None` where it
    /// is nowhere.
    pub fn find_template(&self, path: &[u8], start_at: Option<&[u8]>, files: &Vec<Vec<u8>>) -> (r:
        Option<Vec<u8>>)
        ensures
            match r {
                Some(p) => found(
                    names_view(self.dirs@),
                    names_view(files@),
                    path@,
                    match start_at {
                        Some(s) => Some(s@),
                        None => None,
                    },
                ) == Some(p@),
                None => found(
                    names_view(self.dirs@),
                    names_view(files@),
                    path@,
                    match start_at {
                        Some(s) => Some(s@),
                        None => None,
                    },
                ) is None,
            },
    {
        match start_at {
            Some(root) => {
                let relative = sibling(root, path);
                if is_file(files, relative.as_slice()) {
                    return Some(relative);
                }
            },
            None => {},
        }
        let mut k: usize = 0;
        while k < self.dirs.len()
            invariant
                k <= self.dirs@.len(),
                start_at matches Some(s) ==> !exists_in(
                    names_view(files@),
                    with_file_name(s@, path@),
                ),
                first_rooted(names_view(self.dirs@), k as int, names_view(files@), path@)
                    == first_rooted(names_view(self.dirs@), 0, names_view(files@), path@),
            decreases self.dirs@.len() - k,
        {
            let rooted = join(self.dirs[k].as_slice(), path);
            proof {
                assert(names_view(self.dirs@)[k as int] == self.dirs@[k as int]@);
            }
            if is_file(files, rooted.as_slice()) {
                return Some(rooted);
            }
            k += 1;
        }
        None
    }
}

} // verus!
