//! Bytes and byte strings: the predicates the template grammar is written in,
//! searching, and trimming.
use vstd::prelude::*;
use vstd::slice::slice_subrange;

verus! {

pub const SPACE: u8 = 0x20;
pub const BANG: u8 = 0x21;
pub const HASH: u8 = 0x23;
pub const DASH: u8 = 0x2d;
pub const SLASH: u8 = 0x2f;
pub const SEMI: u8 = 0x3b;
pub const GT: u8 = 0x3e;
pub const UNDERSCORE: u8 = 0x5f;
pub const OPEN: u8 = 0x7b;
pub const CLOSE: u8 = 0x7d;

/// ASCII whitespace: space, tab, line feed, form feed, carriage return.
pub open spec fn is_ws(b: u8) -> bool {
    b == 0x20 || b == 0x09 || b == 0x0a || b == 0x0c || b == 0x0d
}

/// A byte that may stand in a partial's path: any visible ASCII character.
pub open spec fn is_graphic(b: u8) -> bool {
    0x21 <= b <= 0x7e
}

/// An ASCII letter.
pub open spec fn is_alpha(b: u8) -> bool {
    (0x41 <= b <= 0x5a) || (0x61 <= b <= 0x7a)
}

/// An ASCII letter or digit.
pub open spec fn is_alnum(b: u8) -> bool {
    is_alpha(b) || (0x30 <= b <= 0x39)
}

/// A byte that may start an identifier.
pub open spec fn is_ident_start(b: u8) -> bool {
    is_alpha(b) || b == UNDERSCORE
}

/// A byte that may continue an identifier.
pub open spec fn is_ident_part(b: u8) -> bool {
    is_alnum(b) || b == UNDERSCORE
}

pub fn ws(n: u8) -> (r: bool)
    ensures
        r == is_ws(n),
{
    n == 0x20 || n == 0x09 || n == 0x0a || n == 0x0c || n == 0x0d
}

pub fn is_path(n: u8) -> (r: bool)
    ensures
        r == is_graphic(n),
{
    0x21 <= n && n <= 0x7e
}

/// `nom::is_alphabetic`: whether the byte is one of `A-Z`, `a-z`.
#[verifier::external_body]
fn alphabetic(chr: u8) -> (r: bool)
    ensures
        r == is_alpha(chr),
{
    nom::is_alphabetic(chr)
}

/// `nom::is_alphanumeric`: whether the byte is one of `A-Z`, `a-z`, `0-9`.
#[verifier::external_body]
fn alphanumeric(chr: u8) -> (r: bool)
    ensures
        r == is_alnum(chr),
{
    nom::is_alphanumeric(chr)
}

pub fn ident_start(n: u8) -> (r: bool)
    ensures
        r == is_ident_start(n),
{
    alphabetic(n) || n == UNDERSCORE
}

pub fn ident_part(n: u8) -> (r: bool)
    ensures
        r == is_ident_part(n),
{
    alphanumeric(n) || n == UNDERSCORE
}

/// `memchr::memchr`: the index of the first `needle` in `haystack`, and `None`
/// when `haystack` holds none.
#[verifier::external_body]
fn first_byte(needle: u8, haystack: &[u8]) -> (r: Option<usize>)
    ensures
        match r {
            Some(j) => j < haystack@.len() && haystack@[j as int] == needle && forall|k: int|
                0 <= k < j ==> haystack@[k] != needle,
            None => forall|k: int| 0 <= k < haystack@.len() ==> haystack@[k] != needle,
        },
{
    memchr::memchr(needle, haystack)
}

/// The first position at or after `p` that holds `b`; the length where none does.
pub open spec fn find_byte(i: Seq<u8>, p: int, b: u8) -> int
    decreases i.len() - p,
{
    if p < 0 || p >= i.len() {
        i.len() as int
    } else if i[p] == b {
        p
    } else {
        find_byte(i, p + 1, b)
    }
}

/// What `find_byte` returns: `q` is it exactly when no position in `p..q`
/// holds `b` and `q` does or is the end.
pub proof fn lemma_find_byte(i: Seq<u8>, p: int, b: u8, q: int)
    requires
        0 <= p <= q <= i.len(),
        forall|k: int| p <= k < q ==> i[k] != b,
        q == i.len() || i[q] == b,
    ensures
        find_byte(i, p, b) == q,
    decreases q - p,
{
    if p < q {
        lemma_find_byte(i, p + 1, b, q);
    }
}

/// `find_byte` stays within `p..=len` and lands on `b` or on the end.
pub proof fn lemma_find_byte_bounds(i: Seq<u8>, p: int, b: u8)
    requires
        0 <= p <= i.len(),
    ensures
        p <= find_byte(i, p, b) <= i.len(),
        find_byte(i, p, b) < i.len() ==> i[find_byte(i, p, b)] == b,
        forall|k: int| p <= k < find_byte(i, p, b) ==> i[k] != b,
    decreases i.len() - p,
{
    if p < i.len() && i[p] != b {
        lemma_find_byte_bounds(i, p + 1, b);
    }
}

/// The first position at or after `p` that holds `b`, or the length.
pub fn find_from(i: &[u8], p: usize, b: u8) -> (q: usize)
    ensures
        q == find_byte(i@, p as int, b),
        q <= i@.len(),
        p <= i@.len() ==> p <= q,
{
    if p >= i.len() {
        return i.len();
    }
    let rest = slice_subrange(i, p, i.len());
    match first_byte(b, rest) {
        Some(j) => {
            proof {
                assert forall|k: int| p <= k < p + j implies i@[k] != b by {
                    assert(rest@[k - p] == i@[k]);
                }
                assert(rest@[j as int] == i@[p + j]);
                lemma_find_byte(i@, p as int, b, (p + j) as int);
            }
            p + j
        },
        None => {
            proof {
                assert forall|k: int| p <= k < i@.len() implies i@[k] != b by {
                    assert(rest@[k - p] == i@[k]);
                }
                lemma_find_byte(i@, p as int, b, i@.len() as int);
            }
            i.len()
        },
    }
}

/// Whether `t` stands in `i` at position `p`.
pub open spec fn has_at(i: Seq<u8>, p: int, t: Seq<u8>) -> bool {
    0 <= p && p + t.len() <= i.len() && i.subrange(p, p + t.len()) == t
}

pub fn starts_with_at(i: &[u8], p: usize, t: &[u8]) -> (r: bool)
    ensures
        r == has_at(i@, p as int, t@),
{
    if p > i.len() || t.len() > i.len() - p {
        return false;
    }
    let mut k: usize = 0;
    while k < t.len()
        invariant
            k <= t@.len(),
            p + t@.len() <= i@.len() <= usize::MAX,
            forall|m: int| 0 <= m < k ==> i@[p + m] == t@[m],
        decreases t@.len() - k,
    {
        if i[p + k] != t[k] {
            proof {
                assert(i@.subrange(p as int, p + t@.len())[k as int] == i@[p + k]);
            }
            return false;
        }
        k += 1;
    }
    proof {
        assert(i@.subrange(p as int, p + t@.len()) =~= t@);
    }
    true
}

/// The first position at or after `p` where `t` stands; the length where it
/// stands nowhere.
pub open spec fn find_seq(i: Seq<u8>, p: int, t: Seq<u8>) -> int
    decreases i.len() - p,
{
    if p < 0 || p >= i.len() {
        i.len() as int
    } else if has_at(i, p, t) {
        p
    } else {
        find_seq(i, p + 1, t)
    }
}

pub fn find_seq_from(i: &[u8], p: usize, t: &[u8]) -> (q: usize)
    ensures
        q == find_seq(i@, p as int, t@),
        q <= i@.len(),
        p <= i@.len() ==> p <= q,
        q < i@.len() ==> has_at(i@, q as int, t@),
{
    if p >= i.len() {
        return i.len();
    }
    let mut k: usize = p;
    while k < i.len()
        invariant
            p <= k <= i@.len(),
            find_seq(i@, k as int, t@) == find_seq(i@, p as int, t@),
        decreases i@.len() - k,
    {
        if starts_with_at(i, k, t) {
            return k;
        }
        k += 1;
    }
    i.len()
}

/// The first position at or after `p` that holds no whitespace, or the length.
pub open spec fn skip_ws(i: Seq<u8>, p: int) -> int
    decreases i.len() - p,
{
    if 0 <= p < i.len() && is_ws(i[p]) {
        skip_ws(i, p + 1)
    } else {
        p
    }
}

pub proof fn lemma_skip_ws_bounds(i: Seq<u8>, p: int)
    requires
        0 <= p <= i.len(),
    ensures
        p <= skip_ws(i, p) <= i.len(),
        forall|k: int| p <= k < skip_ws(i, p) ==> is_ws(i[k]),
        skip_ws(i, p) < i.len() ==> !is_ws(i[skip_ws(i, p)]),
    decreases i.len() - p,
{
    if p < i.len() && is_ws(i[p]) {
        lemma_skip_ws_bounds(i, p + 1);
    }
}

pub fn skip_ws_from(i: &[u8], p: usize) -> (q: usize)
    requires
        p <= i@.len(),
    ensures
        q == skip_ws(i@, p as int),
        p <= q <= i@.len(),
{
    let mut k: usize = p;
    while k < i.len() && ws(i[k])
        invariant
            p <= k <= i@.len(),
            skip_ws(i@, k as int) == skip_ws(i@, p as int),
        decreases i@.len() - k,
    {
        k += 1;
    }
    k
}

/// Where the whitespace at the end of `i[..e]` begins.
pub open spec fn back_ws(i: Seq<u8>, e: int) -> int
    decreases e,
{
    if 0 < e <= i.len() && is_ws(i[e - 1]) {
        back_ws(i, e - 1)
    } else {
        e
    }
}

pub proof fn lemma_back_ws_bounds(i: Seq<u8>, e: int)
    requires
        0 <= e <= i.len(),
    ensures
        0 <= back_ws(i, e) <= e,
        forall|k: int| back_ws(i, e) <= k < e ==> is_ws(i[k]),
        back_ws(i, e) > 0 ==> !is_ws(i[back_ws(i, e) - 1]),
    decreases e,
{
    if 0 < e && is_ws(i[e - 1]) {
        lemma_back_ws_bounds(i, e - 1);
    }
}

pub fn back_ws_from(i: &[u8], e: usize) -> (q: usize)
    requires
        e <= i@.len(),
    ensures
        q == back_ws(i@, e as int),
        q <= e,
{
    let mut k: usize = e;
    while k > 0 && ws(i[k - 1])
        invariant
            k <= e <= i@.len(),
            back_ws(i@, k as int) == back_ws(i@, e as int),
        decreases k,
    {
        k -= 1;
    }
    k
}

/// A byte string cut into leading whitespace, body and trailing whitespace.
/// One that is all whitespace is all leading whitespace.
pub open spec fn trim_spec(s: Seq<u8>) -> (Seq<u8>, Seq<u8>, Seq<u8>) {
    let ln = skip_ws(s, 0);
    if ln >= s.len() {
        (s, Seq::empty(), Seq::empty())
    } else {
        let rn = back_ws(s, s.len() as int);
        (s.subrange(0, ln), s.subrange(ln, rn), s.subrange(rn, s.len() as int))
    }
}

/// The three parts of `trim_spec` make up the input again; the outer two are
/// whitespace, and the body, where there is one, begins and ends with a byte
/// that is none.
pub proof fn lemma_trim(s: Seq<u8>)
    ensures
        trim_spec(s).0 + trim_spec(s).1 + trim_spec(s).2 == s,
        forall|k: int| 0 <= k < trim_spec(s).0.len() ==> is_ws(#[trigger] trim_spec(s).0[k]),
        forall|k: int| 0 <= k < trim_spec(s).2.len() ==> is_ws(#[trigger] trim_spec(s).2[k]),
        trim_spec(s).1.len() > 0 ==> !is_ws(trim_spec(s).1.first()) && !is_ws(
            trim_spec(s).1.last(),
        ),
        trim_spec(s).1.len() == 0 ==> trim_spec(s).2.len() == 0,
{
    lemma_skip_ws_bounds(s, 0);
    lemma_back_ws_bounds(s, s.len() as int);
    let ln = skip_ws(s, 0);
    if ln >= s.len() {
        assert(s + Seq::<u8>::empty() + Seq::<u8>::empty() =~= s);
    } else {
        let rn = back_ws(s, s.len() as int);
        assert(rn > ln) by {
            if rn <= ln {
                assert(is_ws(s[ln]));
            }
        }
        assert(s.subrange(0, ln) + s.subrange(ln, rn) + s.subrange(rn, s.len() as int) =~= s);
    }
}

pub fn trim(i: &[u8]) -> (r: (&[u8], &[u8], &[u8]))
    ensures
        (r.0@, r.1@, r.2@) == trim_spec(i@),
{
    let n = i.len();
    let ln = skip_ws_from(i, 0);
    if ln >= n {
        proof {
            assert(i@.subrange(0, n as int) =~= i@);
            assert(i@.subrange(n as int, n as int) =~= Seq::<u8>::empty());
        }
        (slice_subrange(i, 0, n), slice_subrange(i, n, n), slice_subrange(i, n, n))
    } else {
        let rn = back_ws_from(i, n);
        proof {
            lemma_skip_ws_bounds(i@, 0);
            lemma_back_ws_bounds(i@, n as int);
            if rn <= ln {
                assert(is_ws(i@[ln as int]));
            }
        }
        (slice_subrange(i, 0, ln), slice_subrange(i, ln, rn), slice_subrange(i, rn, n))
    }
}

/// A copy of `i[a..b]`.
pub fn copy_range(i: &[u8], a: usize, b: usize) -> (r: Vec<u8>)
    requires
        a <= b <= i@.len(),
    ensures
        r@ == i@.subrange(a as int, b as int),
{
    let mut v: Vec<u8> = Vec::new();
    v.extend_from_slice(slice_subrange(i, a, b));
    v
}

/// Whether two byte strings hold the same bytes.
pub fn same(a: &[u8], b: &[u8]) -> (r: bool)
    ensures
        r == (a@ == b@),
{
    if a.len() != b.len() {
        return false;
    }
    let mut k: usize = 0;
    while k < a.len()
        invariant
            k <= a@.len(),
            a@.len() == b@.len(),
            forall|m: int| 0 <= m < k ==> a@[m] == b@[m],
        decreases a@.len() - k,
    {
        if a[k] != b[k] {
            return false;
        }
        k += 1;
    }
    proof {
        assert(a@ =~= b@);
    }
    true
}

} // verus!
