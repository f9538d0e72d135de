//! Text that generated code is made of: decimal numbers and string literals.
use vstd::prelude::*;

verus! {

pub const QUOTE: u8 = 0x22;
pub const BACKSLASH: u8 = 0x5c;
pub const NEWLINE: u8 = 0x0a;
pub const RETURN: u8 = 0x0d;
pub const TAB: u8 = 0x09;

/// The decimal digits of a number.
pub open spec fn digits(n: nat) -> Seq<u8>
    decreases n,
{
    if n < 10 {
        seq![(0x30 + n) as u8]
    } else {
        digits(n / 10).push((0x30 + n % 10) as u8)
    }
}

/// Writes a number in decimal.
pub fn decimal(n: usize) -> (r: Vec<u8>)
    ensures
        r@ == digits(n as nat),
    decreases n,
{
    if n < 10 {
        let d: u8 = 0x30 + n as u8;
        vec![d]
    } else {
        let mut v = decimal(n / 10);
        let d: u8 = 0x30 + (n % 10) as u8;
        v.push(d);
        v
    }
}

/// How a byte stands in a string literal: `"` and `\` behind a backslash,
/// line feed, carriage return and tab by their letters, any other as it is.
pub open spec fn escaped(b: u8) -> Seq<u8> {
    if b == QUOTE {
        seq![BACKSLASH, QUOTE]
    } else if b == BACKSLASH {
        seq![BACKSLASH, BACKSLASH]
    } else if b == NEWLINE {
        seq![BACKSLASH, 0x6eu8]
    } else if b == RETURN {
        seq![BACKSLASH, 0x72u8]
    } else if b == TAB {
        seq![BACKSLASH, 0x74u8]
    } else {
        seq![b]
    }
}

/// The bytes of `s` from the `k`-th on as they stand in a string literal.
pub open spec fn escaped_from(s: Seq<u8>, k: int) -> Seq<u8>
    decreases s.len() - k,
{
    if 0 <= k < s.len() {
        escaped(s[k]) + escaped_from(s, k + 1)
    } else {
        Seq::empty()
    }
}

/// The string literal that denotes `s`.
pub open spec fn quoted(s: Seq<u8>) -> Seq<u8> {
    seq![QUOTE] + escaped_from(s, 0) + seq![QUOTE]
}

/// The byte that an escape letter stands for.
pub open spec fn unescaped(b: u8) -> u8 {
    if b == 0x6e {
        NEWLINE
    } else if b == 0x72 {
        RETURN
    } else if b == 0x74 {
        TAB
    } else {
        b
    }
}

/// What the body of a string literal denotes, read from the `k`-th byte on.
pub open spec fn denoted_from(q: Seq<u8>, k: int) -> Seq<u8>
    decreases q.len() - k,
{
    if 0 <= k < q.len() {
        if q[k] == BACKSLASH && k + 1 < q.len() {
            seq![unescaped(q[k + 1])] + denoted_from(q, k + 2)
        } else {
            seq![q[k]] + denoted_from(q, k + 1)
        }
    } else {
        Seq::empty()
    }
}

/// Reading goes on after a prefix that ends outside an escape.
proof fn lemma_denoted_append(e: Seq<u8>, rest: Seq<u8>, b: u8)
    requires
        e == escaped(b),
    ensures
        denoted_from(e + rest, 0) == seq![b] + denoted_from(rest, 0),
{
    let q = e + rest;
    if e.len() == 2 {
        assert(q[0] == BACKSLASH);
        assert(unescaped(q[1]) == b);
        lemma_denoted_shift(q, rest, 2, 0);
    } else {
        assert(q[0] == b);
        lemma_denoted_shift(q, rest, 1, 0);
    }
}

/// What is read from a position on depends on the bytes from there on alone.
proof fn lemma_denoted_shift(q: Seq<u8>, rest: Seq<u8>, d: int, k: int)
    requires
        0 <= d,
        0 <= k,
        q.len() == rest.len() + d,
        forall|j: int| 0 <= j < rest.len() ==> q[j + d] == rest[j],
    ensures
        denoted_from(q, k + d) == denoted_from(rest, k),
    decreases rest.len() - k,
{
    if k < rest.len() {
        if rest[k] == BACKSLASH && k + 1 < rest.len() {
            lemma_denoted_shift(q, rest, d, k + 2);
        } else {
            lemma_denoted_shift(q, rest, d, k + 1);
        }
    }
}

/// A string literal denotes the text it was made for.
pub proof fn lemma_quote_denotes(s: Seq<u8>)
    ensures
        denoted_from(escaped_from(s, 0), 0) == s,
    decreases s.len(),
{
    if s.len() > 0 {
        let t = s.drop_first();
        lemma_quote_denotes(t);
        lemma_escaped_tail(s, 0);
        lemma_denoted_append(escaped(s[0]), escaped_from(t, 0), s[0]);
        assert(seq![s[0]] + t =~= s);
    }
}

/// Escaping from a position on is escaping the tail.
proof fn lemma_escaped_tail(s: Seq<u8>, k: int)
    requires
        0 <= k,
        s.len() > 0,
    ensures
        escaped_from(s, k + 1) == escaped_from(s.drop_first(), k),
    decreases s.len() - k,
{
    let t = s.drop_first();
    if k < t.len() {
        lemma_escaped_tail(s, k + 1);
        assert(s[k + 1] == t[k]);
    }
}

/// Adds to `buf` the string literal that denotes `s`.
pub fn quote(buf: &mut Vec<u8>, s: &[u8])
    ensures
        final(buf)@ == old(buf)@ + quoted(s@),
{
    buf.push(QUOTE);
    let mut k: usize = 0;
    while k < s.len()
        invariant
            k <= s@.len(),
            buf@ + escaped_from(s@, k as int) == old(buf)@ + seq![QUOTE] + escaped_from(s@, 0),
        decreases s@.len() - k,
    {
        let b = s[k];
        let ghost before = buf@;
        if b == QUOTE {
            buf.push(BACKSLASH);
            buf.push(QUOTE);
        } else if b == BACKSLASH {
            buf.push(BACKSLASH);
            buf.push(BACKSLASH);
        } else if b == NEWLINE {
            buf.push(BACKSLASH);
            buf.push(0x6e);
        } else if b == RETURN {
            buf.push(BACKSLASH);
            buf.push(0x72);
        } else if b == TAB {
            buf.push(BACKSLASH);
            buf.push(0x74);
        } else {
            buf.push(b);
        }
        proof {
            assert(buf@ =~= before + escaped(b));
            assert(before + escaped_from(s@, k as int) =~= before + escaped(b) + escaped_from(
                s@,
                k + 1,
            ));
        }
        k += 1;
    }
    buf.push(QUOTE);
    proof {
        assert(buf@ =~= old(buf)@ + quoted(s@));
    }
}

} // verus!
