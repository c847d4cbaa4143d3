//! Cutting text to a number of UTF-8 bytes, as byte-range slicing of a Rust
//! string does.

use vstd::prelude::*;
use vstd::utf8::{decode_utf8, encode_utf8, is_char_boundary};

verus! {

broadcast use vstd::utf8::group_utf8_lib;

/// The number of bytes of the UTF-8 encoding of `c`.
pub open spec fn utf8_len(c: Seq<char>) -> int {
    encode_utf8(c).len() as int
}

/// `c` cut to its first `n` UTF-8 bytes, when it is longer than that.
pub open spec fn byte_prefix(c: Seq<char>, n: int) -> Seq<char> {
    if utf8_len(c) > n {
        decode_utf8(encode_utf8(c).subrange(0, n))
    } else {
        c
    }
}

/// Cutting `c` to `n` bytes does not split a character (slicing would panic).
pub open spec fn cuts_on_char_boundary(c: Seq<char>, n: int) -> bool {
    utf8_len(c) > n ==> is_char_boundary(encode_utf8(c), n)
}

/// `s` cut to its first `n` bytes when it is longer, as `&s[..n]` gives it.
pub fn byte_prefix_of(s: &str, n: usize) -> (r: String)
    requires
        cuts_on_char_boundary(s@, n as int),
    ensures
        r@ == byte_prefix(s@, n as int),
        utf8_len(s@) > n ==> encode_utf8(r@) == encode_utf8(s@).subrange(0, n as int),
{
    if s.as_bytes().len() > n {
        let (head, _tail) = s.split_at(n);
        proof {
            assert(decode_utf8(encode_utf8(head@)) == head@);
        }
        head.to_owned()
    } else {
        s.to_owned()
    }
}

/// Whether cutting `s` to `n` bytes keeps every character whole.
pub fn cuts_on_char_boundary_exec(s: &str, n: usize) -> (r: bool)
    ensures
        r == cuts_on_char_boundary(s@, n as int),
{
    s.as_bytes().len() <= n || s.is_char_boundary(n)
}

/// `a[i..]` sorts before `b[i..]` byte by byte, a proper prefix first: how
/// SQLite's binary collation orders text.
pub open spec fn lex_less_from(a: Seq<u8>, b: Seq<u8>, i: int) -> bool
    decreases a.len() - i,
{
    if i >= b.len() {
        false
    } else if i >= a.len() {
        true
    } else if a[i] != b[i] {
        a[i] < b[i]
    } else {
        lex_less_from(a, b, i + 1)
    }
}

/// `a` sorts before `b` under binary collation.
pub open spec fn lex_less(a: Seq<u8>, b: Seq<u8>) -> bool {
    lex_less_from(a, b, 0)
}

/// Text `a` sorts before text `b` under binary collation of their UTF-8 bytes.
pub open spec fn text_less(a: Seq<char>, b: Seq<char>) -> bool {
    lex_less(encode_utf8(a), encode_utf8(b))
}

pub proof fn lemma_lex_less_from_strict(a: Seq<u8>, b: Seq<u8>, c: Seq<u8>, i: int)
    requires
        0 <= i,
    ensures
        !lex_less_from(a, a, i),
        lex_less_from(a, b, i) ==> !lex_less_from(b, a, i),
        lex_less_from(a, b, i) && lex_less_from(b, c, i) ==> lex_less_from(a, c, i),
    decreases a.len() - i,
{
    if i < a.len() && i < b.len() && i < c.len() {
        lemma_lex_less_from_strict(a, b, c, i + 1);
    } else if i < a.len() && i < b.len() {
        lemma_lex_less_from_strict(a, b, c, i + 1);
    } else if i < a.len() {
        lemma_lex_less_from_strict(a, b, c, i + 1);
    }
}

pub proof fn lemma_lex_less_from_total(a: Seq<u8>, b: Seq<u8>, i: int)
    requires
        0 <= i <= a.len(),
        0 <= i <= b.len(),
    ensures
        lex_less_from(a, b, i) || lex_less_from(b, a, i) || a.subrange(i, a.len() as int)
            == b.subrange(i, b.len() as int),
    decreases a.len() - i,
{
    if i < a.len() && i < b.len() && a[i] == b[i] {
        lemma_lex_less_from_total(a, b, i + 1);
        if a.subrange(i + 1, a.len() as int) == b.subrange(i + 1, b.len() as int) {
            assert(a.subrange(i, a.len() as int) =~= seq![a[i]] + a.subrange(i + 1, a.len() as int));
            assert(b.subrange(i, b.len() as int) =~= seq![b[i]] + b.subrange(i + 1, b.len() as int));
        }
    } else if i >= a.len() && i >= b.len() {
        assert(a.subrange(i, a.len() as int) =~= b.subrange(i, b.len() as int));
    }
}

/// Binary collation orders text strictly and totally.
pub proof fn lemma_text_less_strict_total(a: Seq<char>, b: Seq<char>, c: Seq<char>)
    ensures
        !text_less(a, a),
        text_less(a, b) ==> !text_less(b, a),
        text_less(a, b) && text_less(b, c) ==> text_less(a, c),
        a != b ==> text_less(a, b) || text_less(b, a),
{
    let (x, y, z) = (encode_utf8(a), encode_utf8(b), encode_utf8(c));
    lemma_lex_less_from_strict(x, y, z, 0);
    lemma_lex_less_from_total(x, y, 0);
    assert(x.subrange(0, x.len() as int) =~= x);
    assert(y.subrange(0, y.len() as int) =~= y);
    if x == y {
        assert(decode_utf8(x) == a);
        assert(decode_utf8(y) == b);
    }
}

/// Whether `a` sorts before `b` under binary collation.
pub fn bytes_less(a: &[u8], b: &[u8]) -> (r: bool)
    ensures
        r == lex_less(a@, b@),
{
    let mut i: usize = 0;
    while i < a.len() && i < b.len() && a[i] == b[i]
        invariant
            0 <= i <= a@.len(),
            i <= b@.len(),
            lex_less(a@, b@) == lex_less_from(a@, b@, i as int),
        decreases a.len() - i,
    {
        i = i + 1;
    }
    if i >= b.len() {
        false
    } else if i >= a.len() {
        true
    } else {
        a[i] < b[i]
    }
}

/// Whether text `a` sorts before text `b` under binary collation.
pub fn text_less_exec(a: &str, b: &str) -> (r: bool)
    ensures
        r == text_less(a@, b@),
{
    bytes_less(a.as_bytes(), b.as_bytes())
}

} // verus!
