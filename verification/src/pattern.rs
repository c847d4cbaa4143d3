//! Text search as the history table answers it: `text LIKE '%query%'`,
//! where `%` in the pattern stands for any run of characters, `_` for any
//! single character, and letters A-Z match regardless of case.

use vstd::prelude::*;

verus! {

broadcast use vstd::string::group_string_axioms;

/// The character code with ASCII upper-case letters folded to lower case.
pub open spec fn fold_case(c: char) -> u32 {
    if 65 <= (c as u32) && (c as u32) <= 90 {
        (c as u32 + 32) as u32
    } else {
        c as u32
    }
}

/// `t[i..]` matches `p[j..]` under LIKE.
pub open spec fn like_from(t: Seq<char>, p: Seq<char>, i: int, j: int) -> bool
    decreases p.len() - j, t.len() - i,
{
    if j >= p.len() {
        i >= t.len()
    } else if p[j] == '%' {
        like_from(t, p, i, j + 1) || (i < t.len() && like_from(t, p, i + 1, j))
    } else if i >= t.len() {
        false
    } else if p[j] == '_' || fold_case(t[i]) == fold_case(p[j]) {
        like_from(t, p, i + 1, j + 1)
    } else {
        false
    }
}

/// The whole of `t` matches the pattern `p`.
pub open spec fn like(t: Seq<char>, p: Seq<char>) -> bool {
    like_from(t, p, 0, 0)
}

/// The search pattern built from a query: the query with `%` on both sides.
pub open spec fn search_pattern(query: Seq<char>) -> Seq<char> {
    seq!['%'] + query + seq!['%']
}

fn fold_case_exec(c: char) -> (r: u32)
    ensures
        r == fold_case(c),
{
    let v = c as u32;
    if 65 <= v && v <= 90 {
        v + 32
    } else {
        v
    }
}

/// The characters of `s`, in order.
pub fn chars_of(s: &str) -> (r: Vec<char>)
    ensures
        r@ == s@,
{
    let mut r: Vec<char> = Vec::new();
    for c in it: s.chars()
        invariant
            it.seq() == s@,
            r@ == s@.take(it.index() as int),
    {
        r.push(c);
        proof {
            assert(s@.take(it.index() + 1) =~= s@.take(it.index() as int).push(c));
        }
    }
    proof {
        assert(s@.take(s@.len() as int) =~= s@);
    }
    r
}

/// Whether `text` matches the LIKE pattern `pat`.
pub fn like_match(text: &Vec<char>, pat: &Vec<char>) -> (r: bool)
    ensures
        r == like(text@, pat@),
{
    let n = text.len();
    let m = pat.len();
    // `next[i]` and `next_end` hold the answers for the pattern suffix starting at `j`,
    // for the text suffixes starting at `i < n` and at `n`.
    let mut next: Vec<bool> = Vec::new();
    for i in 0..n
        invariant
            n == text.len(),
            m == pat.len(),
            next.len() == i,
            forall|k: int| 0 <= k < i ==> next@[k] == like_from(text@, pat@, k, m as int),
    {
        next.push(false);
    }
    let mut next_end = true;
    let mut j = m;
    while j > 0
        invariant
            n == text.len(),
            m == pat.len(),
            0 <= j <= m,
            next.len() == n,
            forall|k: int| 0 <= k < n ==> next@[k] == like_from(text@, pat@, k, j as int),
            next_end == like_from(text@, pat@, n as int, j as int),
        decreases j,
    {
        j = j - 1;
        let pc = pat[j];
        let cur_end = pc == '%' && next_end;
        let mut cur: Vec<bool> = Vec::new();
        for k in 0..n
            invariant
                cur.len() == k,
        {
            cur.push(false);
        }
        let mut i = n;
        while i > 0
            invariant
                n == text.len(),
                m == pat.len(),
                j < m,
                pc == pat@[j as int],
                0 <= i <= n,
                cur.len() == n,
                next.len() == n,
                forall|k: int| 0 <= k < n ==> next@[k] == like_from(text@, pat@, k, j + 1),
                next_end == like_from(text@, pat@, n as int, j + 1),
                cur_end == like_from(text@, pat@, n as int, j as int),
                forall|k: int| i <= k < n ==> cur@[k] == like_from(text@, pat@, k, j as int),
            decreases i,
        {
            i = i - 1;
            let after = if i + 1 < n {
                cur[i + 1]
            } else {
                cur_end
            };
            let next_after = if i + 1 < n {
                next[i + 1]
            } else {
                next_end
            };
            let v = if pc == '%' {
                next[i] || after
            } else if pc == '_' || fold_case_exec(text[i]) == fold_case_exec(pc) {
                next_after
            } else {
                false
            };
            cur.set(i, v);
        }
        next = cur;
        next_end = cur_end;
    }
    if n == 0 {
        next_end
    } else {
        next[0]
    }
}

/// Whether `text` holds `query` under LIKE's rules (the pattern `%query%`).
pub fn text_matches(text: &str, query: &Vec<char>) -> (r: bool)
    ensures
        r == like(text@, search_pattern(query@)),
{
    let t = chars_of(text);
    let mut p: Vec<char> = Vec::new();
    p.push('%');
    let ghost p0 = p@;
    for k in 0..query.len()
        invariant
            p@ == seq!['%'] + query@.subrange(0, k as int),
    {
        p.push(query[k]);
        proof {
            assert(query@.subrange(0, k + 1) =~= query@.subrange(0, k as int).push(query@[k as int]));
            assert(p@ =~= seq!['%'] + query@.subrange(0, k + 1));
        }
    }
    p.push('%');
    proof {
        assert(query@.subrange(0, query@.len() as int) =~= query@);
        assert(p@ =~= search_pattern(query@));
    }
    like_match(&t, &p)
}

} // verus!
