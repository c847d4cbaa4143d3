//! The order in which the history is listed: pinned items first, then the
//! most recently copied; items copied in the same second are listed
//! newest-inserted first (larger id first).

use vstd::prelude::*;
use crate::item::ClipboardItem;
use crate::text::{lemma_text_less_strict_total, text_less, text_less_exec};

verus! {

broadcast use {vstd::seq_lib::group_to_multiset_ensures, vstd::multiset::group_multiset_axioms};

/// `a` was copied more recently than `b`: its time sorts after `b`'s, or the
/// times are equal and `a` was stored later.
pub open spec fn later(a: ClipboardItem, b: ClipboardItem) -> bool {
    text_less(b.created_at@, a.created_at@) || (a.created_at@ == b.created_at@ && a.id > b.id)
}

/// `a` is listed before `b`.
pub open spec fn precedes(a: ClipboardItem, b: ClipboardItem) -> bool {
    (a.pinned && !b.pinned) || (a.pinned == b.pinned && later(a, b))
}

/// No two entries share an id.
pub open spec fn ids_distinct(s: Seq<ClipboardItem>) -> bool {
    forall|i: int, j: int|
        #![trigger s[i], s[j]]
        0 <= i < s.len() && 0 <= j < s.len() && i != j ==> s[i].id != s[j].id
}

/// Every entry of `r` is listed before every later entry of `r`.
pub open spec fn in_history_order(r: Seq<ClipboardItem>) -> bool {
    forall|i: int, j: int| #![trigger r[i], r[j]] 0 <= i < j < r.len() ==> precedes(r[i], r[j])
}

/// `r` holds the entries of `s`, each as often as `s` does, in listing order.
pub open spec fn is_history_order(r: Seq<ClipboardItem>, s: Seq<ClipboardItem>) -> bool {
    &&& r.to_multiset() == s.to_multiset()
    &&& in_history_order(r)
}

/// The entries of `s` in listing order (unique when ids are distinct:
/// see `lemma_history_order_unique` and `lemma_history_order_exists`).
pub open spec fn history_order(s: Seq<ClipboardItem>) -> Seq<ClipboardItem> {
    choose|r: Seq<ClipboardItem>| is_history_order(r, s)
}

/// The entries at positions `offset .. offset + limit` of `r`, as far as `r` reaches.
pub open spec fn page(r: Seq<ClipboardItem>, limit: int, offset: int) -> Seq<ClipboardItem> {
    let start = if offset < r.len() { offset } else { r.len() as int };
    let end = if offset + limit < r.len() { offset + limit } else { r.len() as int };
    r.subrange(start, end)
}

/// Listing order is a strict total order on entries with different ids.
pub proof fn lemma_precedes_strict_total(a: ClipboardItem, b: ClipboardItem, c: ClipboardItem)
    ensures
        !precedes(a, a),
        precedes(a, b) ==> !precedes(b, a),
        precedes(a, b) && precedes(b, c) ==> precedes(a, c),
        a.id != b.id ==> precedes(a, b) || precedes(b, a),
{
    lemma_text_less_strict_total(a.created_at@, b.created_at@, c.created_at@);
    lemma_text_less_strict_total(b.created_at@, a.created_at@, c.created_at@);
    lemma_text_less_strict_total(c.created_at@, b.created_at@, a.created_at@);
    lemma_text_less_strict_total(c.created_at@, a.created_at@, b.created_at@);
    lemma_text_less_strict_total(a.created_at@, c.created_at@, b.created_at@);
    lemma_text_less_strict_total(b.created_at@, c.created_at@, a.created_at@);
}

/// Two sequences in listing order with the same entries are equal.
pub proof fn lemma_history_order_unique(x: Seq<ClipboardItem>, y: Seq<ClipboardItem>)
    requires
        in_history_order(x),
        in_history_order(y),
        x.to_multiset() == y.to_multiset(),
    ensures
        x == y,
    decreases x.len(),
{
    if x.len() == 0 || y.len() == 0 {
        assert(x =~= y);
    } else {
        assert(x.to_multiset().count(x[0]) > 0);
        assert(y.contains(x[0]));
        let j = choose|j: int| 0 <= j < y.len() && y[j] == x[0];
        assert(y.to_multiset().count(y[0]) > 0);
        assert(x.contains(y[0]));
        let i = choose|i: int| 0 <= i < x.len() && x[i] == y[0];
        lemma_precedes_strict_total(x[0], y[0], x[0]);
        if i > 0 {
            assert(precedes(x[0], x[i]));
            if j > 0 {
                assert(precedes(y[0], y[j]));
            }
        }
        assert(x[0] == y[0]);
        assert(x.remove(0) =~= x.drop_first());
        assert(y.remove(0) =~= y.drop_first());
        assert(x.drop_first().to_multiset() =~= x.to_multiset().remove(x[0]));
        assert(y.drop_first().to_multiset() =~= y.to_multiset().remove(y[0]));
        assert(in_history_order(x.drop_first()));
        assert(in_history_order(y.drop_first()));
        lemma_history_order_unique(x.drop_first(), y.drop_first());
        assert(x =~= seq![x[0]] + x.drop_first());
        assert(y =~= seq![y[0]] + y.drop_first());
    }
}

/// Inserting `x` at a position `k` that has everything listed before `x` in
/// front of it and everything listed after it behind keeps listing order.
pub proof fn lemma_insert_in_order(r: Seq<ClipboardItem>, x: ClipboardItem, k: int)
    requires
        in_history_order(r),
        0 <= k <= r.len(),
        forall|i: int| 0 <= i < k ==> precedes(#[trigger] r[i], x),
        k < r.len() ==> precedes(x, r[k]),
    ensures
        in_history_order(r.insert(k, x)),
        r.insert(k, x).to_multiset() == r.to_multiset().insert(x),
{
    let t = r.insert(k, x);
    assert forall|i: int, j: int| 0 <= i < j < t.len() implies #[trigger] precedes(t[i], t[j]) by {
        if j < k {
            assert(t[i] == r[i] && t[j] == r[j]);
        } else if j == k {
            assert(t[i] == r[i]);
        } else if i == k {
            assert(t[j] == r[j - 1]);
            if j - 1 > k {
                assert(precedes(r[k], r[j - 1]));
                lemma_precedes_strict_total(x, r[k], r[j - 1]);
            }
        } else if i < k {
            assert(t[i] == r[i] && t[j] == r[j - 1]);
        } else {
            assert(t[i] == r[i - 1] && t[j] == r[j - 1]);
        }
    }
    let a = r.subrange(0, k);
    let b = r.subrange(k, r.len() as int);
    assert(r =~= a + b);
    assert(t =~= a.push(x) + b);
    vstd::seq_lib::lemma_multiset_commutative(a, b);
    vstd::seq_lib::lemma_multiset_commutative(a.push(x), b);
    assert(t.to_multiset() =~= r.to_multiset().insert(x));
}

/// The first position at or after `i` whose entry `x` is listed before.
pub open spec fn insertion_point(r: Seq<ClipboardItem>, x: ClipboardItem, i: int) -> int
    decreases r.len() - i,
{
    if i >= r.len() {
        r.len() as int
    } else if precedes(x, r[i]) {
        i
    } else {
        insertion_point(r, x, i + 1)
    }
}

pub proof fn lemma_insertion_point(r: Seq<ClipboardItem>, x: ClipboardItem, i: int)
    requires
        0 <= i <= r.len(),
    ensures
        i <= insertion_point(r, x, i) <= r.len(),
        forall|j: int| i <= j < insertion_point(r, x, i) ==> !precedes(x, #[trigger] r[j]),
        insertion_point(r, x, i) < r.len() ==> precedes(x, r[insertion_point(r, x, i)]),
    decreases r.len() - i,
{
    if i < r.len() && !precedes(x, r[i]) {
        lemma_insertion_point(r, x, i + 1);
    }
}

/// An entry of `r` whose entries all occur in `s` has an id that `s[i]` does not
/// share, unless it is `s[i]` itself.
pub proof fn lemma_member_id(r: Seq<ClipboardItem>, s: Seq<ClipboardItem>, i: int, j: int)
    requires
        ids_distinct(s),
        0 <= i < s.len(),
        0 <= j < r.len(),
        r.to_multiset() == s.subrange(0, i).to_multiset(),
    ensures
        r[j].id != s[i].id,
{
    let t = s.subrange(0, i);
    assert(r.to_multiset().count(r[j]) > 0);
    assert(t.contains(r[j]));
    let m = choose|m: int| 0 <= m < t.len() && t[m] == r[j];
    assert(s[m] == r[j]);
}

/// With distinct ids, the entries of `s` can be listed in listing order.
pub proof fn lemma_history_order_exists(s: Seq<ClipboardItem>)
    requires
        ids_distinct(s),
    ensures
        is_history_order(history_order(s), s),
{
    let r = history_order_witness(s);
}

proof fn history_order_witness(s: Seq<ClipboardItem>) -> (r: Seq<ClipboardItem>)
    requires
        ids_distinct(s),
    ensures
        is_history_order(r, s),
    decreases s.len(),
{
    if s.len() == 0 {
        s
    } else {
        let n = s.len() - 1;
        let init = s.subrange(0, n);
        assert(ids_distinct(init));
        let r0 = history_order_witness(init);
        let x = s[n];
        lemma_insertion_point(r0, x, 0);
        let k = insertion_point(r0, x, 0);
        assert forall|i: int| 0 <= i < k implies precedes(#[trigger] r0[i], x) by {
            lemma_member_id(r0, s, n, i);
            lemma_precedes_strict_total(r0[i], x, x);
        }
        lemma_insert_in_order(r0, x, k);
        assert(s =~= init.push(x));
        r0.insert(k, x)
    }
}

/// The listing order of distinct-id entries is the one `history_order` names.
pub proof fn lemma_is_the_history_order(r: Seq<ClipboardItem>, s: Seq<ClipboardItem>)
    requires
        is_history_order(r, s),
    ensures
        history_order(s) == r,
{
    lemma_history_order_unique(history_order(s), r);
}

pub fn item_precedes(a: &ClipboardItem, b: &ClipboardItem) -> (r: bool)
    ensures
        r == precedes(*a, *b),
{
    let later = text_less_exec(b.created_at.as_str(), a.created_at.as_str()) || (a.created_at
        == b.created_at && a.id > b.id);
    (a.pinned && !b.pinned) || (a.pinned == b.pinned && later)
}

/// Lists the entries of `items` in listing order.
pub fn sort_history(items: &Vec<ClipboardItem>) -> (r: Vec<ClipboardItem>)
    requires
        ids_distinct(items@),
    ensures
        is_history_order(r@, items@),
        r@ == history_order(items@),
{
    let n = items.len();
    let mut r: Vec<ClipboardItem> = Vec::new();
    for i in 0..n
        invariant
            n == items.len(),
            ids_distinct(items@),
            in_history_order(r@),
            r@.to_multiset() == items@.subrange(0, i as int).to_multiset(),
    {
        let x = items[i].clone();
        let mut k: usize = 0;
        while k < r.len() && !item_precedes(&x, &r[k])
            invariant
                0 <= k <= r.len(),
                forall|j: int| 0 <= j < k ==> !precedes(x, #[trigger] r@[j]),
            decreases r.len() - k,
        {
            k = k + 1;
        }
        proof {
            assert forall|j: int| 0 <= j < k implies precedes(#[trigger] r@[j], x) by {
                lemma_member_id(r@, items@, i as int, j);
                lemma_precedes_strict_total(r@[j], x, x);
            }
            lemma_insert_in_order(r@, x, k as int);
            assert(items@.subrange(0, i + 1) =~= items@.subrange(0, i as int).push(x));
        }
        r.insert(k, x);
    }
    proof {
        assert(items@.subrange(0, n as int) =~= items@);
        lemma_is_the_history_order(r@, items@);
    }
    r
}

} // verus!
