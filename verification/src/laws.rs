//! What holds of the history and of window placement across all inputs.

use vstd::prelude::*;
use crate::item::{ClipboardItem, NewClipboardItem};
use crate::order::{
    history_order, ids_distinct, later, lemma_history_order_exists, page, precedes,
};
use crate::history::{
    has_hash, has_id, hash_position, history_wf, id_position, insert_outcome, keep_pred,
    kept_unpinned, lemma_filter_wf, other_id_pred, pin_outcome, pinned_pred, prune, search_pred,
    search_page_size, stored, touched, toggled, unpinned_pred, HistoryView,
};
use crate::window::{near_cursor, MonitorArea, Position, Size};
use crate::text::{cuts_on_char_boundary, lemma_text_less_strict_total, text_less};
use crate::item::ContentType;
use crate::history::{paste_action, PasteAction};
use crate::notification::notification_text;
use crate::pattern::{like, search_pattern};
use vstd::utf8::encode_utf8;

verus! {

broadcast use {
    vstd::seq_lib::group_to_multiset_ensures,
    vstd::multiset::group_multiset_axioms,
    vstd::seq_lib::group_filter_ensures,
    vstd::seq::group_seq_axioms,
};

/// Pruning never removes a pinned entry.
pub proof fn lemma_prune_keeps_pinned(s: Seq<ClipboardItem>, limit: int, i: int)
    requires
        0 <= i < s.len(),
        s[i].pinned,
    ensures
        prune(s, limit).contains(s[i]),
{
}

/// After pruning to `limit`, at most `limit` unpinned entries remain.
pub proof fn lemma_prune_bounds_unpinned(s: Seq<ClipboardItem>, limit: int)
    requires
        ids_distinct(s),
        0 <= limit,
    ensures
        prune(s, limit).filter(unpinned_pred()).len() <= limit,
{
    let keep = kept_unpinned(s, limit);
    let p = prune(s, limit);
    let u = p.filter(unpinned_pred());
    lemma_filter_wf(s, keep_pred(keep), 0);
    lemma_filter_wf(p, unpinned_pred(), 0);
    assert(u.no_duplicates()) by {
        assert forall|i: int, j: int| 0 <= i < u.len() && 0 <= j < u.len() && i != j implies u[i]
            != u[j] by {
            assert(u[i].id != u[j].id);
        }
    }
    assert(u.to_set().subset_of(keep.to_set())) by {
        assert forall|x: ClipboardItem| u.to_set().contains(x) implies keep.to_set().contains(x) by {
            let i = choose|i: int| 0 <= i < u.len() && u[i] == x;
            assert(u.contains(u[i]));
            p.lemma_filter_contains_rev(unpinned_pred(), x);
            let j = choose|j: int| 0 <= j < p.len() && p[j] == x;
            assert(keep_pred(keep)(p[j]));
            assert(!x.pinned);
        }
    }
    u.unique_seq_to_set();
    keep.lemma_cardinality_of_set();
    vstd::seq_lib::seq_to_set_is_finite(keep);
    vstd::set_lib::lemma_len_subset(u.to_set(), keep.to_set());
}

/// Pruning drops the oldest unpinned entries: every unpinned entry kept was
/// copied more recently than every unpinned entry dropped.
pub proof fn lemma_prune_drops_oldest(s: Seq<ClipboardItem>, limit: int, y: ClipboardItem, z: ClipboardItem)
    requires
        ids_distinct(s),
        0 <= limit,
        s.contains(y),
        s.contains(z),
        !y.pinned,
        !z.pinned,
        prune(s, limit).contains(y),
        !prune(s, limit).contains(z),
    ensures
        later(y, z),
{
    let u = s.filter(unpinned_pred());
    lemma_filter_wf(s, unpinned_pred(), 0);
    lemma_history_order_exists(u);
    let h = history_order(u);
    let keep = kept_unpinned(s, limit);
    let p = prune(s, limit);
    // y passes the filter only through `keep`; z does not pass it.
    let iy = choose|i: int| 0 <= i < p.len() && p[i] == y;
    assert(keep_pred(keep)(p[iy]));
    let ky = choose|k: int| 0 <= k < keep.len() && keep[k] == y;
    let iz = choose|i: int| 0 <= i < s.len() && s[i] == z;
    assert(u.contains(z));
    assert(h.to_multiset().count(z) > 0);
    let kz = choose|k: int| 0 <= k < h.len() && h[k] == z;
    let n = if limit < h.len() { limit } else { h.len() as int };
    assert(keep == h.subrange(0, n));
    assert(keep[ky] == h[ky]);
    if kz < n {
        assert(keep[kz] == z);
        assert(keep_pred(keep)(s[iz]));
        s.lemma_filter_contains(keep_pred(keep), iz);
    }
    assert(ky < kz);
    assert(precedes(h[ky], h[kz]));
}

/// Storing a copy never removes a pinned entry: it is still there, still pinned.
pub proof fn lemma_insert_keeps_pinned(v: HistoryView, item: NewClipboardItem, limit: int, now: String, i: int)
    requires
        history_wf(v),
        0 <= i < v.items.len(),
        v.items[i].pinned,
    ensures
        insert_outcome(v, item, limit, now) matches Ok(w) ==> exists|k: int|
            0 <= k < w.items.len() && (#[trigger] w.items[k]).id == v.items[i].id && w.items[k].pinned,
{
    let s = if has_hash(v.items, item.hash@) {
        let p = hash_position(v.items, item.hash@);
        v.items.update(p, touched(v.items[p], now))
    } else {
        v.items.push(stored(item, v.last_id + 1, now))
    };
    assert(s[i].id == v.items[i].id && s[i].pinned);
    lemma_prune_keeps_pinned(s, limit, i);
    let w = prune(s, limit);
    let k = choose|k: int| 0 <= k < w.len() && w[k] == s[i];
    assert(w[k].id == v.items[i].id);
    match insert_outcome(v, item, limit, now) {
        Ok(o) => {
            assert(o.items == w);
            assert(o.items[k].id == v.items[i].id && o.items[k].pinned);
        },
        Err(_) => {},
    }
}

/// The entries that storing `item` holds before pruning: the re-copied entry
/// moved to `now`, or the new entry added.
pub open spec fn before_pruning(v: HistoryView, item: NewClipboardItem, now: String) -> Seq<ClipboardItem> {
    if has_hash(v.items, item.hash@) {
        let p = hash_position(v.items, item.hash@);
        v.items.update(p, touched(v.items[p], now))
    } else {
        v.items.push(stored(item, v.last_id + 1, now))
    }
}

proof fn lemma_before_pruning(v: HistoryView, item: NewClipboardItem, limit: int, now: String)
    requires
        history_wf(v),
        insert_outcome(v, item, limit, now) is Ok,
    ensures
        ids_distinct(before_pruning(v, item, now)),
        insert_outcome(v, item, limit, now) matches Ok(w) && w.items == prune(
            before_pruning(v, item, now),
            limit,
        ),
        forall|i: int|
            0 <= i < v.items.len() && v.items[i].hash@ != item.hash@ ==> #[trigger] before_pruning(
                v,
                item,
                now,
            )[i] == v.items[i],
        forall|i: int|
            0 <= i < v.items.len() ==> (#[trigger] before_pruning(v, item, now)[i]).id
                == v.items[i].id && before_pruning(v, item, now)[i].pinned == v.items[i].pinned,
{
    let s = before_pruning(v, item, now);
    if has_hash(v.items, item.hash@) {
        let p = hash_position(v.items, item.hash@);
        assert forall|i: int, j: int| 0 <= i < s.len() && 0 <= j < s.len() && i != j implies #[trigger] s[i].id
            != #[trigger] s[j].id by {
            assert(v.items[i].id != v.items[j].id);
        }
    } else {
        assert forall|i: int, j: int| 0 <= i < s.len() && 0 <= j < s.len() && i != j implies #[trigger] s[i].id
            != #[trigger] s[j].id by {
            if i < v.items.len() && j < v.items.len() {
                assert(v.items[i].id != v.items[j].id);
            } else if i < v.items.len() {
                assert(v.items[i].id <= v.last_id);
            } else {
                assert(v.items[j].id <= v.last_id);
            }
        }
    }
}

/// Storing a copy prunes only old unpinned entries. Afterwards at most
/// `limit` entries are unpinned; every pinned entry other than the one copied
/// again is still there, unchanged; every entry that disappeared was
/// unpinned; and every unpinned entry that is left was copied more recently
/// than every entry that disappeared (the re-copied one aside, whose time
/// the insert moves).
pub proof fn lemma_insert_prunes_oldest_unpinned(v: HistoryView, item: NewClipboardItem, limit: int, now: String)
    requires
        history_wf(v),
        0 <= limit,
    ensures
        match insert_outcome(v, item, limit, now) {
            Ok(w) => {
                &&& w.items.filter(unpinned_pred()).len() <= limit
                &&& forall|i: int|
                    0 <= i < v.items.len() && v.items[i].pinned && v.items[i].hash@ != item.hash@
                        ==> w.items.contains(#[trigger] v.items[i])
                &&& forall|i: int|
                    0 <= i < v.items.len() && !has_id(w.items, (#[trigger] v.items[i]).id)
                        ==> !v.items[i].pinned
                &&& forall|i: int, k: int|
                    0 <= i < v.items.len() && !has_id(w.items, (#[trigger] v.items[i]).id)
                        && v.items[i].hash@ != item.hash@ && 0 <= k < w.items.len()
                        && !(#[trigger] w.items[k]).pinned ==> later(w.items[k], v.items[i])
            },
            Err(_) => true,
        },
{
    if insert_outcome(v, item, limit, now) is Ok {
        lemma_before_pruning(v, item, limit, now);
        let s = before_pruning(v, item, now);
        let w = prune(s, limit);
        lemma_prune_bounds_unpinned(s, limit);
        assert forall|i: int|
            0 <= i < v.items.len() && v.items[i].pinned && v.items[i].hash@ != item.hash@ implies w.contains(
            #[trigger] v.items[i],
        ) by {
            assert(s[i] == v.items[i]);
            lemma_prune_keeps_pinned(s, limit, i);
        }
        assert forall|i: int|
            0 <= i < v.items.len() && !has_id(w, (#[trigger] v.items[i]).id) implies !v.items[i].pinned by {
            assert(s[i].id == v.items[i].id);
            if v.items[i].pinned {
                lemma_prune_keeps_pinned(s, limit, i);
                let k = choose|k: int| 0 <= k < w.len() && w[k] == s[i];
                assert(w[k].id == v.items[i].id);
            }
        }
        assert forall|i: int, k: int|
            0 <= i < v.items.len() && !has_id(w, (#[trigger] v.items[i]).id) && v.items[i].hash@
                != item.hash@ && 0 <= k < w.len() && !(#[trigger] w[k]).pinned implies later(
            w[k],
            v.items[i],
        ) by {
            let z = s[i];
            assert(z == v.items[i]);
            assert(s.contains(z));
            assert(w.contains(w[k]));
            s.lemma_filter_contains_rev(keep_pred(kept_unpinned(s, limit)), w[k]);
            if w.contains(z) {
                let m = choose|m: int| 0 <= m < w.len() && w[m] == z;
                assert(w[m].id == v.items[i].id);
            }
            lemma_prune_drops_oldest(s, limit, w[k], z);
        }
    }
}

/// Copying content that the history already holds adds no entry and hands
/// out no id.
pub proof fn lemma_insert_known_content_adds_nothing(v: HistoryView, item: NewClipboardItem, limit: int, now: String)
    requires
        history_wf(v),
        has_hash(v.items, item.hash@),
    ensures
        insert_outcome(v, item, limit, now) matches Ok(w) && w.last_id == v.last_id && w.items.len()
            <= v.items.len(),
{
}

/// Copying new content, with room for at least one unpinned entry and a
/// clock that has not gone back, stores it, and it is the most recent
/// unpinned entry.
pub proof fn lemma_insert_new_content_is_kept(v: HistoryView, item: NewClipboardItem, limit: int, now: String)
    requires
        history_wf(v),
        !has_hash(v.items, item.hash@),
        v.last_id < i64::MAX,
        1 <= limit,
        forall|i: int| 0 <= i < v.items.len() ==> !text_less(now@, #[trigger] v.items[i].created_at@),
    ensures
        insert_outcome(v, item, limit, now) matches Ok(w) && w.items.contains(
            stored(item, v.last_id + 1, now),
        ) && w.last_id == v.last_id + 1,
        forall|i: int|
            0 <= i < v.items.len() && !v.items[i].pinned ==> later(
                stored(item, v.last_id + 1, now),
                #[trigger] v.items[i],
            ),
{
    let x = stored(item, v.last_id + 1, now);
    let s = v.items.push(x);
    assert(ids_distinct(s)) by {
        assert forall|i: int, j: int| 0 <= i < s.len() && 0 <= j < s.len() && i != j implies #[trigger] s[i].id
            != #[trigger] s[j].id by {
            if i < v.items.len() && j < v.items.len() {
                assert(v.items[i].id != v.items[j].id);
            } else if i < v.items.len() {
                assert(v.items[i].id <= v.last_id);
            } else {
                assert(v.items[j].id <= v.last_id);
            }
        }
    }
    let u = s.filter(unpinned_pred());
    lemma_filter_wf(s, unpinned_pred(), 0);
    lemma_history_order_exists(u);
    let h = history_order(u);
    s.lemma_filter_contains(unpinned_pred(), s.len() - 1);
    assert(s[s.len() - 1] == x);
    assert(h.to_multiset().count(x) > 0);
    let k = choose|k: int| 0 <= k < h.len() && h[k] == x;
    if k > 0 {
        assert(precedes(h[0], h[k]));
        assert(h.to_multiset().count(h[0]) > 0);
        assert(u.contains(h[0]));
        s.lemma_filter_contains_rev(unpinned_pred(), h[0]);
        let m = choose|m: int| 0 <= m < s.len() && s[m] == h[0];
        if m < v.items.len() {
            assert(!text_less(now@, v.items[m].created_at@));
            lemma_text_less_strict_total(now@, v.items[m].created_at@, now@);
            assert(v.items[m].id <= v.last_id);
        }
    }
    let keep = kept_unpinned(s, limit);
    assert(keep[0] == x);
    assert(keep_pred(keep)(s[s.len() - 1]));
    s.lemma_filter_contains(keep_pred(keep), s.len() - 1);
    assert forall|i: int| 0 <= i < v.items.len() && !v.items[i].pinned implies later(
        x,
        #[trigger] v.items[i],
    ) by {
        assert(v.items[i].id <= v.last_id);
        assert(!text_less(now@, v.items[i].created_at@));
        lemma_text_less_strict_total(now@, v.items[i].created_at@, now@);
    }
}

/// Pinning the same entry twice leaves the history as it was.
pub proof fn lemma_pin_twice_restores(v: HistoryView, id: i64)
    requires
        history_wf(v),
    ensures
        pin_outcome(pin_outcome(v, id), id) == v,
{
    if has_id(v.items, id) {
        let i = id_position(v.items, id);
        let w = pin_outcome(v, id);
        assert(w.items[i].id == id);
        assert(has_id(w.items, id));
        let j = id_position(w.items, id);
        if j != i {
            assert(v.items[j].id == w.items[j].id);
        }
        assert(j == i);
        assert(toggled(toggled(v.items[i])) == v.items[i]);
        assert(pin_outcome(w, id).items =~= v.items);
    }
}

/// After deleting the entry with `id`, no entry has that id, and every
/// other entry is still there.
pub proof fn lemma_delete_removes_only_that_entry(v: HistoryView, id: i64, i: int)
    requires
        0 <= i < v.items.len(),
    ensures
        !has_id(v.items.filter(other_id_pred(id)), id),
        v.items[i].id != id ==> v.items.filter(other_id_pred(id)).contains(v.items[i]),
{
    let f = v.items.filter(other_id_pred(id));
    if has_id(f, id) {
        let k = choose|k: int| 0 <= k < f.len() && f[k].id == id;
        assert(other_id_pred(id)(f[k]));
    }
    if v.items[i].id != id {
        v.items.lemma_filter_contains(other_id_pred(id), i);
    }
}

/// Clearing keeps exactly the pinned entries.
pub proof fn lemma_clear_keeps_exactly_pinned(s: Seq<ClipboardItem>, i: int)
    requires
        0 <= i < s.len(),
    ensures
        s[i].pinned ==> s.filter(pinned_pred()).contains(s[i]),
        forall|k: int| 0 <= k < s.filter(pinned_pred()).len() ==> (#[trigger] s.filter(pinned_pred())[k]).pinned,
{
    if s[i].pinned {
        s.lemma_filter_contains(pinned_pred(), i);
    }
    assert forall|k: int| 0 <= k < s.filter(pinned_pred()).len() implies (#[trigger] s.filter(
        pinned_pred(),
    )[k]).pinned by {
        assert(pinned_pred()(s.filter(pinned_pred())[k]));
    }
}

/// In the listing, pinned entries come first, and each part runs from most
/// to least recently copied.
pub proof fn lemma_listing_order(s: Seq<ClipboardItem>, i: int, j: int)
    requires
        ids_distinct(s),
        0 <= i < j < s.len(),
    ensures
        ({
            let h = history_order(s);
            &&& h.len() == s.len()
            &&& h[j].pinned ==> h[i].pinned
            &&& h[i].pinned == h[j].pinned ==> later(h[i], h[j])
        }),
{
    lemma_history_order_exists(s);
    let h = history_order(s);
    assert(h.to_multiset().len() == h.len());
    assert(s.to_multiset().len() == s.len());
    assert(precedes(h[i], h[j]));
}

/// A search lists at most 50 entries, each a text entry holding the query.
pub proof fn lemma_search_results_match(s: Seq<ClipboardItem>, query: Seq<char>, k: int)
    requires
        ids_distinct(s),
        0 <= k < page(history_order(s.filter(search_pred(query))), search_page_size(), 0).len(),
    ensures
        page(history_order(s.filter(search_pred(query))), search_page_size(), 0).len() <= 50,
        search_pred(query)(page(history_order(s.filter(search_pred(query))), search_page_size(), 0)[k]),
{
    let f = s.filter(search_pred(query));
    lemma_filter_wf(s, search_pred(query), 0);
    lemma_history_order_exists(f);
    let h = history_order(f);
    let r = page(h, search_page_size(), 0);
    assert(r[k] == h[k]);
    assert(h.to_multiset().count(h[k]) > 0);
    assert(f.contains(h[k]));
    let m = choose|m: int| 0 <= m < f.len() && f[m] == h[k];
    assert(search_pred(query)(f[m]));
}

/// When the window fits on its monitor, the placement near the cursor keeps
/// it entirely on that monitor.
pub proof fn lemma_near_cursor_stays_on_monitor(c: Position, w: Size, m: MonitorArea)
    requires
        w.width <= m.size.width <= i32::MAX,
        w.height <= m.size.height <= i32::MAX,
    ensures
        ({
            let p = near_cursor(c, w, m);
            &&& m.position.x <= p.0
            &&& p.0 + w.width <= m.position.x + m.size.width
            &&& m.position.y <= p.1
            &&& p.1 + w.height <= m.position.y + m.size.height
        }),
{
}

/// Storing content not yet held creates exactly one entry under the next id,
/// and that entry holds what was copied: the kind, the whole text, the image
/// file, the preview and the hash of the item, unpinned, timed `now`. When
/// there is room for an unpinned entry and the clock has not gone back, that
/// entry is kept.
pub proof fn lemma_insert_stores_the_copied_content(v: HistoryView, item: NewClipboardItem, limit: int, now: String)
    requires
        history_wf(v),
        !has_hash(v.items, item.hash@),
        v.last_id < i64::MAX,
    ensures
        insert_outcome(v, item, limit, now) matches Ok(w) && w.last_id == v.last_id + 1,
        match insert_outcome(v, item, limit, now) {
            Ok(w) => {
                &&& forall|k: int|
                    0 <= k < w.items.len() && (#[trigger] w.items[k]).id == v.last_id + 1 ==> {
                        &&& w.items[k].content_type == item.content_type
                        &&& w.items[k].text_content == item.text_content
                        &&& w.items[k].image_path == item.image_path
                        &&& w.items[k].preview == item.preview
                        &&& w.items[k].hash == item.hash
                        &&& !w.items[k].pinned
                        &&& w.items[k].created_at == now
                    }
                &&& (1 <= limit && (forall|i: int|
                    0 <= i < v.items.len() ==> !text_less(now@, #[trigger] v.items[i].created_at@)))
                    ==> exists|k: int|
                    0 <= k < w.items.len() && (#[trigger] w.items[k]).id == v.last_id + 1
            },
            Err(_) => false,
        },
{
    let x = stored(item, v.last_id + 1, now);
    let s = v.items.push(x);
    let w = prune(s, limit);
    assert forall|k: int| 0 <= k < w.len() && (#[trigger] w[k]).id == v.last_id + 1 implies w[k] == x by {
        assert(w.contains(w[k]));
        s.lemma_filter_contains_rev(keep_pred(kept_unpinned(s, limit)), w[k]);
        let m = choose|m: int| 0 <= m < s.len() && s[m] == w[k];
        if m < v.items.len() {
            assert(v.items[m].id <= v.last_id);
        }
    }
    if 1 <= limit && (forall|i: int|
        0 <= i < v.items.len() ==> !text_less(now@, #[trigger] v.items[i].created_at@)) {
        lemma_insert_new_content_is_kept(v, item, limit, now);
        let k = choose|k: int| 0 <= k < w.len() && w[k] == x;
        assert(w[k].id == v.last_id + 1);
    }
}

/// Pasting an entry puts back what it stores: a text entry's whole text,
/// an image entry's file; nothing when that field is empty.
pub proof fn lemma_paste_puts_back_stored_content(x: ClipboardItem)
    ensures
        x.content_type == ContentType::Text ==> match x.text_content {
            Some(t) => paste_action(x) == PasteAction::SetText(t),
            None => paste_action(x) is Nothing,
        },
        x.content_type == ContentType::Image ==> match x.image_path {
            Some(p) => paste_action(x) == PasteAction::SetImage(p),
            None => paste_action(x) is Nothing,
        },
{
}

/// A search finds entries by their whole stored text: every entry it lists
/// is a text entry whose text matches `%query%`, and when fewer than 50
/// match, every text entry whose text matches is listed.
pub proof fn lemma_search_matches_stored_text(s: Seq<ClipboardItem>, query: Seq<char>)
    requires
        ids_distinct(s),
    ensures
        ({
            let r = page(history_order(s.filter(search_pred(query))), search_page_size(), 0);
            &&& forall|k: int|
                0 <= k < r.len() ==> (#[trigger] r[k]).content_type == ContentType::Text && match r[k].text_content {
                    Some(t) => like(t@, search_pattern(query)),
                    None => false,
                }
            &&& r.len() < 50 ==> forall|i: int|
                0 <= i < s.len() && (#[trigger] s[i]).content_type == ContentType::Text && match s[i].text_content {
                    Some(t) => like(t@, search_pattern(query)),
                    None => false,
                } ==> r.contains(s[i])
        }),
{
    let f = s.filter(search_pred(query));
    lemma_filter_wf(s, search_pred(query), 0);
    lemma_history_order_exists(f);
    let h = history_order(f);
    let r = page(h, search_page_size(), 0);
    assert forall|k: int| 0 <= k < r.len() implies (#[trigger] r[k]).content_type == ContentType::Text
        && match r[k].text_content {
        Some(t) => like(t@, search_pattern(query)),
        None => false,
    } by {
        lemma_search_results_match(s, query, k);
    }
    if r.len() < 50 {
        assert(h.to_multiset().len() == h.len());
        assert(r == h);
        assert forall|i: int|
            0 <= i < s.len() && (#[trigger] s[i]).content_type == ContentType::Text && match s[i].text_content {
                Some(t) => like(t@, search_pattern(query)),
                None => false,
            } implies r.contains(s[i]) by {
            assert(search_pred(query)(s[i]));
            s.lemma_filter_contains(search_pred(query), i);
            assert(f.to_multiset().count(s[i]) > 0);
            assert(h.to_multiset().count(s[i]) > 0);
        }
    }
}

/// The notification shows a text preview cut to its first 100 UTF-8 bytes,
/// marked with `...`, when it is longer than that, and whole otherwise.
pub proof fn lemma_notification_cuts_preview_to_100_bytes(p: Seq<char>)
    requires
        cuts_on_char_boundary(p, 100),
    ensures
        encode_utf8(p).len() > 100 ==> exists|q: Seq<char>|
            notification_text(true, ContentType::Text, Some(p)) == "Copied: "@ + q + "..."@
                && #[trigger] encode_utf8(q) == encode_utf8(p).subrange(0, 100),
        encode_utf8(p).len() <= 100 ==> notification_text(true, ContentType::Text, Some(p))
            == "Copied: "@ + p,
{
    let b = encode_utf8(p);
    if b.len() > 100 {
        vstd::utf8::encode_utf8_valid_utf8(p);
        vstd::utf8::valid_utf8_split(b, 100);
        let q = vstd::utf8::decode_utf8(b.subrange(0, 100));
        vstd::utf8::decode_utf8_encode_utf8(b.subrange(0, 100));
        assert(encode_utf8(q) == b.subrange(0, 100));
        assert(notification_text(true, ContentType::Text, Some(p)) == "Copied: "@ + q + "..."@);
    }
}

} // verus!
