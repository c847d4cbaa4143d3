//! The clipboard history: what is stored, what an insert keeps and prunes,
//! how the history is listed, searched, pinned, deleted and cleared.

use vstd::prelude::*;
use crate::item::{ClipboardItem, ContentType, NewClipboardItem};
use crate::order::{
    history_order, ids_distinct, is_history_order, page, sort_history,
};
use crate::pattern::{chars_of, like, search_pattern, text_matches};

verus! {

broadcast use {
    vstd::seq_lib::group_to_multiset_ensures,
    vstd::multiset::group_multiset_axioms,
    vstd::seq_lib::group_filter_ensures,
    vstd::seq::group_seq_axioms,
};

/// Why the history refused an insert.
#[derive(Clone, Copy, Debug, PartialEq, Eq, Structural)]
pub enum StoreError {
    /// Every id up to `i64::MAX` has been handed out; no new entry can get one.
    IdsExhausted,
}

/// The abstract state of the history: its entries, in storage order, and
/// the largest id ever handed out.
pub struct HistoryView {
    pub items: Seq<ClipboardItem>,
    pub last_id: int,
}

/// The clipboard history.
pub struct ClipboardHistory {
    items: Vec<ClipboardItem>,
    last_id: i64,
}

impl View for ClipboardHistory {
    type V = HistoryView;

    closed spec fn view(&self) -> HistoryView {
        HistoryView { items: self.items@, last_id: self.last_id as int }
    }
}

/// No two entries share a hash.
pub open spec fn hashes_distinct(s: Seq<ClipboardItem>) -> bool {
    forall|i: int, j: int|
        #![trigger s[i], s[j]]
        0 <= i < s.len() && 0 <= j < s.len() && i != j ==> s[i].hash@ != s[j].hash@
}

/// Every id was handed out: it lies in `1 ..= last_id`.
pub open spec fn ids_in_range(s: Seq<ClipboardItem>, last_id: int) -> bool {
    forall|i: int| 0 <= i < s.len() ==> 1 <= #[trigger] s[i].id <= last_id
}

/// What every history keeps: unique ids, unique hashes, ids handed out in order.
pub open spec fn history_wf(v: HistoryView) -> bool {
    &&& ids_distinct(v.items)
    &&& hashes_distinct(v.items)
    &&& 0 <= v.last_id <= i64::MAX
    &&& ids_in_range(v.items, v.last_id)
}

pub open spec fn unpinned_pred() -> spec_fn(ClipboardItem) -> bool {
    |x: ClipboardItem| !x.pinned
}

pub open spec fn pinned_pred() -> spec_fn(ClipboardItem) -> bool {
    |x: ClipboardItem| x.pinned
}

/// The unpinned entries that survive pruning to `limit`: the `limit` most
/// recent ones.
pub open spec fn kept_unpinned(s: Seq<ClipboardItem>, limit: int) -> Seq<ClipboardItem> {
    page(history_order(s.filter(unpinned_pred())), limit, 0)
}

pub open spec fn keep_pred(keep: Seq<ClipboardItem>) -> spec_fn(ClipboardItem) -> bool {
    |x: ClipboardItem| x.pinned || keep.contains(x)
}

/// `s` pruned to `limit` unpinned entries: every pinned entry stays, and of the
/// unpinned ones only the `limit` most recent.
pub open spec fn prune(s: Seq<ClipboardItem>, limit: int) -> Seq<ClipboardItem> {
    s.filter(keep_pred(kept_unpinned(s, limit)))
}

pub open spec fn has_hash(s: Seq<ClipboardItem>, h: Seq<char>) -> bool {
    exists|i: int| 0 <= i < s.len() && s[i].hash@ == h
}

pub open spec fn hash_position(s: Seq<ClipboardItem>, h: Seq<char>) -> int {
    choose|i: int| 0 <= i < s.len() && s[i].hash@ == h
}

pub open spec fn has_id(s: Seq<ClipboardItem>, id: i64) -> bool {
    exists|i: int| 0 <= i < s.len() && s[i].id == id
}

pub open spec fn id_position(s: Seq<ClipboardItem>, id: i64) -> int {
    choose|i: int| 0 <= i < s.len() && s[i].id == id
}

/// `x` copied again at `now`.
pub open spec fn touched(x: ClipboardItem, now: String) -> ClipboardItem {
    ClipboardItem { created_at: now, ..x }
}

/// The entry that storing `item` under `id` at `now` creates.
pub open spec fn stored(item: NewClipboardItem, id: int, now: String) -> ClipboardItem {
    ClipboardItem {
        id: id as i64,
        content_type: item.content_type,
        text_content: item.text_content,
        image_path: item.image_path,
        preview: item.preview,
        pinned: false,
        created_at: now,
        hash: item.hash,
    }
}

/// Inserting `item` at `now` and pruning to `limit`: an entry with the same
/// hash is moved to `now` instead of being added twice; otherwise the item is
/// stored under the next id, unless no id is left.
pub open spec fn insert_outcome(v: HistoryView, item: NewClipboardItem, limit: int, now: String) -> Result<
    HistoryView,
    StoreError,
> {
    if has_hash(v.items, item.hash@) {
        let i = hash_position(v.items, item.hash@);
        Ok(
            HistoryView {
                items: prune(v.items.update(i, touched(v.items[i], now)), limit),
                last_id: v.last_id,
            },
        )
    } else if v.last_id >= i64::MAX {
        Err(StoreError::IdsExhausted)
    } else {
        Ok(
            HistoryView {
                items: prune(v.items.push(stored(item, v.last_id + 1, now)), limit),
                last_id: v.last_id + 1,
            },
        )
    }
}

/// `x` with its pin flipped.
pub open spec fn toggled(x: ClipboardItem) -> ClipboardItem {
    ClipboardItem { pinned: !x.pinned, ..x }
}

/// Flipping the pin of the entry with `id`, if there is one.
pub open spec fn pin_outcome(v: HistoryView, id: i64) -> HistoryView {
    if has_id(v.items, id) {
        let i = id_position(v.items, id);
        HistoryView { items: v.items.update(i, toggled(v.items[i])), last_id: v.last_id }
    } else {
        v
    }
}

pub open spec fn other_id_pred(id: i64) -> spec_fn(ClipboardItem) -> bool {
    |x: ClipboardItem| x.id != id
}

/// Entries whose text holds `query` under LIKE's rules; images never match.
pub open spec fn search_pred(query: Seq<char>) -> spec_fn(ClipboardItem) -> bool {
    |x: ClipboardItem|
        x.content_type == ContentType::Text && match x.text_content {
            Some(t) => like(t@, search_pattern(query)),
            None => false,
        }
}

/// The image file of an unpinned entry, which clearing the history deletes.
pub open spec fn cleared_image(x: ClipboardItem) -> Option<String> {
    if !x.pinned {
        x.image_path
    } else {
        None
    }
}

pub open spec fn cleared_image_fn() -> spec_fn(ClipboardItem) -> Option<String> {
    |x: ClipboardItem| cleared_image(x)
}

/// How many entries a search lists at most.
pub open spec fn search_page_size() -> int {
    50
}

/// How many entries from the top of the history a paste looks through.
pub open spec fn paste_window() -> int {
    500
}

/// What deleting an entry did.
#[derive(Debug)]
pub struct Deletion {
    /// An entry with the id existed and was removed.
    pub removed: bool,
    /// Its image file, which the caller deletes from disk.
    pub image_path: Option<String>,
}

/// What clearing the history did.
#[derive(Debug)]
pub struct Clearing {
    /// At least one entry was removed.
    pub removed: bool,
    /// The image files of the removed entries, which the caller deletes from disk.
    pub image_paths: Vec<String>,
}

/// What pasting an entry puts on the clipboard.
#[derive(Debug)]
pub enum PasteAction {
    SetText(String),
    /// The image stored at this path.
    SetImage(String),
    /// The entry has no content to paste.
    Nothing,
}

/// Why a paste did nothing.
#[derive(Clone, Copy, Debug, PartialEq, Eq, Structural)]
pub enum PasteError {
    /// No entry with the id is among the first entries of the history.
    NotFound,
}

pub open spec fn paste_action(x: ClipboardItem) -> PasteAction {
    match x.content_type {
        ContentType::Text => match x.text_content {
            Some(t) => PasteAction::SetText(t),
            None => PasteAction::Nothing,
        },
        ContentType::Image => match x.image_path {
            Some(p) => PasteAction::SetImage(p),
            None => PasteAction::Nothing,
        },
    }
}

/// `s[..i + 1]` filtered is `s[..i]` filtered, then `s[i]` if it passes.
pub proof fn lemma_filter_take_step(s: Seq<ClipboardItem>, pred: spec_fn(ClipboardItem) -> bool, i: int)
    requires
        0 <= i < s.len(),
    ensures
        s.take(i + 1).filter(pred) == if pred(s[i]) {
            s.take(i).filter(pred).push(s[i])
        } else {
            s.take(i).filter(pred)
        },
{
    assert(s.take(i + 1) =~= s.take(i).push(s[i]));
    s.take(i).lemma_filter_push(s[i], pred);
}

/// Filtering keeps what a history keeps.
pub proof fn lemma_filter_wf(s: Seq<ClipboardItem>, pred: spec_fn(ClipboardItem) -> bool, last_id: int)
    ensures
        ids_distinct(s) ==> ids_distinct(s.filter(pred)),
        hashes_distinct(s) ==> hashes_distinct(s.filter(pred)),
        ids_in_range(s, last_id) ==> ids_in_range(s.filter(pred), last_id),
    decreases s.len(),
{
    let f = s.filter(pred);
    if ids_in_range(s, last_id) {
        assert forall|i: int| 0 <= i < f.len() implies 1 <= #[trigger] f[i].id <= last_id by {
            assert(f.contains(f[i]));
            s.lemma_filter_contains_rev(pred, f[i]);
        }
    }
    if s.len() > 0 {
        let n = s.len() - 1;
        let init = s.drop_last();
        assert(s =~= init.push(s[n]));
        assert(ids_distinct(s) ==> ids_distinct(init));
        assert(hashes_distinct(s) ==> hashes_distinct(init));
        lemma_filter_wf(init, pred, last_id);
        init.lemma_filter_push(s[n], pred);
        let g = init.filter(pred);
        if pred(s[n]) {
            assert forall|a: int| 0 <= a < g.len() implies exists|m: int|
                0 <= m < n && #[trigger] s[m] == #[trigger] g[a] by {
                assert(g.contains(g[a]));
                init.lemma_filter_contains_rev(pred, g[a]);
                let m = choose|m: int| 0 <= m < init.len() && init[m] == g[a];
                assert(s[m] == g[a]);
            }
            assert(f == g.push(s[n]));
            if ids_distinct(s) {
                assert forall|i: int, j: int|
                    0 <= i < f.len() && 0 <= j < f.len() && i != j implies #[trigger] f[i].id
                    != #[trigger] f[j].id by {
                    if i < g.len() && j < g.len() {
                        assert(f[i] == g[i] && f[j] == g[j]);
                    } else if i < g.len() {
                        assert(f[i] == g[i]);
                        let m = choose|m: int| 0 <= m < n && #[trigger] s[m] == g[i];
                        assert(s[m].id != s[n].id);
                    } else {
                        assert(f[j] == g[j]);
                        let m = choose|m: int| 0 <= m < n && #[trigger] s[m] == g[j];
                        assert(s[m].id != s[n].id);
                    }
                }
            }
            if hashes_distinct(s) {
                assert forall|i: int, j: int|
                    0 <= i < f.len() && 0 <= j < f.len() && i != j implies #[trigger] f[i].hash@
                    != #[trigger] f[j].hash@ by {
                    if i < g.len() && j < g.len() {
                        assert(f[i] == g[i] && f[j] == g[j]);
                    } else if i < g.len() {
                        assert(f[i] == g[i]);
                        let m = choose|m: int| 0 <= m < n && #[trigger] s[m] == g[i];
                        assert(s[m].hash@ != s[n].hash@);
                    } else {
                        assert(f[j] == g[j]);
                        let m = choose|m: int| 0 <= m < n && #[trigger] s[m] == g[j];
                        assert(s[m].hash@ != s[n].hash@);
                    }
                }
            }
        }
    }
}

/// Two entries of a distinct-id sequence with the same id are the same entry.
pub proof fn lemma_same_id_same_item(s: Seq<ClipboardItem>, a: ClipboardItem, b: ClipboardItem)
    requires
        ids_distinct(s),
        s.contains(a),
        s.contains(b),
        a.id == b.id,
    ensures
        a == b,
{
    let i = choose|i: int| 0 <= i < s.len() && s[i] == a;
    let j = choose|j: int| 0 <= j < s.len() && s[j] == b;
    assert(s[i].id == s[j].id);
}

/// The entries of `v` at positions `offset .. offset + limit`.
fn page_of(v: &Vec<ClipboardItem>, limit: usize, offset: usize) -> (r: Vec<ClipboardItem>)
    ensures
        r@ == page(v@, limit as int, offset as int),
{
    let n = v.len();
    let start = if offset < n {
        offset
    } else {
        n
    };
    let end = if offset < n && limit < n - offset {
        offset + limit
    } else {
        n
    };
    let mut r: Vec<ClipboardItem> = Vec::new();
    let mut k = start;
    while k < end
        invariant
            n == v.len(),
            start <= k <= end <= n,
            r@ == v@.subrange(start as int, k as int),
        decreases end - k,
    {
        r.push(v[k].clone());
        proof {
            assert(v@.subrange(start as int, k + 1) =~= v@.subrange(start as int, k as int).push(
                v@[k as int],
            ));
        }
        k = k + 1;
    }
    r
}

/// `s` pruned to `limit` unpinned entries.
fn prune_items(items: &Vec<ClipboardItem>, limit: u32) -> (r: Vec<ClipboardItem>)
    requires
        ids_distinct(items@),
    ensures
        r@ == prune(items@, limit as int),
{
    let n = items.len();
    let mut up: Vec<ClipboardItem> = Vec::new();
    for i in 0..n
        invariant
            n == items.len(),
            up@ == items@.take(i as int).filter(unpinned_pred()),
    {
        if !items[i].pinned {
            up.push(items[i].clone());
        }
        proof {
            lemma_filter_take_step(items@, unpinned_pred(), i as int);
        }
    }
    proof {
        assert(items@.take(n as int) =~= items@);
        lemma_filter_wf(items@, unpinned_pred(), i64::MAX as int);
    }
    let sorted = sort_history(&up);
    let keep_len = if (limit as usize) < sorted.len() {
        limit as usize
    } else {
        sorted.len()
    };
    let ghost kept = sorted@.subrange(0, keep_len as int);
    assert(kept == kept_unpinned(items@, limit as int));
    let mut r: Vec<ClipboardItem> = Vec::new();
    for i in 0..n
        invariant
            n == items.len(),
            ids_distinct(items@),
            up@ == items@.filter(unpinned_pred()),
            is_history_order(sorted@, up@),
            keep_len <= sorted.len(),
            kept == sorted@.subrange(0, keep_len as int),
            r@ == items@.take(i as int).filter(keep_pred(kept)),
    {
        let x = &items[i];
        let mut found = false;
        let mut a: usize = 0;
        while a < keep_len
            invariant
                keep_len <= sorted.len(),
                0 <= a <= keep_len,
                found <==> exists|b: int| 0 <= b < a && sorted@[b].id == x.id,
            decreases keep_len - a,
        {
            if sorted[a].id == x.id {
                found = true;
            }
            a = a + 1;
        }
        proof {
            if found {
                let b = choose|b: int| 0 <= b < keep_len && sorted@[b].id == x.id;
                assert(sorted@.to_multiset().count(sorted@[b]) > 0);
                assert(up@.contains(sorted@[b]));
                items@.lemma_filter_contains_rev(unpinned_pred(), sorted@[b]);
                assert(items@.contains(*x));
                lemma_same_id_same_item(items@, sorted@[b], *x);
                assert(kept[b] == *x);
                assert(kept.contains(*x));
            } else {
                if kept.contains(*x) {
                    let b = choose|b: int| 0 <= b < kept.len() && kept[b] == *x;
                    assert(sorted@[b].id == x.id);
                }
            }
            lemma_filter_take_step(items@, keep_pred(kept), i as int);
        }
        if x.pinned || found {
            r.push(x.clone());
        }
    }
    proof {
        assert(items@.take(n as int) =~= items@);
    }
    r
}

impl ClipboardHistory {
    pub open spec fn wf(&self) -> bool {
        history_wf(self@)
    }

    /// An empty history that has handed out no id.
    pub fn new() -> (h: Self)
        ensures
            h.wf(),
            h@.items == Seq::<ClipboardItem>::empty(),
            h@.last_id == 0,
    {
        ClipboardHistory { items: Vec::new(), last_id: 0 }
    }

    /// A history made of stored entries and the largest id handed out so
    /// far; `None` when they break what a history keeps.
    pub fn from_parts(items: Vec<ClipboardItem>, last_id: i64) -> (r: Option<Self>)
        ensures
            r is Some <==> history_wf((HistoryView { items: items@, last_id: last_id as int })),
            r matches Some(h) ==> h.wf() && h@ == (HistoryView {
                items: items@,
                last_id: last_id as int,
            }),
    {
        if last_id < 0 {
            return None;
        }
        let n = items.len();
        let mut i: usize = 0;
        while i < n
            invariant
                n == items.len(),
                0 <= last_id,
                0 <= i <= n,
                forall|a: int, b: int|
                    #![trigger items@[a], items@[b]]
                    0 <= a < i && 0 <= b < n && a != b ==> items@[a].id != items@[b].id
                        && items@[a].hash@ != items@[b].hash@,
                forall|a: int| 0 <= a < i ==> 1 <= #[trigger] items@[a].id <= last_id,
            decreases n - i,
        {
            if items[i].id < 1 || items[i].id > last_id {
                return None;
            }
            let mut j: usize = 0;
            while j < n
                invariant
                    n == items.len(),
                    0 <= i < n,
                    0 <= j <= n,
                    forall|b: int|
                        #![trigger items@[b]]
                        0 <= b < j && b != i ==> items@[i as int].id != items@[b].id
                            && items@[i as int].hash@ != items@[b].hash@,
                decreases n - j,
            {
                if j != i && (items[i].id == items[j].id || items[i].hash == items[j].hash) {
                    return None;
                }
                j = j + 1;
            }
            i = i + 1;
        }
        Some(ClipboardHistory { items, last_id })
    }

    /// The stored entries, in storage order.
    pub fn items(&self) -> (r: &Vec<ClipboardItem>)
        ensures
            r@ == self@.items,
    {
        &self.items
    }

    /// The largest id handed out so far.
    pub fn last_id(&self) -> (r: i64)
        ensures
            r == self@.last_id,
    {
        self.last_id
    }

    /// Stores a copied item at time `now`, then keeps only the `limit` most
    /// recent unpinned entries. An entry with the same hash is moved to `now`
    /// in place of a second copy.
    pub fn insert_item(&mut self, item: NewClipboardItem, limit: u32, now: String) -> (r: Result<
        (),
        StoreError,
    >)
        requires
            old(self).wf(),
        ensures
            final(self).wf(),
            match insert_outcome(old(self)@, item, limit as int, now) {
                Ok(v) => r is Ok && final(self)@ == v,
                Err(e) => r == Err::<(), StoreError>(e) && final(self)@ == old(self)@,
            },
    {
        let n = self.items.len();
        let mut i: usize = 0;
        let mut found = false;
        while i < n && !found
            invariant
                n == self.items.len(),
                self@ == old(self)@,
                self.wf(),
                0 <= i <= n,
                found ==> i < n && self.items@[i as int].hash@ == item.hash@,
                forall|j: int| 0 <= j < i ==> self.items@[j].hash@ != item.hash@,
            decreases n - i + (if found { 0int } else { 1int }),
        {
            if self.items[i].hash == item.hash {
                found = true;
            } else {
                i = i + 1;
            }
        }
        let ghost old_items = self.items@;
        if found {
            proof {
                let p = hash_position(old_items, item.hash@);
                assert(old_items[p].hash@ == item.hash@);
                assert(p == i as int);
            }
            let mut x = self.items[i].clone();
            x.created_at = now;
            self.items.set(i, x);
            proof {
                assert(self.items@ == old_items.update(i as int, touched(old_items[i as int], now)));
                assert forall|a: int, b: int|
                    0 <= a < n && 0 <= b < n && a != b implies #[trigger] self.items@[a].id
                    != #[trigger] self.items@[b].id && self.items@[a].hash@ != self.items@[b].hash@ by {
                    assert(old_items[a].id != old_items[b].id);
                }
                assert(ids_in_range(self.items@, self.last_id as int));
            }
        } else {
            assert(!has_hash(old_items, item.hash@));
            if self.last_id == i64::MAX {
                return Err(StoreError::IdsExhausted);
            }
            let id = self.last_id + 1;
            let entry = ClipboardItem {
                id,
                content_type: item.content_type,
                text_content: item.text_content,
                image_path: item.image_path,
                preview: item.preview,
                pinned: false,
                created_at: now,
                hash: item.hash,
            };
            self.items.push(entry);
            self.last_id = id;
            proof {
                assert(self.items@ == old_items.push(stored(item, id as int, now)));
                assert forall|a: int, b: int|
                    0 <= a < n + 1 && 0 <= b < n + 1 && a != b implies #[trigger] self.items@[a].id
                    != #[trigger] self.items@[b].id && self.items@[a].hash@ != self.items@[b].hash@ by {
                    if a < n && b < n {
                        assert(old_items[a].id != old_items[b].id);
                    } else if a < n {
                        assert(old_items[a].id <= old(self).last_id);
                    } else {
                        assert(old_items[b].id <= old(self).last_id);
                    }
                }
                assert(ids_in_range(self.items@, self.last_id as int));
            }
        }
        let ghost before_prune = self.items@;
        let pruned = prune_items(&self.items, limit);
        self.items = pruned;
        proof {
            lemma_filter_wf(
                before_prune,
                keep_pred(kept_unpinned(before_prune, limit as int)),
                self.last_id as int,
            );
        }
        Ok(())
    }

    /// The entries at positions `offset .. offset + limit` of the history in
    /// listing order: pinned first, then most recent first.
    pub fn get_history(&self, limit: u32, offset: u32) -> (r: Vec<ClipboardItem>)
        requires
            self.wf(),
        ensures
            r@ == page(history_order(self@.items), limit as int, offset as int),
    {
        let sorted = sort_history(&self.items);
        page_of(&sorted, limit as usize, offset as usize)
    }

    /// The first 50 entries, in listing order, whose text holds `query`
    /// under LIKE's rules (`%` any run, `_` any character, ASCII case ignored).
    pub fn search_history(&self, query: &str) -> (r: Vec<ClipboardItem>)
        requires
            self.wf(),
        ensures
            r@ == page(
                history_order(self@.items.filter(search_pred(query@))),
                search_page_size(),
                0,
            ),
    {
        let q = chars_of(query);
        let n = self.items.len();
        let mut found: Vec<ClipboardItem> = Vec::new();
        for i in 0..n
            invariant
                n == self.items.len(),
                q@ == query@,
                found@ == self.items@.take(i as int).filter(search_pred(query@)),
        {
            let x = &self.items[i];
            let hit = match &x.text_content {
                Some(t) => x.content_type == ContentType::Text && text_matches(t.as_str(), &q),
                None => false,
            };
            proof {
                lemma_filter_take_step(self.items@, search_pred(query@), i as int);
            }
            if hit {
                found.push(x.clone());
            }
        }
        proof {
            assert(self.items@.take(n as int) =~= self.items@);
            lemma_filter_wf(self.items@, search_pred(query@), self.last_id as int);
        }
        let sorted = sort_history(&found);
        page_of(&sorted, 50, 0)
    }

    /// Flips the pin of the entry with `id`; tells whether there was one.
    pub fn pin_item(&mut self, id: i64) -> (r: bool)
        requires
            old(self).wf(),
        ensures
            final(self).wf(),
            r == has_id(old(self)@.items, id),
            final(self)@ == pin_outcome(old(self)@, id),
    {
        let n = self.items.len();
        let mut i: usize = 0;
        while i < n
            invariant
                n == self.items.len(),
                self@ == old(self)@,
                self.wf(),
                0 <= i <= n,
                forall|j: int| 0 <= j < i ==> self.items@[j].id != id,
            decreases n - i,
        {
            if self.items[i].id == id {
                let ghost old_items = self.items@;
                proof {
                    let p = id_position(old_items, id);
                    assert(old_items[p].id == id);
                    assert(p == i as int);
                }
                let mut x = self.items[i].clone();
                x.pinned = !x.pinned;
                self.items.set(i, x);
                proof {
                    assert(self.items@ == old_items.update(i as int, toggled(old_items[i as int])));
                    assert forall|a: int, b: int|
                        0 <= a < n && 0 <= b < n && a != b implies #[trigger] self.items@[a].id
                        != #[trigger] self.items@[b].id && self.items@[a].hash@
                        != self.items@[b].hash@ by {
                        assert(old_items[a].id != old_items[b].id);
                    }
                    assert(ids_in_range(self.items@, self.last_id as int));
                }
                return true;
            }
            i = i + 1;
        }
        false
    }

    /// Removes the entry with `id`; tells whether there was one, and its image file.
    pub fn delete_item(&mut self, id: i64) -> (r: Deletion)
        requires
            old(self).wf(),
        ensures
            final(self).wf(),
            r.removed == has_id(old(self)@.items, id),
            r.image_path == if has_id(old(self)@.items, id) {
                old(self)@.items[id_position(old(self)@.items, id)].image_path
            } else {
                None::<String>
            },
            final(self)@ == (HistoryView {
                items: old(self)@.items.filter(other_id_pred(id)),
                last_id: old(self)@.last_id,
            }),
    {
        let n = self.items.len();
        let mut kept: Vec<ClipboardItem> = Vec::new();
        let mut image_path: Option<String> = None;
        let mut removed = false;
        for i in 0..n
            invariant
                n == self.items.len(),
                self.wf(),
                kept@ == self.items@.take(i as int).filter(other_id_pred(id)),
                removed <==> exists|j: int| 0 <= j < i && self.items@[j].id == id,
                removed ==> image_path == self.items@[id_position(self.items@, id)].image_path,
                !removed ==> image_path is None,
        {
            let x = &self.items[i];
            if x.id == id {
                proof {
                    let p = id_position(self.items@, id);
                    assert(self.items@[p].id == id);
                    assert(p == i as int);
                }
                image_path = crate::item::clone_optional_string(&x.image_path);
                removed = true;
            } else {
                kept.push(x.clone());
            }
            proof {
                lemma_filter_take_step(self.items@, other_id_pred(id), i as int);
            }
        }
        proof {
            assert(self.items@.take(n as int) =~= self.items@);
            lemma_filter_wf(self.items@, other_id_pred(id), self.last_id as int);
        }
        self.items = kept;
        Deletion { removed, image_path }
    }

    /// Removes every unpinned entry; tells whether any was removed, and their
    /// image files in storage order.
    pub fn clear_history(&mut self) -> (r: Clearing)
        requires
            old(self).wf(),
        ensures
            final(self).wf(),
            r.removed == exists|i: int|
                0 <= i < old(self)@.items.len() && !(#[trigger] old(self)@.items[i]).pinned,
            r.image_paths@ == old(self)@.items.filter_map(cleared_image_fn()),
            final(self)@ == (HistoryView {
                items: old(self)@.items.filter(pinned_pred()),
                last_id: old(self)@.last_id,
            }),
    {
        let n = self.items.len();
        let mut kept: Vec<ClipboardItem> = Vec::new();
        let mut paths: Vec<String> = Vec::new();
        let mut removed = false;
        let ghost f = cleared_image_fn();
        for i in 0..n
            invariant
                n == self.items.len(),
                self.wf(),
                f == cleared_image_fn(),
                kept@ == self.items@.take(i as int).filter(pinned_pred()),
                paths@ == self.items@.take(i as int).filter_map(f),
                removed <==> exists|j: int| 0 <= j < i && !(#[trigger] self.items@[j]).pinned,
        {
            let x = &self.items[i];
            if x.pinned {
                kept.push(x.clone());
            } else {
                removed = true;
                match &x.image_path {
                    Some(p) => paths.push(p.clone()),
                    None => {},
                }
            }
            proof {
                lemma_filter_take_step(self.items@, pinned_pred(), i as int);
                self.items@.lemma_filter_map_take_succ(f, i as int);
            }
        }
        proof {
            assert(self.items@.take(n as int) =~= self.items@);
            lemma_filter_wf(self.items@, pinned_pred(), self.last_id as int);
        }
        self.items = kept;
        Clearing { removed, image_paths: paths }
    }

    /// What pasting the entry with `id` puts on the clipboard; the entry is
    /// looked for among the first 500 entries of the history in listing order.
    pub fn paste_item(&self, id: i64) -> (r: Result<PasteAction, PasteError>)
        requires
            self.wf(),
        ensures
            ({
                let c = page(history_order(self@.items), paste_window(), 0);
                match r {
                    Ok(a) => exists|k: int| 0 <= k < c.len() && c[k].id == id && a == paste_action(c[k]),
                    Err(e) => e == PasteError::NotFound && forall|k: int| 0 <= k < c.len() ==> c[k].id != id,
                }
            }),
    {
        let candidates = self.get_history(500, 0);
        let n = candidates.len();
        let mut k: usize = 0;
        while k < n
            invariant
                n == candidates.len(),
                candidates@ == page(history_order(self@.items), paste_window(), 0),
                0 <= k <= n,
                forall|j: int| 0 <= j < k ==> candidates@[j].id != id,
            decreases n - k,
        {
            let x = &candidates[k];
            if x.id == id {
                let action = match x.content_type {
                    ContentType::Text => match &x.text_content {
                        Some(t) => PasteAction::SetText(t.clone()),
                        None => PasteAction::Nothing,
                    },
                    ContentType::Image => match &x.image_path {
                        Some(p) => PasteAction::SetImage(p.clone()),
                        None => PasteAction::Nothing,
                    },
                };
                return Ok(action);
            }
            k = k + 1;
        }
        Err(PasteError::NotFound)
    }
}

} // verus!
