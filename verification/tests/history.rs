use recopied::history::{ClipboardHistory, PasteAction, PasteError, StoreError};
use recopied::item::{ClipboardItem, ContentType, NewClipboardItem};

fn text(hash: &str, body: &str) -> NewClipboardItem {
    NewClipboardItem {
        content_type: ContentType::Text,
        text_content: Some(body.to_string()),
        image_path: None,
        preview: Some(body.to_string()),
        hash: hash.to_string(),
    }
}

fn image(hash: &str, path: &str) -> NewClipboardItem {
    NewClipboardItem {
        content_type: ContentType::Image,
        text_content: None,
        image_path: Some(path.to_string()),
        preview: None,
        hash: hash.to_string(),
    }
}

/// The local time `secs` seconds after midnight of a fixed day, as the history stores it.
fn at(secs: u64) -> String {
    format!("2026-04-14 {:02}:{:02}:{:02}", secs / 3600, (secs / 60) % 60, secs % 60)
}

fn ids(items: &[ClipboardItem]) -> Vec<i64> {
    items.iter().map(|i| i.id).collect()
}

#[test]
fn new_history_is_empty() {
    let h = ClipboardHistory::new();
    assert!(h.items().is_empty());
    assert_eq!(h.last_id(), 0);
    assert!(h.get_history(20, 0).is_empty());
}

#[test]
fn insert_assigns_increasing_ids_and_lists_newest_first() {
    let mut h = ClipboardHistory::new();
    h.insert_item(text("h1", "one"), 20, at(100)).unwrap();
    h.insert_item(text("h2", "two"), 20, at(200)).unwrap();
    h.insert_item(text("h3", "three"), 20, at(300)).unwrap();
    assert_eq!(h.last_id(), 3);
    assert_eq!(ids(&h.get_history(20, 0)), vec![3, 2, 1]);
    let first = &h.get_history(1, 0)[0];
    assert_eq!(first.text_content.as_deref(), Some("three"));
    assert!(!first.pinned);
    assert_eq!(first.created_at, "2026-04-14 00:05:00");
}

#[test]
fn duplicate_hash_bumps_instead_of_adding() {
    let mut h = ClipboardHistory::new();
    h.insert_item(text("h1", "one"), 20, at(100)).unwrap();
    h.insert_item(text("h2", "two"), 20, at(200)).unwrap();
    h.insert_item(text("h1", "one"), 20, at(300)).unwrap();
    assert_eq!(h.items().len(), 2);
    assert_eq!(h.last_id(), 2);
    let listed = h.get_history(20, 0);
    assert_eq!(ids(&listed), vec![1, 2]);
    assert_eq!(listed[0].created_at, "2026-04-14 00:05:00");
}

#[test]
fn same_second_ties_list_newer_id_first() {
    let mut h = ClipboardHistory::new();
    h.insert_item(text("a", "a"), 20, at(50)).unwrap();
    h.insert_item(text("b", "b"), 20, at(50)).unwrap();
    assert_eq!(ids(&h.get_history(20, 0)), vec![2, 1]);
}

#[test]
fn prune_keeps_only_limit_most_recent_unpinned() {
    let mut h = ClipboardHistory::new();
    for k in 0..5u64 {
        let hash = format!("h{}", k);
        h.insert_item(text(&hash, "x"), 3, at(10 * (k + 1))).unwrap();
    }
    assert_eq!(ids(&h.get_history(20, 0)), vec![5, 4, 3]);
}

#[test]
fn prune_never_removes_pinned() {
    let mut h = ClipboardHistory::new();
    h.insert_item(text("old", "old"), 2, at(1)).unwrap();
    assert!(h.pin_item(1));
    for k in 0..4u64 {
        let hash = format!("n{}", k);
        h.insert_item(text(&hash, "n"), 2, at(10 + k)).unwrap();
    }
    let listed = h.get_history(20, 0);
    assert_eq!(ids(&listed), vec![1, 5, 4]);
    assert!(listed[0].pinned);
}

#[test]
fn limit_zero_prunes_every_unpinned_entry() {
    let mut h = ClipboardHistory::new();
    h.insert_item(text("a", "a"), 0, at(1)).unwrap();
    assert!(h.items().is_empty());
    assert_eq!(h.last_id(), 1);
}

#[test]
fn insert_fails_when_ids_are_exhausted() {
    let mut h = ClipboardHistory::from_parts(Vec::new(), i64::MAX).unwrap();
    assert_eq!(h.insert_item(text("a", "a"), 20, at(1)), Err(StoreError::IdsExhausted));
    assert!(h.items().is_empty());
}

#[test]
fn known_content_is_bumped_even_when_ids_are_exhausted() {
    let item = ClipboardItem {
        id: i64::MAX,
        content_type: ContentType::Text,
        text_content: Some("a".to_string()),
        image_path: None,
        preview: None,
        pinned: false,
        created_at: at(1),
        hash: "a".to_string(),
    };
    let mut h = ClipboardHistory::from_parts(vec![item], i64::MAX).unwrap();
    assert_eq!(h.insert_item(text("a", "a"), 20, at(9)), Ok(()));
    assert_eq!(h.items()[0].created_at, at(9));
}

#[test]
fn get_history_pages_with_limit_and_offset() {
    let mut h = ClipboardHistory::new();
    for k in 0..6u64 {
        let hash = format!("h{}", k);
        h.insert_item(text(&hash, "x"), 20, at(k + 1)).unwrap();
    }
    assert_eq!(ids(&h.get_history(2, 1)), vec![5, 4]);
    assert_eq!(ids(&h.get_history(10, 4)), vec![2, 1]);
    assert!(h.get_history(3, 6).is_empty());
    assert!(h.get_history(0, 0).is_empty());
}

#[test]
fn pinned_items_are_listed_first() {
    let mut h = ClipboardHistory::new();
    h.insert_item(text("a", "a"), 20, at(1)).unwrap();
    h.insert_item(text("b", "b"), 20, at(2)).unwrap();
    h.insert_item(text("c", "c"), 20, at(3)).unwrap();
    h.pin_item(1);
    h.pin_item(2);
    assert_eq!(ids(&h.get_history(20, 0)), vec![2, 1, 3]);
}

#[test]
fn pin_toggles_and_twice_restores() {
    let mut h = ClipboardHistory::new();
    h.insert_item(text("a", "a"), 20, at(1)).unwrap();
    assert!(h.pin_item(1));
    assert!(h.items()[0].pinned);
    assert!(h.pin_item(1));
    assert!(!h.items()[0].pinned);
    assert!(!h.pin_item(42));
}

#[test]
fn delete_reports_image_path() {
    let mut h = ClipboardHistory::new();
    h.insert_item(image("img", "/tmp/img.png"), 20, at(1)).unwrap();
    h.insert_item(text("t", "t"), 20, at(2)).unwrap();
    let d = h.delete_item(1);
    assert!(d.removed);
    assert_eq!(d.image_path.as_deref(), Some("/tmp/img.png"));
    assert_eq!(ids(h.items()), vec![2]);
    let again = h.delete_item(1);
    assert!(!again.removed);
    assert_eq!(again.image_path, None);
    let t = h.delete_item(2);
    assert!(t.removed);
    assert_eq!(t.image_path, None);
}

#[test]
fn clear_keeps_pinned_and_lists_removed_images() {
    let mut h = ClipboardHistory::new();
    h.insert_item(image("i1", "/p/1.png"), 20, at(1)).unwrap();
    h.insert_item(image("i2", "/p/2.png"), 20, at(2)).unwrap();
    h.insert_item(text("t", "t"), 20, at(3)).unwrap();
    h.pin_item(2);
    let c = h.clear_history();
    assert!(c.removed);
    assert_eq!(c.image_paths, vec!["/p/1.png".to_string()]);
    assert_eq!(ids(h.items()), vec![2]);
    let again = h.clear_history();
    assert!(!again.removed);
    assert!(again.image_paths.is_empty());
}

#[test]
fn search_is_substring_and_ascii_case_insensitive() {
    let mut h = ClipboardHistory::new();
    h.insert_item(text("1", "Hello World"), 20, at(1)).unwrap();
    h.insert_item(text("2", "goodbye"), 20, at(2)).unwrap();
    h.insert_item(image("3", "/world.png"), 20, at(3)).unwrap();
    h.insert_item(text("4", "WORLDLY"), 20, at(4)).unwrap();
    assert_eq!(ids(&h.search_history("world")), vec![4, 1]);
    assert_eq!(ids(&h.search_history("")), vec![4, 2, 1]);
    assert!(h.search_history("xyz").is_empty());
}

#[test]
fn search_treats_percent_and_underscore_as_wildcards() {
    let mut h = ClipboardHistory::new();
    h.insert_item(text("1", "cat"), 20, at(1)).unwrap();
    h.insert_item(text("2", "cut"), 20, at(2)).unwrap();
    h.insert_item(text("3", "c--t"), 20, at(3)).unwrap();
    assert_eq!(ids(&h.search_history("c_t")), vec![2, 1]);
    assert_eq!(ids(&h.search_history("c%t")), vec![3, 2, 1]);
}

#[test]
fn search_non_ascii_case_is_significant() {
    let mut h = ClipboardHistory::new();
    h.insert_item(text("1", "ÉCOLE"), 20, at(1)).unwrap();
    assert!(h.search_history("école").is_empty());
    assert_eq!(ids(&h.search_history("Écol")), vec![1]);
}

#[test]
fn search_lists_at_most_fifty() {
    let mut h = ClipboardHistory::new();
    for k in 0..60u64 {
        let hash = format!("h{}", k);
        h.insert_item(text(&hash, "match"), 100, at(k)).unwrap();
    }
    let found = h.search_history("match");
    assert_eq!(found.len(), 50);
    assert_eq!(found[0].id, 60);
}

#[test]
fn paste_finds_text_and_image_and_reports_missing() {
    let mut h = ClipboardHistory::new();
    h.insert_item(text("t", "hello"), 20, at(1)).unwrap();
    h.insert_item(image("i", "/a.png"), 20, at(2)).unwrap();
    match h.paste_item(1) {
        Ok(PasteAction::SetText(t)) => assert_eq!(t, "hello"),
        other => panic!("unexpected {:?}", other),
    }
    match h.paste_item(2) {
        Ok(PasteAction::SetImage(p)) => assert_eq!(p, "/a.png"),
        other => panic!("unexpected {:?}", other),
    }
    assert_eq!(h.paste_item(3).unwrap_err(), PasteError::NotFound);
}

#[test]
fn paste_of_text_without_content_does_nothing() {
    let item = ClipboardItem {
        id: 1,
        content_type: ContentType::Text,
        text_content: None,
        image_path: None,
        preview: None,
        pinned: false,
        created_at: at(1),
        hash: "a".to_string(),
    };
    let h = ClipboardHistory::from_parts(vec![item], 1).unwrap();
    assert!(matches!(h.paste_item(1), Ok(PasteAction::Nothing)));
}

#[test]
fn from_parts_rejects_broken_histories() {
    let mk = |id: i64, hash: &str| ClipboardItem {
        id,
        content_type: ContentType::Text,
        text_content: None,
        image_path: None,
        preview: None,
        pinned: false,
        created_at: at(0),
        hash: hash.to_string(),
    };
    assert!(ClipboardHistory::from_parts(vec![mk(1, "a"), mk(2, "b")], 2).is_some());
    assert!(ClipboardHistory::from_parts(vec![mk(1, "a"), mk(1, "b")], 2).is_none());
    assert!(ClipboardHistory::from_parts(vec![mk(1, "a"), mk(2, "a")], 2).is_none());
    assert!(ClipboardHistory::from_parts(vec![mk(3, "a")], 2).is_none());
    assert!(ClipboardHistory::from_parts(vec![mk(0, "a")], 2).is_none());
    assert!(ClipboardHistory::from_parts(vec![], -1).is_none());
}

#[test]
fn times_order_as_text() {
    let mut h = ClipboardHistory::new();
    h.insert_item(text("a", "a"), 20, "2026-04-14 10:00:00".to_string()).unwrap();
    h.insert_item(text("b", "b"), 20, "2026-04-14 09:59:59".to_string()).unwrap();
    h.insert_item(text("c", "c"), 20, "2026-04-13 23:00:00".to_string()).unwrap();
    h.insert_item(text("d", "d"), 20, "2026-04-14 10:00:00.5".to_string()).unwrap();
    assert_eq!(ids(&h.get_history(20, 0)), vec![4, 1, 2, 3]);
}

#[test]
fn insert_prunes_only_old_unpinned_and_keeps_pinned_unchanged() {
    let mut h = ClipboardHistory::new();
    h.insert_item(text("p", "pinned"), 2, at(1)).unwrap();
    h.pin_item(1);
    h.insert_item(text("q", "kept pin"), 2, at(2)).unwrap();
    h.pin_item(2);
    h.insert_item(text("a", "a"), 2, at(3)).unwrap();
    h.insert_item(text("b", "b"), 2, at(4)).unwrap();
    h.insert_item(text("c", "c"), 2, at(5)).unwrap();
    assert_eq!(ids(&h.get_history(20, 0)), vec![2, 1, 5, 4]);
    // copying the pinned content again moves its time, and nothing else of it
    h.insert_item(text("p", "pinned"), 2, at(6)).unwrap();
    let listed = h.get_history(20, 0);
    assert_eq!(ids(&listed), vec![1, 2, 5, 4]);
    assert!(listed[0].pinned);
    assert_eq!(listed[0].created_at, at(6));
    assert_eq!(listed[1].created_at, at(2));
}
