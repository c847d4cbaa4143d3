use recopied::item::ContentType;
use recopied::watcher::{
    clipboard_image, clipboard_read_timeout_ms, clipboard_text, poll_interval_ms,
    compute_hash, detect_display_server, image_item, image_read_command, text_item,
    text_read_command, to_hex_lower, ClipboardWatcher, DisplayServer, ImageObservation,
    TextObservation,
};

#[test]
fn compute_hash_is_lowercase_hex_sha256() {
    assert_eq!(
        compute_hash(b"abc"),
        "ba7816bf8f01cfea414140de5dae2223b00361a396177a9cb410ff61f20015ad"
    );
    assert_eq!(
        compute_hash(b""),
        "e3b0c44298fc1c149afbf4c8996fb92427ae41e4649b934ca495991b7852b855"
    );
}

#[test]
fn hex_encoding_writes_high_nibble_first() {
    assert_eq!(to_hex_lower(&[0x00, 0x0f, 0xa5, 0xff]), "000fa5ff");
    assert_eq!(to_hex_lower(&[]), "");
}

#[test]
fn display_server_follows_wayland_variable() {
    assert_eq!(detect_display_server(true), DisplayServer::Wayland);
    assert_eq!(detect_display_server(false), DisplayServer::X11);
}

#[test]
fn read_commands_per_display_server() {
    let t = text_read_command(DisplayServer::X11);
    assert_eq!(t.program, "xclip");
    assert_eq!(t.args, vec!["-selection", "clipboard", "-o"]);
    let t = text_read_command(DisplayServer::Wayland);
    assert_eq!(t.program, "wl-paste");
    assert_eq!(t.args, vec!["--no-newline", "--type", "text/plain"]);
    let i = image_read_command(DisplayServer::X11);
    assert_eq!(i.program, "xclip");
    assert_eq!(i.args, vec!["-selection", "clipboard", "-t", "image/png", "-o"]);
    let i = image_read_command(DisplayServer::Wayland);
    assert_eq!(i.program, "wl-paste");
    assert_eq!(i.args, vec!["--no-newline", "--type", "image/png"]);
}

#[test]
fn same_text_is_captured_once() {
    let mut w = ClipboardWatcher::new();
    match w.observe_text("hello".to_string()) {
        TextObservation::Captured(item) => {
            assert_eq!(item.content_type, ContentType::Text);
            assert_eq!(item.text_content.as_deref(), Some("hello"));
            assert_eq!(item.preview.as_deref(), Some("hello"));
            assert_eq!(item.image_path, None);
            assert_eq!(item.hash, compute_hash(b"hello"));
        }
        other => panic!("unexpected {:?}", other),
    }
    assert!(matches!(w.observe_text("hello".to_string()), TextObservation::Unchanged));
    assert!(matches!(w.observe_text("bye".to_string()), TextObservation::Captured(_)));
    assert!(matches!(w.observe_text("hello".to_string()), TextObservation::Captured(_)));
}

#[test]
fn empty_text_is_ignored() {
    let mut w = ClipboardWatcher::new();
    assert!(matches!(w.observe_text(String::new()), TextObservation::Empty));
}

#[test]
fn long_text_preview_is_cut_to_200_bytes() {
    let mut w = ClipboardWatcher::new();
    let long = "x".repeat(250);
    match w.observe_text(long.clone()) {
        TextObservation::Captured(item) => {
            assert_eq!(item.preview.unwrap(), "x".repeat(200));
            assert_eq!(item.text_content.unwrap(), long);
        }
        other => panic!("unexpected {:?}", other),
    }
    let wide = "é".repeat(101);
    match w.observe_text(wide) {
        TextObservation::Captured(item) => assert_eq!(item.preview.unwrap(), "é".repeat(100)),
        other => panic!("unexpected {:?}", other),
    }
}

#[test]
fn preview_that_would_split_a_character_is_reported() {
    let mut w = ClipboardWatcher::new();
    let odd = format!("a{}", "é".repeat(101));
    assert!(matches!(w.observe_text(odd.clone()), TextObservation::PreviewSplitsCharacter));
    assert!(matches!(w.observe_text(odd), TextObservation::Unchanged));
}

#[test]
fn text_and_image_share_the_last_hash() {
    let mut w = ClipboardWatcher::new();
    assert!(matches!(w.observe_text("abc".to_string()), TextObservation::Captured(_)));
    assert!(matches!(w.observe_image(b"abc"), ImageObservation::Unchanged));
}

#[test]
fn images_are_captured_once() {
    let mut w = ClipboardWatcher::new();
    assert!(matches!(w.observe_image(&[]), ImageObservation::Empty));
    match w.observe_image(&[1, 2, 3]) {
        ImageObservation::Captured(h) => assert_eq!(h, compute_hash(&[1, 2, 3])),
        other => panic!("unexpected {:?}", other),
    }
    assert!(matches!(w.observe_image(&[1, 2, 3]), ImageObservation::Unchanged));
}

#[test]
fn item_builders() {
    let t = text_item("short".to_string(), "h".to_string());
    assert_eq!(t.preview.as_deref(), Some("short"));
    assert_eq!(t.hash, "h");
    let i = image_item("h2".to_string(), "/x.png".to_string());
    assert_eq!(i.content_type, ContentType::Image);
    assert_eq!(i.image_path.as_deref(), Some("/x.png"));
    assert_eq!(i.preview, None);
    assert_eq!(i.text_content, None);
}

#[test]
fn images_are_saved_under_their_hash() {
    assert_eq!(recopied::watcher::image_file_name("abc123"), "abc123.png");
}

#[test]
fn hashes_are_64_hex_digits() {
    let h = compute_hash(b"hello");
    assert_eq!(h, "2cf24dba5fb0a30e26e83b2ac5b9e29e1b161e5c1fa7425e73043362938b9824");
    assert_eq!(h.len(), 64);
    assert!(h.chars().all(|c| c.is_ascii_hexdigit() && !c.is_ascii_uppercase()));
}

#[test]
fn first_read_of_a_fresh_watcher_is_captured() {
    let mut w = ClipboardWatcher::new();
    assert!(matches!(w.observe_text("hello".to_string()), TextObservation::Captured(_)));
    let mut w = ClipboardWatcher::new();
    assert!(matches!(w.observe_image(&[0]), ImageObservation::Captured(_)));
}

#[test]
fn clipboard_reads_are_decoded_when_the_tool_succeeds() {
    assert_eq!(clipboard_text(true, "héllo".as_bytes()), Some("héllo".to_string()));
    assert_eq!(clipboard_text(true, b"hi\xff"), Some("hi\u{FFFD}".to_string()));
    assert_eq!(clipboard_text(false, b"hi"), None);
    assert_eq!(clipboard_image(true, vec![1, 2]), Some(vec![1, 2]));
    assert_eq!(clipboard_image(true, vec![]), None);
    assert_eq!(clipboard_image(false, vec![1]), None);
    assert_eq!(clipboard_read_timeout_ms(), 1500);
    assert_eq!(poll_interval_ms(), 500);
}
