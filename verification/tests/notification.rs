use recopied::item::ContentType;
use recopied::notification::notification_body;
use recopied::settings::NotificationSettings;

fn on(show: bool) -> NotificationSettings {
    NotificationSettings { enabled: true, show_content: show }
}

#[test]
fn disabled_notifications_have_no_body() {
    let off = NotificationSettings { enabled: false, show_content: true };
    assert_eq!(notification_body(&off, ContentType::Text, Some("x")), None);
}

#[test]
fn text_body_shows_the_preview() {
    assert_eq!(
        notification_body(&on(true), ContentType::Text, Some("This is a test notification from Recopied!")),
        Some("Copied: This is a test notification from Recopied!".to_string())
    );
}

#[test]
fn long_preview_is_cut_to_100_bytes() {
    let p = "y".repeat(150);
    let expected = format!("Copied: {}...", "y".repeat(100));
    assert_eq!(notification_body(&on(true), ContentType::Text, Some(&p)), Some(expected));
    let exact = "z".repeat(100);
    assert_eq!(
        notification_body(&on(true), ContentType::Text, Some(&exact)),
        Some(format!("Copied: {}", exact))
    );
}

#[test]
fn bodies_without_preview_or_content() {
    assert_eq!(
        notification_body(&on(true), ContentType::Text, None),
        Some("Copied to clipboard".to_string())
    );
    assert_eq!(
        notification_body(&on(true), ContentType::Image, None),
        Some("Image copied to clipboard".to_string())
    );
    assert_eq!(
        notification_body(&on(false), ContentType::Text, Some("secret")),
        Some("Text copied to clipboard".to_string())
    );
    assert_eq!(
        notification_body(&on(false), ContentType::Image, None),
        Some("Image copied to clipboard".to_string())
    );
}
