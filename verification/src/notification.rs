//! The text of the notification shown when something is copied.

use vstd::prelude::*;
use vstd::string::StringExecFns;
use crate::item::ContentType;
use crate::settings::NotificationSettings;
use crate::text::{byte_prefix, byte_prefix_of, cuts_on_char_boundary, utf8_len};

verus! {

/// How many bytes of a preview the notification shows.
pub open spec fn shown_preview_bytes() -> int {
    100
}

/// A preview as the notification shows it: cut to 100 bytes and marked with
/// `...` when longer.
pub open spec fn shown_preview(p: Seq<char>) -> Seq<char> {
    if utf8_len(p) > shown_preview_bytes() {
        byte_prefix(p, shown_preview_bytes()) + "..."@
    } else {
        p
    }
}

/// The notification's body.
pub open spec fn notification_text(
    show_content: bool,
    content_type: ContentType,
    preview: Option<Seq<char>>,
) -> Seq<char> {
    if show_content {
        match content_type {
            ContentType::Text => match preview {
                Some(p) => "Copied: "@ + shown_preview(p),
                None => "Copied to clipboard"@,
            },
            ContentType::Image => "Image copied to clipboard"@,
        }
    } else {
        match content_type {
            ContentType::Image => "Image copied to clipboard"@,
            ContentType::Text => "Text copied to clipboard"@,
        }
    }
}

/// Showing the body does not cut a character of the preview in two (the
/// cut would panic).
pub open spec fn body_fits(
    settings: NotificationSettings,
    content_type: ContentType,
    preview: Option<Seq<char>>,
) -> bool {
    settings.enabled && settings.show_content && content_type == ContentType::Text
        && preview is Some ==> cuts_on_char_boundary(preview->0, shown_preview_bytes())
}

/// The body of the copy notification, or `None` when notifications are off.
pub fn notification_body(
    settings: &NotificationSettings,
    content_type: ContentType,
    preview: Option<&str>,
) -> (r: Option<String>)
    requires
        body_fits(
            *settings,
            content_type,
            match preview {
                Some(p) => Some(p@),
                None => None,
            },
        ),
    ensures
        r is None <==> !settings.enabled,
        r matches Some(b) ==> b@ == notification_text(
            settings.show_content,
            content_type,
            match preview {
                Some(p) => Some(p@),
                None => None,
            },
        ),
{
    if !settings.enabled {
        return None;
    }
    let body = if settings.show_content {
        match content_type {
            ContentType::Text => match preview {
                Some(p) => {
                    let mut b = String::from_str("Copied: ");
                    if p.as_bytes().len() > 100 {
                        let cut = byte_prefix_of(p, 100);
                        b.append(cut.as_str());
                        b.append("...");
                    } else {
                        b.append(p);
                    }
                    b
                },
                None => String::from_str("Copied to clipboard"),
            },
            ContentType::Image => String::from_str("Image copied to clipboard"),
        }
    } else {
        match content_type {
            ContentType::Image => String::from_str("Image copied to clipboard"),
            ContentType::Text => String::from_str("Text copied to clipboard"),
        }
    };
    Some(body)
}

} // verus!
