//! The records kept in the clipboard history.

use vstd::prelude::*;

verus! {

/// The two kinds of clipboard content that the history stores; the table
/// that holds the history accepts no other kind.
#[derive(Clone, Copy, Debug, PartialEq, Eq, Structural)]
pub enum ContentType {
    Text,
    Image,
}

/// Something just copied, not yet stored: the history gives it an id,
/// a timestamp and an unpinned state when it is inserted.
#[derive(Debug)]
pub struct NewClipboardItem {
    pub content_type: ContentType,
    pub text_content: Option<String>,
    pub image_path: Option<String>,
    pub preview: Option<String>,
    /// Lowercase hex SHA-256 of the content; at most one stored item has a given hash.
    pub hash: String,
}

/// A stored history entry.
#[derive(Debug)]
pub struct ClipboardItem {
    pub id: i64,
    pub content_type: ContentType,
    pub text_content: Option<String>,
    pub image_path: Option<String>,
    pub preview: Option<String>,
    pub pinned: bool,
    /// When the item was last copied, as local `YYYY-MM-DD HH:MM:SS` text;
    /// text that sorts later under binary collation is more recent.
    pub created_at: String,
    pub hash: String,
}

pub fn clone_optional_string(s: &Option<String>) -> (r: Option<String>)
    ensures
        r == *s,
{
    match s {
        Some(x) => Some(x.clone()),
        None => None,
    }
}

impl Clone for ClipboardItem {
    fn clone(&self) -> (r: Self)
        ensures
            r == *self,
    {
        ClipboardItem {
            id: self.id,
            content_type: self.content_type,
            text_content: clone_optional_string(&self.text_content),
            image_path: clone_optional_string(&self.image_path),
            preview: clone_optional_string(&self.preview),
            pinned: self.pinned,
            created_at: self.created_at.clone(),
            hash: self.hash.clone(),
        }
    }
}

impl Clone for NewClipboardItem {
    fn clone(&self) -> (r: Self)
        ensures
            r == *self,
    {
        NewClipboardItem {
            content_type: self.content_type,
            text_content: clone_optional_string(&self.text_content),
            image_path: clone_optional_string(&self.image_path),
            preview: clone_optional_string(&self.preview),
            hash: self.hash.clone(),
        }
    }
}

} // verus!
