//! Clipboard history manager: the rules that decide what the history keeps,
//! how it is listed and searched, when a copy is captured, and what the
//! desktop is told.

pub mod item;
pub mod order;
pub mod pattern;
pub mod history;
pub mod text;
pub mod watcher;
pub mod settings;
pub mod notification;
pub mod window;
pub mod laws;
