//! The user's settings, their defaults, and the launcher entry that starts
//! the program at login.

use vstd::prelude::*;
use vstd::string::StringExecFns;

verus! {

/// Whether a notification is shown on each copy, and whether it shows the content.
#[derive(Clone, Copy, Debug, PartialEq, Eq, Structural)]
pub struct NotificationSettings {
    pub enabled: bool,
    pub show_content: bool,
}

/// The value a missing boolean setting takes.
pub fn default_true() -> (r: bool)
    ensures
        r,
{
    true
}

/// How many unpinned entries the history keeps unless told otherwise.
pub open spec fn spec_default_clipboard_limit() -> u32 {
    20
}

/// The clipboard limit a missing setting takes.
pub fn default_clipboard_limit() -> (r: u32)
    ensures
        r == spec_default_clipboard_limit(),
{
    20
}

impl Default for NotificationSettings {
    fn default() -> (r: Self)
        ensures
            r.enabled,
            r.show_content,
    {
        NotificationSettings { enabled: true, show_content: true }
    }
}

/// All settings.
#[derive(Debug)]
pub struct AppSettings {
    /// The global shortcut that shows the history window.
    pub shortcut: String,
    /// Start at login.
    pub autostart: bool,
    /// How many unpinned entries the history keeps.
    pub clipboard_limit: u32,
    pub notification: NotificationSettings,
}

impl Default for AppSettings {
    fn default() -> (r: Self)
        ensures
            r.shortcut@ == "Ctrl+Shift+V"@,
            !r.autostart,
            r.clipboard_limit == spec_default_clipboard_limit(),
            r.notification.enabled,
            r.notification.show_content,
    {
        AppSettings {
            shortcut: String::from_str("Ctrl+Shift+V"),
            autostart: false,
            clipboard_limit: 20,
            notification: NotificationSettings::default(),
        }
    }
}

impl Clone for AppSettings {
    fn clone(&self) -> (r: Self)
        ensures
            r == *self,
    {
        AppSettings {
            shortcut: self.shortcut.clone(),
            autostart: self.autostart,
            clipboard_limit: self.clipboard_limit,
            notification: self.notification,
        }
    }
}

/// The settings to use: those read back from disk, or the defaults when
/// there were none readable, in which case the defaults are to be written
/// back (the second component).
pub fn settings_or_defaults(loaded: Option<AppSettings>) -> (r: (AppSettings, bool))
    ensures
        match loaded {
            Some(s) => r.0 == s && !r.1,
            None => r.1 && r.0.shortcut@ == "Ctrl+Shift+V"@ && !r.0.autostart && r.0.clipboard_limit
                == spec_default_clipboard_limit() && r.0.notification.enabled
                && r.0.notification.show_content,
        },
{
    match loaded {
        Some(s) => (s, false),
        None => (AppSettings::default(), true),
    }
}

/// Sets the clipboard limit: at least 1, with no upper bound.
pub fn set_clipboard_limit(settings: &mut AppSettings, limit: u32)
    ensures
        final(settings).clipboard_limit == if limit < 1 {
            1
        } else {
            limit
        },
        final(settings).shortcut == old(settings).shortcut,
        final(settings).autostart == old(settings).autostart,
        final(settings).notification == old(settings).notification,
{
    settings.clipboard_limit = if limit < 1 {
        1
    } else {
        limit
    };
}

pub open spec fn desktop_entry_head() -> Seq<char> {
    "[Desktop Entry]\nType=Application\nName=Recopied\nComment=Clipboard history manager\nExec="@
}

pub open spec fn desktop_entry_tail() -> Seq<char> {
    "\nIcon=recopied\nTerminal=false\nCategories=Utility;\nStartupNotify=false\nX-GNOME-Autostart-enabled=true\n"@
}

/// The launcher entry that starts the program at `exe` at login.
pub fn desktop_entry(exe: &str) -> (r: String)
    ensures
        r@ == desktop_entry_head() + exe@ + desktop_entry_tail(),
{
    let mut r = String::from_str(
        "[Desktop Entry]\nType=Application\nName=Recopied\nComment=Clipboard history manager\nExec=",
    );
    r.append(exe);
    r.append(
        "\nIcon=recopied\nTerminal=false\nCategories=Utility;\nStartupNotify=false\nX-GNOME-Autostart-enabled=true\n",
    );
    r
}

} // verus!
