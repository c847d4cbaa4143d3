use recopied::settings::{
    default_clipboard_limit, default_true, desktop_entry, set_clipboard_limit, settings_or_defaults,
    AppSettings,
    NotificationSettings,
};

#[test]
fn defaults() {
    let s = AppSettings::default();
    assert_eq!(s.shortcut, "Ctrl+Shift+V");
    assert!(!s.autostart);
    assert_eq!(s.clipboard_limit, 20);
    assert!(s.notification.enabled);
    assert!(s.notification.show_content);
    assert_eq!(NotificationSettings::default(), NotificationSettings { enabled: true, show_content: true });
    assert!(default_true());
    assert_eq!(default_clipboard_limit(), 20);
}

#[test]
fn clipboard_limit_is_at_least_one_without_upper_cap() {
    let mut s = AppSettings::default();
    set_clipboard_limit(&mut s, 0);
    assert_eq!(s.clipboard_limit, 1);
    set_clipboard_limit(&mut s, 5000);
    assert_eq!(s.clipboard_limit, 5000);
    set_clipboard_limit(&mut s, u32::MAX);
    assert_eq!(s.clipboard_limit, u32::MAX);
    assert_eq!(s.shortcut, "Ctrl+Shift+V");
}

#[test]
fn desktop_entry_names_the_executable() {
    let e = desktop_entry("/usr/bin/recopied");
    assert_eq!(
        e,
        "[Desktop Entry]\nType=Application\nName=Recopied\nComment=Clipboard history manager\nExec=/usr/bin/recopied\nIcon=recopied\nTerminal=false\nCategories=Utility;\nStartupNotify=false\nX-GNOME-Autostart-enabled=true\n"
    );
}

#[test]
fn unreadable_settings_fall_back_to_defaults_and_are_saved() {
    let (s, save) = settings_or_defaults(None);
    assert!(save);
    assert_eq!(s.clipboard_limit, 20);
    let mine = AppSettings {
        shortcut: "Alt+V".to_string(),
        autostart: true,
        clipboard_limit: 7,
        notification: NotificationSettings { enabled: false, show_content: false },
    };
    let (s, save) = settings_or_defaults(Some(mine));
    assert!(!save);
    assert_eq!(s.shortcut, "Alt+V");
    assert_eq!(s.clipboard_limit, 7);
    assert!(s.autostart);
}
