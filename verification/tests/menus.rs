use adbtools::menu::{app_menu_text, is_help_menu, tray_action, TrayAction};

#[test]
fn app_menu_entries_are_renamed() {
    assert_eq!(app_menu_text("About adbtools"), Some("About ADB Tools".to_string()));
    assert_eq!(app_menu_text("Hide adbtools"), Some("Hide ADB Tools".to_string()));
    assert_eq!(app_menu_text("Quit adbtools"), Some("Quit ADB Tools".to_string()));
}

#[test]
fn other_app_menu_entries_keep_their_text() {
    assert_eq!(app_menu_text("Hide Others"), None);
    assert_eq!(app_menu_text("Show All"), None);
    assert_eq!(app_menu_text("Services"), None);
    assert_eq!(app_menu_text("About"), None);
    assert_eq!(app_menu_text(""), None);
}

#[test]
fn help_menu_is_found_in_both_languages() {
    assert!(is_help_menu("Help"));
    assert!(is_help_menu("帮助"));
    assert!(!is_help_menu("help"));
    assert!(!is_help_menu("Window"));
}

#[test]
fn tray_entries_map_to_actions() {
    assert_eq!(tray_action("tray_show"), TrayAction::Show);
    assert_eq!(tray_action("tray_hide"), TrayAction::Hide);
    assert_eq!(tray_action("tray_quit"), TrayAction::Quit);
    assert_eq!(tray_action("download_adb"), TrayAction::Ignore);
}
