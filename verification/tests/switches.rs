use adbtools::settings::{
    dark_mode_from, navigation_mode_from, navigation_overlay, parse_top_activity,
    read_bool_setting, settings_put_args, switch_word,
};

#[test]
fn boolean_settings() {
    assert!(read_bool_setting(&Ok("1\n".to_string())));
    assert!(read_bool_setting(&Ok(" TRUE \r\n".to_string())));
    assert!(read_bool_setting(&Ok("true".to_string())));
    assert!(!read_bool_setting(&Ok("0\n".to_string())));
    assert!(!read_bool_setting(&Ok("null".to_string())));
    assert!(!read_bool_setting(&Ok("".to_string())));
    assert!(!read_bool_setting(&Err("1".to_string())));
}

#[test]
fn dark_mode() {
    assert!(dark_mode_from(&Ok("Night mode: yes\n".to_string())));
    assert!(dark_mode_from(&Ok("Night mode: YES".to_string())));
    assert!(!dark_mode_from(&Ok("Night mode: no".to_string())));
    assert!(!dark_mode_from(&Ok("Night mode: auto".to_string())));
    assert!(!dark_mode_from(&Err("yes".to_string())));
}

#[test]
fn navigation_modes() {
    assert_eq!(navigation_mode_from("2\n"), "gestural");
    assert_eq!(navigation_mode_from("1"), "twobutton");
    assert_eq!(navigation_mode_from(" 0 "), "threebutton");
    assert_eq!(navigation_mode_from(""), "unknown");
    assert_eq!(navigation_overlay("gestural"), Ok("com.android.internal.systemui.navbar.gestural".to_string()));
    assert_eq!(navigation_overlay("threebutton"), Ok("com.android.internal.systemui.navbar.threebutton".to_string()));
    assert_eq!(navigation_overlay("twobutton"), Ok("com.android.internal.systemui.navbar.twobutton".to_string()));
    assert_eq!(navigation_overlay("fourbutton"), Err("未知的导航模式: fourbutton".to_string()));
}

#[test]
fn focused_activity() {
    let out = "WINDOW MANAGER WINDOWS\n  mCurrentFocus=Window{1a2b3c u0 com.example/com.example.MainActivity}\n  mFocusedApp=x\n";
    assert_eq!(parse_top_activity(out), Ok("com.example/com.example.MainActivity".to_string()));
    assert_eq!(parse_top_activity("mCurrentFocus=null\n"), Ok("mCurrentFocus=null".to_string()));
    assert_eq!(parse_top_activity("mCurrentFocus=Window{}\n"), Ok("mCurrentFocus=Window{}".to_string()));
    assert_eq!(
        parse_top_activity("nothing\n"),
        Err("未能在 dumpsys window 中解析 mCurrentFocus".to_string())
    );
}

#[test]
fn switch_arguments() {
    assert_eq!(
        settings_put_args("S", "system", "show_touches", true),
        vec!["-s", "S", "shell", "settings", "put", "system", "show_touches", "1"]
    );
    assert_eq!(
        settings_put_args("S", "global", "always_finish_activities", false),
        vec!["-s", "S", "shell", "settings", "put", "global", "always_finish_activities", "0"]
    );
    assert_eq!(switch_word(true, "yes", "no"), "yes");
    assert_eq!(switch_word(false, "enable", "disable"), "disable");
}
