use adbtools::tools::{aapt_programs, adb_candidates, latest_name, sdk_roots};

#[test]
fn adb_is_looked_for_in_order() {
    let dirs = vec!["/usr/local/sbin".to_string(), "/opt/tools/".to_string()];
    let c = adb_candidates(&dirs, Some("/home/u"), Some("/sdk"), None, None, false);
    assert_eq!(
        c,
        vec![
            "/usr/local/sbin/adb",
            "/opt/tools/adb",
            "/home/u/Library/Android/sdk/platform-tools/adb",
            "/home/u/Android/Sdk/platform-tools/adb",
            "/home/u/.android/sdk/platform-tools/adb",
            "/opt/homebrew/bin/adb",
            "/usr/local/bin/adb",
            "/usr/bin/adb",
            "/sdk/platform-tools/adb",
        ]
    );
    let w = adb_candidates(&vec!["/bin".to_string()], None, None, None, Some("/local"), true);
    assert_eq!(w[0], "/bin/adb.exe");
    assert_eq!(w.last().unwrap(), "/local/Android/Sdk/platform-tools/adb.exe");
}

#[test]
fn sdk_roots_in_order() {
    assert_eq!(
        sdk_roots(Some("/a"), Some("/b"), Some("/home/u"), None),
        vec!["/a", "/b", "/home/u/Library/Android/sdk"]
    );
    assert!(sdk_roots(None, None, None, None).is_empty());
}

#[test]
fn newest_build_tools() {
    let names = vec!["30.0.3".to_string(), "34.0.0".to_string(), "33.0.1".to_string()];
    assert_eq!(latest_name(&names).as_deref(), Some("34.0.0"));
    assert_eq!(latest_name(&Vec::new()), None);
    let (a, b) = aapt_programs("/sdk/build-tools/34.0.0", false);
    assert_eq!(a, "/sdk/build-tools/34.0.0/aapt");
    assert_eq!(b, "/sdk/build-tools/34.0.0/aapt2");
}
