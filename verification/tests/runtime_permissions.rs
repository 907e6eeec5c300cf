use adbtools::model::PermissionInfo;
use adbtools::permissions::parse_runtime_permissions;

const DUMPSYS: &str = "Packages:
  Package [com.example] (abc123):
    userId=10123
    install permissions:
      android.permission.INTERNET: granted=true
    User 0: ceDataInode=12345 installed=true hidden=false
      gids=[3003]
      runtime permissions:
        android.permission.CAMERA: granted=false, flags=[ USER_SET ]
        android.permission.ACCESS_FINE_LOCATION: granted=true, flags=[ USER_SET|USER_FIXED ]
        com.example.permission.CUSTOM: granted=true
        android.permission.CAMERA: granted=true, flags=[ USER_SET ]
      disabledComponents:
        com.example.Foo
    User 10: ceDataInode=0 installed=false
      runtime permissions:
        android.permission.RECORD_AUDIO: granted=false, flags=[ REVIEW_REQUIRED ]
";

fn p(name: &str, granted: bool, flags: &str) -> PermissionInfo {
    PermissionInfo { name: name.to_string(), granted, flags: flags.to_string() }
}

#[test]
fn runtime_permissions_are_read_and_sorted() {
    assert_eq!(
        parse_runtime_permissions(DUMPSYS),
        vec![
            p("android.permission.ACCESS_FINE_LOCATION", true, "[ USER_SET|USER_FIXED ]"),
            p("android.permission.CAMERA", true, "[ USER_SET ]"),
            p("android.permission.RECORD_AUDIO", false, "[ REVIEW_REQUIRED ]"),
            p("com.example.permission.CUSTOM", true, ""),
        ]
    );
}

#[test]
fn install_permissions_are_left_out() {
    let out = "install permissions:\n  android.permission.INTERNET: granted=true\n";
    assert!(parse_runtime_permissions(out).is_empty());
}

#[test]
fn flags_stop_at_a_second_flags_marker() {
    let out = "runtime permissions:\n  a.permission.X: granted=true, flags=[ A ] flags=[ B ]\n";
    assert_eq!(parse_runtime_permissions(out), vec![p("a.permission.X", true, "[ A ]")]);
}

#[test]
fn empty_output_has_no_permissions() {
    assert!(parse_runtime_permissions("").is_empty());
}
