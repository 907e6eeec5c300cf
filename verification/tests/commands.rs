use adbtools::adb::{
    adb_outcome, adb_path, analytics_debug_message, connect_address, disconnect_args,
    exec_out_failure, pidof_running, recording_start_check, ChildStatus, reboot_args, run_as_pull_message, run_as_rm_outcome,
    screenrecord_remote_path, set_permission_args, shell_command_args,
};

#[test]
fn adb_location() {
    assert_eq!(adb_path(&Some("/usr/bin/adb".to_string())), Ok("/usr/bin/adb".to_string()));
    assert_eq!(
        adb_path(&None),
        Err("未找到 adb 可执行文件。请安装 Android Platform Tools，或确认其在 PATH 中。".to_string())
    );
}

#[test]
fn run_results() {
    assert_eq!(adb_outcome(true, b"ok\n", b"warn"), Ok("ok\n".to_string()));
    assert_eq!(adb_outcome(false, b"ok", b"err \xff"), Err("err \u{fffd}".to_string()));
    assert_eq!(run_as_rm_outcome(true, b"", b"x"), Ok(String::new()));
    assert_eq!(run_as_rm_outcome(false, b"", b"denied"), Err("run-as rm 失败: denied".to_string()));
    assert_eq!(exec_out_failure(b"no"), "exec-out run-as cat 失败: no");
}

#[test]
fn connection_arguments() {
    assert_eq!(connect_address("192.168.1.5", None), "192.168.1.5:5555");
    assert_eq!(connect_address("10.0.0.2", Some(37000)), "10.0.0.2:37000");
    assert_eq!(disconnect_args(Some("10.0.0.2:5555")), vec!["disconnect", "10.0.0.2:5555"]);
    assert_eq!(disconnect_args(None), vec!["disconnect"]);
}

#[test]
fn reboot_modes() {
    assert_eq!(reboot_args("S", Some("recovery")), vec!["-s", "S", "reboot", "recovery"]);
    assert_eq!(reboot_args("S", Some("bootloader")), vec!["-s", "S", "reboot", "bootloader"]);
    assert_eq!(reboot_args("S", Some("fastboot")), vec!["-s", "S", "reboot"]);
    assert_eq!(reboot_args("S", None), vec!["-s", "S", "reboot"]);
}

#[test]
fn shell_commands_are_split() {
    assert_eq!(shell_command_args("S", "  ls   -la /sdcard "), vec!["-s", "S", "shell", "ls", "-la", "/sdcard"]);
    assert_eq!(shell_command_args("S", ""), vec!["-s", "S", "shell"]);
}

#[test]
fn recording_and_misc() {
    assert_eq!(screenrecord_remote_path(1700000000000), "/sdcard/screenrecord_1700000000000.mp4");
    assert!(pidof_running(&Ok("1234\n".to_string())));
    assert!(!pidof_running(&Ok(" \n".to_string())));
    assert!(!pidof_running(&Err(String::new())));
    assert_eq!(analytics_debug_message("com.x"), "已开启 Firebase 埋点调试：com.x");
    assert_eq!(run_as_pull_message("/tmp/a"), "已通过 run-as 拉取到 /tmp/a");
    assert_eq!(set_permission_args("S", "com.x", "android.permission.CAMERA", true), vec!["-s", "S", "shell", "pm", "grant", "com.x", "android.permission.CAMERA"]);
    assert_eq!(set_permission_args("S", "com.x", "p", false)[4], "revoke");
}

#[test]
fn only_one_recording_at_a_time() {
    assert_eq!(recording_start_check(None), Ok(false));
    assert_eq!(recording_start_check(Some(ChildStatus::Exited)), Ok(true));
    assert_eq!(recording_start_check(Some(ChildStatus::Unknown)), Ok(true));
    assert_eq!(recording_start_check(Some(ChildStatus::Running)), Err("已有录屏任务正在进行".to_string()));
}
