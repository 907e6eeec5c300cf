use adbtools::logcat::{
    export_pids, filter_logcat, logcat_buffer, logcat_bytes, logcat_failure, logcat_package_filter,
    logcat_saved_message, no_process_error, parse_pids,
};

const LOG: &str = "01-02 03:04:05.678  1234  1240 I Tag: hello\n\
01-02 03:04:05.679  999  999 W Other: skip\n\
--------- beginning of main\n\
01-02 03:04:06.000  4321  4321 E Tag: world\r\n";

#[test]
fn options() {
    assert_eq!(logcat_buffer(None), "all");
    assert_eq!(logcat_buffer(Some("main,crash")), "main,crash");
    assert_eq!(logcat_package_filter(Some("  com.x ")).as_deref(), Some("com.x"));
    assert_eq!(logcat_package_filter(Some("  ")), None);
    assert_eq!(logcat_package_filter(None), None);
}

#[test]
fn pids() {
    assert_eq!(parse_pids("1234 4321\n"), vec!["1234", "4321"]);
    assert!(parse_pids("").is_empty());
    assert_eq!(no_process_error("com.x"), "未找到应用 com.x 的进程，请先在设备上启动该应用后再导出");
}

#[test]
fn lines_are_filtered_by_process() {
    let pids = vec!["1234".to_string(), "4321".to_string()];
    assert_eq!(
        filter_logcat(LOG, &pids),
        "01-02 03:04:05.678  1234  1240 I Tag: hello\n01-02 03:04:06.000  4321  4321 E Tag: world\n"
    );
    assert_eq!(logcat_bytes(LOG.as_bytes(), &pids), filter_logcat(LOG, &pids).into_bytes());
    assert_eq!(logcat_bytes(LOG.as_bytes(), &Vec::new()), LOG.as_bytes().to_vec());
}

#[test]
fn messages() {
    assert_eq!(logcat_saved_message(2048), "日志已保存（2048 字节）");
    assert_eq!(logcat_failure(b"boom"), "导出日志失败: boom");
}

#[test]
fn export_pids_by_filter() {
    assert_eq!(export_pids(&None, "123"), Ok(Vec::<String>::new()));
    assert_eq!(
        export_pids(&Some("com.x".to_string()), "123 456\n"),
        Ok(vec!["123".to_string(), "456".to_string()])
    );
    assert_eq!(
        export_pids(&Some("com.x".to_string()), "  \n"),
        Err("未找到应用 com.x 的进程，请先在设备上启动该应用后再导出".to_string())
    );
}
