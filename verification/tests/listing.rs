use adbtools::files::{
    list_files_after_run_as, list_files_clean_path, list_files_step, parse_file_list,
    run_as_clean_path, run_as_listing, split_data_data_path, ListStep,
};
use adbtools::model::FileInfo;

const LS: &str = "total 24\n\
drwxrwx--x  4 u0_a123 u0_a123 4096 2024-01-01 12:00 .\n\
drwxrwx--x  4 u0_a123 u0_a123 4096 2024-01-01 12:00 ..\n\
drwxrwx--x  2 u0_a123 u0_a123 4096 2024-01-01 12:00 shared_prefs\n\
-rw-rw----  1 u0_a123 u0_a123 1234 2024-01-02 13:45 my file.txt\n\
lrwxrwxrwx  1 root    root      21 2024-01-01 12:00 sdcard -> /storage/self/primary\n\
drwx------  2 u0_a123 u0_a123 4096 2024-01-01 12:00 app_webview\n\
-rw-------  1 u0_a123 u0_a123 big  2024-01-03 09:00 odd\n";

fn entry(name: &str, path: &str, is_dir: bool, size: Option<&str>, perms: &str, time: &str) -> FileInfo {
    FileInfo {
        name: name.to_string(),
        path: path.to_string(),
        is_dir,
        size: size.map(|s| s.to_string()),
        permissions: Some(perms.to_string()),
        modified_time: Some(time.to_string()),
    }
}

#[test]
fn ls_output_is_read() {
    let files = parse_file_list(LS, "/data/data/com.x/").unwrap();
    assert_eq!(
        files,
        vec![
            entry("shared_prefs", "/data/data/com.x/shared_prefs", true, None, "drwxrwx--x", "2024-01-01 12:00"),
            entry("my file.txt", "/data/data/com.x/my file.txt", false, Some("1234 B"), "-rw-rw----", "2024-01-02 13:45"),
            entry("sdcard", "/data/data/com.x/sdcard", true, None, "lrwxrwxrwx", "2024-01-01 12:00"),
            entry("odd", "/data/data/com.x/odd", false, None, "-rw-------", "2024-01-03 09:00"),
        ]
    );
}

#[test]
fn root_and_empty_base_paths() {
    let line = "drwxr-xr-x 2 root root 4096 2024-01-01 12:00 sdcard\n";
    assert_eq!(parse_file_list(line, "/").unwrap()[0].path, "/sdcard");
    assert_eq!(parse_file_list(line, "").unwrap()[0].path, "/sdcard");
    assert_eq!(parse_file_list(line, "/sdcard///").unwrap()[0].path, "/sdcard/sdcard");
}

#[test]
fn short_and_marker_lines_are_skipped() {
    assert!(parse_file_list("ls:\n\ntotal 0\nfoo bar\n", "/").unwrap().is_empty());
    let arrow_only = "lrwxrwxrwx 1 root root 21 2024-01-01 12:00 -> target\n";
    assert!(parse_file_list(arrow_only, "/").unwrap().is_empty());
}

#[test]
fn data_data_paths_split() {
    assert_eq!(
        split_data_data_path("/data/data/com.x/databases/app.db"),
        Some(("com.x".to_string(), "databases/app.db".to_string()))
    );
    assert_eq!(split_data_data_path("/data/data/com.x"), None);
    assert_eq!(split_data_data_path("/sdcard/x"), None);
    assert_eq!(split_data_data_path("/data/data/com.x/"), Some(("com.x".to_string(), "".to_string())));
}

#[test]
fn clean_paths() {
    assert_eq!(run_as_clean_path("/"), "");
    assert_eq!(run_as_clean_path(""), "");
    assert_eq!(run_as_clean_path("files"), "files");
    assert_eq!(list_files_clean_path(""), "/");
    assert_eq!(list_files_clean_path("/sdcard"), "/sdcard");
}

#[test]
fn run_as_listing_errors() {
    assert_eq!(run_as_listing("  \n", "files", "com.x"), Err("路径 'files' 不存在或为空".to_string()));
    assert_eq!(
        run_as_listing("run-as: package not debuggable: com.x\n", "files", "com.x"),
        Err("无法访问应用 com.x: run-as: package not debuggable: com.x".to_string())
    );
    assert_eq!(run_as_listing("Package com.x is not debuggable", "", "com.x"), Err("应用 com.x 不可调试".to_string()));
    assert_eq!(
        run_as_listing("ls: files/x: No such file or directory", "files/x", "com.x"),
        Err("路径 'files/x' 不存在".to_string())
    );
    let ok = run_as_listing("drwxrwx--x 2 a a 4096 2024-01-01 12:00 files\n", "/", "com.x").unwrap();
    assert_eq!(ok[0].path, "/files");
}

#[test]
fn listing_steps() {
    match list_files_step("/sdcard", "drwxr-xr-x 2 root root 4096 2024-01-01 12:00 DCIM\n") {
        ListStep::Listed(Ok(v)) => assert_eq!(v[0].path, "/sdcard/DCIM"),
        _ => panic!("expected a listing"),
    }
    match list_files_step("/data/data/com.x/files", "ls: /data/data/com.x/files: Permission denied") {
        ListStep::RunAs { package, relative } => {
            assert_eq!(package, "com.x");
            assert_eq!(relative, "files");
        }
        _ => panic!("expected a run-as retry"),
    }
    match list_files_step("/data", "ls: /data: Permission denied") {
        ListStep::Listed(Err(e)) => assert!(e.starts_with("权限不足: /data\n\n提示:")),
        _ => panic!("expected an error"),
    }
}

#[test]
fn run_as_retry_results() {
    let e = list_files_after_run_as("/data/data/com.x/files", "com.x", "files", "run-as: Package 'com.x' is not debuggable").unwrap_err();
    assert_eq!(e, "无法访问: /data/data/com.x/files\n\n提示: 应用 com.x 不可调试。\nrun-as 命令只能访问可调试应用的数据。");
    let ok = list_files_after_run_as("/data/data/com.x/files", "com.x", "files", "-rw------- 1 a a 5 2024-01-01 12:00 n.txt\n").unwrap();
    assert_eq!(ok[0].path, "files/n.txt");
    assert_eq!(ok[0].size.as_deref(), Some("5 B"));
}
