use adbtools::apps::{
    aapt_run_package, data_app, data_app_if_accessible, installed_apps_args, is_run_as_accessible, parse_installed_apps,
    parse_package_from_aapt, parse_package_names, start_app_args,
};

const PM: &str = "package:/system/app/Foo/Foo.apk=com.foo.bar\n\
package:/data/app/~~abc==/com.example-1/base.apk=com.example\n\
package:/system/priv-app/Settings/Settings.apk=com.android.settings\n\
not a package line\n";

#[test]
fn installed_packages_are_read() {
    let apps = parse_installed_apps(PM, None);
    let names: Vec<&str> = apps.iter().map(|a| a.package_name.as_str()).collect();
    assert_eq!(names, vec!["com.foo.bar", "com.example", "com.android.settings"]);
    let system: Vec<bool> = apps.iter().map(|a| a.is_system_app).collect();
    assert_eq!(system, vec![true, false, false]);
    assert!(apps.iter().all(|a| a.app_name.is_none() && a.version_name.is_none() && a.version_code.is_none()));
}

#[test]
fn system_filter_marks_everything_system() {
    let apps = parse_installed_apps(PM, Some("system"));
    assert!(apps.iter().all(|a| a.is_system_app));
}

#[test]
fn list_arguments() {
    assert_eq!(installed_apps_args("S", None), vec!["-s", "S", "shell", "pm", "list", "packages", "-f"]);
    assert_eq!(installed_apps_args("S", Some("system")), vec!["-s", "S", "shell", "pm", "list", "packages", "-f", "-s"]);
    assert_eq!(installed_apps_args("S", Some("third")), vec!["-s", "S", "shell", "pm", "list", "packages", "-f", "-3"]);
    assert_eq!(installed_apps_args("S", Some("other")), vec!["-s", "S", "shell", "pm", "list", "packages", "-f"]);
}

#[test]
fn package_names_are_read() {
    assert_eq!(
        parse_package_names("package:com.a\npackage: com.b \nother\npackage:package:com.c\n"),
        vec!["com.a", "com.b", "com.c"]
    );
}

#[test]
fn run_as_probe() {
    assert!(is_run_as_accessible(&Ok("uid=10123(u0_a123) gid=10123\n".to_string())));
    assert!(!is_run_as_accessible(&Ok("run-as: unknown package: com.x".to_string())));
    assert!(!is_run_as_accessible(&Ok("Package 'com.x' is not debuggable".to_string())));
    assert!(!is_run_as_accessible(&Err("error".to_string())));
    assert!(!data_app("com.x").is_system_app);
}

#[test]
fn aapt_output_is_read() {
    let out = "application-label:'Demo'\npackage: name='com.example.app' versionCode='1' versionName='1.0'\n";
    assert_eq!(parse_package_from_aapt(out).as_deref(), Some("com.example.app"));
    assert_eq!(parse_package_from_aapt("package: versionCode='1'"), None);
    assert_eq!(parse_package_from_aapt("nothing here"), None);
    assert_eq!(parse_package_from_aapt("package: name='broken"), None);
}

#[test]
fn launch_arguments() {
    assert_eq!(
        start_app_args("S", "com.x", Some(".Main")),
        vec!["-s", "S", "shell", "am", "start", "-n", "com.x/.Main"]
    );
    assert_eq!(
        start_app_args("S", "com.x", None),
        vec!["-s", "S", "shell", "monkey", "-p", "com.x", "-c", "android.intent.category.LAUNCHER", "1"]
    );
}

#[test]
fn aapt_runs_are_read_only_on_success() {
    let out = b"package: name='com.example.app' versionCode='1'\nsdkVersion:'21'\n";
    assert_eq!(aapt_run_package(true, out), Some("com.example.app".to_string()));
    assert_eq!(aapt_run_package(false, out), None);
    assert_eq!(aapt_run_package(true, b"ERROR: dump failed"), None);
}

#[test]
fn data_apps_need_a_working_run_as() {
    let ok: Result<String, String> = Ok("uid=10123(u0_a123) gid=10123".to_string());
    let refused: Result<String, String> = Ok("run-as: package not debuggable: com.x".to_string());
    let failed: Result<String, String> = Err("error".to_string());
    let app = data_app_if_accessible("com.x", &ok).unwrap();
    assert_eq!(app.package_name, "com.x");
    assert_eq!(app.app_name, None);
    assert!(!app.is_system_app);
    assert_eq!(data_app_if_accessible("com.x", &refused), None);
    assert_eq!(data_app_if_accessible("com.x", &failed), None);
}
