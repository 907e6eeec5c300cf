//! Packages: `pm list packages` output, `run-as` probes, `aapt` output and
//! the launch command.

use vstd::prelude::*;
use crate::external::{lossy_string, utf8_lossy};
use crate::files::lemma_filter_map_member;
use crate::model::{AppInfo, AppInfoView, views};
use crate::text::{
    opt_text,
    chars_of, contains_exec, contains_str, copy_range, find_char, find_char_exec, find_str,
    find_str_exec, lemma_find_char, lemma_find_str, lemma_lines_cons, occurs_at, lemma_rfind_char, lines, rfind_char,
    rfind_char_exec, seqs, split_lines, starts_with, starts_with_exec, string_of, trim,
    trim_chars, trim_start_matches, trim_start_matches_exec,
};

verus! {

broadcast use vstd::string::group_string_axioms;

/// The `pm list packages` option for a filter: `-s` for `system`, `-3` for
/// `third`, none otherwise.
pub open spec fn package_filter_flag(filter: Option<Seq<char>>) -> Seq<char> {
    if filter == Some("system"@) {
        "-s"@
    } else if filter == Some("third"@) {
        "-3"@
    } else {
        seq![]
    }
}

fn opt_is(o: Option<&str>, lit: &str) -> (res: bool)
    ensures
        res == (opt_text(o) == Some(lit@)),
{
    match o {
        Some(s) => crate::text::chars_eq(&chars_of(s), &chars_of(lit)),
        None => false,
    }
}

/// The arguments of `adb` for `get_installed_apps`.
pub fn installed_apps_args(serial: &str, filter: Option<&str>) -> (res: Vec<String>)
    ensures
        package_filter_flag(opt_text(filter)).len() == 0 ==> views(res@) == seq![
            "-s"@,
            serial@,
            "shell"@,
            "pm"@,
            "list"@,
            "packages"@,
            "-f"@,
        ],
        package_filter_flag(opt_text(filter)).len() > 0 ==> views(res@) == seq![
            "-s"@,
            serial@,
            "shell"@,
            "pm"@,
            "list"@,
            "packages"@,
            "-f"@,
            package_filter_flag(opt_text(filter)),
        ],
{
    let mut v: Vec<String> = Vec::new();
    v.push("-s".to_string());
    v.push(serial.to_string());
    v.push("shell".to_string());
    v.push("pm".to_string());
    v.push("list".to_string());
    v.push("packages".to_string());
    v.push("-f".to_string());
    proof {
        reveal_strlit("-s");
        reveal_strlit("-3");
    }
    if opt_is(filter, "system") {
        v.push("-s".to_string());
    } else if opt_is(filter, "third") {
        v.push("-3".to_string());
    }
    v
}

/// The package that a `pm list packages -f` line names (the text after its
/// last `=`), and whether it counts as a system app: always under the
/// `system` filter, else when its path has `/system/` and the name starts
/// with neither `com.android` nor `com.google`.
pub open spec fn installed_app_of_line(line: Seq<char>, filter: Option<Seq<char>>) -> Option<
    AppInfoView,
> {
    if !starts_with(line, "package:"@) {
        None
    } else {
        match rfind_char(line, '=') {
            None => None,
            Some(pos) => {
                let name = line.skip(pos + 1);
                Some(
                    AppInfoView {
                        package_name: name,
                        app_name: None,
                        version_name: None,
                        version_code: None,
                        is_system_app: filter == Some("system"@) || (!starts_with(
                            name,
                            "com.android"@,
                        ) && !starts_with(name, "com.google"@) && contains_str(
                            line,
                            "/system/"@,
                        )),
                    },
                )
            },
        }
    }
}

/// The packages of `pm list packages -f` output, in order.
pub open spec fn installed_apps(output: Seq<char>, filter: Option<Seq<char>>) -> Seq<AppInfoView> {
    lines(output).filter_map(|l: Seq<char>| installed_app_of_line(l, filter))
}

/// How packages are marked as system apps: with the `system` filter every
/// listed package is; without it, a package whose name starts with
/// `com.android` or `com.google` never is, and any other package is exactly
/// when its line (its `.apk` path) lies under `/system/`.
pub proof fn law_system_marking(output: Seq<char>, filter: Option<Seq<char>>, k: int)
    requires
        0 <= k < installed_apps(output, filter).len(),
    ensures
        ({
            let a = installed_apps(output, filter)[k];
            &&& filter == Some("system"@) ==> a.is_system_app
            &&& filter != Some("system"@) && (starts_with(a.package_name, "com.android"@)
                || starts_with(a.package_name, "com.google"@)) ==> !a.is_system_app
            &&& exists|j: int|
                0 <= j < lines(output).len() && #[trigger] lines(output)[j] == "package:"@
                    + lines(output)[j].subrange(8, lines(output)[j].len() - a.package_name.len() - 1)
                    + "="@ + a.package_name && (filter != Some("system"@) && !starts_with(
                    a.package_name,
                    "com.android"@,
                ) && !starts_with(a.package_name, "com.google"@) ==> (a.is_system_app
                    <==> contains_str(lines(output)[j], "/system/"@)))
        }),
{
    let f = |l: Seq<char>| installed_app_of_line(l, filter);
    lemma_filter_map_member(lines(output), f, k);
    let j = choose|j: int|
        0 <= j < lines(output).len() && f(lines(output)[j]) == Some(lines(output).filter_map(f)[k]);
    let line = lines(output)[j];
    let a = installed_apps(output, filter)[k];
    assert(installed_apps(output, filter) == lines(output).filter_map(f));
    reveal_strlit("package:");
    reveal_strlit("=");
    lemma_rfind_char(line, '=');
    let pos = rfind_char(line, '=').unwrap();
    assert(a.package_name == line.skip(pos + 1));
    assert(pos >= 8) by {
        assert(line.subrange(0, 8) == "package:"@);
        if pos < 8 {
            assert(line[pos] == "package:"@[pos]);
        }
    }
    assert(line =~= "package:"@ + line.subrange(8, line.len() - a.package_name.len() - 1) + "="@
        + a.package_name);
}

/// A package line gives the name after its last `=`: for
/// `package:<path>=<name>` with no `=` in the name, the package is `name`.
pub proof fn law_installed_line_name(path: Seq<char>, name: Seq<char>, filter: Option<Seq<char>>)
    requires
        forall|i: int| 0 <= i < name.len() ==> name[i] != '=',
    ensures
        installed_app_of_line("package:"@ + path + "="@ + name, filter) matches Some(a)
            && a.package_name == name,
{
    reveal_strlit("package:");
    reveal_strlit("=");
    let line = "package:"@ + path + "="@ + name;
    let p: int = 8 + path.len() as int;
    assert(line[p] == '=');
    assert forall|i: int| p < i < line.len() implies line[i] != '=' by {
        assert(line[i] == name[i - p - 1]);
    }
    lemma_rfind_char(line, '=');
    let r = rfind_char(line, '=');
    match r {
        Some(q) => {
            if q < p {
                assert(line[p] == '=');
            }
        },
        None => {},
    }
    assert(line.subrange(0, 8) =~= "package:"@);
    assert(line.skip(p + 1) =~= name);
}

fn installed_app_of_line_exec(line: &[char], is_system_filter: bool, Ghost(filter): Ghost<
    Option<Seq<char>>,
>) -> (res: Option<AppInfo>)
    requires
        is_system_filter == (filter == Some("system"@)),
    ensures
        match res {
            Some(a) => installed_app_of_line(line@, filter) == Some(a@),
            None => installed_app_of_line(line@, filter) is None,
        },
{
    if !starts_with_exec(line, &chars_of("package:")) {
        return None;
    }
    match rfind_char_exec(line, '=') {
        None => None,
        Some(pos) => {
            proof {
                lemma_rfind_char(line@, '=');
            }
            let llen = line.len();
            assert(pos < line@.len() && llen == line@.len());
            let name = copy_range(line, pos + 1, llen);
            assert(name@ =~= line@.skip(pos + 1));
            let is_system = is_system_filter || (!starts_with_exec(&name, &chars_of("com.android"))
                && !starts_with_exec(&name, &chars_of("com.google")) && contains_exec(
                line,
                &chars_of("/system/"),
            ));
            Some(
                AppInfo {
                    package_name: string_of(&name),
                    app_name: None,
                    version_name: None,
                    version_code: None,
                    is_system_app: is_system,
                },
            )
        },
    }
}

/// `pm list packages -f` output read into packages (`get_installed_apps`).
pub fn parse_installed_apps(output: &str, filter: Option<&str>) -> (res: Vec<AppInfo>)
    ensures
        views(res@) == installed_apps(output@, opt_text(filter)),
{
    let is_system_filter = opt_is(filter, "system");
    let ls = split_lines(&chars_of(output));
    let ghost all = seqs(ls@);
    let ghost f = |l: Seq<char>| installed_app_of_line(l, opt_text(filter));
    let mut res: Vec<AppInfo> = Vec::new();
    let mut i: usize = 0;
    assert(all.subrange(0, 0) =~= Seq::<Seq<char>>::empty());
    while i < ls.len()
        invariant
            i <= ls.len(),
            all == seqs(ls@),
            all == lines(output@),
            is_system_filter == (opt_text(filter) == Some("system"@)),
            f == (|l: Seq<char>| installed_app_of_line(l, opt_text(filter))),
            views(res@) == all.subrange(0, i as int).filter_map(f),
        decreases ls.len() - i,
    {
        let ghost prev = views(res@);
        assert(all.subrange(0, i + 1).drop_last() =~= all.subrange(0, i as int));
        assert(all.subrange(0, i + 1).last() == ls@[i as int]@);
        match installed_app_of_line_exec(&ls[i], is_system_filter, Ghost(opt_text(filter))) {
            Some(a) => {
                res.push(a);
                assert(views(res@) =~= prev + seq![a@]);
            },
            None => {},
        }
        i = i + 1;
    }
    assert(all.subrange(0, all.len() as int) =~= all);
    res
}

/// The package names of `pm list packages` output: each `package:` line
/// without that prefix, trimmed.
pub open spec fn package_names(output: Seq<char>) -> Seq<Seq<char>> {
    lines(output).filter_map(
        |l: Seq<char>|
            if starts_with(l, "package:"@) {
                Some(trim(trim_start_matches(l, "package:"@)))
            } else {
                None
            },
    )
}

/// `pm list packages` output read into package names (`list_data_apps`).
pub fn parse_package_names(output: &str) -> (res: Vec<String>)
    ensures
        views(res@) == package_names(output@),
{
    let prefix = chars_of("package:");
    let ls = split_lines(&chars_of(output));
    let ghost all = seqs(ls@);
    let ghost f = |l: Seq<char>|
        if starts_with(l, "package:"@) {
            Some(trim(trim_start_matches(l, "package:"@)))
        } else {
            None
        };
    let mut res: Vec<String> = Vec::new();
    let mut i: usize = 0;
    assert(all.subrange(0, 0) =~= Seq::<Seq<char>>::empty());
    while i < ls.len()
        invariant
            i <= ls.len(),
            all == seqs(ls@),
            all == lines(output@),
            prefix@ == "package:"@,
            f == (|l: Seq<char>|
                if starts_with(l, "package:"@) {
                    Some(trim(trim_start_matches(l, "package:"@)))
                } else {
                    None
                }),
            views(res@) == all.subrange(0, i as int).filter_map(f),
        decreases ls.len() - i,
    {
        let ghost prev = views(res@);
        assert(all.subrange(0, i + 1).drop_last() =~= all.subrange(0, i as int));
        assert(all.subrange(0, i + 1).last() == ls@[i as int]@);
        let line = &ls[i];
        if starts_with_exec(line, &prefix) {
            let name = string_of(&trim_chars(&trim_start_matches_exec(line, &prefix)));
            res.push(name);
            assert(views(res@) =~= prev + seq![name@]);
        }
        i = i + 1;
    }
    assert(all.subrange(0, all.len() as int) =~= all);
    res
}

/// Whether a `run-as <package> id` result shows the app's data can be
/// reached: the command ran and its trimmed output neither starts with
/// `run-as:` nor mentions `not debuggable`.
pub open spec fn run_as_accessible(r: Result<String, String>) -> bool {
    match r {
        Ok(out) => {
            let t = trim(out@);
            !starts_with(t, "run-as:"@) && !contains_str(t, "not debuggable"@)
        },
        Err(_) => false,
    }
}

/// The decision of `test_app_debuggable` and of `list_data_apps`.
pub fn is_run_as_accessible(r: &Result<String, String>) -> (res: bool)
    ensures
        res == run_as_accessible(*r),
{
    match r {
        Ok(out) => {
            let t = trim_chars(&chars_of(out.as_str()));
            !starts_with_exec(&t, &chars_of("run-as:")) && !contains_exec(
                &t,
                &chars_of("not debuggable"),
            )
        },
        Err(_) => false,
    }
}

/// The record `list_data_apps` gives a reachable package.
pub fn data_app(package_name: &str) -> (res: AppInfo)
    ensures
        res@ == (AppInfoView {
            package_name: package_name@,
            app_name: None,
            version_name: None,
            version_code: None,
            is_system_app: false,
        }),
{
    AppInfo {
        package_name: package_name.to_string(),
        app_name: None,
        version_name: None,
        version_code: None,
        is_system_app: false,
    }
}

/// One step of `list_data_apps`: the package's entry when its `run-as` probe
/// shows it debuggable, none otherwise.
pub fn data_app_if_accessible(package_name: &str, probe: &Result<String, String>) -> (res: Option<AppInfo>)
    ensures
        run_as_accessible(*probe) <==> res is Some,
        res matches Some(a) ==> a@ == (AppInfoView {
            package_name: package_name@,
            app_name: None,
            version_name: None,
            version_code: None,
            is_system_app: false,
        }),
{
    if is_run_as_accessible(probe) {
        Some(data_app(package_name))
    } else {
        None
    }
}

/// The first of `ls` that starts with `p`.
pub open spec fn first_with_prefix(ls: Seq<Seq<char>>, p: Seq<char>) -> Option<Seq<char>>
    decreases ls.len(),
{
    if ls.len() == 0 {
        None
    } else if starts_with(ls[0], p) {
        Some(ls[0])
    } else {
        first_with_prefix(ls.drop_first(), p)
    }
}

/// The package name in `aapt dump badging` output: on the first line that
/// starts with `package:`, the text after `name='` up to the next `'`.
pub open spec fn aapt_package(output: Seq<char>) -> Option<Seq<char>> {
    match first_with_prefix(lines(output), "package:"@) {
        None => None,
        Some(line) => match find_str(line, "name='"@) {
            None => None,
            Some(i) => {
                let rest = line.skip(i + 6);
                match find_char(rest, '\'') {
                    None => None,
                    Some(end) => Some(rest.take(end)),
                }
            },
        },
    }
}

/// `aapt dump badging` output starting with the line
/// `package: name='<n>' ...` names the package `n`, whatever follows.
pub proof fn law_aapt_package_name(n: Seq<char>, rest: Seq<char>, more: Seq<char>)
    requires
        forall|i: int| 0 <= i < n.len() ==> n[i] != '\'' && n[i] != '\n',
        forall|i: int| 0 <= i < rest.len() ==> rest[i] != '\n',
        rest.len() > 0 ==> rest.last() != '\r',
    ensures
        aapt_package("package: name='"@ + n + "' "@ + rest + "\n"@ + more) == Some(n),
{
    reveal_strlit("package: name='");
    reveal_strlit("' ");
    reveal_strlit("\n");
    reveal_strlit("package:");
    reveal_strlit("name='");
    let line = "package: name='"@ + n + "' "@ + rest;
    assert forall|i: int| 0 <= i < line.len() implies line[i] != '\n' by {
        if 15 <= i < 15 + n.len() {
            assert(line[i] == n[i - 15]);
        } else if i >= 17 + n.len() {
            assert(line[i] == rest[i - 17 - n.len()]);
        }
    }
    assert(line.len() > 0 ==> line.last() != '\r');
    lemma_lines_cons(line, more);
    assert("package: name='"@ + n + "' "@ + rest + "\n"@ + more =~= line + "\n"@ + more);
    let ls = lines(line + "\n"@ + more);
    assert(ls[0] == line);
    assert(line.subrange(0, 8) =~= "package:"@);
    assert(first_with_prefix(ls, "package:"@) == Some(line));
    let key = "name='"@;
    assert(line.subrange(9, 15) =~= key);
    lemma_find_str(line, key);
    assert forall|j: int| j < 9 implies !occurs_at(line, key, j) by {
        if occurs_at(line, key, j) {
            assert(line.subrange(j, j + 6)[0] == line[j]);
            assert(line[j] == 'n');
        }
    }
    assert(occurs_at(line, key, 9));
    assert(find_str(line, key) == Some(9int));
    let tail = line.skip(15);
    assert(tail =~= n + "' "@ + rest);
    assert(tail[n.len() as int] == '\'');
    assert forall|j: int| 0 <= j < n.len() implies tail[j] != '\'' by {
        assert(tail[j] == n[j]);
    }
    crate::text::lemma_find_char_at(tail, '\'', n.len() as int);
    assert(tail.take(n.len() as int) =~= n);
}

/// `aapt dump badging` output read for the package name.
pub fn parse_package_from_aapt(output: &str) -> (res: Option<String>)
    ensures
        res.deep_view() == aapt_package(output@),
{
    let prefix = chars_of("package:");
    let ls = split_lines(&chars_of(output));
    let ghost all = seqs(ls@);
    let mut i: usize = 0;
    assert(all.skip(0) =~= all);
    while i < ls.len() && !starts_with_exec(&ls[i], &prefix)
        invariant
            i <= ls.len(),
            all == seqs(ls@),
            prefix@ == "package:"@,
            first_with_prefix(all, prefix@) == first_with_prefix(all.skip(i as int), prefix@),
        decreases ls.len() - i,
    {
        assert(all.skip(i as int).drop_first() =~= all.skip(i + 1));
        i = i + 1;
    }
    if i == ls.len() {
        assert(all.skip(i as int) =~= Seq::<Seq<char>>::empty());
        return None;
    }
    assert(all.skip(i as int)[0] == ls@[i as int]@);
    let line = &ls[i];
    let marker = chars_of("name='");
    match find_str_exec(line, &marker) {
        None => None,
        Some(k) => {
            proof {
                lemma_find_str(line@, marker@);
                reveal_strlit("name='");
            }
            assert(crate::text::occurs_at(line@, marker@, k as int));
            let llen = line.len();
            assert(llen == line@.len());
            let rest = copy_range(line, k + 6, llen);
            assert(rest@ =~= line@.skip(k + 6));
            match find_char_exec(&rest, '\'') {
                None => None,
                Some(end) => {
                    proof {
                        lemma_find_char(rest@, '\'');
                    }
                    let name = copy_range(&rest, 0, end);
                    assert(name@ =~= rest@.take(end as int));
                    Some(string_of(&name))
                },
            }
        },
    }
}

/// One step of `get_apk_package_name`: the package name that a run of
/// `aapt dump badging` gives, read from its output (decoded as
/// `String::from_utf8_lossy` does) when the run succeeded; none when it
/// failed or printed no package name, and the next program is tried.
pub fn aapt_run_package(success: bool, stdout: &[u8]) -> (res: Option<String>)
    ensures
        res.deep_view() == (if success {
            aapt_package(utf8_lossy(stdout@))
        } else {
            None
        }),
{
    if success {
        let text = lossy_string(stdout);
        parse_package_from_aapt(text.as_str())
    } else {
        None
    }
}

/// The arguments of `adb` for `start_app`: `am start -n <package>/<activity>`
/// for a given activity, else `monkey` on the launcher category.
pub fn start_app_args(serial: &str, package_name: &str, activity: Option<&str>) -> (res: Vec<String>)
    ensures
        activity matches Some(act) ==> views(res@) == seq![
            "-s"@,
            serial@,
            "shell"@,
            "am"@,
            "start"@,
            "-n"@,
            package_name@ + "/"@ + act@,
        ],
        activity is None ==> views(res@) == seq![
            "-s"@,
            serial@,
            "shell"@,
            "monkey"@,
            "-p"@,
            package_name@,
            "-c"@,
            "android.intent.category.LAUNCHER"@,
            "1"@,
        ],
{
    let mut v: Vec<String> = Vec::new();
    v.push("-s".to_string());
    v.push(serial.to_string());
    v.push("shell".to_string());
    match activity {
        Some(act) => {
            v.push("am".to_string());
            v.push("start".to_string());
            v.push("-n".to_string());
            v.push(crate::text::cat(&crate::text::cat(package_name, "/"), act));
        },
        None => {
            v.push("monkey".to_string());
            v.push("-p".to_string());
            v.push(package_name.to_string());
            v.push("-c".to_string());
            v.push("android.intent.category.LAUNCHER".to_string());
            v.push("1".to_string());
        },
    }
    v
}


/// The error when no `aapt` program is available.
pub fn aapt_missing_error() -> (res: String)
    ensures
        res@ == "未找到 aapt 工具。请安装 Android SDK Build Tools，或设置 ANDROID_HOME 环境变量。"@,
{
    "未找到 aapt 工具。请安装 Android SDK Build Tools，或设置 ANDROID_HOME 环境变量。".to_string()
}

/// The error when no `aapt` run yielded a package name.
pub fn aapt_failed_error() -> (res: String)
    ensures
        res@ == "aapt 解析失败：未能从 APK 中提取 package 名"@,
{
    "aapt 解析失败：未能从 APK 中提取 package 名".to_string()
}

} // verus!
