//! Running `adb`: where it is, what a run returns, and the arguments of the
//! simpler commands.

use vstd::prelude::*;
use crate::external::{lossy_string, utf8_lossy};
use crate::model::views;
use crate::text::{
    cat, chars_of, decimal, fmt_decimal, opt_text, seqs, split_words, str_is, string_of, trim,
    trim_chars, words,
};

verus! {

broadcast use vstd::string::group_string_axioms;

/// The message when no `adb` executable was found.
pub open spec fn adb_missing_message() -> Seq<char> {
    "未找到 adb 可执行文件。请安装 Android Platform Tools，或确认其在 PATH 中。"@
}

/// The `adb` to run: the located executable, or the error that none was
/// found.
pub fn adb_path(resolved: &Option<String>) -> (res: Result<String, String>)
    ensures
        match resolved {
            Some(p) => res matches Ok(q) && q@ == p@,
            None => res matches Err(e) && e@ == adb_missing_message(),
        },
{
    match resolved {
        Some(p) => Ok(p.clone()),
        None => Err(
            "未找到 adb 可执行文件。请安装 Android Platform Tools，或确认其在 PATH 中。".to_string(),
        ),
    }
}

/// What a finished `adb` run returns: its standard output when it
/// succeeded, else its error output, both read leniently as UTF-8.
pub fn adb_outcome(success: bool, stdout: &[u8], stderr: &[u8]) -> (res: Result<String, String>)
    ensures
        success ==> (res matches Ok(s) && s@ == utf8_lossy(stdout@)),
        !success ==> (res matches Err(e) && e@ == utf8_lossy(stderr@)),
{
    if success {
        Ok(lossy_string(stdout))
    } else {
        Err(lossy_string(stderr))
    }
}

/// The address for `adb connect`: `<ip>:<port>`, port 5555 by default.
pub fn connect_address(ip: &str, port: Option<u16>) -> (res: String)
    ensures
        res@ == ip@ + ":"@ + decimal(
            match port {
                Some(p) => p as nat,
                None => 5555,
            },
        ),
{
    let p: u16 = match port {
        Some(p) => p,
        None => 5555,
    };
    cat(&cat(ip, ":"), &string_of(&fmt_decimal(p as u128)))
}

/// The arguments for `adb disconnect`, with the address when one is given.
pub fn disconnect_args(address: Option<&str>) -> (res: Vec<String>)
    ensures
        address matches Some(a) ==> views(res@) == seq!["disconnect"@, a@],
        address is None ==> views(res@) == seq!["disconnect"@],
{
    let mut v: Vec<String> = Vec::new();
    v.push("disconnect".to_string());
    if let Some(a) = address {
        v.push(a.to_string());
    }
    v
}

/// The arguments for `adb reboot`: into `recovery` or `bootloader` when that
/// mode is asked for, else a normal reboot.
pub fn reboot_args(serial: &str, mode: Option<&str>) -> (res: Vec<String>)
    ensures
        opt_text(mode) == Some("recovery"@) ==> views(res@) == seq![
            "-s"@,
            serial@,
            "reboot"@,
            "recovery"@,
        ],
        opt_text(mode) == Some("bootloader"@) ==> views(res@) == seq![
            "-s"@,
            serial@,
            "reboot"@,
            "bootloader"@,
        ],
        opt_text(mode) != Some("recovery"@) && opt_text(mode) != Some("bootloader"@) ==> views(
            res@,
        ) == seq!["-s"@, serial@, "reboot"@],
{
    let mut v: Vec<String> = Vec::new();
    v.push("-s".to_string());
    v.push(serial.to_string());
    v.push("reboot".to_string());
    match mode {
        Some(m) => {
            if str_is(m, "recovery") {
                v.push("recovery".to_string());
            } else if str_is(m, "bootloader") {
                v.push("bootloader".to_string());
            }
        },
        None => {},
    }
    v
}

/// The arguments for a shell command typed by the user: `-s <serial> shell`
/// followed by the command's whitespace-separated words.
pub fn shell_command_args(serial: &str, command: &str) -> (res: Vec<String>)
    ensures
        views(res@) == seq!["-s"@, serial@, "shell"@] + words(command@),
{
    let fields = split_words(&chars_of(command));
    let mut v: Vec<String> = Vec::new();
    v.push("-s".to_string());
    v.push(serial.to_string());
    v.push("shell".to_string());
    let ghost head = views(v@);
    let mut i: usize = 0;
    while i < fields.len()
        invariant
            i <= fields.len(),
            views(v@) == head + seqs(fields@).take(i as int),
        decreases fields.len() - i,
    {
        let ghost prev = views(v@);
        let s = string_of(&fields[i]);
        v.push(s);
        assert(views(v@) =~= prev.push(s@));
        assert(seqs(fields@).take(i + 1) =~= seqs(fields@).take(i as int).push(fields@[i as int]@));
        i = i + 1;
    }
    assert(seqs(fields@).take(fields.len() as int) =~= seqs(fields@));
    assert(head =~= seq!["-s"@, serial@, "shell"@]);
    v
}

/// Where a screen recording is written on the device.
pub fn screenrecord_remote_path(timestamp_millis: u128) -> (res: String)
    ensures
        res@ == "/sdcard/screenrecord_"@ + decimal(timestamp_millis as nat) + ".mp4"@,
{
    cat(&cat("/sdcard/screenrecord_", &string_of(&fmt_decimal(timestamp_millis))), ".mp4")
}

/// What is known of the `adb` child process of a running recording.
#[derive(Debug, Clone, Copy, PartialEq, Eq)]
pub enum ChildStatus {
    /// It has exited.
    Exited,
    /// It is still running.
    Running,
    /// Its state could not be read.
    Unknown,
}

/// Whether a new recording may start, given the child of the recording held
/// so far (if any): a running one refuses the start; one that exited or
/// cannot be asked is dropped (`Ok(true)`); with none held, nothing is
/// dropped (`Ok(false)`).
pub fn recording_start_check(held: Option<ChildStatus>) -> (res: Result<bool, String>)
    ensures
        match held {
            None => res == Ok::<bool, String>(false),
            Some(ChildStatus::Running) => res matches Err(e) && e@ == "已有录屏任务正在进行"@,
            Some(_) => res == Ok::<bool, String>(true),
        },
{
    match held {
        None => Ok(false),
        Some(ChildStatus::Running) => Err("已有录屏任务正在进行".to_string()),
        Some(_) => Ok(true),
    }
}

/// Whether `pidof screenrecord` shows a recording: it ran and printed
/// something.
pub open spec fn recording_running(r: Result<String, String>) -> bool {
    match r {
        Ok(s) => trim(s@).len() > 0,
        Err(_) => false,
    }
}

/// The decision of `is_screen_recording`.
pub fn pidof_running(r: &Result<String, String>) -> (res: bool)
    ensures
        res == recording_running(*r),
{
    match r {
        Ok(s) => trim_chars(&chars_of(s.as_str())).len() > 0,
        Err(_) => false,
    }
}

/// The message after turning on analytics debugging for a package.
pub fn analytics_debug_message(package: &str) -> (res: String)
    ensures
        res@ == "已开启 Firebase 埋点调试："@ + package@,
{
    cat("已开启 Firebase 埋点调试：", package)
}

/// The arguments for granting or revoking a permission.
pub fn set_permission_args(serial: &str, package: &str, permission: &str, granted: bool) -> (res:
    Vec<String>)
    ensures
        views(res@) == seq![
            "-s"@,
            serial@,
            "shell"@,
            "pm"@,
            if granted {
                "grant"@
            } else {
                "revoke"@
            },
            package@,
            permission@,
        ],
{
    let mut v: Vec<String> = Vec::new();
    v.push("-s".to_string());
    v.push(serial.to_string());
    v.push("shell".to_string());
    v.push("pm".to_string());
    v.push(
        if granted {
            "grant".to_string()
        } else {
            "revoke".to_string()
        },
    );
    v.push(package.to_string());
    v.push(permission.to_string());
    v
}

/// What `delete_file` returns after `run-as <package> rm -rf`: the output, or
/// an error with the error output.
pub fn run_as_rm_outcome(success: bool, stdout: &[u8], stderr: &[u8]) -> (res: Result<String, String>)
    ensures
        success ==> (res matches Ok(s) && s@ == utf8_lossy(stdout@)),
        !success ==> (res matches Err(e) && e@ == "run-as rm 失败: "@ + utf8_lossy(stderr@)),
{
    if success {
        Ok(lossy_string(stdout))
    } else {
        Err(cat("run-as rm 失败: ", &lossy_string(stderr)))
    }
}

/// The error of a failed `exec-out run-as ... cat`.
pub fn exec_out_failure(stderr: &[u8]) -> (res: String)
    ensures
        res@ == "exec-out run-as cat 失败: "@ + utf8_lossy(stderr@),
{
    cat("exec-out run-as cat 失败: ", &lossy_string(stderr))
}

/// The message after a pull made through `run-as`.
pub fn run_as_pull_message(local_path: &str) -> (res: String)
    ensures
        res@ == "已通过 run-as 拉取到 "@ + local_path@,
{
    cat("已通过 run-as 拉取到 ", local_path)
}

} // verus!
