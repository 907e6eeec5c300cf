//! Exporting the device log: options, the package's processes and the
//! filtering by process id.

use vstd::prelude::*;
use vstd::utf8::encode_utf8;
use crate::external::{lossy_string, utf8_lossy};
use crate::model::views;
use crate::text::{
    cat, chars_eq, chars_of, concat, decimal, fmt_decimal, lines, opt_text, seqs, split_lines,
    split_words, string_of, trim, trim_chars, words,
};

verus! {

broadcast use vstd::string::group_string_axioms;

/// The log buffers to dump: the given list, or `all`.
pub fn logcat_buffer(buffers: Option<&str>) -> (res: String)
    ensures
        res@ == match buffers {
            Some(b) => b@,
            None => "all"@,
        },
{
    match buffers {
        Some(b) => b.to_string(),
        None => "all".to_string(),
    }
}

/// The package to filter by: the trimmed name, none when empty or absent.
pub open spec fn package_filter(package: Option<Seq<char>>) -> Option<Seq<char>> {
    match package {
        Some(p) => if trim(p).len() == 0 {
            None
        } else {
            Some(trim(p))
        },
        None => None,
    }
}

/// The package that `export_logcat` filters by.
pub fn logcat_package_filter(package: Option<&str>) -> (res: Option<String>)
    ensures
        res.deep_view() == package_filter(opt_text(package)),
{
    match package {
        Some(p) => {
            let t = trim_chars(&chars_of(p));
            if t.len() == 0 {
                None
            } else {
                Some(string_of(&t))
            }
        },
        None => None,
    }
}

/// The process ids printed by `pidof`: its whitespace-separated fields.
pub fn parse_pids(out: &str) -> (res: Vec<String>)
    ensures
        views(res@) == words(out@),
{
    let fields = split_words(&chars_of(out));
    let mut res: Vec<String> = Vec::new();
    let mut i: usize = 0;
    while i < fields.len()
        invariant
            i <= fields.len(),
            views(res@) == seqs(fields@).take(i as int),
        decreases fields.len() - i,
    {
        let ghost prev = views(res@);
        let s = string_of(&fields[i]);
        res.push(s);
        assert(views(res@) =~= prev.push(s@));
        assert(seqs(fields@).take(i + 1) =~= seqs(fields@).take(i as int).push(fields@[i as int]@));
        i = i + 1;
    }
    assert(seqs(fields@).take(fields.len() as int) =~= seqs(fields@));
    assert(seqs(fields@) == words(out@));
    res
}

/// The error when the package has no running process.
pub fn no_process_error(package: &str) -> (res: String)
    ensures
        res@ == "未找到应用 "@ + package@ + " 的进程，请先在设备上启动该应用后再导出"@,
{
    cat(&cat("未找到应用 ", package), " 的进程，请先在设备上启动该应用后再导出")
}

/// The processes whose lines the export keeps: none without a package
/// filter; with one, the ids that `pidof` printed, and an error when it
/// printed none (the package is not running).
pub fn export_pids(filter_pkg: &Option<String>, pidof_out: &str) -> (res: Result<Vec<String>, String>)
    ensures
        match filter_pkg {
            None => res matches Ok(v) && v@.len() == 0,
            Some(pkg) => if words(pidof_out@).len() == 0 {
                res matches Err(e) && e@ == "未找到应用 "@ + pkg@ + " 的进程，请先在设备上启动该应用后再导出"@
            } else {
                res matches Ok(v) && views(v@) == words(pidof_out@)
            },
        },
{
    match filter_pkg {
        None => Ok(Vec::new()),
        Some(pkg) => {
            let pids = parse_pids(pidof_out);
            if pids.len() == 0 {
                assert(words(pidof_out@).len() == views(pids@).len());
                Err(no_process_error(pkg.as_str()))
            } else {
                Ok(pids)
            }
        },
    }
}

/// A `threadtime` log line belongs to one of `pids` when its third field
/// (the process id) is one of them.
pub open spec fn keeps_line(line: Seq<char>, pids: Seq<Seq<char>>) -> bool {
    words(line).len() >= 3 && pids.contains(words(line)[2])
}

/// The kept lines, each followed by a line feed.
pub open spec fn filtered_log(ls: Seq<Seq<char>>, pids: Seq<Seq<char>>) -> Seq<char>
    decreases ls.len(),
{
    if ls.len() == 0 {
        seq![]
    } else {
        filtered_log(ls.drop_last(), pids) + if keeps_line(ls.last(), pids) {
            ls.last() + "\n"@
        } else {
            seq![]
        }
    }
}

/// Filtering goes line by line: appending a line whose third whitespace
/// field equals one of `pids` appends that line and a line feed to the
/// result; appending any other line (one with fewer than three fields, or
/// whose third field is none of `pids`, even a longer number that begins
/// with one) leaves the result unchanged.
pub proof fn law_filter_line_by_line(ls: Seq<Seq<char>>, line: Seq<char>, pids: Seq<Seq<char>>)
    ensures
        words(line).len() >= 3 && pids.contains(words(line)[2]) ==> filtered_log(ls.push(line), pids)
            == filtered_log(ls, pids) + line + "\n"@,
        !(words(line).len() >= 3 && pids.contains(words(line)[2])) ==> filtered_log(
            ls.push(line),
            pids,
        ) == filtered_log(ls, pids),
{
    assert(ls.push(line).drop_last() =~= ls);
    assert(ls.push(line).last() == line);
    assert(filtered_log(ls, pids) + Seq::<char>::empty() =~= filtered_log(ls, pids));
    assert(filtered_log(ls, pids) + (line + "\n"@) =~= filtered_log(ls, pids) + line + "\n"@);
}

/// No line is kept whose third field is not one of `pids`: when no line's
/// third field is one of them, the result is empty.
pub proof fn law_filter_keeps_nothing_foreign(ls: Seq<Seq<char>>, pids: Seq<Seq<char>>)
    requires
        forall|i: int| 0 <= i < ls.len() ==> !(words(#[trigger] ls[i]).len() >= 3 && pids.contains(
            words(ls[i])[2],
        )),
    ensures
        filtered_log(ls, pids) == Seq::<char>::empty(),
    decreases ls.len(),
{
    if ls.len() > 0 {
        let rest = ls.drop_last();
        assert forall|i: int| 0 <= i < rest.len() implies !(words(#[trigger] rest[i]).len() >= 3
            && pids.contains(words(rest[i])[2])) by {
            assert(rest[i] == ls[i]);
        }
        law_filter_keeps_nothing_foreign(rest, pids);
        assert(ls.last() == ls[ls.len() - 1]);
        assert(rest.push(ls.last()) =~= ls);
        law_filter_line_by_line(rest, ls.last(), pids);
    }
}

fn pid_listed(pid: &[char], pids: &Vec<String>) -> (res: bool)
    ensures
        res == views(pids@).contains(pid@),
{
    let mut i: usize = 0;
    while i < pids.len()
        invariant
            i <= pids.len(),
            forall|k: int| 0 <= k < i ==> views(pids@)[k] != pid@,
        decreases pids.len() - i,
    {
        if chars_eq(&chars_of(pids[i].as_str()), pid) {
            assert(views(pids@)[i as int] == pid@);
            return true;
        }
        i = i + 1;
    }
    false
}

/// The log lines of the given processes (`export_logcat` with a package).
pub fn filter_logcat(log: &str, pids: &Vec<String>) -> (res: String)
    ensures
        res@ == filtered_log(lines(log@), views(pids@)),
{
    let ls = split_lines(&chars_of(log));
    let ghost all = seqs(ls@);
    let newline = chars_of("\n");
    let mut out: Vec<char> = Vec::new();
    let mut i: usize = 0;
    assert(all.subrange(0, 0) =~= Seq::<Seq<char>>::empty());
    while i < ls.len()
        invariant
            i <= ls.len(),
            all == seqs(ls@),
            newline@ == "\n"@,
            out@ == filtered_log(all.subrange(0, i as int), views(pids@)),
        decreases ls.len() - i,
    {
        assert(all.subrange(0, i + 1).drop_last() =~= all.subrange(0, i as int));
        assert(all.subrange(0, i + 1).last() == ls@[i as int]@);
        let line = &ls[i];
        let parts = split_words(line);
        if parts.len() >= 3 && pid_listed(&parts[2], pids) {
            assert(seqs(parts@)[2] == parts@[2]@);
            let with_line = concat(&out, line);
            out = concat(&with_line, &newline);
        } else {
            proof {
                if parts.len() >= 3 {
                    assert(seqs(parts@)[2] == parts@[2]@);
                }
            }
            assert(out@ =~= out@ + Seq::<char>::empty());
        }
        i = i + 1;
    }
    assert(all.subrange(0, all.len() as int) =~= all);
    string_of(&out)
}

/// The bytes written to the log file: the whole dump without a package
/// filter, else the kept lines of its text.
pub open spec fn log_bytes(stdout: Seq<u8>, pids: Seq<Seq<char>>) -> Seq<u8> {
    if pids.len() == 0 {
        stdout
    } else {
        encode_utf8(filtered_log(lines(utf8_lossy(stdout)), pids))
    }
}

/// The content of the exported log file.
pub fn logcat_bytes(stdout: &[u8], pids: &Vec<String>) -> (res: Vec<u8>)
    ensures
        res@ == log_bytes(stdout@, views(pids@)),
{
    if pids.len() == 0 {
        byte_vec(stdout)
    } else {
        let text = lossy_string(stdout);
        let filtered = filter_logcat(text.as_str(), pids);
        byte_vec(filtered.as_str().as_bytes())
    }
}

/// An owned copy of a byte slice.
fn byte_vec(b: &[u8]) -> (res: Vec<u8>)
    ensures
        res@ == b@,
{
    let mut v: Vec<u8> = Vec::new();
    let mut i: usize = 0;
    while i < b.len()
        invariant
            i <= b.len(),
            v@ == b@.take(i as int),
        decreases b.len() - i,
    {
        v.push(b[i]);
        i = i + 1;
        assert(v@ =~= b@.take(i as int));
    }
    assert(b@.take(b.len() as int) =~= b@);
    v
}

/// The message after a successful export.
pub fn logcat_saved_message(byte_count: usize) -> (res: String)
    ensures
        res@ == "日志已保存（"@ + decimal(byte_count as nat) + " 字节）"@,
{
    cat(&cat("日志已保存（", &string_of(&fmt_decimal(byte_count as u128))), " 字节）")
}

/// The error when `adb logcat` failed.
pub fn logcat_failure(stderr: &[u8]) -> (res: String)
    ensures
        res@ == "导出日志失败: "@ + utf8_lossy(stderr@),
{
    cat("导出日志失败: ", &lossy_string(stderr))
}

} // verus!
