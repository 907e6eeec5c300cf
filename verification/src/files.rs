//! Directory listings: reading `ls -la` output and choosing between a plain
//! listing and one made through `run-as`.

use vstd::prelude::*;
use crate::model::{FileInfo, FileInfoView, views};
use crate::text::{lemma_words_nonempty, cat, contains_exec, contains_str, split_once, split_once_exec, copy_range, chars_eq, chars_of, concat, decimal, fmt_decimal, join, join_range, lines, parse_unsigned, parse_unsigned_exec, seqs, split_lines, split_words, starts_with, starts_with_exec, string_of, trim, trim_chars, trim_end_char, trim_end_char_exec, words};

verus! {

broadcast use vstd::string::group_string_axioms;

/// Lines that carry no entry: blank, the `total` line, and a bare `ls:`.
pub open spec fn skipped_line(t: Seq<char>) -> bool {
    t.len() == 0 || starts_with(t, "total"@) || t == "ls:"@
}

/// Index of the first `w` in `ps` at or after `k`, or `ps.len()`.
pub open spec fn first_from(ps: Seq<Seq<char>>, k: int, w: Seq<char>) -> int
    decreases ps.len() - k,
{
    if k < 0 || k >= ps.len() {
        ps.len() as int
    } else if ps[k] == w {
        k
    } else {
        first_from(ps, k + 1, w)
    }
}

/// Where an entry lives: `base` without trailing slashes, then `/` and the
/// name.
pub open spec fn entry_path(base: Seq<char>, name: Seq<char>) -> Seq<char> {
    let cb = trim_end_char(base, '/');
    if cb.len() == 0 {
        "/"@ + name
    } else {
        cb + "/"@ + name
    }
}

/// The entry that one line of `ls -la` describes. The fields are permissions,
/// links, owner, group, size, date, time and the name (which may contain
/// spaces; for a symbolic link it ends before `->`). Hidden entries and
/// `app_*` directories are left out; a size is given for non-directories
/// whose size field is a number.
pub open spec fn file_entry(line: Seq<char>, base: Seq<char>) -> Option<FileInfoView> {
    let t = trim(line);
    if skipped_line(t) {
        None
    } else {
        let parts = words(t);
        if parts.len() < 8 {
            None
        } else {
            let perms = parts[0];
            let symlink = perms.len() > 0 && perms[0] == 'l';
            let is_dir = (perms.len() > 0 && perms[0] == 'd') || symlink;
            let end = if symlink {
                first_from(parts, 7, "->"@)
            } else {
                parts.len() as int
            };
            if 7 >= end {
                None
            } else {
                let name = join(parts.subrange(7, end), " "@);
                if (name.len() > 0 && name[0] == '.') || starts_with(name, "app_"@) {
                    None
                } else {
                    Some(
                        FileInfoView {
                            name: name,
                            path: entry_path(base, name),
                            is_dir: is_dir,
                            size: if !is_dir {
                                match parse_unsigned(parts[4], u64::MAX as nat) {
                                    Some(n) => Some(decimal(n) + " B"@),
                                    None => None,
                                }
                            } else {
                                None
                            },
                            permissions: Some(perms),
                            modified_time: Some(parts[5] + " "@ + parts[6]),
                        },
                    )
                }
            }
        }
    }
}

/// The entries of an `ls -la` listing of `base`, in order.
pub open spec fn file_list(output: Seq<char>, base: Seq<char>) -> Seq<FileInfoView> {
    lines(output).filter_map(|l: Seq<char>| file_entry(l, base))
}

fn entry_path_exec(base: &[char], name: &[char]) -> (res: Vec<char>)
    ensures
        res@ == entry_path(base@, name@),
{
    let cb = trim_end_char_exec(base, '/');
    let slash = chars_of("/");
    if cb.len() == 0 {
        concat(&slash, name)
    } else {
        let with_slash = concat(&cb, &slash);
        concat(&with_slash, name)
    }
}

fn file_entry_exec(line: &[char], base: &[char]) -> (res: Option<FileInfo>)
    ensures
        match res {
            Some(f) => file_entry(line@, base@) == Some(f@),
            None => file_entry(line@, base@) is None,
        },
{
    let t = trim_chars(line);
    let total = chars_of("total");
    let ls_colon = chars_of("ls:");
    if t.len() == 0 || starts_with_exec(&t, &total) || chars_eq(&t, &ls_colon) {
        return None;
    }
    let parts = split_words(&t);
    let ghost ps = seqs(parts@);
    if parts.len() < 8 {
        return None;
    }
    let perms = &parts[0];
    let symlink = perms.len() > 0 && perms[0] == 'l';
    let is_dir = (perms.len() > 0 && perms[0] == 'd') || symlink;
    let arrow = chars_of("->");
    let mut end: usize = parts.len();
    if symlink {
        let mut k: usize = 7;
        while k < parts.len() && !chars_eq(&parts[k], &arrow)
            invariant
                7 <= k <= parts.len(),
                ps == seqs(parts@),
                arrow@ == "->"@,
                first_from(ps, 7, arrow@) == first_from(ps, k as int, arrow@),
            decreases parts.len() - k,
        {
            k = k + 1;
        }
        end = k;
    }
    if 7 >= end {
        return None;
    }
    let space = chars_of(" ");
    let name = join_range(&parts, 7, end, &space);
    let app_prefix = chars_of("app_");
    if (name.len() > 0 && name[0] == '.') || starts_with_exec(&name, &app_prefix) {
        return None;
    }
    let size = if !is_dir {
        match parse_unsigned_exec(&parts[4], 0xffff_ffff_ffff_ffff) {
            Some(n) => {
                let digits = fmt_decimal(n as u128);
                let unit = chars_of(" B");
                Some(string_of(&concat(&digits, &unit)))
            },
            None => None,
        }
    } else {
        None
    };
    let date_space = concat(&parts[5], &space);
    let modified = concat(&date_space, &parts[6]);
    let path = entry_path_exec(base, &name);
    Some(
        FileInfo {
            name: string_of(&name),
            path: string_of(&path),
            is_dir,
            size,
            permissions: Some(string_of(perms)),
            modified_time: Some(string_of(&modified)),
        },
    )
}

/// `ls -la` output of the directory `base_path` read into entries. It never
/// fails.
pub fn parse_file_list(output: &str, base_path: &str) -> (res: Result<Vec<FileInfo>, String>)
    ensures
        res matches Ok(v) && views(v@) == file_list(output@, base_path@),
{
    let text = chars_of(output);
    let base = chars_of(base_path);
    let ls = split_lines(&text);
    let ghost all = seqs(ls@);
    let ghost f = |l: Seq<char>| file_entry(l, base_path@);
    let mut res: Vec<FileInfo> = Vec::new();
    let mut i: usize = 0;
    assert(all.subrange(0, 0) =~= Seq::<Seq<char>>::empty());
    while i < ls.len()
        invariant
            i <= ls.len(),
            all == seqs(ls@),
            base@ == base_path@,
            f == (|l: Seq<char>| file_entry(l, base_path@)),
            views(res@) == all.subrange(0, i as int).filter_map(f),
        decreases ls.len() - i,
    {
        let ghost prev = views(res@);
        assert(all.subrange(0, i + 1).drop_last() =~= all.subrange(0, i as int));
        assert(all.subrange(0, i + 1).last() == ls@[i as int]@);
        match file_entry_exec(&ls[i], &base) {
            Some(e) => {
                res.push(e);
                assert(views(res@) =~= prev + seq![e@]);
            },
            None => {},
        }
        i = i + 1;
    }
    assert(all.subrange(0, all.len() as int) =~= all);
    Ok(res)
}


/// The package and the path inside it of `/data/data/<package>/<rest>`.
pub open spec fn data_data_split(path: Seq<char>) -> Option<(Seq<char>, Seq<char>)> {
    if starts_with(path, "/data/data/"@) {
        split_once(path.skip(11), '/')
    } else {
        None
    }
}

/// Splits `/data/data/<package>/<rest>` into the package and `<rest>`; `None`
/// for other paths. Files there are reached with `run-as <package>`.
pub fn split_data_data_path(path: &str) -> (res: Option<(String, String)>)
    ensures
        match res {
            Some((pkg, rel)) => data_data_split(path@) == Some((pkg@, rel@)),
            None => data_data_split(path@) is None,
        },
{
    let p = chars_of(path);
    let prefix = chars_of("/data/data/");
    if !starts_with_exec(&p, &prefix) {
        return None;
    }
    proof {
        reveal_strlit("/data/data/");
    }
    let after = copy_range(&p, 11, p.len());
    assert(after@ =~= p@.skip(11));
    match split_once_exec(&after, '/') {
        Some((pkg, rel)) => Some((string_of(&pkg), string_of(&rel))),
        None => None,
    }
}

/// The path that `run-as ... ls -la` is given: empty for the app's own
/// directory (`""` or `/`), else the path as it is.
pub open spec fn run_as_clean(path: Seq<char>) -> Seq<char> {
    if path.len() == 0 || path == "/"@ {
        seq![]
    } else {
        path
    }
}

/// The path handed to `run-as ... ls -la` (`run_as_list_files`).
pub fn run_as_clean_path(path: &str) -> (res: String)
    ensures
        res@ == run_as_clean(path@),
{
    let p = chars_of(path);
    let slash = chars_of("/");
    if p.len() == 0 || chars_eq(&p, &slash) {
        String::new()
    } else {
        path.to_string()
    }
}

/// What `run_as_list_files` answers for the output of `run-as <package>
/// ls -la <path>`: an error when the output is empty, when `run-as` refused,
/// when the app is not debuggable or the path is missing, else the listing.
pub open spec fn run_as_listing_result(output: Seq<char>, path: Seq<char>, package: Seq<char>) -> Result<
    Seq<FileInfoView>,
    Seq<char>,
> {
    let t = trim(output);
    if t.len() == 0 {
        Err("路径 '"@ + path + "' 不存在或为空"@)
    } else if starts_with(t, "run-as:"@) {
        Err("无法访问应用 "@ + package + ": "@ + t)
    } else if contains_str(t, "not debuggable"@) {
        Err("应用 "@ + package + " 不可调试"@)
    } else if contains_str(t, "does not exist"@) || contains_str(t, "No such file"@) {
        Err("路径 '"@ + path + "' 不存在"@)
    } else {
        Ok(file_list(output, run_as_clean(path)))
    }
}

/// The listing result of `run_as_list_files`, from the command's output.
pub fn run_as_listing(output: &str, path: &str, package: &str) -> (res: Result<Vec<FileInfo>, String>)
    ensures
        match (res, run_as_listing_result(output@, path@, package@)) {
            (Ok(v), Ok(w)) => views(v@) == w,
            (Err(e), Err(f)) => e@ == f,
            _ => false,
        },
{
    let t = trim_chars(&chars_of(output));
    let ts = string_of(&t);
    if t.len() == 0 {
        return Err(cat(&cat("路径 '", path), "' 不存在或为空"));
    }
    if starts_with_exec(&t, &chars_of("run-as:")) {
        return Err(cat(&cat("无法访问应用 ", package), &cat(": ", &ts)));
    }
    if contains_exec(&t, &chars_of("not debuggable")) {
        return Err(cat(&cat("应用 ", package), " 不可调试"));
    }
    if contains_exec(&t, &chars_of("does not exist")) || contains_exec(&t, &chars_of("No such file")) {
        return Err(cat(&cat("路径 '", path), "' 不存在"));
    }
    let clean = run_as_clean_path(path);
    parse_file_list(output, &clean)
}

/// The path that `ls -la` is given: `/` for an empty path.
pub open spec fn list_clean(path: Seq<char>) -> Seq<char> {
    if path.len() == 0 {
        "/"@
    } else {
        path
    }
}

/// The path handed to `ls -la` (`list_files`).
pub fn list_files_clean_path(path: &str) -> (res: String)
    ensures
        res@ == list_clean(path@),
{
    if path.is_empty() {
        "/".to_string()
    } else {
        path.to_string()
    }
}

/// What `list_files` does after `ls -la <path>`: list, retry with `run-as`,
/// or fail.
pub enum ListStep {
    /// The answer.
    Listed(Result<Vec<FileInfo>, String>),
    /// Try again with `run-as <package> ls -la <relative>`.
    RunAs { package: String, relative: String },
}

/// The message for a listing refused for lack of root.
pub open spec fn no_root_message(path: Seq<char>) -> Seq<char> {
    "权限不足: "@ + path
        + "\n\n提示: /data/data 需要 root 权限才能访问。\n- 模拟器通常默认有 root 权限\n- 真机需要已 root 并开启 ADB root"@
}

/// Decides after `ls -la <clean_path>`: an output without `Permission
/// denied` is the listing; a denied path under `/data/data/<package>/` is
/// retried with `run-as`; any other denied path is an error.
pub fn list_files_step(clean_path: &str, output: &str) -> (res: ListStep)
    ensures
        !contains_str(output@, "Permission denied"@) ==> (res matches ListStep::Listed(Ok(v))
            && views(v@) == file_list(output@, clean_path@)),
        contains_str(output@, "Permission denied"@) ==> match data_data_split(clean_path@) {
            Some((pkg, rel)) => res matches ListStep::RunAs { package, relative } && package@
                == pkg && relative@ == rel,
            None => res matches ListStep::Listed(Err(e)) && e@ == no_root_message(clean_path@),
        },
{
    let out = chars_of(output);
    if !contains_exec(&out, &chars_of("Permission denied")) {
        return ListStep::Listed(parse_file_list(output, clean_path));
    }
    match split_data_data_path(clean_path) {
        Some((package, relative)) => ListStep::RunAs { package, relative },
        None => ListStep::Listed(
            Err(
                cat(
                    &cat("权限不足: ", clean_path),
                    "\n\n提示: /data/data 需要 root 权限才能访问。\n- 模拟器通常默认有 root 权限\n- 真机需要已 root 并开启 ADB root",
                ),
            ),
        ),
    }
}

/// The message for an app whose data `run-as` cannot reach.
pub open spec fn not_debuggable_message(path: Seq<char>, package: Seq<char>) -> Seq<char> {
    "无法访问: "@ + path + "\n\n提示: 应用 "@ + package
        + " 不可调试。\nrun-as 命令只能访问可调试应用的数据。"@
}

/// The answer of `list_files` after the `run-as` retry: an error when the
/// output says the package is not debuggable, else the listing of
/// `relative`.
pub fn list_files_after_run_as(clean_path: &str, package: &str, relative: &str, output: &str) -> (res:
    Result<Vec<FileInfo>, String>)
    ensures
        (contains_str(output@, "Package"@) && contains_str(output@, "not debuggable"@)) ==> (
        res matches Err(e) && e@ == not_debuggable_message(clean_path@, package@)),
        !(contains_str(output@, "Package"@) && contains_str(output@, "not debuggable"@)) ==> (
        res matches Ok(v) && views(v@) == file_list(output@, relative@)),
{
    let out = chars_of(output);
    if contains_exec(&out, &chars_of("Package")) && contains_exec(&out, &chars_of("not debuggable")) {
        return Err(
            cat(
                &cat(&cat("无法访问: ", clean_path), &cat("\n\n提示: 应用 ", package)),
                " 不可调试。\nrun-as 命令只能访问可调试应用的数据。",
            ),
        );
    }
    parse_file_list(output, relative)
}


/// Splitting a `/data/data/` path loses nothing: the package has no `/`, and
/// the prefix, the package, `/` and the rest give the path back.
pub proof fn law_data_data_split_round_trip(path: Seq<char>)
    requires
        data_data_split(path) is Some,
    ensures
        ({
            let (pkg, rel) = data_data_split(path).unwrap();
            &&& path == "/data/data/"@ + pkg + "/"@ + rel
            &&& forall|i: int| 0 <= i < pkg.len() ==> pkg[i] != '/'
        }),
{
    reveal_strlit("/data/data/");
    reveal_strlit("/");
    let after = path.skip(11);
    crate::text::lemma_find_char(after, '/');
    let i = crate::text::find_char(after, '/').unwrap();
    assert(path.subrange(0, 11) =~= "/data/data/"@);
    assert(path =~= "/data/data/"@ + after.take(i) + "/"@ + after.skip(i + 1));
}

/// An element of a `filter_map` comes from some element of the sequence.
pub proof fn lemma_filter_map_member<A, B>(s: Seq<A>, f: spec_fn(A) -> Option<B>, k: int)
    requires
        0 <= k < s.filter_map(f).len(),
    ensures
        exists|j: int| 0 <= j < s.len() && f(s[j]) == Some(s.filter_map(f)[k]),
    decreases s.len(),
{
    let rest = s.drop_last();
    match f(s.last()) {
        Some(b) => {
            if k == rest.filter_map(f).len() {
                assert(s.filter_map(f)[k] == b);
                assert(f(s[s.len() - 1]) == Some(b));
            } else {
                assert(s.filter_map(f)[k] == rest.filter_map(f)[k]);
                lemma_filter_map_member(rest, f, k);
                let j = choose|j: int| 0 <= j < rest.len() && f(rest[j]) == Some(rest.filter_map(f)[k]);
                assert(s[j] == rest[j]);
            }
        },
        None => {
            lemma_filter_map_member(rest, f, k);
            let j = choose|j: int| 0 <= j < rest.len() && f(rest[j]) == Some(rest.filter_map(f)[k]);
            assert(s[j] == rest[j]);
        },
    }
}

/// A listing never shows hidden entries or `app_*` directories, and every
/// entry's path is the listed directory (without trailing slashes) joined
/// with the entry's name.
pub proof fn law_listing_entries(output: Seq<char>, base: Seq<char>, k: int)
    requires
        0 <= k < file_list(output, base).len(),
    ensures
        ({
            let e = file_list(output, base)[k];
            &&& e.name.len() > 0
            &&& e.name[0] != '.'
            &&& !starts_with(e.name, "app_"@)
            &&& e.path == entry_path(base, e.name)
        }),
{
    let f = |l: Seq<char>| file_entry(l, base);
    lemma_filter_map_member(lines(output), f, k);
    let j = choose|j: int| 0 <= j < lines(output).len() && f(lines(output)[j]) == Some(
        lines(output).filter_map(f)[k],
    );
    let line = lines(output)[j];
    let t = trim(line);
    let parts = words(t);
    let perms = parts[0];
    let symlink = perms.len() > 0 && perms[0] == 'l';
    let end = if symlink {
        first_from(parts, 7, "->"@)
    } else {
        parts.len() as int
    };
    crate::text::lemma_words_nonempty(t);
    if symlink {
        lemma_first_from_bounds(parts, 7, "->"@);
    }
    lemma_join_nonempty(parts.subrange(7, end), " "@, parts);
}

proof fn lemma_first_from_bounds(ps: Seq<Seq<char>>, k: int, w: Seq<char>)
    requires
        0 <= k <= ps.len(),
    ensures
        k <= first_from(ps, k, w) <= ps.len(),
    decreases ps.len() - k,
{
    if k < ps.len() && ps[k] != w {
        lemma_first_from_bounds(ps, k + 1, w);
    }
}

/// Words are never empty, so neither is a name joined from them.
proof fn lemma_join_nonempty(ws: Seq<Seq<char>>, sep: Seq<char>, parts: Seq<Seq<char>>)
    requires
        ws.len() > 0,
        forall|i: int| 0 <= i < ws.len() ==> ws[i].len() > 0,
    ensures
        join(ws, sep).len() > 0,
    decreases ws.len(),
{
    if ws.len() > 1 {
        lemma_join_nonempty(ws.drop_last(), sep, parts);
    }
}

} // verus!
