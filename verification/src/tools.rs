//! Where `adb` and `aapt` are looked for, in order.

use vstd::prelude::*;
use crate::external::{join_path, path_join};
use crate::model::views;
use crate::text::{opt_text, text_lt, text_lt_exec, chars_of, lemma_text_lt_transitive};

verus! {

broadcast use vstd::string::group_string_axioms;

/// The file name of the `adb` executable.
pub open spec fn adb_exe(windows: bool) -> Seq<char> {
    if windows {
        "adb.exe"@
    } else {
        "adb"@
    }
}

/// `[base/rel]` when the variable is set, else nothing.
pub open spec fn joined_if_set(base: Option<Seq<char>>, rel: Seq<char>) -> Seq<Seq<char>> {
    match base {
        Some(b) => seq![path_join(b, rel)],
        None => seq![],
    }
}

/// The places where `adb` is looked for, in order: every `PATH` directory,
/// the SDKs under the home directory, the Homebrew and system locations,
/// `ANDROID_HOME`, `ANDROID_SDK_ROOT`, and the Windows SDK under
/// `LOCALAPPDATA`.
pub open spec fn adb_candidate_list(
    path_dirs: Seq<Seq<char>>,
    home: Option<Seq<char>>,
    android_home: Option<Seq<char>>,
    sdk_root: Option<Seq<char>>,
    local_app_data: Option<Seq<char>>,
    windows: bool,
) -> Seq<Seq<char>> {
    Seq::new(path_dirs.len(), |i: int| path_join(path_dirs[i], adb_exe(windows)))
        + joined_if_set(home, "Library/Android/sdk/platform-tools/adb"@)
        + joined_if_set(home, "Android/Sdk/platform-tools/adb"@)
        + joined_if_set(home, ".android/sdk/platform-tools/adb"@)
        + seq!["/opt/homebrew/bin/adb"@, "/usr/local/bin/adb"@, "/usr/bin/adb"@]
        + joined_if_set(android_home, "platform-tools/adb"@)
        + joined_if_set(sdk_root, "platform-tools/adb"@)
        + joined_if_set(local_app_data, "Android/Sdk/platform-tools/adb.exe"@)
}

fn push_joined(v: &mut Vec<String>, base: Option<&str>, rel: &str)
    ensures
        views(final(v)@) == views(old(v)@) + joined_if_set(opt_text(base), rel@),
{
    let ghost before = views(v@);
    match base {
        Some(b) => {
            let p = join_path(b, rel);
            v.push(p);
            assert(views(v@) =~= before + seq![p@]);
        },
        None => {
            assert(views(v@) =~= before + Seq::<Seq<char>>::empty());
        },
    }
}

fn push_text(v: &mut Vec<String>, s: &str)
    ensures
        views(final(v)@) == views(old(v)@).push(s@),
{
    let ghost before = views(v@);
    v.push(s.to_string());
    assert(views(v@) =~= before.push(s@));
}

/// The places where `adb` is looked for (`locate_adb`); the first that is a
/// file is used.
pub fn adb_candidates(
    path_dirs: &Vec<String>,
    home: Option<&str>,
    android_home: Option<&str>,
    sdk_root: Option<&str>,
    local_app_data: Option<&str>,
    windows: bool,
) -> (res: Vec<String>)
    ensures
        views(res@) == adb_candidate_list(
            views(path_dirs@),
            opt_text(home),
            opt_text(android_home),
            opt_text(sdk_root),
            opt_text(local_app_data),
            windows,
        ),
{
    let exe = if windows {
        "adb.exe"
    } else {
        "adb"
    };
    let mut v: Vec<String> = Vec::new();
    let mut i: usize = 0;
    while i < path_dirs.len()
        invariant
            i <= path_dirs.len(),
            exe@ == adb_exe(windows),
            views(v@) == Seq::new(
                i as nat,
                |k: int| path_join(views(path_dirs@)[k], adb_exe(windows)),
            ),
        decreases path_dirs.len() - i,
    {
        let ghost before = views(v@);
        let p = join_path(path_dirs[i].as_str(), exe);
        assert(views(path_dirs@)[i as int] == path_dirs@[i as int]@);
        let ghost pv = p@;
        v.push(p);
        assert(views(v@) =~= before.push(pv));
        assert(views(v@) =~= Seq::new(
            (i + 1) as nat,
            |k: int| path_join(views(path_dirs@)[k], adb_exe(windows)),
        ));
        i = i + 1;
    }
    push_joined(&mut v, home, "Library/Android/sdk/platform-tools/adb");
    push_joined(&mut v, home, "Android/Sdk/platform-tools/adb");
    push_joined(&mut v, home, ".android/sdk/platform-tools/adb");
    push_text(&mut v, "/opt/homebrew/bin/adb");
    push_text(&mut v, "/usr/local/bin/adb");
    push_text(&mut v, "/usr/bin/adb");
    push_joined(&mut v, android_home, "platform-tools/adb");
    push_joined(&mut v, sdk_root, "platform-tools/adb");
    push_joined(&mut v, local_app_data, "Android/Sdk/platform-tools/adb.exe");
    assert(views(v@) =~= adb_candidate_list(
        views(path_dirs@),
        opt_text(home),
        opt_text(android_home),
        opt_text(sdk_root),
        opt_text(local_app_data),
        windows,
    ));
    v
}

/// The SDK roots whose `build-tools` are searched for `aapt`, in order:
/// `ANDROID_HOME`, `ANDROID_SDK_ROOT`, the macOS SDK under the home
/// directory, the Windows SDK under `LOCALAPPDATA`.
pub open spec fn sdk_root_list(
    android_home: Option<Seq<char>>,
    sdk_root: Option<Seq<char>>,
    home: Option<Seq<char>>,
    local_app_data: Option<Seq<char>>,
) -> Seq<Seq<char>> {
    (match android_home {
        Some(h) => seq![h],
        None => seq![],
    }) + (match sdk_root {
        Some(h) => seq![h],
        None => seq![],
    }) + joined_if_set(home, "Library/Android/sdk"@) + joined_if_set(
        local_app_data,
        "Android/Sdk"@,
    )
}

/// The SDK roots searched for `aapt` (`find_aapt_binaries`).
pub fn sdk_roots(
    android_home: Option<&str>,
    sdk_root: Option<&str>,
    home: Option<&str>,
    local_app_data: Option<&str>,
) -> (res: Vec<String>)
    ensures
        views(res@) == sdk_root_list(
            opt_text(android_home),
            opt_text(sdk_root),
            opt_text(home),
            opt_text(local_app_data),
        ),
{
    let mut v: Vec<String> = Vec::new();
    if let Some(h) = android_home {
        push_text(&mut v, h);
    }
    if let Some(h) = sdk_root {
        push_text(&mut v, h);
    }
    push_joined(&mut v, home, "Library/Android/sdk");
    push_joined(&mut v, local_app_data, "Android/Sdk");
    assert(views(v@) =~= sdk_root_list(
        opt_text(android_home),
        opt_text(sdk_root),
        opt_text(home),
        opt_text(local_app_data),
    ));
    v
}

/// The newest build-tools version among directory names: the greatest in
/// string order.
pub open spec fn is_greatest(names: Seq<Seq<char>>, n: Seq<char>) -> bool {
    names.contains(n) && forall|i: int| 0 <= i < names.len() ==> !text_lt(n, #[trigger] names[i])
}

/// The greatest of the names in string order, or `None` for no names
/// (the last after sorting by file name).
pub fn latest_name(names: &Vec<String>) -> (res: Option<String>)
    ensures
        names@.len() == 0 <==> res is None,
        res matches Some(n) ==> is_greatest(views(names@), n@),
{
    if names.len() == 0 {
        return None;
    }
    let mut best: usize = 0;
    let mut i: usize = 1;
    proof {
        lemma_text_lt_irreflexive_at(views(names@), 0);
    }
    while i < names.len()
        invariant
            1 <= i <= names.len(),
            best < i,
            forall|k: int| 0 <= k < i ==> !text_lt(views(names@)[best as int], #[trigger] views(names@)[k]),
        decreases names.len() - i,
    {
        let cur = chars_of(names[i].as_str());
        let b = chars_of(names[best].as_str());
        if text_lt_exec(&b, &cur) {
            proof {
                let vs = views(names@);
                assert forall|k: int| 0 <= k < i + 1 implies !text_lt(vs[i as int], #[trigger] vs[k]) by {
                    if k < i {
                        if text_lt(vs[i as int], vs[k]) {
                            lemma_text_lt_transitive(vs[best as int], vs[i as int], vs[k]);
                        }
                    } else {
                        crate::text::lemma_text_lt_irreflexive(vs[i as int]);
                    }
                }
            }
            best = i;
        } else {
            proof {
                let vs = views(names@);
                if text_lt(vs[best as int], vs[i as int]) {
                    assert(false);
                }
            }
        }
        i = i + 1;
    }
    assert(views(names@)[best as int] == names@[best as int]@);
    Some(names[best].clone())
}

proof fn lemma_text_lt_irreflexive_at(vs: Seq<Seq<char>>, k: int)
    requires
        0 <= k < vs.len(),
    ensures
        !text_lt(vs[k], vs[k]),
{
    crate::text::lemma_text_lt_irreflexive(vs[k]);
}

/// The `aapt` and `aapt2` programs in a build-tools version directory.
pub fn aapt_programs(version_dir: &str, windows: bool) -> (res: (String, String))
    ensures
        res.0@ == path_join(version_dir@, if windows { "aapt.exe"@ } else { "aapt"@ }),
        res.1@ == path_join(version_dir@, if windows { "aapt2.exe"@ } else { "aapt2"@ }),
{
    if windows {
        (join_path(version_dir, "aapt.exe"), join_path(version_dir, "aapt2.exe"))
    } else {
        (join_path(version_dir, "aapt"), join_path(version_dir, "aapt2"))
    }
}


/// The `build-tools` directory of an SDK root.
pub fn build_tools_dir(sdk_root: &str) -> (res: String)
    ensures
        res@ == path_join(sdk_root@, "build-tools"@),
{
    join_path(sdk_root, "build-tools")
}

} // verus!
