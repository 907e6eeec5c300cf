//! Quick switches and device state: reading settings, dark mode, navigation
//! mode and the focused activity.

use vstd::prelude::*;
use crate::model::views;
use crate::text::{
    cat, chars_of, contains_exec, contains_str, lemma_rfind_char, lines, rfind_char,
    rfind_char_exec, seqs, split_lines, split_words, starts_with, starts_with_exec, str_is,
    string_of, to_ascii_lower, to_ascii_lower_exec, trim, trim_chars, words, copy_range, chars_eq,
};

verus! {

broadcast use vstd::string::group_string_axioms;

/// A setting reads as on when the command ran and its trimmed output is `1`
/// or `true` in any letter case.
pub open spec fn setting_on(r: Result<String, String>) -> bool {
    match r {
        Ok(out) => {
            let v = to_ascii_lower(trim(out@));
            v == "1"@ || v == "true"@
        },
        Err(_) => false,
    }
}

/// Reads a boolean setting from the result of the command that printed it;
/// a failed command reads as off.
pub fn read_bool_setting(r: &Result<String, String>) -> (res: bool)
    ensures
        res == setting_on(*r),
{
    match r {
        Ok(out) => {
            let v = to_ascii_lower_exec(&trim_chars(&chars_of(out.as_str())));
            chars_eq(&v, &chars_of("1")) || chars_eq(&v, &chars_of("true"))
        },
        Err(_) => false,
    }
}

/// Dark mode is on when the command ran and its output mentions `yes` in
/// any letter case.
pub open spec fn dark_mode_on(r: Result<String, String>) -> bool {
    match r {
        Ok(out) => contains_str(to_ascii_lower(out@), "yes"@),
        Err(_) => false,
    }
}

/// Reads `cmd uimode night` (`get_dark_mode`).
pub fn dark_mode_from(r: &Result<String, String>) -> (res: bool)
    ensures
        res == dark_mode_on(*r),
{
    match r {
        Ok(out) => {
            let low = to_ascii_lower_exec(&chars_of(out.as_str()));
            contains_exec(&low, &chars_of("yes"))
        },
        Err(_) => false,
    }
}

/// The navigation mode named by `settings get secure navigation_mode`:
/// `0` three buttons, `1` two buttons, `2` gestures.
pub open spec fn navigation_mode_of(out: Seq<char>) -> Seq<char> {
    let t = trim(out);
    if t == "2"@ {
        "gestural"@
    } else if t == "1"@ {
        "twobutton"@
    } else if t == "0"@ {
        "threebutton"@
    } else {
        "unknown"@
    }
}

/// Reads the navigation mode (`get_navigation_mode`).
pub fn navigation_mode_from(out: &str) -> (res: String)
    ensures
        res@ == navigation_mode_of(out@),
{
    let t = trim_chars(&chars_of(out));
    if chars_eq(&t, &chars_of("2")) {
        "gestural".to_string()
    } else if chars_eq(&t, &chars_of("1")) {
        "twobutton".to_string()
    } else if chars_eq(&t, &chars_of("0")) {
        "threebutton".to_string()
    } else {
        "unknown".to_string()
    }
}

/// The system UI overlay for a navigation mode, or the error for an unknown
/// mode.
pub open spec fn navigation_overlay_of(mode: Seq<char>) -> Result<Seq<char>, Seq<char>> {
    if mode == "gestural"@ {
        Ok("com.android.internal.systemui.navbar.gestural"@)
    } else if mode == "threebutton"@ {
        Ok("com.android.internal.systemui.navbar.threebutton"@)
    } else if mode == "twobutton"@ {
        Ok("com.android.internal.systemui.navbar.twobutton"@)
    } else {
        Err("未知的导航模式: "@ + mode)
    }
}

/// The overlay to enable for a navigation mode (`set_navigation_mode`).
pub fn navigation_overlay(mode: &str) -> (res: Result<String, String>)
    ensures
        match (res, navigation_overlay_of(mode@)) {
            (Ok(a), Ok(b)) => a@ == b,
            (Err(a), Err(b)) => a@ == b,
            _ => false,
        },
{
    if str_is(mode, "gestural") {
        Ok("com.android.internal.systemui.navbar.gestural".to_string())
    } else if str_is(mode, "threebutton") {
        Ok("com.android.internal.systemui.navbar.threebutton".to_string())
    } else if str_is(mode, "twobutton") {
        Ok("com.android.internal.systemui.navbar.twobutton".to_string())
    } else {
        Err(cat("未知的导航模式: ", mode))
    }
}

/// The first of the trimmed lines that starts with `p`.
pub open spec fn first_trimmed_with(ls: Seq<Seq<char>>, p: Seq<char>) -> Option<Seq<char>>
    decreases ls.len(),
{
    if ls.len() == 0 {
        None
    } else if starts_with(trim(ls[0]), p) {
        Some(trim(ls[0]))
    } else {
        first_trimmed_with(ls.drop_first(), p)
    }
}

/// The focused window of `dumpsys window` output: on the first
/// `mCurrentFocus=` line, the last field between the last `{` and the last
/// `}` (when `}` comes after `{` and there is a field), else the whole
/// trimmed line; an error without such a line.
pub open spec fn top_activity_of(out: Seq<char>) -> Result<Seq<char>, Seq<char>> {
    match first_trimmed_with(lines(out), "mCurrentFocus="@) {
        None => Err("未能在 dumpsys window 中解析 mCurrentFocus"@),
        Some(t) => match (rfind_char(t, '{'), rfind_char(t, '}')) {
            (Some(lb), Some(rb)) => if rb > lb && words(t.subrange(lb + 1, rb)).len() > 0 {
                Ok(words(t.subrange(lb + 1, rb)).last())
            } else {
                Ok(t)
            },
            _ => Ok(t),
        },
    }
}

/// Reads the focused activity from `dumpsys window` output
/// (`get_top_activity`).
pub fn parse_top_activity(out: &str) -> (res: Result<String, String>)
    ensures
        match (res, top_activity_of(out@)) {
            (Ok(a), Ok(b)) => a@ == b,
            (Err(a), Err(b)) => a@ == b,
            _ => false,
        },
{
    let prefix = chars_of("mCurrentFocus=");
    let ls = split_lines(&chars_of(out));
    let ghost all = seqs(ls@);
    let mut i: usize = 0;
    assert(all.skip(0) =~= all);
    while i < ls.len() && !starts_with_exec(&trim_chars(&ls[i]), &prefix)
        invariant
            i <= ls.len(),
            all == seqs(ls@),
            prefix@ == "mCurrentFocus="@,
            first_trimmed_with(all, prefix@) == first_trimmed_with(all.skip(i as int), prefix@),
        decreases ls.len() - i,
    {
        assert(all.skip(i as int).drop_first() =~= all.skip(i + 1));
        assert(all.skip(i as int)[0] == ls@[i as int]@);
        i = i + 1;
    }
    if i == ls.len() {
        assert(all.skip(i as int) =~= Seq::<Seq<char>>::empty());
        return Err("未能在 dumpsys window 中解析 mCurrentFocus".to_string());
    }
    assert(all.skip(i as int)[0] == ls@[i as int]@);
    let t = trim_chars(&ls[i]);
    match (rfind_char_exec(&t, '{'), rfind_char_exec(&t, '}')) {
        (Some(lb), Some(rb)) => {
            proof {
                lemma_rfind_char(t@, '{');
                lemma_rfind_char(t@, '}');
            }
            if rb > lb {
                let inner = copy_range(&t, lb + 1, rb);
                let fields = split_words(&inner);
                if fields.len() > 0 {
                    let last = &fields[fields.len() - 1];
                    assert(seqs(fields@).last() == last@);
                    return Ok(string_of(last));
                }
            }
            Ok(string_of(&t))
        },
        _ => Ok(string_of(&t)),
    }
}

/// The arguments of `adb` that switch a `settings` key on (`1`) or off (`0`).
pub fn settings_put_args(serial: &str, namespace: &str, key: &str, enabled: bool) -> (res: Vec<
    String,
>)
    ensures
        views(res@) == seq![
            "-s"@,
            serial@,
            "shell"@,
            "settings"@,
            "put"@,
            namespace@,
            key@,
            if enabled {
                "1"@
            } else {
                "0"@
            },
        ],
{
    let mut v: Vec<String> = Vec::new();
    v.push("-s".to_string());
    v.push(serial.to_string());
    v.push("shell".to_string());
    v.push("settings".to_string());
    v.push("put".to_string());
    v.push(namespace.to_string());
    v.push(key.to_string());
    v.push(
        if enabled {
            "1".to_string()
        } else {
            "0".to_string()
        },
    );
    v
}

/// The word that switches something on or off: `on_word` when enabled.
pub fn switch_word(enabled: bool, on_word: &str, off_word: &str) -> (res: String)
    ensures
        res@ == (if enabled {
            on_word@
        } else {
            off_word@
        }),
{
    if enabled {
        on_word.to_string()
    } else {
        off_word.to_string()
    }
}

} // verus!
