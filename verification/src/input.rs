//! Typing text on the device with `input text`: checks and escaping.

use vstd::prelude::*;
use vstd::string::is_ascii;
use crate::text::{chars_of, contains_str, string_of};

verus! {

broadcast use vstd::string::group_string_axioms;

/// Characters that the device shell would interpret and that are therefore
/// sent behind a backslash.
pub open spec fn shell_special(c: char) -> bool {
    c == '"' || c == '\'' || c == '`' || c == '$' || c == '\\' || c == '&' || c == ';' || c == '|'
        || c == '*' || c == '<' || c == '>' || c == '?' || c == '#' || c == '(' || c == ')' || c
        == '!' || c == '~'
}

/// How one character is sent: a space as `%s`, a shell special character
/// behind a backslash, anything else as it is.
pub open spec fn escape_one(c: char) -> Seq<char> {
    if c == ' ' {
        seq!['%', 's']
    } else if shell_special(c) {
        seq!['\\', c]
    } else {
        seq![c]
    }
}

/// How a text is sent to `input text`.
pub open spec fn escaped(s: Seq<char>) -> Seq<char>
    decreases s.len(),
{
    if s.len() == 0 {
        seq![]
    } else {
        escaped(s.drop_last()) + escape_one(s.last())
    }
}

/// The error for empty text.
pub open spec fn empty_text_error() -> Seq<char> {
    "文本不能为空"@
}

/// The error for text that is not ASCII.
pub open spec fn non_ascii_error() -> Seq<char> {
    "adb shell input text 不支持中文/非 ASCII 字符。\n如需输入中文，请在设备安装 ADBKeyBoard 并切换为默认输入法。"@
}

/// The argument for `input text`: empty text and non-ASCII text are refused,
/// anything else is escaped (`input_text`).
pub fn escape_input_text(text: &str) -> (res: Result<String, String>)
    ensures
        text@.len() == 0 ==> (res matches Err(e) && e@ == empty_text_error()),
        text@.len() > 0 && !is_ascii(text) ==> (res matches Err(e) && e@ == non_ascii_error()),
        text@.len() > 0 && is_ascii(text) ==> (res matches Ok(s) && s@ == escaped(text@)),
{
    if text.is_empty() {
        return Err("文本不能为空".to_string());
    }
    if !text.is_ascii() {
        return Err(
            "adb shell input text 不支持中文/非 ASCII 字符。\n如需输入中文，请在设备安装 ADBKeyBoard 并切换为默认输入法。".to_string(),
        );
    }
    let cs = chars_of(text);
    let mut out: Vec<char> = Vec::new();
    let mut i: usize = 0;
    while i < cs.len()
        invariant
            i <= cs.len(),
            out@ == escaped(cs@.take(i as int)),
        decreases cs.len() - i,
    {
        let c = cs[i];
        let ghost before = out@;
        if c == ' ' {
            out.push('%');
            out.push('s');
        } else if c == '"' || c == '\'' || c == '`' || c == '$' || c == '\\' || c == '&' || c == ';'
            || c == '|' || c == '*' || c == '<' || c == '>' || c == '?' || c == '#' || c == '('
            || c == ')' || c == '!' || c == '~' {
            out.push('\\');
            out.push(c);
        } else {
            out.push(c);
        }
        assert(out@ =~= before + escape_one(c));
        assert(cs@.take(i + 1).drop_last() =~= cs@.take(i as int));
        i = i + 1;
    }
    assert(cs@.take(cs.len() as int) =~= cs@);
    Ok(string_of(&out))
}

/// What the device makes of a sent argument: the shell drops a backslash and
/// keeps the character after it, and `input text` reads `%s` as a space.
pub open spec fn device_reading(s: Seq<char>) -> Seq<char>
    decreases s.len(),
{
    if s.len() == 0 {
        seq![]
    } else if s.len() >= 2 && s[0] == '\\' {
        seq![s[1]] + device_reading(s.skip(2))
    } else if s.len() >= 2 && s[0] == '%' && s[1] == 's' {
        seq![' '] + device_reading(s.skip(2))
    } else {
        seq![s[0]] + device_reading(s.skip(1))
    }
}

pub proof fn lemma_escaped_concat(a: Seq<char>, b: Seq<char>)
    ensures
        escaped(a + b) == escaped(a) + escaped(b),
    decreases b.len(),
{
    if b.len() == 0 {
        assert(a + b =~= a);
        assert(escaped(a) + escaped(b) =~= escaped(a));
    } else {
        lemma_escaped_concat(a, b.drop_last());
        assert((a + b).drop_last() =~= a + b.drop_last());
        assert((a + b).last() == b.last());
        assert(escaped(a) + escaped(b) =~= escaped(a) + escaped(b.drop_last()) + escape_one(
            b.last(),
        ));
    }
}

/// Escaping loses nothing: on text without `%s` in it, what the device reads
/// is the text itself.
pub proof fn law_escape_round_trip(t: Seq<char>)
    requires
        !contains_str(t, "%s"@),
    ensures
        device_reading(escaped(t)) == t,
    decreases t.len(),
{
    reveal_strlit("%s");
    if t.len() > 0 {
        let c = t[0];
        let rest = t.drop_first();
        assert(t =~= seq![c] + rest);
        lemma_escaped_concat(seq![c], rest);
        assert(seq![c].drop_last() =~= Seq::<char>::empty());
        assert(escaped(Seq::<char>::empty()) =~= Seq::<char>::empty());
        assert(seq![c].last() == c);
        assert(escaped(seq![c]) =~= escape_one(c));
        assert(!contains_str(rest, "%s"@)) by {
            if contains_str(rest, "%s"@) {
                let i = choose|i: int| crate::text::occurs_at(rest, "%s"@, i);
                assert(t.subrange(i + 1, i + 3) =~= rest.subrange(i, i + 2));
                assert(crate::text::occurs_at(t, "%s"@, i + 1));
            }
        }
        law_escape_round_trip(rest);
        let e = escaped(rest);
        let whole = escape_one(c) + e;
        if c == ' ' {
            assert(whole.skip(2) =~= e);
        } else if shell_special(c) {
            assert(whole.skip(2) =~= e);
        } else {
            assert(whole.skip(1) =~= e);
            if c == '%' && whole.len() >= 2 && whole[1] == 's' {
                assert(rest.len() > 0) by {
                    if rest.len() == 0 {
                        assert(escaped(rest) =~= Seq::<char>::empty());
                    }
                }
                lemma_escaped_first(rest);
                assert(t.subrange(0, 2) =~= "%s"@);
                assert(crate::text::occurs_at(t, "%s"@, 0));
            }
        }
    }
}

/// The first character sent for a non-empty text: the text's first character
/// unless it is a space (then `%`) or shell special (then a backslash).
pub proof fn lemma_escaped_first(s: Seq<char>)
    requires
        s.len() > 0,
    ensures
        escaped(s).len() > 0,
        escaped(s)[0] == (if s[0] == ' ' {
            '%'
        } else if shell_special(s[0]) {
            '\\'
        } else {
            s[0]
        }),
    decreases s.len(),
{
    if s.len() == 1 {
        assert(s.drop_last() =~= Seq::<char>::empty());
        assert(escaped(Seq::<char>::empty()) =~= Seq::<char>::empty());
        assert(s.last() == s[0]);
        assert(escaped(s) =~= escape_one(s[0]));
    } else {
        lemma_escaped_first(s.drop_last());
        assert(s.drop_last()[0] == s[0]);
        let a = escaped(s.drop_last());
        assert((a + escape_one(s.last()))[0] == a[0]);
    }
}


/// The sent argument has no space in it: spaces travel as `%s`.
pub proof fn law_escaped_has_no_space(t: Seq<char>)
    ensures
        !escaped(t).contains(' '),
    decreases t.len(),
{
    if t.len() > 0 {
        law_escaped_has_no_space(t.drop_last());
        let a = escaped(t.drop_last());
        let b = escape_one(t.last());
        assert(escaped(t) == a + b);
        if (a + b).contains(' ') {
            let i = choose|i: int| 0 <= i < (a + b).len() && (a + b)[i] == ' ';
            if i < a.len() {
                assert(a[i] == ' ');
            } else {
                assert(b[i - a.len()] == ' ');
            }
        }
    }
}

} // verus!
