//! Calls into std and into outside crates whose behaviour is taken on trust,
//! each with what its documentation or source promises.

use base64::Engine;
use vstd::prelude::*;
use vstd::utf8::*;

verus! {

/// The character of a 6-bit value in the standard base64 alphabet
/// (RFC 4648, section 4): `A`-`Z`, `a`-`z`, `0`-`9`, `+`, `/`.
pub open spec fn base64_digit(v: int) -> char {
    if v < 26 {
        (65 + v) as char
    } else if v < 52 {
        (97 + v - 26) as char
    } else if v < 62 {
        (48 + v - 52) as char
    } else if v == 62 {
        '+'
    } else {
        '/'
    }
}

/// The standard base64 encoding with `=` padding (RFC 4648, section 4):
/// each group of three bytes gives four digits of six bits each, most
/// significant first; a last group of one or two bytes is padded with zero
/// bits and completed with `==` or `=`.
pub open spec fn base64_standard(b: Seq<u8>) -> Seq<char>
    decreases b.len(),
{
    if b.len() == 0 {
        seq![]
    } else if b.len() == 1 {
        seq![base64_digit((b[0] as int) / 4), base64_digit(((b[0] as int) % 4) * 16), '=', '=']
    } else if b.len() == 2 {
        seq![
            base64_digit((b[0] as int) / 4),
            base64_digit(((b[0] as int) % 4) * 16 + (b[1] as int) / 16),
            base64_digit(((b[1] as int) % 16) * 4),
            '=',
        ]
    } else {
        seq![
            base64_digit((b[0] as int) / 4),
            base64_digit(((b[0] as int) % 4) * 16 + (b[1] as int) / 16),
            base64_digit(((b[1] as int) % 16) * 4 + (b[2] as int) / 64),
            base64_digit((b[2] as int) % 64),
        ] + base64_standard(b.skip(3))
    }
}

/// Calls `base64::engine::general_purpose::STANDARD.encode`. Trusted: the
/// `STANDARD` engine uses the standard alphabet with padding, so the result is
/// the RFC 4648 encoding above. The crate panics when the encoded length
/// (`4 * ceil(n / 3)`) does not fit in `usize`, which the precondition rules
/// out.
#[verifier::external_body]
pub fn base64_encode(bytes: &[u8]) -> (res: String)
    requires
        (bytes@.len() + 2) / 3 * 4 <= usize::MAX,
    ensures
        res@ == base64_standard(bytes@),
{
    base64::engine::general_purpose::STANDARD.encode(bytes)
}

/// What `String::from_utf8_lossy` makes of the given bytes.
pub uninterp spec fn utf8_lossy(bytes: Seq<u8>) -> Seq<char>;

/// Calls `String::from_utf8_lossy`. Trusted: the result is a function of the
/// bytes alone; on valid UTF-8 it is the decoded text (std documentation:
/// invalid sequences are replaced, valid input is returned as is).
#[verifier::external_body]
pub fn lossy_string(bytes: &[u8]) -> (res: String)
    ensures
        res@ == utf8_lossy(bytes@),
        valid_utf8(bytes@) ==> res@ == decode_utf8(bytes@),
{
    String::from_utf8_lossy(bytes).to_string()
}

/// Calls `std::str::from_utf8` and hands out the characters. Trusted: it
/// succeeds exactly on valid UTF-8 and then yields the decoded characters.
#[verifier::external_body]
pub fn utf8_chars(bytes: &[u8]) -> (res: Option<Vec<char>>)
    ensures
        res is Some <==> valid_utf8(bytes@),
        res matches Some(v) ==> v@ == decode_utf8(bytes@),
{
    match std::str::from_utf8(bytes) {
        Ok(s) => Some(s.chars().collect()),
        Err(_) => None,
    }
}

/// What `Path::file_name` gives for a path, under the path syntax of the
/// platform the crate is built for.
pub uninterp spec fn path_file_name(path: Seq<char>) -> Option<Seq<char>>;

/// Calls `Path::new(path).file_name()`. Trusted: the result depends on the
/// path alone (for one build target). Nothing more is stated of it.
#[verifier::external_body]
pub fn file_name_of(path: &str) -> (res: Option<String>)
    ensures
        res.deep_view() == path_file_name(path@),
{
    let name = std::path::Path::new(path).file_name()?;
    Some(name.to_str()?.to_string())
}

/// `Path::extension` as its documentation defines it from the file name:
/// none without a file name, none without an embedded `.`, none for a name
/// that begins with its only `.`, else the part after the final `.`.
pub open spec fn path_extension(path: Seq<char>) -> Option<Seq<char>> {
    match path_file_name(path) {
        None => None,
        Some(name) => match crate::text::rfind_char(name, '.') {
            None => None,
            Some(i) => if i == 0 {
                None
            } else {
                Some(name.skip(i + 1))
            },
        },
    }
}

/// Calls `Path::new(path).extension()`. Trusted: the result is what std's
/// documentation of `extension` derives from `file_name`.
#[verifier::external_body]
pub fn extension_of(path: &str) -> (res: Option<String>)
    ensures
        res.deep_view() == path_extension(path@),
{
    let ext = std::path::Path::new(path).extension()?;
    Some(ext.to_str()?.to_string())
}

/// Whether `char::is_alphanumeric` holds of a character (Unicode
/// `Alphabetic` or numeric categories).
pub uninterp spec fn alphanumeric(c: char) -> bool;

/// Whether an ASCII character is a letter or a digit.
pub open spec fn ascii_alphanumeric(c: char) -> bool {
    let n = c as u32;
    (48 <= n <= 57) || (65 <= n <= 90) || (97 <= n <= 122)
}

/// Calls `char::is_alphanumeric`. Trusted: the answer depends on the
/// character alone, and on ASCII it holds exactly of the letters and digits
/// (the only ASCII characters that are Unicode alphabetic or numeric). Which
/// characters beyond ASCII qualify is not stated.
#[verifier::external_body]
pub fn is_alphanumeric(c: char) -> (res: bool)
    ensures
        res == alphanumeric(c),
        (c as u32) < 128 ==> (res <==> ascii_alphanumeric(c)),
{
    c.is_alphanumeric()
}

/// What `Path::join` gives for a base path and a path to append, under the
/// path syntax of the platform the crate is built for.
pub uninterp spec fn path_join(base: Seq<char>, rel: Seq<char>) -> Seq<char>;

/// Calls `Path::new(base).join(rel)` and hands out the result as text.
/// Trusted: the result depends on the two paths alone (for one build
/// target); both are valid UTF-8, so the text conversion loses nothing.
#[verifier::external_body]
pub fn join_path(base: &str, rel: &str) -> (res: String)
    ensures
        res@ == path_join(base@, rel@),
{
    std::path::Path::new(base).join(rel).to_string_lossy().into_owned()
}

} // verus!
