//! The file previewer: choosing how a pulled file is shown, and undoing the
//! line-ending rewrite of `adb shell`.

use vstd::prelude::*;
use vstd::utf8::{decode_utf8, valid_utf8};
use crate::external::{
    base64_encode, base64_standard, extension_of, file_name_of, lossy_string, path_extension,
    path_file_name, utf8_chars, utf8_lossy,
};
use crate::files::data_data_split;
use crate::model::{FilePreview, FilePreviewView};
use crate::text::{cat, chars_of, decimal, fmt_decimal, opt_text, str_is, string_of, to_ascii_lower, to_ascii_lower_exec};

verus! {

broadcast use vstd::string::group_string_axioms;

/// The extension of a path in ASCII lower case, or empty.
pub open spec fn lower_extension(path: Seq<char>) -> Seq<char> {
    match path_extension(path) {
        Some(e) => to_ascii_lower(e),
        None => seq![],
    }
}

/// The extension of `path` in lower case, or empty when it has none.
pub fn ext_lower(path: &str) -> (res: String)
    ensures
        res@ == lower_extension(path@),
{
    match extension_of(path) {
        Some(e) => string_of(&to_ascii_lower_exec(&chars_of(e.as_str()))),
        None => String::new(),
    }
}

/// Extensions shown as text without looking at the content.
pub open spec fn text_extension(ext: Seq<char>) -> bool {
    ext == "txt"@ || ext == "log"@ || ext == "json"@ || ext == "xml"@ || ext == "html"@ || ext
        == "htm"@ || ext == "css"@ || ext == "js"@ || ext == "ts"@ || ext == "kt"@ || ext
        == "java"@ || ext == "md"@ || ext == "properties"@ || ext == "sh"@ || ext == "conf"@
        || ext == "yaml"@ || ext == "yml"@ || ext == "ini"@ || ext == "toml"@
}

/// Whether files with this (lower-case) extension are shown as text.
pub fn is_text_ext(ext: &str) -> (res: bool)
    ensures
        res == text_extension(ext@),
{
    str_is(ext, "txt") || str_is(ext, "log") || str_is(ext, "json") || str_is(ext, "xml")
        || str_is(ext, "html") || str_is(ext, "htm") || str_is(ext, "css") || str_is(ext, "js")
        || str_is(ext, "ts") || str_is(ext, "kt") || str_is(ext, "java") || str_is(ext, "md")
        || str_is(ext, "properties") || str_is(ext, "sh") || str_is(ext, "conf") || str_is(
        ext,
        "yaml",
    ) || str_is(ext, "yml") || str_is(ext, "ini") || str_is(ext, "toml")
}

/// The MIME type of the image extensions that the previewer shows.
pub open spec fn image_type(ext: Seq<char>) -> Option<Seq<char>> {
    if ext == "png"@ {
        Some("image/png"@)
    } else if ext == "jpg"@ || ext == "jpeg"@ {
        Some("image/jpeg"@)
    } else if ext == "webp"@ {
        Some("image/webp"@)
    } else if ext == "gif"@ {
        Some("image/gif"@)
    } else if ext == "bmp"@ {
        Some("image/bmp"@)
    } else {
        None
    }
}

/// The MIME type of an image extension, or `None`.
pub fn image_mime(ext: &str) -> (res: Option<&'static str>)
    ensures
        opt_text(res) == image_type(ext@),
{
    if str_is(ext, "png") {
        Some("image/png")
    } else if str_is(ext, "jpg") || str_is(ext, "jpeg") {
        Some("image/jpeg")
    } else if str_is(ext, "webp") {
        Some("image/webp")
    } else if str_is(ext, "gif") {
        Some("image/gif")
    } else if str_is(ext, "bmp") {
        Some("image/bmp")
    } else {
        None
    }
}

/// The Unicode general category `Cc`, which `char::is_control` tests.
pub open spec fn is_control(c: char) -> bool {
    (c as u32) <= 0x1f || (0x7f <= (c as u32) && (c as u32) <= 0x9f)
}

/// Characters that count as printable when sniffing: all but control
/// characters, and line feed, carriage return and tab.
pub open spec fn counts_printable(c: char) -> bool {
    !is_control(c) || c == '\n' || c == '\r' || c == '\t'
}

/// How many characters of `s` count as printable.
pub open spec fn printable_count(s: Seq<char>) -> nat
    decreases s.len(),
{
    if s.len() == 0 {
        0
    } else {
        printable_count(s.drop_last()) + if counts_printable(s.last()) {
            1nat
        } else {
            0nat
        }
    }
}

/// The bytes that sniffing looks at: at most the first 4096.
pub open spec fn probe_of(bytes: Seq<u8>) -> Seq<u8> {
    if bytes.len() <= 4096 {
        bytes
    } else {
        bytes.take(4096)
    }
}

/// Whether content sniffing takes bytes for text: an empty probe is text; a
/// probe that is not UTF-8 is not; otherwise more than 95% of its characters
/// must be printable.
///
/// The ratio test `printable as f32 / total as f32 > 0.95` is decided in
/// integers. Both counts are at most 4096 and exact in `f32`; the `f32` test
/// holds exactly when `20 * printable > 19 * total`, because a quotient of such counts is never
/// within `2^-25` of `0.95` without being equal to it, and for `19/20` both
/// sides round to the same `f32`.
pub open spec fn sniff_text(bytes: Seq<u8>) -> bool {
    let probe = probe_of(bytes);
    if probe.len() == 0 {
        true
    } else if !valid_utf8(probe) {
        false
    } else {
        let cs = decode_utf8(probe);
        cs.len() == 0 || 20 * printable_count(cs) > 19 * cs.len()
    }
}

/// Content sniffing for files without an extension.
pub fn sniff_is_text(bytes: &[u8]) -> (res: bool)
    ensures
        res == sniff_text(bytes@),
{
    let n: usize = if bytes.len() <= 4096 {
        bytes.len()
    } else {
        4096
    };
    let mut probe: Vec<u8> = Vec::new();
    let mut i: usize = 0;
    while i < n
        invariant
            i <= n <= bytes.len(),
            probe@ == bytes@.take(i as int),
        decreases n - i,
    {
        probe.push(bytes[i]);
        i = i + 1;
        assert(probe@ =~= bytes@.take(i as int));
    }
    assert(probe@ =~= probe_of(bytes@));
    if probe.len() == 0 {
        return true;
    }
    let cs = match utf8_chars(&probe) {
        Some(cs) => cs,
        None => return false,
    };
    if cs.len() == 0 {
        return true;
    }
    let mut printable: usize = 0;
    let mut k: usize = 0;
    while k < cs.len()
        invariant
            k <= cs.len(),
            printable <= k,
            printable == printable_count(cs@.take(k as int)),
        decreases cs.len() - k,
    {
        let c = cs[k];
        let u = c as u32;
        assert(cs@.take(k + 1).drop_last() =~= cs@.take(k as int));
        if !(u <= 0x1f || (0x7f <= u && u <= 0x9f)) || c == '\n' || c == '\r' || c == '\t' {
            printable = printable + 1;
        }
        k = k + 1;
    }
    assert(cs@.take(cs.len() as int) =~= cs@);
    let total = cs.len();
    (printable as u128) * 20 > (total as u128) * 19
}

/// `bytes` with each `\r\n` turned back into `\n`, read from the front.
pub open spec fn crlf_fixed(b: Seq<u8>) -> Seq<u8>
    decreases b.len(),
{
    if b.len() == 0 {
        seq![]
    } else if b.len() >= 2 && b[0] == 13 && b[1] == 10 {
        seq![10u8] + crlf_fixed(b.skip(2))
    } else {
        seq![b[0]] + crlf_fixed(b.skip(1))
    }
}

/// Undoes the `\n` to `\r\n` rewrite that `adb shell` applies to output.
pub fn fix_crlf(bytes: &[u8]) -> (res: Vec<u8>)
    ensures
        res@ == crlf_fixed(bytes@),
{
    let mut res: Vec<u8> = Vec::new();
    let mut i: usize = 0;
    assert(bytes@.skip(0) =~= bytes@);
    while i < bytes.len()
        invariant
            i <= bytes.len(),
            crlf_fixed(bytes@) == res@ + crlf_fixed(bytes@.skip(i as int)),
        decreases bytes.len() - i,
    {
        let b = bytes[i];
        let ghost rest = bytes@.skip(i as int);
        if b == 13 && i + 1 < bytes.len() && bytes[i + 1] == 10 {
            assert(rest[0] == 13 && rest[1] == 10);
            assert(rest.skip(2) =~= bytes@.skip(i + 2));
            res.push(10);
            i = i + 2;
        } else {
            assert(rest[0] == b);
            assert(rest.skip(1) =~= bytes@.skip(i + 1));
            res.push(b);
            i = i + 1;
        }
        assert(crlf_fixed(bytes@) =~= res@ + crlf_fixed(bytes@.skip(i as int)));
    }
    assert(bytes@.skip(i as int) =~= Seq::<u8>::empty());
    assert(res@ + Seq::<u8>::empty() =~= res@);
    res
}

/// Files larger than 5 MB are not previewed.
pub open spec fn too_large(size: u64) -> bool {
    size > 5 * 1024 * 1024
}

/// Whether a file of `size` bytes is too large to preview.
pub fn preview_too_large(size: u64) -> (res: bool)
    ensures
        res == too_large(size),
{
    size > 5 * 1024 * 1024
}

/// The data URL of base64 content: `data:<mime>;base64,<content>`.
pub open spec fn data_url(mime: Seq<char>, bytes: Seq<u8>) -> Seq<char> {
    "data:"@ + mime + ";base64,"@ + base64_standard(bytes)
}

fn data_url_exec(mime: &str, bytes: &[u8]) -> (res: String)
    requires
        (bytes@.len() + 2) / 3 * 4 <= usize::MAX,
    ensures
        res@ == data_url(mime@, bytes@),
{
    let encoded = base64_encode(bytes);
    cat(&cat(&cat("data:", mime), ";base64,"), &encoded)
}

/// The data URL of a downloaded image (`fetch_image_as_data_url`); the
/// type defaults to `image/jpeg` when the response names none.
pub fn image_data_url(content_type: Option<&str>, bytes: &[u8]) -> (res: String)
    requires
        (bytes@.len() + 2) / 3 * 4 <= usize::MAX,
    ensures
        res@ == data_url(
            match content_type {
                Some(t) => t@,
                None => "image/jpeg"@,
            },
            bytes@,
        ),
{
    match content_type {
        Some(t) => data_url_exec(t, bytes),
        None => data_url_exec("image/jpeg", bytes),
    }
}

/// How a file is previewed: images by extension as a data URL, text by
/// extension or (for files without extension) by sniffing, the rest as
/// binary.
pub open spec fn preview_of(ext: Seq<char>, bytes: Seq<u8>, size: u64, temp_path: Seq<char>) -> FilePreviewView {
    match image_type(ext) {
        Some(mime) => FilePreviewView {
            kind: "image"@,
            mime: mime,
            size: size,
            text: None,
            data_url: Some(data_url(mime, bytes)),
            temp_path: temp_path,
        },
        None => if text_extension(ext) || (ext.len() == 0 && sniff_text(bytes)) {
            FilePreviewView {
                kind: "text"@,
                mime: "text/plain; charset=utf-8"@,
                size: size,
                text: Some(utf8_lossy(bytes)),
                data_url: None,
                temp_path: temp_path,
            }
        } else {
            FilePreviewView {
                kind: "binary"@,
                mime: "application/octet-stream"@,
                size: size,
                text: None,
                data_url: None,
                temp_path: temp_path,
            }
        },
    }
}

/// The preview of a pulled file (`preview_remote_file`), given its lower-case
/// extension, its content and size, and where it was stored.
///
/// Only files within the size limit are previewed: `preview_too_large` is
/// asked first, and a larger file is refused before its content is read.
pub fn build_preview(ext: &str, bytes: &[u8], size: u64, temp_path: &str) -> (res: FilePreview)
    requires
        !too_large(size),
        (bytes@.len() + 2) / 3 * 4 <= usize::MAX,
    ensures
        res@ == preview_of(ext@, bytes@, size, temp_path@),
        res.size <= 5 * 1024 * 1024,
{
    if let Some(mime) = image_mime(ext) {
        return FilePreview {
            kind: "image".to_string(),
            mime: mime.to_string(),
            size,
            text: None,
            data_url: Some(data_url_exec(mime, bytes)),
            temp_path: temp_path.to_string(),
        };
    }
    let treat_as_text = is_text_ext(ext) || (ext.is_empty() && sniff_is_text(bytes));
    if treat_as_text {
        return FilePreview {
            kind: "text".to_string(),
            mime: "text/plain; charset=utf-8".to_string(),
            size,
            text: Some(lossy_string(bytes)),
            data_url: None,
            temp_path: temp_path.to_string(),
        };
    }
    FilePreview {
        kind: "binary".to_string(),
        mime: "application/octet-stream".to_string(),
        size,
        text: None,
        data_url: None,
        temp_path: temp_path.to_string(),
    }
}

/// The name a pulled file is stored under: its remote file name, or `file`.
pub open spec fn remote_file_name(remote_path: Seq<char>) -> Seq<char> {
    match path_file_name(remote_path) {
        Some(n) => n,
        None => "file"@,
    }
}

/// The remote file name of `remote_path`, or `file`.
pub fn original_file_name(remote_path: &str) -> (res: String)
    ensures
        res@ == remote_file_name(remote_path@),
{
    match file_name_of(remote_path) {
        Some(n) => n,
        None => "file".to_string(),
    }
}

/// The local name of a preview copy: the timestamp, `_`, the file name.
pub fn preview_temp_name(timestamp: u128, name: &str) -> (res: String)
    ensures
        res@ == decimal(timestamp as nat) + "_"@ + name@,
{
    let digits = string_of(&fmt_decimal(timestamp));
    cat(&cat(&digits, "_"), name)
}

/// What to do when `adb pull` of a preview failed.
pub enum PullFallback {
    /// Read the file with `run-as <package> cat <relative>`.
    RunAsCat { package: String, relative: String },
    /// Give up with this message.
    Fail(String),
}

/// Decides after a failed `adb pull` with error text `err`: files under
/// `/data/data/<package>/` are read through `run-as`; anything else fails
/// with the pull error.
pub fn pull_fallback(err: &str, remote_path: &str) -> (res: PullFallback)
    ensures
        match data_data_split(remote_path@) {
            Some((pkg, rel)) => res matches PullFallback::RunAsCat { package, relative }
                && package@ == pkg && relative@ == rel,
            None => res matches PullFallback::Fail(m) && m@ == "adb pull 失败: "@ + err@,
        },
{
    let e = chars_of(err);
    let need_run_as = crate::text::contains_exec(&e, &chars_of("Permission denied"))
        || crate::text::contains_exec(&e, &chars_of("does not exist")) || crate::text::starts_with_exec(
        &chars_of(remote_path),
        &chars_of("/data/data/"),
    );
    let under_data = crate::text::starts_with_exec(&chars_of(remote_path), &chars_of("/data/data/"));
    if need_run_as && under_data {
        match crate::files::split_data_data_path(remote_path) {
            Some((package, relative)) => PullFallback::RunAsCat { package, relative },
            None => PullFallback::Fail(cat("adb pull 失败: ", err)),
        }
    } else {
        proof {
            assert(data_data_split(remote_path@) is None);
        }
        PullFallback::Fail(cat("adb pull 失败: ", err))
    }
}

/// The content read through `run-as ... cat`: an error with the command's
/// error output when it failed, else the output with line endings restored.
pub fn run_as_cat_outcome(success: bool, stdout: &[u8], stderr: &[u8]) -> (res: Result<Vec<u8>, String>)
    ensures
        success ==> (res matches Ok(v) && v@ == crlf_fixed(stdout@)),
        !success ==> (res matches Err(m) && m@ == "无法读取文件: "@ + utf8_lossy(stderr@)),
{
    if !success {
        let msg = lossy_string(stderr);
        return Err(cat("无法读取文件: ", &msg));
    }
    Ok(fix_crlf(stdout))
}


/// Every preview is text, an image or binary; it carries text exactly when
/// it is text and a data URL exactly when it is an image; and within the
/// size limit its size is at most 5 MB.
pub proof fn law_preview_shape(ext: Seq<char>, bytes: Seq<u8>, size: u64, temp_path: Seq<char>)
    requires
        !too_large(size),
    ensures
        ({
            let p = preview_of(ext, bytes, size, temp_path);
            &&& p.kind == "text"@ || p.kind == "image"@ || p.kind == "binary"@
            &&& (p.text is Some <==> p.kind == "text"@)
            &&& (p.data_url is Some <==> p.kind == "image"@)
            &&& p.size <= 5 * 1024 * 1024
            &&& p.size == size
        }),
{
    reveal_strlit("text");
    reveal_strlit("image");
    reveal_strlit("binary");
}

/// Files with the text extensions (`txt`, `log`, `json`, `xml`, `html`,
/// `htm`, `css`, `js`, `ts`, `kt`, `java`, `md`, `properties`, `sh`, `conf`,
/// `yaml`, `yml`, `ini`, `toml`) are previewed as text: kind `text`, a plain
/// text MIME type, and their content decoded as lossy UTF-8, whatever the
/// content is.
pub proof fn law_text_extensions_preview_as_text(ext: Seq<char>, bytes: Seq<u8>, size: u64, temp_path: Seq<char>)
    requires
        ext == "txt"@ || ext == "log"@ || ext == "json"@ || ext == "xml"@ || ext == "html"@
            || ext == "htm"@ || ext == "css"@ || ext == "js"@ || ext == "ts"@ || ext == "kt"@
            || ext == "java"@ || ext == "md"@ || ext == "properties"@ || ext == "sh"@ || ext
            == "conf"@ || ext == "yaml"@ || ext == "yml"@ || ext == "ini"@ || ext == "toml"@,
    ensures
        preview_of(ext, bytes, size, temp_path).kind == "text"@,
        preview_of(ext, bytes, size, temp_path).mime == "text/plain; charset=utf-8"@,
        preview_of(ext, bytes, size, temp_path).text == Some(utf8_lossy(bytes)),
        preview_of(ext, bytes, size, temp_path).data_url is None,
{
    reveal_strlit("txt");
    reveal_strlit("log");
    reveal_strlit("json");
    reveal_strlit("xml");
    reveal_strlit("html");
    reveal_strlit("htm");
    reveal_strlit("css");
    reveal_strlit("js");
    reveal_strlit("ts");
    reveal_strlit("kt");
    reveal_strlit("java");
    reveal_strlit("md");
    reveal_strlit("properties");
    reveal_strlit("sh");
    reveal_strlit("conf");
    reveal_strlit("yaml");
    reveal_strlit("yml");
    reveal_strlit("ini");
    reveal_strlit("toml");
    reveal_strlit("png");
    reveal_strlit("jpg");
    reveal_strlit("jpeg");
    reveal_strlit("webp");
    reveal_strlit("gif");
    reveal_strlit("bmp");
    assert(image_type(ext) is None) by {
        if ext.len() == 3 {
            assert(ext[0] != 'p' || ext[1] != 'n');
            assert(ext[0] != 'j' || ext[1] != 'p');
            assert(ext[0] != 'g' || ext[1] != 'i');
            assert(ext[0] != 'b' || ext[1] != 'm');
        }
        if ext.len() == 4 {
            assert(ext[0] != 'j' || ext[1] != 'p');
            assert(ext[0] != 'w');
        }
    }
}

/// Files with an image extension (`png`, `jpg`, `jpeg`, `webp`, `gif`,
/// `bmp`) are previewed as images of that type, carrying a data URL and no
/// text.
pub proof fn law_image_extensions_preview_as_image(ext: Seq<char>, bytes: Seq<u8>, size: u64, temp_path: Seq<char>)
    requires
        ext == "png"@ || ext == "jpg"@ || ext == "jpeg"@ || ext == "webp"@ || ext == "gif"@
            || ext == "bmp"@,
    ensures
        preview_of(ext, bytes, size, temp_path).kind == "image"@,
        preview_of(ext, bytes, size, temp_path).mime == (if ext == "png"@ {
            "image/png"@
        } else if ext == "webp"@ {
            "image/webp"@
        } else if ext == "gif"@ {
            "image/gif"@
        } else if ext == "bmp"@ {
            "image/bmp"@
        } else {
            "image/jpeg"@
        }),
        preview_of(ext, bytes, size, temp_path).text is None,
        preview_of(ext, bytes, size, temp_path).data_url is Some,
{
    reveal_strlit("png");
    reveal_strlit("jpg");
    reveal_strlit("jpeg");
    reveal_strlit("webp");
    reveal_strlit("gif");
    reveal_strlit("bmp");
    if ext == "png"@ {
        assert(ext[0] == 'p');
    } else if ext == "jpg"@ || ext == "jpeg"@ {
        assert(ext[0] == 'j');
    } else if ext == "webp"@ {
        assert(ext[0] == 'w');
    } else if ext == "gif"@ {
        assert(ext[0] == 'g');
    } else {
        assert(ext[0] == 'b');
    }
}

/// Restoring line endings never lengthens content, and leaves content
/// without carriage returns as it is.
pub proof fn law_crlf_fixed(b: Seq<u8>)
    ensures
        crlf_fixed(b).len() <= b.len(),
        (forall|i: int| 0 <= i < b.len() ==> b[i] != 13) ==> crlf_fixed(b) == b,
    decreases b.len(),
{
    if b.len() > 0 {
        if b.len() >= 2 && b[0] == 13 && b[1] == 10 {
            law_crlf_fixed(b.skip(2));
        } else {
            law_crlf_fixed(b.skip(1));
            if forall|i: int| 0 <= i < b.len() ==> b[i] != 13 {
                assert(forall|i: int| 0 <= i < b.skip(1).len() ==> b.skip(1)[i] == b[i + 1]);
                assert(b =~= seq![b[0]] + b.skip(1));
            }
        }
    }
}

/// Sniffing looks at the first 4096 bytes only.
pub proof fn law_sniff_reads_prefix(b: Seq<u8>)
    requires
        b.len() > 4096,
    ensures
        sniff_text(b) == sniff_text(b.take(4096)),
{
    assert(probe_of(b.take(4096)) =~= probe_of(b));
}

/// The lower-cased extension has no ASCII capital left: lower-casing it
/// again changes nothing.
pub proof fn law_lower_extension_is_lower(path: Seq<char>)
    ensures
        to_ascii_lower(lower_extension(path)) == lower_extension(path),
{
    let e = lower_extension(path);
    assert(to_ascii_lower(e) =~= e);
}

} // verus!
