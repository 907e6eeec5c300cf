use adbtools::input::escape_input_text;

#[test]
fn text_is_escaped_for_the_device_shell() {
    assert_eq!(escape_input_text("hello world"), Ok("hello%sworld".to_string()));
    assert_eq!(escape_input_text("a&b;c"), Ok("a\\&b\\;c".to_string()));
    assert_eq!(
        escape_input_text("\"'`$\\&;|*<>?#()!~"),
        Ok("\\\"\\'\\`\\$\\\\\\&\\;\\|\\*\\<\\>\\?\\#\\(\\)\\!\\~".to_string())
    );
    assert_eq!(escape_input_text("plain-text_1.2"), Ok("plain-text_1.2".to_string()));
}

#[test]
fn empty_and_non_ascii_text_are_refused() {
    assert_eq!(escape_input_text(""), Err("文本不能为空".to_string()));
    let e = escape_input_text("中文").unwrap_err();
    assert!(e.starts_with("adb shell input text 不支持中文/非 ASCII 字符。\n"));
}

fn device_reading(s: &str) -> String {
    let cs: Vec<char> = s.chars().collect();
    let mut out = String::new();
    let mut i = 0;
    while i < cs.len() {
        if cs[i] == '\\' && i + 1 < cs.len() {
            out.push(cs[i + 1]);
            i += 2;
        } else if cs[i] == '%' && i + 1 < cs.len() && cs[i + 1] == 's' {
            out.push(' ');
            i += 2;
        } else {
            out.push(cs[i]);
            i += 1;
        }
    }
    out
}

#[test]
fn escaped_text_reads_back() {
    for t in ["a b c", "100% sure", "x;y|z", "~(!)~", "back\\slash", "% s"] {
        let sent = escape_input_text(t).unwrap();
        assert!(!sent.contains(' '));
        assert_eq!(device_reading(&sent), t);
    }
}
