use adbtools::preview::{
    build_preview, ext_lower, fix_crlf, image_data_url, image_mime, is_text_ext,
    original_file_name, preview_temp_name, preview_too_large, pull_fallback, run_as_cat_outcome,
    sniff_is_text, PullFallback,
};

#[test]
fn extensions_are_lowered() {
    assert_eq!(ext_lower("/sdcard/DCIM/Photo.JPG"), "jpg");
    assert_eq!(ext_lower("archive.tar.GZ"), "gz");
    assert_eq!(ext_lower(".bashrc"), "");
    assert_eq!(ext_lower("noext"), "");
    assert_eq!(ext_lower(""), "");
}

#[test]
fn text_and_image_extensions() {
    for e in ["txt", "log", "json", "xml", "html", "htm", "css", "js", "ts", "kt", "java", "md", "properties", "sh", "conf", "yaml", "yml", "ini", "toml"] {
        assert!(is_text_ext(e), "{}", e);
    }
    assert!(!is_text_ext("TXT"));
    assert!(!is_text_ext("png"));
    assert_eq!(image_mime("png"), Some("image/png"));
    assert_eq!(image_mime("jpg"), Some("image/jpeg"));
    assert_eq!(image_mime("jpeg"), Some("image/jpeg"));
    assert_eq!(image_mime("webp"), Some("image/webp"));
    assert_eq!(image_mime("gif"), Some("image/gif"));
    assert_eq!(image_mime("bmp"), Some("image/bmp"));
    assert_eq!(image_mime("svg"), None);
}

fn sniff_with_floats(bytes: &[u8]) -> bool {
    let probe = &bytes[..bytes.len().min(4096)];
    if probe.is_empty() {
        return true;
    }
    let s = match std::str::from_utf8(probe) {
        Ok(s) => s,
        Err(_) => return false,
    };
    let total = s.chars().count() as f32;
    if total == 0.0 {
        return true;
    }
    let printable = s.chars().filter(|c| !c.is_control() || matches!(*c, '\n' | '\r' | '\t')).count() as f32;
    printable / total > 0.95
}

#[test]
fn sniffing_examples() {
    assert!(sniff_is_text(b""));
    assert!(sniff_is_text(b"hello\nworld\r\n\t"));
    assert!(!sniff_is_text(&[0xff, 0xfe, 0x00]));
    assert!(!sniff_is_text(&[0u8; 10]));
    let mut nineteen = vec![b'a'; 19];
    nineteen.push(1);
    assert!(!sniff_is_text(&nineteen));
    let mut twenty = vec![b'a'; 20];
    twenty.push(1);
    assert!(sniff_is_text(&twenty));
    let mut long = vec![b'a'; 4096];
    long.extend_from_slice(&[0u8; 100]);
    assert!(sniff_is_text(&long));
    for b in [&b"plain"[..], &nineteen, &twenty, &long, "中文文本".as_bytes()] {
        assert_eq!(sniff_is_text(b), sniff_with_floats(b));
    }
}

#[test]
fn integer_ratio_equals_float_ratio_for_all_probe_sizes() {
    for total in 1u32..=4096 {
        for printable in 0..=total {
            let float = printable as f32 / total as f32 > 0.95;
            let int = 20 * printable > 19 * total;
            assert_eq!(float, int, "{} of {}", printable, total);
        }
    }
}

#[test]
fn control_char_rule_matches_std() {
    for u in 0u32..0x3000 {
        if let Some(c) = char::from_u32(u) {
            let mut buf = [0u8; 4];
            let one = c.encode_utf8(&mut buf).as_bytes().to_vec();
            assert_eq!(sniff_is_text(&one), sniff_with_floats(&one), "char {:x}", u);
        }
    }
}

#[test]
fn line_endings_are_restored() {
    assert_eq!(fix_crlf(b"a\r\nb\r\n"), b"a\nb\n".to_vec());
    assert_eq!(fix_crlf(b"a\rb\r"), b"a\rb\r".to_vec());
    assert_eq!(fix_crlf(b"\r\r\n"), b"\r\n".to_vec());
    assert_eq!(fix_crlf(b""), Vec::<u8>::new());
}

#[test]
fn size_limit() {
    assert!(!preview_too_large(5 * 1024 * 1024));
    assert!(preview_too_large(5 * 1024 * 1024 + 1));
}

#[test]
fn previews_by_kind() {
    let img = build_preview("png", &[0, 1, 2], 3, "/tmp/x.png");
    assert_eq!(img.kind, "image");
    assert_eq!(img.mime, "image/png");
    assert_eq!(img.data_url.as_deref(), Some("data:image/png;base64,AAEC"));
    assert_eq!(img.text, None);
    assert_eq!(img.size, 3);
    assert_eq!(img.temp_path, "/tmp/x.png");

    let txt = build_preview("json", b"{\"a\":1}", 7, "t");
    assert_eq!(txt.kind, "text");
    assert_eq!(txt.mime, "text/plain; charset=utf-8");
    assert_eq!(txt.text.as_deref(), Some("{\"a\":1}"));

    let sniffed = build_preview("", &[b'h', b'i', 0xff], 3, "t");
    assert_eq!(sniffed.kind, "binary");
    let sniffed_text = build_preview("", b"hi there", 8, "t");
    assert_eq!(sniffed_text.kind, "text");

    let bin = build_preview("so", b"text but unknown ext", 19, "t");
    assert_eq!(bin.kind, "binary");
    assert_eq!(bin.mime, "application/octet-stream");
    assert_eq!(bin.data_url, None);
    assert_eq!(bin.text, None);
}

#[test]
fn lossy_text_replaces_invalid_bytes() {
    let txt = build_preview("txt", &[b'a', 0xff, b'b'], 3, "t");
    assert_eq!(txt.text.as_deref(), Some("a\u{fffd}b"));
}

#[test]
fn fetched_image_urls() {
    assert_eq!(image_data_url(Some("image/gif"), b"GIF"), "data:image/gif;base64,R0lG");
    assert_eq!(image_data_url(None, b""), "data:image/jpeg;base64,");
}

#[test]
fn names_of_pulled_files() {
    assert_eq!(original_file_name("/sdcard/Download/report.pdf"), "report.pdf");
    assert_eq!(original_file_name("/"), "file");
    assert_eq!(original_file_name("/sdcard/.."), "file");
    assert_eq!(preview_temp_name(1700000000123, "a.txt"), "1700000000123_a.txt");
}

#[test]
fn failed_pull_fallback() {
    match pull_fallback("adb: error: failed to stat remote object: Permission denied", "/data/data/com.x/files/a.txt") {
        PullFallback::RunAsCat { package, relative } => {
            assert_eq!(package, "com.x");
            assert_eq!(relative, "files/a.txt");
        }
        PullFallback::Fail(_) => panic!("expected run-as"),
    }
    match pull_fallback("remote object does not exist", "/sdcard/a.txt") {
        PullFallback::Fail(m) => assert_eq!(m, "adb pull 失败: remote object does not exist"),
        _ => panic!("expected failure"),
    }
    match pull_fallback("x", "/data/data/com.x") {
        PullFallback::Fail(m) => assert_eq!(m, "adb pull 失败: x"),
        _ => panic!("expected failure"),
    }
}

#[test]
fn run_as_cat_results() {
    assert_eq!(run_as_cat_outcome(true, b"a\r\nb", b""), Ok(b"a\nb".to_vec()));
    assert_eq!(run_as_cat_outcome(false, b"", b"denied"), Err("无法读取文件: denied".to_string()));
}

#[test]
fn preview_shape_holds_for_each_kind() {
    let limit: u64 = 5 * 1024 * 1024;
    for (ext, bytes) in [("png", &b"\x89PNG"[..]), ("log", &b"line\n"[..]), ("bin", &b"\x00\x01"[..]), ("", &b"plain"[..])] {
        let p = build_preview(ext, bytes, limit, "t");
        assert!(p.kind == "text" || p.kind == "image" || p.kind == "binary");
        assert_eq!(p.text.is_some(), p.kind == "text");
        assert_eq!(p.data_url.is_some(), p.kind == "image");
        assert!(p.size <= limit);
    }
}

#[test]
fn data_urls_use_padded_standard_base64() {
    assert_eq!(image_data_url(Some("image/png"), b"Man"), "data:image/png;base64,TWFu");
    assert_eq!(image_data_url(Some("image/png"), b"Ma"), "data:image/png;base64,TWE=");
    assert_eq!(image_data_url(Some("image/png"), b"M"), "data:image/png;base64,TQ==");
    assert_eq!(image_data_url(Some("image/png"), &[0xfb, 0xff]), "data:image/png;base64,+/8=");
}
