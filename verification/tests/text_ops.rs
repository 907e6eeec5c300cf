use adbtools::text::{
    chars_of, fmt_decimal, fmt_signed, is_whitespace, parse_unsigned_exec, split_lines,
    split_words, string_of, text_lt_exec, to_ascii_lower_exec, trim_chars,
};

fn s(v: &[char]) -> String {
    v.iter().collect()
}

const SAMPLES: &[&str] = &[
    "",
    "a",
    "  padded \t",
    "one\ntwo\r\nthree",
    "trailing\n",
    "bare\rreturn\n",
    "ends with cr\r",
    "\n\n",
    "\u{3000}wide\u{00a0}space\u{2003}x",
    "多字节 文本\n第二行",
];

#[test]
fn whitespace_matches_std_for_every_char() {
    for u in 0u32..=0x10ffff {
        if let Some(c) = char::from_u32(u) {
            assert_eq!(is_whitespace(c), c.is_whitespace(), "char {:x}", u);
        }
    }
}

#[test]
fn trim_matches_std() {
    for t in SAMPLES {
        let got = s(&trim_chars(&chars_of(t)));
        assert_eq!(got, t.trim());
    }
}

#[test]
fn lines_match_std() {
    for t in SAMPLES {
        let got: Vec<String> = split_lines(&chars_of(t)).iter().map(|l| s(l)).collect();
        let want: Vec<String> = t.lines().map(|l| l.to_string()).collect();
        assert_eq!(got, want, "input {:?}", t);
    }
}

#[test]
fn words_match_std() {
    for t in SAMPLES {
        let got: Vec<String> = split_words(&chars_of(t)).iter().map(|l| s(l)).collect();
        let want: Vec<String> = t.split_whitespace().map(|l| l.to_string()).collect();
        assert_eq!(got, want, "input {:?}", t);
    }
}

#[test]
fn unsigned_parsing_matches_std() {
    let cases = [
        "0", "42", "+7", "+", "", "-1", "4294967295", "4294967296", "18446744073709551615",
        "18446744073709551616", "12a", " 1", "007",
    ];
    for c in cases {
        let got32 = parse_unsigned_exec(&chars_of(c), u32::MAX as u64);
        assert_eq!(got32, c.parse::<u32>().ok().map(|v| v as u64), "u32 {:?}", c);
        let got64 = parse_unsigned_exec(&chars_of(c), u64::MAX);
        assert_eq!(got64, c.parse::<u64>().ok(), "u64 {:?}", c);
    }
}

#[test]
fn decimal_printing_matches_std() {
    for n in [0u128, 7, 10, 99, 100, 5555, u64::MAX as u128, u128::MAX] {
        assert_eq!(s(&fmt_decimal(n)), n.to_string());
    }
    for n in [0i64, -1, 42, i64::MIN, i64::MAX] {
        assert_eq!(s(&fmt_signed(n)), n.to_string());
    }
}

#[test]
fn string_order_matches_std() {
    let words = ["", "a", "ab", "b", "B", "é", "z", "android.permission.CAMERA", "android.permission.BODY"];
    for a in words {
        for b in words {
            assert_eq!(text_lt_exec(&chars_of(a), &chars_of(b)), a.to_string() < b.to_string());
        }
    }
}

#[test]
fn ascii_lowercase_matches_std() {
    for t in ["JPG", "MiXeD.Case", "ÄÖ", ""] {
        assert_eq!(s(&to_ascii_lower_exec(&chars_of(t))), t.to_ascii_lowercase());
    }
}

#[test]
fn string_round_trip() {
    for t in SAMPLES {
        assert_eq!(string_of(&chars_of(t)), t.to_string());
    }
}
