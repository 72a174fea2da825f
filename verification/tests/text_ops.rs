use tw_widgets::lyrics::lrc::lines_of;
use tw_widgets::text::{
    chars_of, contains_chars, ends_with_chars, find_chars, is_space_char, owned, push_decimal,
    replace_chars, string_of, trim_chars,
};

fn v(s: &str) -> Vec<char> {
    s.chars().collect()
}

fn s(cs: &[char]) -> String {
    cs.iter().collect()
}

#[test]
fn space_class_matches_char_is_whitespace() {
    for u in 0u32..=0x10FFFF {
        if let Some(c) = char::from_u32(u) {
            assert_eq!(is_space_char(c), c.is_whitespace(), "U+{:04X}", u);
        }
    }
}

const SAMPLES: [&str; 12] = [
    "",
    " ",
    "abc",
    "  padded\t\n",
    "\u{3000}wide\u{2009}",
    "a-b-a-b-a",
    "aaaa",
    "ft.ft.ft",
    "日本語 テキスト",
    " - x - ",
    "\u{85}\u{a0}",
    "no match",
];

#[test]
fn trim_matches_str_trim() {
    for t in SAMPLES {
        assert_eq!(s(&trim_chars(&v(t))), t.trim(), "{:?}", t);
    }
}

#[test]
fn find_contains_ends_with_match_str() {
    let pats = ["a", "-", "aa", "ab", " - ", "x", "テ", "ft.", "zzz"];
    for t in SAMPLES {
        for p in pats {
            let want = t.find(p).map(|b| t[..b].chars().count());
            assert_eq!(find_chars(&v(t), &v(p)), want, "{:?} in {:?}", p, t);
            assert_eq!(contains_chars(&v(t), &v(p)), t.contains(p));
            assert_eq!(ends_with_chars(&v(t), &v(p)), t.ends_with(p));
        }
    }
}

#[test]
fn replace_matches_str_replace() {
    let pairs = [("a", "b"), ("aa", "a"), ("ft.", "feat."), ("-", ""), (" - ", "|"), ("語", "go")];
    for t in SAMPLES {
        for (p, r) in pairs {
            assert_eq!(s(&replace_chars(&v(t), &v(p), &v(r))), t.replace(p, r), "{:?} {:?} {:?}", t, p, r);
        }
    }
}

#[test]
fn conversions_and_decimal() {
    assert_eq!(chars_of("héllo"), v("héllo"));
    assert_eq!(string_of(&v("héllo")), "héllo");
    assert_eq!(owned("x y"), "x y");
    for n in [0u64, 7, 10, 99, 1000, 123456789, u64::MAX] {
        let mut out = v("n=");
        push_decimal(&mut out, n);
        assert_eq!(s(&out), format!("n={}", n));
    }
}

#[test]
fn lines_match_str_lines() {
    let texts = ["", "a", "a\n", "a\r\nb", "a\n\nb\n", "\r\n", "x\r", "\n\n", "one\r\r\ntwo"];
    for t in texts {
        let got: Vec<String> = lines_of(&v(t)).iter().map(|l| s(l)).collect();
        let want: Vec<String> = t.lines().map(|l| l.to_string()).collect();
        assert_eq!(got, want, "{:?}", t);
    }
}
