use simple_music_bot::text::{
    byte_prefix_exec, chars_of, decimal_exec, is_whitespace, join_strings, parse_i32,
    replace_all_exec, signed_decimal_exec, split_exec, string_of, trimmed,
};

fn s(cs: &[char]) -> String {
    string_of(cs)
}

#[test]
fn trimming_matches_str_trim() {
    for t in ["", "  a b  ", "\u{3000}x\u{85}", "\t\n", "abc", " \u{2009}é "] {
        let cs = chars_of(t);
        assert_eq!(s(&trimmed(&cs)), t.trim());
    }
}

#[test]
fn whitespace_matches_char_is_whitespace() {
    for u in 0u32..0x3100 {
        if let Some(c) = char::from_u32(u) {
            assert_eq!(is_whitespace(c), c.is_whitespace(), "{:x}", u);
        }
    }
}

#[test]
fn split_matches_str_split() {
    for (t, sep) in [("a - b - c", " - "), ("", ","), (",a,,b,", ","), ("aaa", "aa"), ("x", "yz")] {
        let parts = split_exec(&chars_of(t), &chars_of(sep));
        let got: Vec<String> = parts.iter().map(|p| s(p)).collect();
        let want: Vec<String> = t.split(sep).map(String::from).collect();
        assert_eq!(got, want);
    }
}

#[test]
fn replace_matches_str_replace() {
    for (t, a, b) in [("cover100x100bb.jpg", "100x100bb", "600x600bb"), ("aaaa", "aa", "b"), ("", "x", "y"), ("xyx", "x", "")] {
        let r = replace_all_exec(&chars_of(t), &chars_of(a), &chars_of(b));
        assert_eq!(s(&r), t.replace(a, b));
    }
}

#[test]
fn join_matches_slice_join() {
    let v = vec!["tv".to_string(), "web".to_string(), "".to_string()];
    assert_eq!(join_strings(&v, ","), v.join(","));
    assert_eq!(join_strings(&Vec::new(), ","), "");
}

#[test]
fn decimal_numbers() {
    for n in [0u64, 7, 10, 99, 100, 12345, u64::MAX] {
        assert_eq!(s(&decimal_exec(n)), n.to_string());
    }
    for n in [0i64, -1, -128, 42, i64::MIN, i64::MAX] {
        assert_eq!(s(&signed_decimal_exec(n)), n.to_string());
    }
}

#[test]
fn parse_i32_matches_std() {
    for t in [
        "", "+", "-", "0", "-0", "+12", "2024", "-2147483648", "2147483647", "2147483648",
        "-2147483649", "99999999999999", " 1", "1 ", "1a", "٣", "00012", "+-1", "--1",
    ] {
        assert_eq!(parse_i32(t), t.parse::<i32>().ok(), "{:?}", t);
    }
}

#[test]
fn byte_prefix_matches_str_slicing() {
    for t in ["2020-01-01", "20", "", "é202", "ab€d", "😀xyz", "abcd", "abc€"] {
        let (ok, pre) = byte_prefix_exec(&chars_of(t), 4);
        let n = 4.min(t.len());
        assert_eq!(ok, t.is_char_boundary(n), "{:?}", t);
        if ok {
            assert_eq!(s(&pre), &t[..n]);
        }
    }
}
