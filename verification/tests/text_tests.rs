use openclaw_manager::text::{push_replaced, trim_matches_char_chars, trim_start_seq_chars};
use openclaw_manager::number::{
    decimal_chars, parse_i32_chars, parse_u32_chars, parse_u64_chars, push_decimal,
};
use openclaw_manager::text::{
    chars_of, ends_with_chars, find_char_exec, is_whitespace_char, lines_chars, split_chars,
    split_once_chars, starts_with_chars, str_ends_with, string_of, trim_chars, trim_start_char_chars,
    trim_string,
};

fn c(s: &str) -> Vec<char> {
    s.chars().collect()
}

#[test]
fn parse_unsigned_like_from_str() {
    for s in ["0", "42", "+7", "007", "4294967295", "4294967296", "", "+", "-1", " 1", "1a", "１"] {
        assert_eq!(parse_u32_chars(&c(s)), s.parse::<u32>().ok(), "u32 chars {:?}", s);
    }
    for s in ["18446744073709551615", "18446744073709551616", "123", "++1"] {
        assert_eq!(parse_u64_chars(&c(s)), s.parse::<u64>().ok(), "u64 chars {:?}", s);
    }
}

#[test]
fn parse_signed_like_from_str() {
    for s in ["0", "-0", "2024", "+2024", "-2147483648", "2147483647", "2147483648", "-2147483649", "-", "--1", "1-"] {
        assert_eq!(parse_i32_chars(&c(s)), s.parse::<i32>().ok(), "i32 {:?}", s);
    }
}

#[test]
fn decimal_text_like_display() {
    for n in [0u64, 7, 10, 1234567890, u64::MAX] {
        let d: String = decimal_chars(n).into_iter().collect();
        assert_eq!(d, n.to_string());
    }
    let mut v = c("pid=");
    push_decimal(&mut v, 99);
    assert_eq!(string_of(&v), "pid=99");
}

#[test]
fn trimming_like_str_trim() {
    for s in ["  a b  ", "\t\n x\r\n", "", "   ", "\u{3000}全角\u{3000}", "\u{a0}nbsp\u{85}"] {
        assert_eq!(trim_string(s), s.trim(), "{:?}", s);
        assert_eq!(string_of(&trim_chars(&c(s))), s.trim());
    }
    for ch in [' ', '\t', '\n', '\u{3000}', '\u{2028}', 'a', '_', '\u{200b}'] {
        assert_eq!(is_whitespace_char(ch), ch.is_whitespace(), "{:?}", ch);
    }
    assert_eq!(string_of(&trim_start_char_chars(&c("vvv1.2"), 'v')), "1.2");
}

#[test]
fn splitting_like_str_split() {
    for (s, sep) in [("a.b.c", '.'), ("", '.'), (".", '.'), ("a..b.", '.'), ("x", ':')] {
        let got: Vec<String> = split_chars(&c(s), sep).iter().map(string_of).collect();
        let want: Vec<String> = s.split(sep).map(|x| x.to_string()).collect();
        assert_eq!(got, want, "{:?}", s);
    }
    let (a, b) = split_once_chars(&c("1-02:03"), '-').unwrap();
    assert_eq!((string_of(&a), string_of(&b)), ("1".to_string(), "02:03".to_string()));
    assert!(split_once_chars(&c("02:03"), '-').is_none());
    assert_eq!(find_char_exec(&c("ab-c-"), '-'), Some(2));
    assert_eq!(find_char_exec(&c("abc"), '-'), None);
}

#[test]
fn lines_like_str_lines() {
    for s in ["a\nb", "a\r\nb\r\n", "", "\n", "a\n\nb", "x\r", "a\rb\n"] {
        let got: Vec<String> = lines_chars(&c(s)).iter().map(string_of).collect();
        let want: Vec<String> = s.lines().map(|x| x.to_string()).collect();
        assert_eq!(got, want, "{:?}", s);
    }
}

#[test]
fn prefixes_and_suffixes() {
    assert!(starts_with_chars(&c("current:1"), &c("current:")));
    assert!(!starts_with_chars(&c("cur"), &c("current:")));
    assert!(ends_with_chars(&c("a.zip"), &c(".zip")));
    assert!(!ends_with_chars(&c("a.zip.gz"), &c(".zip")));
    assert!(str_ends_with("node.exe", ".exe"));
    assert_eq!(chars_of("日志"), vec!['日', '志']);
}

#[test]
fn trim_matches_and_replace_like_std() {
    for (s, ch) in [("\"\"abc\"", '"'), ("''", '\''), ("x", 'x'), ("", 'a'), ("a'b", '\'')] {
        assert_eq!(string_of(&trim_matches_char_chars(&c(s), ch)), s.trim_matches(ch), "{:?}", s);
    }
    for (s, p) in [("abab c", "ab"), ("K=K=v", "K="), ("x", "K="), ("", "K=")] {
        assert_eq!(string_of(&trim_start_seq_chars(&c(s), &c(p))), s.trim_start_matches(p), "{:?}", s);
    }
    for (s, ch, r) in [("o'neil's", '\'', "''"), ("C:/a/b", '/', "\\"), ("", 'x', "y")] {
        let mut out = c(">");
        push_replaced(&mut out, &c(s), ch, r);
        assert_eq!(string_of(&out), format!(">{}", s.replace(ch, r)));
    }
}
