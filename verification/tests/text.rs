use docgen::text::{
    chars_of, contains, contains_char, decimal_chars, digit_of, find_char, has_prefix,
    is_space_char, joined, matches_at, push_all, replaced, rfind, skipped, split_all,
    split_lines, to_vec, trimmed, trimmed_end, trimmed_start, without_char, without_leading,
    without_trailing,
};

fn chars(s: &str) -> Vec<char> {
    s.chars().collect()
}

fn text(c: &[char]) -> String {
    c.iter().collect()
}

#[test]
fn white_space_is_told_by_its_code_point() {
    for c in [' ', '\t', '\n', '\r', '\u{b}', '\u{c}', '\u{85}', '\u{a0}', '\u{1680}', '\u{2000}', '\u{200a}', '\u{2028}', '\u{2029}', '\u{202f}', '\u{205f}', '\u{3000}'] {
        assert!(is_space_char(c));
    }
    for c in ['a', '0', '_', '\u{200b}', '\u{feff}', '\u{8}', '\u{e}', '\u{1f}', '\u{2060}'] {
        assert!(!is_space_char(c));
    }
    let mut n: u32 = 0;
    while n < 0x3100 {
        if let Some(c) = char::from_u32(n) {
            assert_eq!(is_space_char(c), c.is_whitespace());
        }
        n += 1;
    }
}

#[test]
fn trimming_takes_white_space_from_the_ends() {
    assert_eq!(text(trimmed(&chars("  a b \t\n"))), "a b");
    assert_eq!(text(trimmed_start(&chars("  a b  "))), "a b  ");
    assert_eq!(text(trimmed_end(&chars("  a b  "))), "  a b");
    assert_eq!(text(trimmed(&chars(" \u{a0}\u{3000} "))), "");
    assert_eq!(text(trimmed(&chars(""))), "");
    assert_eq!(text(trimmed(&chars("x"))), "x");
}

#[test]
fn runs_of_a_character_are_stripped() {
    assert_eq!(text(without_leading(&chars("***a*"), '*')), "a*");
    assert_eq!(text(without_trailing(&chars("a}}"), '}')), "a");
    assert_eq!(text(without_leading(&chars("###"), '#')), "");
    assert_eq!(text(without_trailing(&chars("abc"), 'x')), "abc");
    assert_eq!(text(&without_char(&chars("a?b??c"), '?')), "abc");
}

#[test]
fn prefixes_and_occurrences_are_found() {
    assert!(has_prefix(&chars("@param x"), &chars("@param")));
    assert!(!has_prefix(&chars("@par"), &chars("@param")));
    assert!(has_prefix(&chars("abc"), &chars("")));
    assert!(matches_at(&chars("abcabc"), &chars("bc"), 4));
    assert!(!matches_at(&chars("abcabc"), &chars("bc"), 5));
    assert!(!matches_at(&chars("abc"), &chars("c"), 7));
    assert!(contains(&chars("hello"), &chars("ell")));
    assert!(contains(&chars("hello"), &chars("")));
    assert!(contains(&chars(""), &chars("")));
    assert!(!contains(&chars("hello"), &chars("elo")));
    assert!(!contains(&chars("he"), &chars("hello")));
    assert!(contains_char(&chars("a?b"), '?'));
    assert!(!contains_char(&chars("ab"), '?'));
    assert_eq!(find_char(&chars("a:b:c"), 0, ':'), 1);
    assert_eq!(find_char(&chars("a:b:c"), 2, ':'), 3);
    assert_eq!(find_char(&chars("a:b:c"), 4, ':'), 5);
    assert_eq!(rfind(&chars("a*/b*/c"), &chars("*/")), Some(4));
    assert_eq!(rfind(&chars("abc"), &chars("*/")), None);
    assert_eq!(rfind(&chars("aaa"), &chars("aa")), Some(1));
    assert_eq!(rfind(&chars("ab"), &chars("")), Some(2));
    assert_eq!(text(skipped(&chars("abcdef"), 2)), "cdef");
    assert_eq!(text(skipped(&chars("ab"), 5)), "");
}

#[test]
fn lines_end_at_line_feeds() {
    let l = |s: &str| split_lines(&chars(s)).iter().map(|v| text(v)).collect::<Vec<String>>();
    assert_eq!(l(""), Vec::<String>::new());
    assert_eq!(l("a"), vec!["a"]);
    assert_eq!(l("a\n"), vec!["a"]);
    assert_eq!(l("a\n\nb"), vec!["a", "", "b"]);
    assert_eq!(l("\n"), vec![""]);
    assert_eq!(l("a\r\nb\r"), vec!["a", "b\r"]);
    assert_eq!(l("a\r\r\n"), vec!["a\r"]);
    for s in ["", "x", "x\ny\n", "\n\n", "a\r\n\r\nb", "\r", "one\ntwo\r\nthree"] {
        assert_eq!(l(s), s.lines().map(|x| x.to_string()).collect::<Vec<String>>());
    }
}

#[test]
fn pieces_stand_between_separators() {
    let p = |s: &str| split_all(&chars(s), ',').iter().map(|v| text(v)).collect::<Vec<String>>();
    assert_eq!(p(""), vec![""]);
    assert_eq!(p("a"), vec!["a"]);
    assert_eq!(p("a,b"), vec!["a", "b"]);
    assert_eq!(p(",a,,"), vec!["", "a", "", ""]);
}

#[test]
fn parts_are_joined_with_a_separator() {
    let parts = vec![chars("a"), chars(""), chars("bc")];
    assert_eq!(text(&joined(&parts, &chars(", "))), "a, , bc");
    assert_eq!(text(&joined(&Vec::new(), &chars(","))), "");
    assert_eq!(text(&joined(&vec![chars("x")], &chars(","))), "x");
}

#[test]
fn occurrences_are_replaced_from_left_to_right() {
    let r = |s: &str, p: &str, w: &str| text(&replaced(&chars(s), &chars(p), &chars(w)));
    assert_eq!(r("a-b-c", "-", "_"), "a_b_c");
    assert_eq!(r("aaa", "aa", "b"), "ba");
    assert_eq!(r("abc", "x", "y"), "abc");
    assert_eq!(r("abc", "", "y"), "abc");
    assert_eq!(r("./a/./b", "./", ""), "a/b");
    assert_eq!(r("", "a", "b"), "");
    assert_eq!(r("ab", "ab", ""), "");
}

#[test]
fn numbers_are_written_in_decimal() {
    assert_eq!(text(&decimal_chars(0)), "0");
    assert_eq!(text(&decimal_chars(7)), "7");
    assert_eq!(text(&decimal_chars(10)), "10");
    assert_eq!(text(&decimal_chars(1234567890)), "1234567890");
    assert_eq!(text(&decimal_chars(usize::MAX)), usize::MAX.to_string());
    assert_eq!(digit_of(0), '0');
    assert_eq!(digit_of(9), '9');
}

#[test]
fn texts_are_copied() {
    assert_eq!(chars_of("h\u{e9}!"), vec!['h', '\u{e9}', '!']);
    assert_eq!(to_vec(&chars("abc")), chars("abc"));
    let mut out = chars("ab");
    push_all(&mut out, &chars("cd"));
    assert_eq!(out, chars("abcd"));
}
