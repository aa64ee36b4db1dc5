use lan_scan_rs::text::{
    chars_of, contains_in, eq_ignore_case, escape_line_breaks, find_in, find_in_from,
    is_space_char, occurs_at, position_in, prefix_of, starts_with_in, string_of, to_lower,
    to_lower_char, trim_bounds, trimmed,
};

fn c(s: &str) -> Vec<char> {
    s.chars().collect()
}

#[test]
fn chars_and_back() {
    assert_eq!(chars_of("a\u{e9}\u{1f600}z"), vec!['a', '\u{e9}', '\u{1f600}', 'z']);
    assert_eq!(chars_of(""), Vec::<char>::new());
    assert_eq!(string_of(&['h', 'i', '\u{e9}']), "hi\u{e9}");
    assert_eq!(string_of(&[]), "");
}

#[test]
fn white_space_is_what_unicode_says() {
    let spaces = [
        '\t', '\n', '\u{b}', '\u{c}', '\r', ' ', '\u{85}', '\u{a0}', '\u{1680}', '\u{2000}',
        '\u{2005}', '\u{200a}', '\u{2028}', '\u{2029}', '\u{202f}', '\u{205f}', '\u{3000}',
    ];
    for s in spaces {
        assert!(is_space_char(s), "{:?}", s);
    }
    for n in ['a', '0', '\u{8}', '\u{e}', '\u{1f}', '!', '\u{200b}', '\u{feff}', '\u{180e}'] {
        assert!(!is_space_char(n), "{:?}", n);
    }
    let mut all = 0;
    for code in 0..=0x10ffffu32 {
        if let Some(ch) = char::from_u32(code) {
            assert_eq!(is_space_char(ch), ch.is_whitespace(), "{:x}", code);
            all += 1;
        }
    }
    assert_eq!(all, 0x110000 - 0x800);
}

#[test]
fn lower_case_touches_ascii_letters_only() {
    assert_eq!(to_lower_char('A'), 'a');
    assert_eq!(to_lower_char('Z'), 'z');
    assert_eq!(to_lower_char('a'), 'a');
    assert_eq!(to_lower_char('@'), '@');
    assert_eq!(to_lower_char('['), '[');
    assert_eq!(to_lower_char('\u{c9}'), '\u{c9}');
    assert_eq!(to_lower(&c("SSH-2.0 \u{c9}t\u{e9}")), c("ssh-2.0 \u{c9}t\u{e9}"));
    for code in 0..=0x10ffffu32 {
        if let Some(ch) = char::from_u32(code) {
            assert_eq!(to_lower_char(ch), ch.to_ascii_lowercase());
        }
    }
}

#[test]
fn finding() {
    let hay = c("abcabcab");
    assert_eq!(find_in(&hay, &c("abc")), Some(0));
    assert_eq!(find_in(&hay, &c("bca")), Some(1));
    assert_eq!(find_in(&hay, &c("cab")), Some(2));
    assert_eq!(find_in(&hay, &c("abcabcab")), Some(0));
    assert_eq!(find_in(&hay, &c("abcabcabc")), None);
    assert_eq!(find_in(&hay, &c("x")), None);
    assert_eq!(find_in(&hay, &c("")), Some(0));
    assert_eq!(find_in(&c(""), &c("")), Some(0));
    assert_eq!(find_in(&c(""), &c("a")), None);
    assert_eq!(find_in_from(&hay, &c("abc"), 1), Some(3));
    assert_eq!(find_in_from(&hay, &c("abc"), 4), None);
    assert_eq!(find_in_from(&hay, &c("ab"), 6), Some(6));
    assert_eq!(find_in_from(&hay, &c("ab"), 7), None);
    assert_eq!(find_in_from(&hay, &c(""), 8), Some(8));
    assert_eq!(find_in_from(&hay, &c(""), 9), None);
    assert_eq!(find_in_from(&hay, &c("a"), usize::MAX), None);
}

#[test]
fn occurring() {
    let hay = c("hello");
    assert!(occurs_at(&hay, &c("ell"), 1));
    assert!(!occurs_at(&hay, &c("ell"), 0));
    assert!(occurs_at(&hay, &c("lo"), 3));
    assert!(!occurs_at(&hay, &c("lo"), 4));
    assert!(occurs_at(&hay, &c(""), 5));
    assert!(!occurs_at(&hay, &c(""), 6));
    assert!(!occurs_at(&hay, &c("hello!"), 0));
    assert!(contains_in(&hay, &c("ll")));
    assert!(!contains_in(&hay, &c("LL")));
    assert!(starts_with_in(&hay, &c("he")));
    assert!(starts_with_in(&hay, &c("")));
    assert!(!starts_with_in(&hay, &c("el")));
}

#[test]
fn positions() {
    let s = c("a#b#c");
    assert_eq!(position_in(&s, '#', 0), 1);
    assert_eq!(position_in(&s, '#', 1), 1);
    assert_eq!(position_in(&s, '#', 2), 3);
    assert_eq!(position_in(&s, '#', 4), 5);
    assert_eq!(position_in(&s, '#', 5), 5);
    assert_eq!(position_in(&s, '#', 99), 5);
    assert_eq!(position_in(&s, 'x', 0), 5);
}

#[test]
fn trimming() {
    assert_eq!(trimmed(&c("  a b \t\r\n")), &c("a b")[..]);
    assert_eq!(trimmed(&c("a")), &c("a")[..]);
    assert_eq!(trimmed(&c(" \u{a0}\u{3000} ")), &c("")[..]);
    assert_eq!(trimmed(&c("")), &c("")[..]);
    assert_eq!(trim_bounds(&c("  ab ")), (2, 4));
    assert_eq!(trim_bounds(&c("   ")), (3, 3));
    for sample in ["", " ", " x", "x ", " \u{2003}x y\u{85} ", "\nx\n\ny\n"] {
        let got: String = trimmed(&c(sample)).iter().collect();
        assert_eq!(got, sample.trim());
    }
}

#[test]
fn comparing_without_case() {
    assert!(eq_ignore_case(&c("Server"), &c("sERVER")));
    assert!(eq_ignore_case(&c(""), &c("")));
    assert!(!eq_ignore_case(&c("Server"), &c("Servers")));
    assert!(!eq_ignore_case(&c("\u{c9}"), &c("\u{e9}")));
    assert!(!eq_ignore_case(&c("a"), &c("b")));
}

#[test]
fn escaping() {
    assert_eq!(escape_line_breaks(&c("a\r\nb")), c("a\\r\\nb"));
    assert_eq!(escape_line_breaks(&c("\n\n")), c("\\n\\n"));
    assert_eq!(escape_line_breaks(&c("")), c(""));
    assert_eq!(escape_line_breaks(&c("\\")), c("\\"));
    for sample in ["x\ny", "\r", "plain", "\\n"] {
        let got: String = escape_line_breaks(&c(sample)).into_iter().collect();
        assert_eq!(got, sample.replace('\n', "\\n").replace('\r', "\\r"));
    }
}

#[test]
fn prefixes() {
    assert_eq!(prefix_of(&c("hello"), 2), &c("he")[..]);
    assert_eq!(prefix_of(&c("hello"), 5), &c("hello")[..]);
    assert_eq!(prefix_of(&c("hello"), 9), &c("hello")[..]);
    assert_eq!(prefix_of(&c("hello"), 0), &c("")[..]);
}
