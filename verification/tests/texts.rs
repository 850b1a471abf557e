use komorebi_tray_grid::table::Table;
use komorebi_tray_grid::text::{
    chars_of, decimal_text, is_text_before, is_white_space, parse_usize, same_text, split,
    split_once, starts_with, string_of, strip_prefix, trim,
};
use komorebi_tray_grid::utils::ellipsize;

const SAMPLES: [&str; 12] = [
    "", " ", "a", " a ", "a b", "\t\u{a0}x\u{3000}", "é", "-", "a-b-c", "--", "こんにちは", "\u{1F600}",
];

#[test]
fn test_ellipsize() {
    assert_eq!(ellipsize("hello", 10), "hello");
    assert_eq!(ellipsize("hello", 5), "hello");
    assert_eq!(ellipsize("hello world", 5), "hell…");
    assert_eq!(ellipsize("こんにちは世界", 5), "こんにち…");
}

#[test]
fn ellipsize_keeps_the_bound() {
    assert_eq!(ellipsize("", 0), "");
    assert_eq!(ellipsize("x", 0), "…");
    assert_eq!(ellipsize("xy", 1), "…");
    for s in SAMPLES {
        for max in 1..8 {
            let e = ellipsize(s, max);
            assert!(e.chars().count() <= max);
            assert_eq!(ellipsize(&e, max), e);
        }
    }
}

#[test]
fn white_space_is_that_of_unicode() {
    for c in '\0'..=char::MAX {
        assert_eq!(is_white_space(c), c.is_whitespace(), "{c:?}");
    }
}

#[test]
fn text_helpers_agree_with_the_standard_library() {
    for a in SAMPLES {
        assert_eq!(trim(a), a.trim());
        assert_eq!(chars_of(a), a.chars().collect::<Vec<_>>());
        assert_eq!(split(a, '-'), a.split('-').map(String::from).collect::<Vec<_>>());
        assert_eq!(
            split_once(a, '-'),
            a.split_once('-').map(|(x, y)| (x.to_string(), y.to_string()))
        );
        for b in SAMPLES {
            assert_eq!(same_text(a, b), a == b);
            assert_eq!(is_text_before(a, b), a < b);
            assert_eq!(starts_with(a, b), a.starts_with(b));
            assert_eq!(strip_prefix(a, b), a.strip_prefix(b).map(String::from));
        }
    }
}

#[test]
fn numbers_are_written_and_read() {
    for n in [0, 7, 10, 99, 100, 1234567890, usize::MAX] {
        let text = decimal_text(n);
        assert_eq!(text, n.to_string());
        let chars = chars_of(&text);
        assert_eq!(parse_usize(&chars, 0, chars.len()), Some(n));
    }
    for s in ["", "+", "-1", "+5", "05", "5x", "x5", "++5", "99999999999999999999999999", "１"] {
        let chars = chars_of(s);
        assert_eq!(parse_usize(&chars, 0, chars.len()), s.parse().ok(), "{s}");
    }
    assert_eq!(string_of(&chars_of("abcdef"), 2, 4), "cd");
}

#[test]
fn a_table_is_a_map() {
    let mut t: Table<String, usize> = Table::new();
    assert_eq!(t.len(), 0);
    t.insert("a".into(), 1);
    t.insert("b".into(), 2);
    t.insert("a".into(), 3);
    assert_eq!(t.len(), 2);
    assert_eq!(t.get(&"a".to_string()), Some(&3));
    assert!(t.contains_key(&"b".to_string()));
    assert!(!t.contains_key(&"c".to_string()));
    t.insert("c".into(), 4);
    t.retain_keys(&vec!["c".to_string(), "x".to_string(), "a".to_string()]);
    assert_eq!(t.len(), 2);
    assert_eq!(t.get(&"b".to_string()), None);
    assert_eq!(t.get(&"c".to_string()), Some(&4));
    t.clear();
    assert_eq!(t.len(), 0);
}
