use codex_core::markup::{escape_xml_text, html_escape};
use codex_core::table::Table;
use codex_core::text::{
    after_prefix, begins_with, contains_char, contains_text, cut_text, decimal_of, decimal_of_i64,
    ends_with_text, find_text, is_less, is_white, join, lines_of, lowered, parse_u64, pieces_of,
    replace_text, strip_end_chars, strip_start_chars, trim_end_str, trim_start_str, trimmed,
};
use codex_core::text_set::TextSet;
use codex_core::time::{Day, Timestamp};

const TEXTS: &[&str] = &[
    "", " ", "a", " a b ", "\u{3000}x\u{a0}", "a\nb", "a\r\nb\n", "\n", "\r\n\r\n", "a\rb\n\nc",
    "h\u{e9}llo", "aaa", "abcabc", "b", "\u{1f600} z",
];

#[test]
fn white_space_is_that_of_unicode() {
    for c in '\0'..=char::MAX {
        assert_eq!(is_white(c), c.is_whitespace(), "{c:?}");
    }
}

#[test]
fn texts_are_handled_as_the_standard_library_does() {
    for s in TEXTS {
        assert_eq!(trimmed(s), s.trim(), "{s:?}");
        assert_eq!(trim_start_str(s), s.trim_start());
        assert_eq!(trim_end_str(s), s.trim_end());
        assert_eq!(lowered(s), s.to_ascii_lowercase());
        assert_eq!(lines_of(s), s.lines().map(str::to_string).collect::<Vec<_>>(), "{s:?}");
        assert_eq!(
            pieces_of(s, "ab"),
            s.split(['a', 'b']).map(str::to_string).collect::<Vec<_>>(),
            "{s:?}"
        );
        assert_eq!(strip_start_chars(s, "a "), s.trim_start_matches(['a', ' ']));
        assert_eq!(strip_end_chars(s, "c "), s.trim_end_matches(['c', ' ']));
        for t in TEXTS {
            assert_eq!(contains_text(s, t), s.contains(t), "{s:?} {t:?}");
            assert_eq!(begins_with(s, t), s.starts_with(t));
            assert_eq!(ends_with_text(s, t), s.ends_with(t));
            assert_eq!(after_prefix(s, t), s.strip_prefix(t));
            assert_eq!(is_less(s, t), s < t, "{s:?} {t:?}");
            if !t.is_empty() {
                assert_eq!(replace_text(s, t, "--"), s.replace(t, "--"));
                assert_eq!(cut_text(s, t), s.split_once(t));
            }
        }
        assert_eq!(contains_char(s, 'a'), s.contains('a'));
    }
    assert_eq!(find_text("h\u{e9}llo", "l"), Some(2));
    let parts = vec!["a".to_string(), "".to_string(), "b".to_string()];
    assert_eq!(join(&parts, ", "), parts.join(", "));
}

#[test]
fn numbers_are_written_and_read() {
    for n in [0u64, 7, 10, 1234567890, u64::MAX] {
        assert_eq!(decimal_of(n), n.to_string());
        assert_eq!(parse_u64(&n.to_string()), Some(n));
    }
    for n in [0i64, -1, i64::MIN, i64::MAX] {
        assert_eq!(decimal_of_i64(n), n.to_string());
    }
    for s in ["", "+", "+5", "-1", " 1", "18446744073709551616", "00012", "1a"] {
        assert_eq!(parse_u64(s), s.parse::<u64>().ok(), "{s:?}");
    }
}

#[test]
fn markup_is_escaped() {
    assert_eq!(escape_xml_text("a<b>&\"c\""), "a&lt;b&gt;&amp;\"c\"");
    assert_eq!(html_escape("a<b>&\"c\""), "a&lt;b&gt;&amp;&quot;c&quot;");
    for s in TEXTS {
        assert!(!html_escape(s).contains(['<', '>', '"']));
    }
}

#[test]
fn times_are_written_in_the_format_of_the_internet() {
    let t = Timestamp { secs: 1700000000, nanos: 5 };
    assert_eq!(t.to_rfc3339(), "2023-11-14T22:13:20.000000005+00:00");
    assert_eq!(Timestamp { secs: 0, nanos: 0 }.to_rfc3339(), "1970-01-01T00:00:00+00:00");
    assert_eq!(Timestamp { secs: i64::MAX, nanos: 0 }.to_rfc3339(), "");
    assert!(Timestamp { secs: 0, nanos: 1 }.is_before(&Timestamp { secs: 1, nanos: 0 }));
    assert!(!t.is_before(&t));
    assert_eq!(Day { year: 2024, month: 2, day: 29 }.to_text().as_deref(), Some("2024-02-29"));
    assert_eq!(Day { year: 2023, month: 2, day: 29 }.to_text(), None);
}

#[test]
fn tables_hold_one_value_for_each_key() {
    let mut table: Table<u8> = Table::new();
    assert_eq!(table.insert("a".to_string(), 1), None);
    assert_eq!(table.insert("b".to_string(), 2), None);
    assert_eq!(table.insert("a".to_string(), 3), Some(1));
    assert_eq!(table.len(), 2);
    assert_eq!(table.get("a"), Some(&3));
    assert_eq!(table.remove("a"), Some(3));
    assert!(!table.contains_key("a"));
    assert_eq!((table.key(0).as_str(), *table.value(0)), ("b", 2));
}

#[test]
fn text_sets_are_ordered() {
    let mut set = TextSet::new();
    for t in ["b", "a", "c", "a"] {
        set.insert(t);
    }
    assert_eq!(set.to_vec(), ["a", "b", "c"]);
    assert!(set.contains("b"));
    assert!(!set.contains("d"));
}
