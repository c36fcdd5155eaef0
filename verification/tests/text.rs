use dotagent::table::Table;
use dotagent::text::{
    at_or_before, byte_count, chars_of, contains, copy_all, dec_i64, dec_u128, dec_u64, dec_usize,
    ends_with, fit, is_blank, is_white, join, octal_u64, one_of, pad, remove_all, same,
    sorted_unique, split_lines, split_words, starts_with, string_of, strip_prefix, trim, trim_end,
    trim_start,
};

fn v(items: &[&str]) -> Vec<String> {
    items.iter().map(|s| s.to_string()).collect()
}

/// Lines that exercise every shape of white space and of line end.
const SAMPLES: [&str; 12] = [
    "",
    " ",
    "a",
    "  a b  ",
    "\u{a0}x\u{2003}y\u{3000}",
    "one\ntwo\n",
    "one\r\ntwo\r\n",
    "\n\n",
    "\r",
    "a\rb\n\rc",
    "tab\tand\u{b}vertical\u{c}feed",
    "é — ü\u{85}",
];

#[test]
fn white_space_is_what_std_calls_white_space() {
    for n in 0..=0x10FFFF_u32 {
        if let Some(c) = char::from_u32(n) {
            assert_eq!(is_white(c), c.is_whitespace(), "U+{n:04X}");
        }
    }
}

#[test]
fn trimming_agrees_with_std() {
    for s in SAMPLES {
        assert_eq!(trim(s), s.trim(), "{s:?}");
        assert_eq!(trim_start(s), s.trim_start(), "{s:?}");
        assert_eq!(trim_end(s), s.trim_end(), "{s:?}");
        assert_eq!(is_blank(s), s.trim().is_empty(), "{s:?}");
    }
}

#[test]
fn lines_and_words_agree_with_std() {
    for s in SAMPLES {
        assert_eq!(split_lines(s), s.lines().collect::<Vec<_>>(), "{s:?}");
        assert_eq!(split_words(s), s.split_whitespace().collect::<Vec<_>>(), "{s:?}");
        assert_eq!(byte_count(s), s.len(), "{s:?}");
    }
}

#[test]
fn searching_agrees_with_std() {
    for s in SAMPLES {
        for needle in ["", "a", "\n", "two", "é", "one\r", "x\u{2003}"] {
            assert_eq!(starts_with(s, needle), s.starts_with(needle), "{s:?} {needle:?}");
            assert_eq!(ends_with(s, needle), s.ends_with(needle), "{s:?} {needle:?}");
            assert_eq!(contains(s, needle), s.contains(needle), "{s:?} {needle:?}");
            assert_eq!(
                strip_prefix(s, needle),
                s.strip_prefix(needle).map(str::to_string),
                "{s:?} {needle:?}"
            );
            if !needle.is_empty() {
                assert_eq!(remove_all(s, needle), s.replace(needle, ""), "{s:?} {needle:?}");
            }
        }
    }
    assert_eq!(remove_all("aaa", "aa"), "a");
    assert!(same("é", "é") && !same("e", "é"));
}

#[test]
fn numbers_print_as_std_prints_them() {
    for n in [0, 1, 9, 10, 99, 1234567890, u64::MAX] {
        assert_eq!(dec_u64(n), n.to_string());
        assert_eq!(dec_u128(n as u128), n.to_string());
        assert_eq!(octal_u64(n), format!("{n:o}"));
    }
    assert_eq!(dec_u128(u128::MAX), u128::MAX.to_string());
    assert_eq!(dec_usize(usize::MAX), usize::MAX.to_string());
    for n in [i64::MIN, -10, -1, 0, 7, i64::MAX] {
        assert_eq!(dec_i64(n), n.to_string());
    }
}

#[test]
fn a_cut_keeps_whole_characters() {
    assert_eq!(fit("ééé", 5), "éé");
    assert_eq!(fit("ééé", 6), "ééé");
    assert_eq!(fit("abc", 0), "");
    assert_eq!(fit("a€b", 3), "a");
    assert_eq!(pad("ab", 4), "ab  ");
    assert_eq!(pad("abcd", 2), "abcd");
    assert_eq!(pad("é", 3), format!("{:<3}", "é"));
}

#[test]
fn lists_join_copy_and_sort() {
    assert_eq!(join(&v(&["a", "b", "c"]), ", "), "a, b, c");
    assert_eq!(join(&[], ", "), "");
    assert_eq!(copy_all(&v(&["x", "y"])), v(&["x", "y"]));
    assert!(one_of(&v(&["x", "y"]), "y") && !one_of(&v(&["x"]), "y"));
    assert_eq!(sorted_unique(&v(&["b", "a", "b", "é", "Z", "ab"])), v(&["Z", "a", "ab", "b", "é"]));
    assert!(at_or_before("a", "ab") && !at_or_before("b", "ab") && at_or_before("a", "a"));
    let chars = chars_of("héllo");
    assert_eq!(chars.len(), 5);
    assert_eq!(string_of(&chars, 1, 3), "él");
}

#[test]
fn a_table_maps_each_key_to_its_last_value() {
    let mut t: Table<u32> = Table::new();
    assert_eq!((t.len(), t.get("a")), (0, None));
    t.insert("a", 1);
    t.insert("b", 2);
    t.insert("a", 3);
    assert_eq!((t.len(), t.get("a"), t.get("b")), (2, Some(&3), Some(&2)));
    assert_eq!(t.remove("a"), Some(3));
    assert_eq!(t.remove("a"), None);
    assert!(!t.contains("a") && t.contains("b"));
}
