use wolfcode_lessons::text::{
    comes_before, decimal_text, ends_with, is_white_space, join, parse_u32, same_text,
    signed_decimal_text, split_lines, split_whitespace, strip_prefix, strip_suffix, take_chars,
    text_enclosed, trim, trim_end_matches,
};

const SAMPLES: [&str; 12] = [
    "",
    " ",
    "a",
    "abc",
    " abc\t",
    "a b  c",
    "one\ntwo\r\nthree",
    "tail\n",
    "\n\n",
    "x\r",
    "\u{3000}wide\u{85}",
    "héllo ✓ 任务",
];

#[test]
fn white_space_is_that_of_unicode() {
    for code in 0..=0x10ffffu32 {
        if let Some(c) = char::from_u32(code) {
            assert_eq!(is_white_space(c), c.is_whitespace(), "{:x}", code);
        }
    }
}

#[test]
fn lines_words_and_trimming_agree_with_std() {
    for s in SAMPLES {
        assert_eq!(split_lines(s), s.lines().map(|l| l.to_string()).collect::<Vec<_>>());
        assert_eq!(
            split_whitespace(s),
            s.split_whitespace().map(|w| w.to_string()).collect::<Vec<_>>()
        );
        assert_eq!(trim(s), s.trim());
    }
}

#[test]
fn affixes_agree_with_std() {
    for s in SAMPLES {
        for t in ["a", "c", "abc", " ", "\n", "✓", "two", "zz"] {
            assert_eq!(ends_with(s, t), s.ends_with(t));
            assert_eq!(strip_suffix(s, t), s.strip_suffix(t).map(|x| x.to_string()));
            assert_eq!(strip_prefix(s, t), s.strip_prefix(t).map(|x| x.to_string()));
            assert_eq!(trim_end_matches(s, t), s.trim_end_matches(t));
            assert_eq!(same_text(s, t), s == t);
        }
    }
    assert_eq!(trim_end_matches("x.py.py", ".py"), "x");
}

#[test]
fn order_of_texts_is_that_of_strings() {
    for a in SAMPLES {
        for b in SAMPLES {
            assert_eq!(comes_before(a, b), a.to_string() < b.to_string());
        }
    }
    assert!(comes_before("\u{ffff}", "\u{10000}"));
}

#[test]
fn numbers_are_read_as_by_parse() {
    for s in ["", "+", "0", "7", "+7", "-7", "007", "4294967295", "4294967296", "99999999999999999999", "1a", "１"] {
        assert_eq!(parse_u32(s), s.parse::<u32>().ok(), "{}", s);
    }
}

#[test]
fn numbers_are_written_as_by_display() {
    for n in [0u128, 9, 10, 99, 100, 1234567890, u64::MAX as u128, u128::MAX] {
        assert_eq!(decimal_text(n), n.to_string());
    }
    for n in [0i32, 1, -1, 127, i32::MIN, i32::MAX] {
        assert_eq!(signed_decimal_text(n), n.to_string());
    }
}

#[test]
fn a_written_number_is_read_back() {
    for n in [0u32, 1, 10, 4294967295] {
        assert_eq!(parse_u32(&decimal_text(n as u128)), Some(n));
    }
}

#[test]
fn first_characters_and_joining() {
    assert_eq!(take_chars("任务说明", 2), "任务");
    assert_eq!(take_chars("ab", 8), "ab");
    assert_eq!(join(&vec!["a".to_string(), "b".to_string()], ", "), "a, b");
    assert_eq!(join(&Vec::new(), ", "), "");
}

#[test]
fn enclosed_text_ends_at_the_next_mark() {
    assert_eq!(text_enclosed("k=[a]b]", "=[", ']'), Some("a".to_string()));
    assert_eq!(text_enclosed("k=[ab", "=[", ']'), None);
    assert_eq!(text_enclosed("ab]", "=[", ']'), None);
}
