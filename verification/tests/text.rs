use p2p_books::text::{chars_of, is_whitespace, parse_usize, same_text, split, starts_with, strip_prefix, trim};

#[test]
fn chars_of_gives_every_character() {
    assert_eq!(chars_of("a|é"), vec!['a', '|', 'é']);
    assert_eq!(chars_of(""), Vec::<char>::new());
}

#[test]
fn same_text_compares_whole_texts() {
    assert!(same_text("all", "all"));
    assert!(!same_text("all", "al"));
    assert!(!same_text("all", "alL"));
    assert!(same_text("", ""));
}

#[test]
fn strip_prefix_returns_what_follows() {
    assert_eq!(strip_prefix("list reviews all", "list reviews "), Some("all"));
    assert_eq!(strip_prefix("list reviews", "list reviews"), Some(""));
    assert_eq!(strip_prefix("list reviews", "list reviews "), None);
    assert_eq!(strip_prefix("List reviews", "list"), None);
    assert_eq!(strip_prefix("été chaud", "été"), Some(" chaud"));
}

#[test]
fn starts_with_agrees_with_std() {
    for (s, p) in [("create review", "create"), ("create", "create review"), ("", ""), ("x", "")] {
        assert_eq!(starts_with(s, p), s.starts_with(p));
    }
}

#[test]
fn white_space_is_what_std_calls_white_space() {
    let mut n: u32 = 0;
    while n <= 0x10FFFF {
        if let Some(c) = char::from_u32(n) {
            assert_eq!(is_whitespace(c), c.is_whitespace(), "U+{:04X}", n);
        }
        n += 1;
    }
}

#[test]
fn trim_removes_white_space_at_both_ends() {
    assert_eq!(trim("  7 \t"), "7");
    assert_eq!(trim("7"), "7");
    assert_eq!(trim(" a b "), "a b");
    assert_eq!(trim(" \n "), "");
    assert_eq!(trim(""), "");
    assert_eq!(trim("\u{3000}x\u{a0}"), "x");
}

#[test]
fn split_cuts_at_every_separator() {
    assert_eq!(split("T|G|A|R|Rv", '|'), vec!["T", "G", "A", "R", "Rv"]);
    assert_eq!(split("", '|'), vec![""]);
    assert_eq!(split("a", '|'), vec!["a"]);
    assert_eq!(split("a|", '|'), vec!["a", ""]);
    assert_eq!(split("|a", '|'), vec!["", "a"]);
    assert_eq!(split("a||b", '|'), vec!["a", "", "b"]);
}

#[test]
fn split_agrees_with_std() {
    for s in ["", "|", "||", "a|b|c", " a | b ", "é|ü", "no separator"] {
        assert_eq!(split(s, '|'), s.split('|').collect::<Vec<&str>>());
    }
}

#[test]
fn parse_usize_reads_decimal_numbers() {
    assert_eq!(parse_usize("0"), Some(0));
    assert_eq!(parse_usize("7"), Some(7));
    assert_eq!(parse_usize("007"), Some(7));
    assert_eq!(parse_usize("+42"), Some(42));
    assert_eq!(parse_usize("1234567890"), Some(1234567890));
}

#[test]
fn parse_usize_rejects_what_is_no_number() {
    assert_eq!(parse_usize(""), None);
    assert_eq!(parse_usize("+"), None);
    assert_eq!(parse_usize("-1"), None);
    assert_eq!(parse_usize("++1"), None);
    assert_eq!(parse_usize("1 "), None);
    assert_eq!(parse_usize("12a"), None);
    assert_eq!(parse_usize("one"), None);
    assert_eq!(parse_usize("١"), None);
}

#[test]
fn parse_usize_stops_at_the_largest_usize() {
    let largest = usize::MAX.to_string();
    assert_eq!(parse_usize(&largest), Some(usize::MAX));
    let mut beyond = largest.clone();
    beyond.push('0');
    assert_eq!(parse_usize(&beyond), None);
    let digits = largest.len();
    let mut next = String::from("1");
    for _ in 0..digits {
        next.push('0');
    }
    assert_eq!(parse_usize(&next), None);
    assert_eq!(parse_usize("18446744073709551616"), "18446744073709551616".parse::<usize>().ok());
}

#[test]
fn parse_usize_agrees_with_std() {
    for s in ["", "+", "-", "+0", "-0", "00", "9", "+9", " 9", "9 ", "1_000", "0x10", "99999999999999999999999"] {
        assert_eq!(parse_usize(s), s.parse::<usize>().ok(), "{:?}", s);
    }
}
