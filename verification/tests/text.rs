use reina_manager::text::chars::{
    control, same, same_bytes, same_bytes_ignoring_case, same_ignoring_case, to_upper, whitespace,
};
use reina_manager::text::concat::{cat7, join, join_first};
use reina_manager::text::number::{
    decimal3_text, decimal_text, parse_number, signed_decimal_text, wide_decimal_text, NumberError,
};
use reina_manager::text::order::{insert_ascending, is_before};
use reina_manager::text::scan::{
    ends_with, replace, split, split_once, split_words, starts_with, strip_prefix, strip_suffix,
    trim, trim_end,
};

#[test]
fn numbers_are_written_and_read() {
    assert_eq!(decimal_text(0), "0");
    assert_eq!(decimal_text(u64::MAX), "18446744073709551615");
    assert_eq!(wide_decimal_text(u128::MAX), format!("{}", u128::MAX));
    assert_eq!(signed_decimal_text(-7), "-7");
    assert_eq!(signed_decimal_text(i64::MIN), "-9223372036854775808");
    assert_eq!(decimal3_text(7), "007");
    assert_eq!(decimal3_text(42), "042");
    assert_eq!(decimal3_text(1234), "1234");
    for value in [0u64, 9, 10, 99, 1 << 40, u64::MAX] {
        assert_eq!(parse_number(&decimal_text(value)), Ok(value));
    }
    assert_eq!(parse_number("+5"), Ok(5));
    assert_eq!(parse_number(""), Err(NumberError::Empty));
    assert_eq!(parse_number("+"), Err(NumberError::InvalidDigit));
    assert_eq!(parse_number("-1"), Err(NumberError::InvalidDigit));
    assert_eq!(parse_number("18446744073709551616"), Err(NumberError::TooLarge));
    assert_eq!(parse_number("99999999999999999999x"), Err(NumberError::TooLarge));
    for text in ["", "x", "18446744073709551616"] {
        let expected = text.parse::<u64>().unwrap_err().to_string();
        assert_eq!(parse_number(text).unwrap_err().message(), expected);
    }
}

#[test]
fn character_classes_agree_with_unicode() {
    for code in 0..0x3100u32 {
        if let Some(ch) = char::from_u32(code) {
            assert_eq!(whitespace(ch), ch.is_whitespace(), "{code:#x}");
            assert_eq!(control(ch), ch.is_control(), "{code:#x}");
        }
    }
    assert_eq!(to_upper("abc é Z"), "ABC é Z");
    assert!(same("a", "a"));
    assert!(!same("a", "A"));
    assert!(same_ignoring_case("SaveData", "savedata"));
    assert!(!same_ignoring_case("é", "É"));
    assert!(same_bytes(&vec![1, 2], &vec![1, 2]));
    assert!(!same_bytes(&vec![1, 2], &vec![1]));
    assert!(same_bytes_ignoring_case(&b"Ab".to_vec(), &b"aB".to_vec()));
    assert!(!same_bytes_ignoring_case(&b"ab".to_vec(), &b"ac".to_vec()));
}

#[test]
fn trimming_and_stripping() {
    assert_eq!(trim(" \t a b \n"), "a b");
    assert_eq!(trim("   "), "");
    assert_eq!(trim_end(" a "), " a");
    assert_eq!(strip_prefix("bytes 1", "bytes "), Some("1"));
    assert_eq!(strip_prefix("byte", "bytes"), None);
    assert_eq!(strip_suffix("a.db", ".db"), Some("a"));
    assert_eq!(strip_suffix("a.db", ".7z"), None);
    assert!(starts_with("abc", ""));
    assert!(ends_with("游戏.exe", ".exe"));
}

#[test]
fn splitting_joining_and_replacing() {
    assert_eq!(split_once("a=b=c", '='), Some(("a", "b=c")));
    assert_eq!(split_once("abc", '='), None);
    assert_eq!(split("a//b/", '/'), vec!["a", "", "b", ""]);
    assert_eq!(split("", '/'), vec![""]);
    let parts = split("x/y/z", '/');
    assert_eq!(join(&parts, "/"), "x/y/z");
    assert_eq!(join_first(&parts, 2, "/"), "x/y");
    assert_eq!(join(&Vec::new(), "/"), "");
    assert_eq!(replace("a\\b\\c", '\\', "/"), "a/b/c");
    assert_eq!(replace("it's", '\'', "''"), "it''s");
    assert_eq!(split_words("  proton-autogen  --profile dx11 "), vec!["proton-autogen", "--profile", "dx11"]);
    assert!(split_words(" \t").is_empty());
    assert_eq!(cat7("a", "b", "c", "d", "e", "f", "g"), "abcdefg");
}

#[test]
fn texts_are_ordered_like_strings() {
    let samples = ["", "a", "ab", "b", "é", "日本", "\u{10000}", "\u{ffff}"];
    for left in samples {
        for right in samples {
            assert_eq!(is_before(left, right), left < right, "{left} {right}");
        }
    }
    let mut list = Vec::new();
    for text in ["b", "a", "c", "b", "a"] {
        insert_ascending(&mut list, text);
    }
    assert_eq!(list, vec!["a", "b", "c"]);
}
