use hqm_shootout::text::{decimal_text, joined, parse_u32, same_text, split_text};

#[test]
fn numbers_are_written_in_decimal() {
    for n in [0u32, 1, 9, 10, 11, 99, 100, 101, 1000, 4294967294, 4294967295] {
        assert_eq!(decimal_text(n), format!("{}", n));
        assert_eq!(parse_u32(decimal_text(n).as_str()), Some(n));
    }
}

#[test]
fn numbers_are_read_as_the_standard_library_reads_them() {
    let texts = [
        "", "+", "-", "0", "+0", "-0", "7", "007", "+42", "++1", "+-1", " 1", "1 ", "1_000", "0x10",
        "4294967295", "4294967296", "42949672950", "99999999999999999999", "000000000000000000001",
        "\u{0663}", "1.0", "1e3", "a", "12a",
    ];
    for text in texts {
        assert_eq!(parse_u32(text), text.parse::<u32>().ok(), "{:?}", text);
    }
    assert_eq!(parse_u32("+42"), Some(42));
    assert_eq!(parse_u32("4294967296"), None);
}

#[test]
fn texts_are_split_as_the_standard_library_splits_them() {
    let texts = ["", " ", "a", "a b", " a", "a ", "a  b", "  ", "round r 3", "\u{e9}t\u{e9} \u{1f3d2}"];
    for text in texts {
        assert_eq!(split_text(text, ' '), text.split(" ").collect::<Vec<&str>>(), "{:?}", text);
    }
    assert_eq!(split_text("redscore  4", ' '), vec!["redscore", "", "4"]);
}

#[test]
fn texts_are_compared_and_joined() {
    assert!(same_text("abc", "abc"));
    assert!(!same_text("abc", "abC"));
    assert!(!same_text("abc", "ab"));
    assert_eq!(joined("ab", "cd"), "abcd");
    assert_eq!(joined("", ""), "");
}
