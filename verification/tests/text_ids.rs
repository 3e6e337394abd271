use todo_core::ids::{format_id, parse_id};
use todo_core::text::trim;

#[test]
fn trim_removes_leading_and_trailing_whitespace() {
    assert_eq!(trim("  a b  ").as_str(), "a b");
    assert_eq!(trim("hello").as_str(), "hello");
    assert_eq!(trim("\t\r\n x \u{b}\u{c}").as_str(), "x");
    assert_eq!(trim("").as_str(), "");
    assert_eq!(trim("   ").as_str(), "");
}

#[test]
fn trim_handles_non_ascii_whitespace() {
    assert_eq!(trim("\u{a0}x\u{3000}").as_str(), "x");
    assert_eq!(trim("\u{2003}\u{2028}milk\u{85}").as_str(), "milk");
    assert_eq!(trim("\u{a0}\u{2000}\u{205f}").as_str(), "");
}

#[test]
fn trim_agrees_with_str_trim() {
    for s in ["  a b  ", "x", "", " \t ", "\u{a0} déjà vu \u{2029}", "a  ", "  a"] {
        assert_eq!(trim(s).as_str(), s.trim());
    }
}

#[test]
fn format_id_writes_decimal() {
    assert_eq!(format_id(0).as_str(), "0");
    assert_eq!(format_id(7).as_str(), "7");
    assert_eq!(format_id(10).as_str(), "10");
    assert_eq!(format_id(1234567890).as_str(), "1234567890");
    assert_eq!(format_id(usize::MAX).as_str(), usize::MAX.to_string().as_str());
}

#[test]
fn parse_id_reads_digit_strings() {
    assert_eq!(parse_id("0"), Some(0));
    assert_eq!(parse_id("42"), Some(42));
    assert_eq!(parse_id("007"), Some(7));
    assert_eq!(parse_id(&usize::MAX.to_string()), Some(usize::MAX));
}

#[test]
fn parse_id_rejects_everything_else() {
    assert_eq!(parse_id(""), None);
    assert_eq!(parse_id("4x2"), None);
    assert_eq!(parse_id("-1"), None);
    assert_eq!(parse_id(" 42"), None);
    assert_eq!(parse_id("abc"), None);
    assert_eq!(parse_id("18446744073709551616"), None);
}

#[test]
fn ids_round_trip_through_the_attribute() {
    for n in [0usize, 1, 9, 10, 99, 100, 4096, usize::MAX] {
        assert_eq!(parse_id(format_id(n).as_str()), Some(n));
    }
}
