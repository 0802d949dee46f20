use tube_timetable::order::{str_eq, str_lt};

#[test]
fn string_equality_by_characters() {
    assert!(str_eq("platform 1", "platform 1"));
    assert!(!str_eq("platform 1", "platform 2"));
    assert!(!str_eq("a", "ab"));
    assert!(str_eq("", ""));
}

#[test]
fn lexicographic_order_cases() {
    assert!(str_lt("a", "b"));
    assert!(!str_lt("b", "a"));
    assert!(!str_lt("a", "a"));
    // A proper prefix sorts first.
    assert!(str_lt("a", "ab"));
    assert!(!str_lt("ab", "a"));
    // Digit strings compare as text, not as numbers.
    assert!(str_lt("10", "2"));
    assert!(str_lt("", "0"));
}

#[test]
fn order_beyond_ascii() {
    assert!(str_lt("z", "\u{00e9}"));
    assert!(str_eq("caf\u{00e9}", "caf\u{00e9}"));
    assert!(!str_eq("caf\u{00e9}", "cafe"));
}
