use hello_relay::text::{contains_line_break, same_ignoring_ascii_case, to_ascii_lower, to_chars};

#[test]
fn to_chars_keeps_every_character() {
    assert_eq!(to_chars(""), Vec::<char>::new());
    assert_eq!(to_chars("/a"), vec!['/', 'a']);
    assert_eq!(to_chars("żó/ł"), vec!['ż', 'ó', '/', 'ł']);
}

#[test]
fn line_breaks_are_found_anywhere() {
    assert!(!contains_line_break(""));
    assert!(!contains_line_break("plain text"));
    assert!(contains_line_break("\r"));
    assert!(contains_line_break("\n"));
    assert!(contains_line_break("a\nb"));
    assert!(contains_line_break("ab\r"));
    assert!(contains_line_break("\r\nab"));
    assert!(!contains_line_break("a\tb"));
}

#[test]
fn ascii_capitals_are_lowered() {
    assert_eq!(to_ascii_lower('A'), 'a');
    assert_eq!(to_ascii_lower('Z'), 'z');
    assert_eq!(to_ascii_lower('M'), 'm');
}

#[test]
fn other_characters_stay() {
    assert_eq!(to_ascii_lower('a'), 'a');
    assert_eq!(to_ascii_lower('@'), '@');
    assert_eq!(to_ascii_lower('['), '[');
    assert_eq!(to_ascii_lower('-'), '-');
    assert_eq!(to_ascii_lower('Ż'), 'Ż');
    assert_eq!(to_ascii_lower('0'), '0');
}

#[test]
fn names_compare_without_ascii_case() {
    assert!(same_ignoring_ascii_case("Content-Type", "content-type"));
    assert!(same_ignoring_ascii_case("X-VERSION", "x-version"));
    assert!(same_ignoring_ascii_case("", ""));
    assert!(!same_ignoring_ascii_case("Content-Type", "Content-Typ"));
    assert!(!same_ignoring_ascii_case("X-Version", "X-Version-R2"));
    assert!(!same_ignoring_ascii_case("abc", "abd"));
    assert!(!same_ignoring_ascii_case("ż", "Ż"));
}
