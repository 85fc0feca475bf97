use hello_relay::pattern::{find_param, Param, Pattern, Segment};
use hello_relay::segments::Segments;

fn param(name: &str, value: &str) -> Param {
    Param { name: name.to_string(), value: value.to_string() }
}

#[test]
fn a_literal_pattern_matches_its_own_path_only() {
    let pattern = Pattern::parse("/test1.html");
    assert_eq!(pattern.len(), 2);
    assert!(pattern.matches(&Segments::of("/test1.html")));
    assert!(!pattern.matches(&Segments::of("/test1.htm")));
    assert!(!pattern.matches(&Segments::of("/test1.html/")));
    assert!(!pattern.matches(&Segments::of("test1.html")));
    assert!(!pattern.matches(&Segments::of("/TEST1.html")));
    assert!(!pattern.matches(&Segments::of("/")));
}

#[test]
fn the_root_pattern_matches_the_root() {
    let pattern = Pattern::parse("/");
    assert!(pattern.matches(&Segments::of("/")));
    assert!(!pattern.matches(&Segments::of("")));
    assert!(!pattern.matches(&Segments::of("//")));
    assert!(!pattern.matches(&Segments::of("/a")));
}

#[test]
fn a_placeholder_takes_exactly_one_segment() {
    let pattern = Pattern::parse("/resource1/{name}/index.html");
    assert_eq!(pattern.len(), 4);
    assert!(pattern.matches(&Segments::of("/resource1/Ferris/index.html")));
    assert!(pattern.matches(&Segments::of("/resource1/{name}/index.html")));
    assert!(!pattern.matches(&Segments::of("/resource1/a/b/index.html")));
    assert!(!pattern.matches(&Segments::of("/resource1/index.html")));
    assert!(!pattern.matches(&Segments::of("/resource2/Ferris/index.html")));
}

#[test]
fn a_placeholder_takes_no_empty_segment() {
    let pattern = Pattern::parse("/resource1/{name}/index.html");
    assert!(!pattern.matches(&Segments::of("/resource1//index.html")));
}

#[test]
fn captures_come_in_the_order_of_the_placeholders() {
    let pattern = Pattern::parse("/{a}/x/{b}");
    assert_eq!(
        pattern.capture(&Segments::of("/1/x/2")),
        Some(vec![param("a", "1"), param("b", "2")])
    );
    assert_eq!(pattern.capture(&Segments::of("/1/y/2")), None);
    assert_eq!(pattern.capture(&Segments::of("/1/x")), None);
}

#[test]
fn a_literal_pattern_captures_nothing() {
    let pattern = Pattern::parse("/catfacts");
    assert_eq!(pattern.capture(&Segments::of("/catfacts")), Some(Vec::new()));
    assert_eq!(pattern.capture(&Segments::of("/catfacts2")), None);
}

#[test]
fn the_captured_value_is_the_segment_as_it_stands() {
    let pattern = Pattern::parse("/resource1/{name}/index.html");
    assert_eq!(
        pattern.capture(&Segments::of("/resource1/żółw %20/index.html")),
        Some(vec![param("name", "żółw %20")])
    );
}

#[test]
fn braces_without_a_name_are_literal() {
    let pattern = Pattern::parse("/{}/{");
    assert!(pattern.matches(&Segments::of("/{}/{")));
    assert!(!pattern.matches(&Segments::of("/a/b")));
    assert_eq!(pattern.capture(&Segments::of("/{}/{")), Some(Vec::new()));
    let half = Pattern::parse("/{name");
    assert!(half.matches(&Segments::of("/{name")));
    assert!(!half.matches(&Segments::of("/x")));
}

#[test]
fn the_literal_is_more_specific_at_the_first_difference() {
    let literal = Pattern::parse("/a/b");
    let first = Pattern::parse("/{x}/b");
    let second = Pattern::parse("/a/{y}");
    let both = Pattern::parse("/{x}/{y}");
    assert!(literal.is_more_specific_than(&first));
    assert!(literal.is_more_specific_than(&second));
    assert!(literal.is_more_specific_than(&both));
    assert!(second.is_more_specific_than(&first));
    assert!(second.is_more_specific_than(&both));
    assert!(first.is_more_specific_than(&both));
    assert!(!first.is_more_specific_than(&second));
    assert!(!both.is_more_specific_than(&literal));
    assert!(!first.is_more_specific_than(&literal));
}

#[test]
fn no_pattern_is_more_specific_than_one_of_its_shape() {
    let a = Pattern::parse("/a/{x}");
    let b = Pattern::parse("/b/{y}");
    assert!(!a.is_more_specific_than(&a));
    assert!(!a.is_more_specific_than(&b));
    assert!(!b.is_more_specific_than(&a));
}

#[test]
fn patterns_are_the_same_segment_for_segment() {
    let a = Pattern::parse("/a/{x}");
    assert!(a.same_as(&Pattern::parse("/a/{x}")));
    assert!(!a.same_as(&Pattern::parse("/a/{y}")));
    assert!(!a.same_as(&Pattern::parse("/a/x")));
    assert!(!a.same_as(&Pattern::parse("/a/{x}/")));
    assert!(!a.same_as(&Pattern::parse("/b/{x}")));
}

#[test]
fn segments_tell_their_kind() {
    let literal = Segment::Literal(vec!['a']);
    let named = Segment::Param("a".to_string());
    assert!(!literal.is_param());
    assert!(named.is_param());
    assert!(literal.same_as(&Segment::Literal(vec!['a'])));
    assert!(!literal.same_as(&Segment::Literal(vec!['b'])));
    assert!(!literal.same_as(&named));
    assert!(!named.same_as(&literal));
    assert!(named.same_as(&Segment::Param("a".to_string())));
    assert!(!named.same_as(&Segment::Param("b".to_string())));
}

#[test]
fn the_first_parameter_of_a_name_is_found() {
    let params = vec![param("a", "1"), param("b", "2"), param("a", "3")];
    assert_eq!(find_param(&params, "a"), Some("1"));
    assert_eq!(find_param(&params, "b"), Some("2"));
    assert_eq!(find_param(&params, "c"), None);
    assert_eq!(find_param(&params, "A"), None);
    assert_eq!(find_param(&Vec::new(), "a"), None);
}
