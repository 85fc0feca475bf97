//! The route table taken apart: what its patterns are, which paths each of them matches, and what
//! the router finds for every path.

use vstd::prelude::*;
use crate::error::RoutingError;
use crate::pattern::{
    captures, is_placeholder, lemma_literal_captures, lemma_more_specific_irreflexive,
    more_specific, parse_pattern, pattern_matches, segment_matches, SegmentView,
};
use crate::router::{
    dispatch_result, is_best, is_selected, lemma_selected_dispatch, route_matches, MatchedView,
};
use crate::segments::{
    join, lemma_join_split, lemma_split_join, lemma_split_no_slash, no_slash, split,
};
use crate::service::{route_table, Handler};

verus! {

/// The pattern of the greeting: three literal segments around the placeholder `name`.
pub open spec fn greeting_pattern() -> Seq<SegmentView> {
    seq![
        SegmentView::Literal(Seq::empty()),
        SegmentView::Literal("resource1"@),
        SegmentView::Param("name"@),
        SegmentView::Literal("index.html"@),
    ]
}

/// The pattern of the second resource.
pub open spec fn second_pattern() -> Seq<SegmentView> {
    seq![
        SegmentView::Literal(Seq::empty()),
        SegmentView::Literal("resource2"@),
        SegmentView::Literal("index.html"@),
    ]
}

/// The pattern of a path that is one slash and then `leaf`.
pub open spec fn leaf_pattern(leaf: Seq<char>) -> Seq<SegmentView> {
    seq![SegmentView::Literal(Seq::empty()), SegmentView::Literal(leaf)]
}

/// The patterns of the route table, segment by segment.
pub open spec fn table_patterns() -> Seq<Seq<SegmentView>> {
    seq![
        greeting_pattern(),
        leaf_pattern(Seq::empty()),
        second_pattern(),
        leaf_pattern("test1.html"@),
        leaf_pattern("catfacts"@),
        leaf_pattern("catfacts2"@),
    ]
}

/// The path of the greeting for `name`.
pub open spec fn greeting_path(name: Seq<char>) -> Seq<char> {
    "/resource1/"@ + name + "/index.html"@
}

/// A name that fills the placeholder of the greeting's path: one segment, and not an empty one.
pub open spec fn is_segment(name: Seq<char>) -> bool {
    name.len() > 0 && no_slash(name)
}

/// Whether `path` is one of the paths of route `i` of the route table: for the first route the
/// paths of the greeting, for each other route the one path that its pattern spells.
pub open spec fn is_path_of(path: Seq<char>, i: int) -> bool {
    if i == 0 {
        exists|name: Seq<char>| is_segment(name) && path == #[trigger] greeting_path(name)
    } else if i == 1 {
        path == "/"@
    } else if i == 2 {
        path == "/resource2/index.html"@
    } else if i == 3 {
        path == "/test1.html"@
    } else if i == 4 {
        path == "/catfacts"@
    } else {
        i == 5 && path == "/catfacts2"@
    }
}

/// The paths that the service has a route for.
pub open spec fn is_served(path: Seq<char>) -> bool {
    exists|i: int| 0 <= i < 6 && #[trigger] is_path_of(path, i)
}

/// The outcome of a dispatch that found `handler` and took no parameter from the path.
pub open spec fn found(handler: Handler) -> Result<MatchedView<Handler>, RoutingError> {
    Ok(MatchedView { handler: handler, params: Seq::empty() })
}

/// The pattern whose segments are all literal: these texts.
pub open spec fn literal_pattern(segments: Seq<Seq<char>>) -> Seq<SegmentView> {
    segments.map_values(|s: Seq<char>| SegmentView::Literal(s))
}

/// The segments that the literal patterns of the route table are made of.
pub open spec fn is_table_segment(segment: Seq<char>) -> bool {
    ||| segment == Seq::<char>::empty()
    ||| segment == "resource1"@
    ||| segment == "resource2"@
    ||| segment == "index.html"@
    ||| segment == "test1.html"@
    ||| segment == "catfacts"@
    ||| segment == "catfacts2"@
}

/// The join of two, three and four segments, written out.
proof fn lemma_join_few(a: Seq<char>, b: Seq<char>, c: Seq<char>, d: Seq<char>)
    ensures
        join(seq![a, b]) == a + seq!['/'] + b,
        join(seq![a, b, c]) == a + seq!['/'] + b + seq!['/'] + c,
        join(seq![a, b, c, d]) == a + seq!['/'] + b + seq!['/'] + c + seq!['/'] + d,
{
    reveal_with_fuel(join, 5);
    assert(seq![a, b].drop_last() =~= seq![a]);
    assert(seq![a, b, c].drop_last() =~= seq![a, b]);
    assert(seq![a, b, c, d].drop_last() =~= seq![a, b, c]);
}

/// The literal segments of the route table hold no slash and are no placeholders.
proof fn lemma_table_segments()
    ensures
        forall|segment: Seq<char>| #[trigger]
            is_table_segment(segment) ==> no_slash(segment) && !is_placeholder(segment),
        no_slash("{name}"@),
{
    reveal_strlit("resource1");
    reveal_strlit("resource2");
    reveal_strlit("index.html");
    reveal_strlit("test1.html");
    reveal_strlit("catfacts");
    reveal_strlit("catfacts2");
    reveal_strlit("{name}");
}

/// The texts of the route table are the joins of their segments.
proof fn lemma_table_texts()
    ensures
        "/"@ == join(seq![Seq::<char>::empty(), Seq::<char>::empty()]),
        "/test1.html"@ == join(seq![Seq::<char>::empty(), "test1.html"@]),
        "/catfacts"@ == join(seq![Seq::<char>::empty(), "catfacts"@]),
        "/catfacts2"@ == join(seq![Seq::<char>::empty(), "catfacts2"@]),
        "/resource2/index.html"@ == join(seq![Seq::<char>::empty(), "resource2"@, "index.html"@]),
        "/resource1/{name}/index.html"@ == greeting_path("{name}"@),
        forall|name: Seq<char>| #[trigger]
            greeting_path(name) == join(
                seq![Seq::<char>::empty(), "resource1"@, name, "index.html"@],
            ),
{
    let empty = Seq::<char>::empty();
    reveal_strlit("/");
    reveal_strlit("/test1.html");
    reveal_strlit("test1.html");
    reveal_strlit("/catfacts");
    reveal_strlit("catfacts");
    reveal_strlit("/catfacts2");
    reveal_strlit("catfacts2");
    reveal_strlit("/resource2/index.html");
    reveal_strlit("resource2");
    reveal_strlit("index.html");
    reveal_strlit("/resource1/");
    reveal_strlit("resource1");
    reveal_strlit("/index.html");
    reveal_strlit("/resource1/{name}/index.html");
    reveal_strlit("{name}");
    lemma_join_few(empty, empty, empty, empty);
    lemma_join_few(empty, "test1.html"@, empty, empty);
    lemma_join_few(empty, "catfacts"@, empty, empty);
    lemma_join_few(empty, "catfacts2"@, empty, empty);
    lemma_join_few(empty, "resource2"@, "index.html"@, empty);
    assert("/"@ =~= empty + seq!['/'] + empty);
    assert("/test1.html"@ =~= empty + seq!['/'] + "test1.html"@);
    assert("/catfacts"@ =~= empty + seq!['/'] + "catfacts"@);
    assert("/catfacts2"@ =~= empty + seq!['/'] + "catfacts2"@);
    assert("/resource2/index.html"@ =~= empty + seq!['/'] + "resource2"@ + seq!['/']
        + "index.html"@);
    assert("/resource1/{name}/index.html"@ =~= greeting_path("{name}"@));
    assert forall|name: Seq<char>| #[trigger]
        greeting_path(name) == join(seq![empty, "resource1"@, name, "index.html"@]) by {
        lemma_join_few(empty, "resource1"@, name, "index.html"@);
        assert(greeting_path(name) =~= empty + seq!['/'] + "resource1"@ + seq!['/'] + name
            + seq!['/'] + "index.html"@);
    }
}

/// The segments of a path of the greeting.
proof fn lemma_split_greeting_path(name: Seq<char>)
    requires
        no_slash(name),
    ensures
        split(greeting_path(name)) == seq![Seq::<char>::empty(), "resource1"@, name, "index.html"@],
{
    lemma_table_texts();
    lemma_table_segments();
    let segments = seq![Seq::<char>::empty(), "resource1"@, name, "index.html"@];
    assert(is_table_segment(segments[0]) && is_table_segment(segments[1]) && is_table_segment(
        segments[3],
    ));
    lemma_split_join(segments);
}

/// Segments of the route table, written with slashes between them, parse to the literal pattern
/// of these segments.
proof fn lemma_parse_literals(segments: Seq<Seq<char>>)
    requires
        segments.len() >= 1,
        forall|k: int| 0 <= k < segments.len() ==> is_table_segment(#[trigger] segments[k]),
    ensures
        split(join(segments)) == segments,
        parse_pattern(join(segments)) == literal_pattern(segments),
{
    lemma_table_segments();
    lemma_split_join(segments);
    assert(parse_pattern(join(segments)) =~= literal_pattern(segments));
}

/// What the patterns of the route table are, segment by segment.
pub proof fn lemma_table_patterns()
    ensures
        route_table().len() == 6,
        forall|i: int| 0 <= i < 6 ==> (#[trigger] route_table()[i]).pattern == table_patterns()[i],
        forall|i: int| 0 <= i < 6 ==> (#[trigger] route_table()[i]).method == "GET"@,
{
    let empty = Seq::<char>::empty();
    lemma_table_texts();
    assert(parse_pattern("/resource1/{name}/index.html"@) == greeting_pattern()) by {
        reveal_strlit("{name}");
        reveal_strlit("name");
        lemma_table_segments();
        lemma_split_greeting_path("{name}"@);
        assert("{name}"@.subrange(1, 5) =~= "name"@);
        assert(is_table_segment(empty) && is_table_segment("resource1"@) && is_table_segment(
            "index.html"@,
        ));
        assert(parse_pattern("/resource1/{name}/index.html"@) =~= greeting_pattern());
    }
    assert(parse_pattern("/"@) == leaf_pattern(empty)) by {
        lemma_parse_literals(seq![empty, empty]);
        assert(literal_pattern(seq![empty, empty]) =~= leaf_pattern(empty));
    }
    assert(parse_pattern("/resource2/index.html"@) == second_pattern()) by {
        lemma_parse_literals(seq![empty, "resource2"@, "index.html"@]);
        assert(literal_pattern(seq![empty, "resource2"@, "index.html"@]) =~= second_pattern());
    }
    assert(parse_pattern("/test1.html"@) == leaf_pattern("test1.html"@)) by {
        lemma_parse_literals(seq![empty, "test1.html"@]);
        assert(literal_pattern(seq![empty, "test1.html"@]) =~= leaf_pattern("test1.html"@));
    }
    assert(parse_pattern("/catfacts"@) == leaf_pattern("catfacts"@)) by {
        lemma_parse_literals(seq![empty, "catfacts"@]);
        assert(literal_pattern(seq![empty, "catfacts"@]) =~= leaf_pattern("catfacts"@));
    }
    assert(parse_pattern("/catfacts2"@) == leaf_pattern("catfacts2"@)) by {
        lemma_parse_literals(seq![empty, "catfacts2"@]);
        assert(literal_pattern(seq![empty, "catfacts2"@]) =~= leaf_pattern("catfacts2"@));
    }
}

/// No two patterns of the route table are the same.
pub proof fn lemma_table_patterns_differ()
    ensures
        forall|i: int, j: int|
            0 <= i < j < 6 ==> (#[trigger] table_patterns()[i]) != (#[trigger] table_patterns()[j]),
{
    reveal_strlit("test1.html");
    reveal_strlit("catfacts");
    reveal_strlit("catfacts2");
    let t = table_patterns();
    assert(t[0].len() == 4 && t[2].len() == 3);
    assert(t[1].len() == 2 && t[3].len() == 2 && t[4].len() == 2 && t[5].len() == 2);
    assert(t[1][1] == SegmentView::Literal(Seq::empty()));
    assert(t[3][1] == SegmentView::Literal("test1.html"@));
    assert(t[4][1] == SegmentView::Literal("catfacts"@));
    assert(t[5][1] == SegmentView::Literal("catfacts2"@));
    assert(Seq::<char>::empty().len() == 0);
    assert("test1.html"@.len() == 10);
    assert("catfacts"@.len() == 8);
    assert("catfacts2"@.len() == 9);
    assert forall|i: int, j: int| 0 <= i < j < 6 implies (#[trigger] t[i]) != (#[trigger] t[j]) by {
        if t[i].len() == t[j].len() {
            assert(t[i][1] != t[j][1]);
        }
    }
}

/// A pattern of literal segments matches the path that these segments join to, and no other.
proof fn lemma_literals_match(segments: Seq<Seq<char>>, path: Seq<char>)
    requires
        segments.len() >= 1,
        forall|k: int| 0 <= k < segments.len() ==> is_table_segment(#[trigger] segments[k]),
    ensures
        pattern_matches(literal_pattern(segments), split(path)) <==> path == join(segments),
{
    let pattern = literal_pattern(segments);
    if pattern_matches(pattern, split(path)) {
        assert forall|k: int| 0 <= k < segments.len() implies segments[k] == split(path)[k] by {
            assert(segment_matches(pattern[k], split(path)[k]));
        }
        assert(split(path) =~= segments);
        lemma_join_split(path);
    }
    if path == join(segments) {
        lemma_parse_literals(segments);
    }
}

/// The greeting's pattern matches the paths of the greeting, and no other.
proof fn lemma_greeting_matches(path: Seq<char>)
    ensures
        pattern_matches(greeting_pattern(), split(path)) <==> is_path_of(path, 0),
{
    lemma_table_texts();
    let pattern = greeting_pattern();
    let segments = split(path);
    if pattern_matches(pattern, segments) {
        let name = segments[2];
        assert(segment_matches(pattern[0], segments[0]));
        assert(segment_matches(pattern[1], segments[1]));
        assert(segment_matches(pattern[2], segments[2]));
        assert(segment_matches(pattern[3], segments[3]));
        assert(segments =~= seq![Seq::<char>::empty(), "resource1"@, name, "index.html"@]);
        lemma_join_split(path);
        lemma_split_no_slash(path);
        assert(is_segment(name) && path == greeting_path(name));
    }
    if is_path_of(path, 0) {
        let name = choose|name: Seq<char>| is_segment(name) && path == #[trigger] greeting_path(name);
        lemma_split_greeting_path(name);
    }
}

/// Which route matches which path: the greeting's route matches the paths of the greeting, each
/// other route the one path that its pattern spells, and no route anything else.
pub proof fn lemma_route_matches(path: Seq<char>, i: int)
    requires
        0 <= i < 6,
    ensures
        route_matches(route_table(), split(path), i) <==> is_path_of(path, i),
{
    lemma_table_patterns();
    lemma_table_texts();
    let pattern = route_table()[i].pattern;
    assert(pattern == table_patterns()[i]);
    let empty = Seq::<char>::empty();
    if i == 0 {
        lemma_greeting_matches(path);
    } else if i == 2 {
        let segments = seq![empty, "resource2"@, "index.html"@];
        lemma_literals_match(segments, path);
        assert(literal_pattern(segments) =~= pattern);
    } else {
        let leaf = if i == 1 {
            empty
        } else if i == 3 {
            "test1.html"@
        } else if i == 4 {
            "catfacts"@
        } else {
            "catfacts2"@
        };
        let segments = seq![empty, leaf];
        lemma_literals_match(segments, path);
        assert(literal_pattern(segments) =~= pattern);
    }
}

/// No path has two routes: a route that matches is the only one that does.
pub proof fn lemma_single_match(path: Seq<char>, i: int, j: int)
    requires
        route_matches(route_table(), split(path), i),
        route_matches(route_table(), split(path), j),
    ensures
        i == j,
{
    lemma_table_patterns();
    lemma_table_patterns_differ();
    let segments = split(path);
    let a = table_patterns()[i];
    let b = table_patterns()[j];
    assert(pattern_matches(a, segments) && pattern_matches(b, segments));
    if i != j {
        assert(a.len() == 2 && b.len() == 2);
        assert(segment_matches(a[0], segments[0]) && segment_matches(b[0], segments[0]));
        assert(segment_matches(a[1], segments[1]) && segment_matches(b[1], segments[1]));
        assert(a =~= b);
    }
}

/// What the router finds for a path of route `i`: under GET that route's handler, with the
/// parameters that its pattern takes from the path; under any other method nothing that is
/// allowed.
pub proof fn lemma_dispatch_served(method: Seq<char>, path: Seq<char>, i: int)
    requires
        0 <= i < 6,
        is_path_of(path, i),
    ensures
        method == "GET"@ ==> dispatch_result(route_table(), method, path) == Ok::<
            MatchedView<Handler>,
            RoutingError,
        >(
            MatchedView {
                handler: route_table()[i].handler,
                params: captures(table_patterns()[i], split(path)),
            },
        ),
        method != "GET"@ ==> dispatch_result(route_table(), method, path) == Err::<
            MatchedView<Handler>,
            RoutingError,
        >(RoutingError::MethodNotAllowed),
{
    let routes = route_table();
    let segments = split(path);
    lemma_table_patterns();
    lemma_route_matches(path, i);
    assert(route_matches(routes, segments, i));
    assert forall|j: int| #[trigger] route_matches(routes, segments, j) implies !more_specific(
        routes[j].pattern,
        routes[i].pattern,
    ) by {
        lemma_single_match(path, i, j);
        lemma_more_specific_irreflexive(routes[i].pattern);
    }
    assert(is_best(routes, segments, i));
    assert forall|j: int| is_best(routes, segments, j) implies j == i by {
        lemma_single_match(path, i, j);
    }
    if method == "GET"@ {
        assert(is_selected(routes, method, segments, i));
        lemma_selected_dispatch(routes, method, path, i);
    } else {
        assert forall|j: int| !is_selected(routes, method, segments, j) by {
            if is_selected(routes, method, segments, j) {
                assert(is_best(routes, segments, j));
            }
        }
    }
}

/// A path without a route is not found, whatever the method.
pub proof fn lemma_dispatch_unserved(method: Seq<char>, path: Seq<char>)
    requires
        !is_served(path),
    ensures
        dispatch_result(route_table(), method, path) == Err::<
            MatchedView<Handler>,
            RoutingError,
        >(RoutingError::NotFound),
{
    lemma_table_patterns();
    assert forall|i: int| !route_matches(route_table(), split(path), i) by {
        if 0 <= i < 6 {
            lemma_route_matches(path, i);
            assert(!is_path_of(path, i));
        }
    }
}

/// The greeting's pattern takes one parameter from a path of four segments: `name`, the third.
proof fn lemma_greeting_captures(segments: Seq<Seq<char>>)
    requires
        segments.len() == 4,
    ensures
        captures(greeting_pattern(), segments) == seq![("name"@, segments[2])],
{
    let p = greeting_pattern();
    let p3 = p.drop_last();
    let p2 = p3.drop_last();
    let s3 = segments.drop_last();
    let s2 = s3.drop_last();
    lemma_literal_captures(p2, s2);
    assert(captures(p3, s3) =~= seq![("name"@, segments[2])]);
    assert(captures(p, segments) =~= seq![("name"@, segments[2])]);
}

/// What the router finds for a GET of the greeting's path: the greeting's handler, and the name
/// that stands in the path.
pub proof fn lemma_dispatch_greeting(name: Seq<char>)
    requires
        is_segment(name),
    ensures
        dispatch_result(route_table(), "GET"@, greeting_path(name)) == Ok::<
            MatchedView<Handler>,
            RoutingError,
        >(MatchedView { handler: Handler::Index, params: seq![("name"@, name)] }),
{
    let path = greeting_path(name);
    assert(is_path_of(path, 0));
    lemma_dispatch_served("GET"@, path, 0);
    lemma_split_greeting_path(name);
    lemma_greeting_captures(split(path));
}

/// What the router finds for a GET of each path that the route table spells out: the handler
/// bound to it, and no parameter.
pub proof fn lemma_dispatch_pages()
    ensures
        dispatch_result(route_table(), "GET"@, "/"@) == found(Handler::NoParams),
        dispatch_result(route_table(), "GET"@, "/resource2/index.html"@) == found(
            Handler::IndexAsync,
        ),
        dispatch_result(route_table(), "GET"@, "/test1.html"@) == found(Handler::Test1),
        dispatch_result(route_table(), "GET"@, "/catfacts"@) == found(Handler::CatFacts),
        dispatch_result(route_table(), "GET"@, "/catfacts2"@) == found(Handler::CatFacts2),
{
    lemma_dispatch_served("GET"@, "/"@, 1);
    lemma_dispatch_served("GET"@, "/resource2/index.html"@, 2);
    lemma_dispatch_served("GET"@, "/test1.html"@, 3);
    lemma_dispatch_served("GET"@, "/catfacts"@, 4);
    lemma_dispatch_served("GET"@, "/catfacts2"@, 5);
    lemma_literal_captures(table_patterns()[1], split("/"@));
    lemma_literal_captures(table_patterns()[2], split("/resource2/index.html"@));
    lemma_literal_captures(table_patterns()[3], split("/test1.html"@));
    lemma_literal_captures(table_patterns()[4], split("/catfacts"@));
    lemma_literal_captures(table_patterns()[5], split("/catfacts2"@));
}

} // verus!
