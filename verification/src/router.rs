//! The router: routes in the order of their registration, and the choice of one for a request.

use vstd::prelude::*;
use crate::error::{ConfigError, RoutingError};
use crate::pattern::{
    captures, differ_first_at, lemma_more_specific_irreflexive, lemma_more_specific_same_shape,
    lemma_more_specific_total, lemma_more_specific_transitive, more_specific, param_views,
    parse_pattern, pattern_matches, same_kind, same_shape, segment_matches, Capture, Param,
    Pattern, SegmentView,
};
use crate::segments::{split, Segments};

verus! {

/// What a route is: a method, a pattern, and the handler bound to both.
pub struct RouteView<H> {
    pub method: Seq<char>,
    pub pattern: Seq<SegmentView>,
    pub handler: H,
}

/// What a successful dispatch yields: the handler, and the parameters taken from the path.
pub struct MatchedView<H> {
    pub handler: H,
    pub params: Seq<Capture>,
}

/// No two routes have both the same method and the same pattern.
pub open spec fn no_duplicates<H>(routes: Seq<RouteView<H>>) -> bool {
    forall|i: int, j: int|
        0 <= i < j < routes.len() ==> !((#[trigger] routes[i]).method == (#[trigger] routes[j]).method
            && routes[i].pattern == routes[j].pattern)
}

/// Whether some route is bound to this method and this pattern.
pub open spec fn is_registered<H>(
    routes: Seq<RouteView<H>>,
    method: Seq<char>,
    pattern: Seq<SegmentView>,
) -> bool {
    exists|i: int|
        0 <= i < routes.len() && (#[trigger] routes[i]).method == method && routes[i].pattern
            == pattern
}

/// Route `i` has a pattern that matches the path.
pub open spec fn route_matches<H>(routes: Seq<RouteView<H>>, path: Seq<Seq<char>>, i: int) -> bool {
    0 <= i < routes.len() && pattern_matches(routes[i].pattern, path)
}

/// Route `i` matches the path, and no route that matches is more specific.
pub open spec fn is_best<H>(routes: Seq<RouteView<H>>, path: Seq<Seq<char>>, i: int) -> bool {
    &&& route_matches(routes, path, i)
    &&& forall|j: int| #[trigger]
        route_matches(routes, path, j) ==> !more_specific(routes[j].pattern, routes[i].pattern)
}

/// Route `i` is the one that serves the request: the first, in the order of registration, among
/// the most specific matches that is bound to the method.
pub open spec fn is_selected<H>(
    routes: Seq<RouteView<H>>,
    method: Seq<char>,
    path: Seq<Seq<char>>,
    i: int,
) -> bool {
    &&& is_best(routes, path, i)
    &&& routes[i].method == method
    &&& forall|j: int| 0 <= j < i && #[trigger] is_best(routes, path, j) ==> routes[j].method != method
}

/// The outcome of dispatching a request.
///
/// Where no pattern matches the path, the path is not found. Else the most specific matches
/// decide: the first of them that is bound to the method serves the request, with the parameters
/// that its pattern takes from the path; where none of them is bound to it, the method is not
/// allowed.
pub open spec fn dispatch_result<H>(
    routes: Seq<RouteView<H>>,
    method: Seq<char>,
    path: Seq<char>,
) -> Result<MatchedView<H>, RoutingError> {
    let segments = split(path);
    if !exists|i: int| route_matches(routes, segments, i) {
        Err(RoutingError::NotFound)
    } else if !exists|i: int| is_selected(routes, method, segments, i) {
        Err(RoutingError::MethodNotAllowed)
    } else {
        let i = choose|i: int| is_selected(routes, method, segments, i);
        Ok(MatchedView { handler: routes[i].handler, params: captures(routes[i].pattern, segments) })
    }
}

/// At most one route is selected for a request.
pub proof fn lemma_selected_unique<H>(
    routes: Seq<RouteView<H>>,
    method: Seq<char>,
    path: Seq<Seq<char>>,
    i: int,
    j: int,
)
    requires
        is_selected(routes, method, path, i),
        is_selected(routes, method, path, j),
    ensures
        i == j,
{
}

/// A route that is selected decides the outcome.
pub proof fn lemma_selected_dispatch<H>(
    routes: Seq<RouteView<H>>,
    method: Seq<char>,
    path: Seq<char>,
    i: int,
)
    requires
        is_selected(routes, method, split(path), i),
    ensures
        dispatch_result(routes, method, path) == Ok::<MatchedView<H>, RoutingError>(
            MatchedView {
                handler: routes[i].handler,
                params: captures(routes[i].pattern, split(path)),
            },
        ),
{
    let segments = split(path);
    assert(route_matches(routes, segments, i));
    let c = choose|c: int| is_selected(routes, method, segments, c);
    lemma_selected_unique(routes, method, segments, i, c);
}

/// Literal routes come first: where a pattern without placeholders matches the path, it is a
/// most specific match, and every most specific match has this very pattern. A pattern with a
/// placeholder serves the path only where no literal pattern matches it.
pub proof fn lemma_literal_match_is_best<H>(routes: Seq<RouteView<H>>, path: Seq<Seq<char>>, i: int)
    requires
        route_matches(routes, path, i),
        forall|k: int| 0 <= k < routes[i].pattern.len() ==> #[trigger] routes[i].pattern[k] is Literal,
    ensures
        is_best(routes, path, i),
        forall|j: int| #[trigger]
            is_best(routes, path, j) ==> routes[j].pattern == routes[i].pattern,
{
    let literal = routes[i].pattern;
    assert forall|j: int| #[trigger] route_matches(routes, path, j) implies !more_specific(
        routes[j].pattern,
        literal,
    ) by {
        if more_specific(routes[j].pattern, literal) {
            let k = choose|k: int| differ_first_at(routes[j].pattern, literal, k);
            assert(literal[k] is Literal);
        }
    }
    assert forall|j: int| #[trigger] is_best(routes, path, j) implies routes[j].pattern
        == literal by {
        let other = routes[j].pattern;
        assert(route_matches(routes, path, i));
        lemma_more_specific_total(literal, other);
        assert(same_shape(literal, other));
        assert forall|k: int| 0 <= k < other.len() implies other[k] == literal[k] by {
            assert(same_kind(literal[k], other[k]));
            assert(segment_matches(other[k], path[k]));
            assert(segment_matches(literal[k], path[k]));
        }
        assert(other =~= literal);
    }
}

/// A stored route.
struct Route<H> {
    method: String,
    pattern: Pattern,
    handler: H,
}

impl<H> View for Route<H> {
    type V = RouteView<H>;

    closed spec fn view(&self) -> RouteView<H> {
        RouteView { method: self.method@, pattern: self.pattern@, handler: self.handler }
    }
}

/// The handler found for a request, and the parameters of its path.
pub struct Matched<H> {
    pub handler: H,
    pub params: Vec<Param>,
}

impl<H> View for Matched<H> {
    type V = MatchedView<H>;

    open spec fn view(&self) -> MatchedView<H> {
        MatchedView { handler: self.handler, params: param_views(self.params@) }
    }
}

/// The outcome of a dispatch in terms of views.
pub open spec fn outcome_view<H>(outcome: Result<Matched<H>, RoutingError>) -> Result<
    MatchedView<H>,
    RoutingError,
> {
    match outcome {
        Ok(matched) => Ok(matched@),
        Err(e) => Err(e),
    }
}

/// A table of routes.
pub struct Router<H> {
    routes: Vec<Route<H>>,
}

impl<H> View for Router<H> {
    type V = Seq<RouteView<H>>;

    closed spec fn view(&self) -> Seq<RouteView<H>> {
        self.routes@.map_values(|r: Route<H>| r@)
    }
}

impl<H: Copy> Router<H> {
    /// The table holds no route twice.
    pub open spec fn wf(&self) -> bool {
        no_duplicates(self@)
    }

    /// A router without routes.
    pub fn new() -> (router: Router<H>)
        ensures
            router@ == Seq::<RouteView<H>>::empty(),
            router.wf(),
    {
        let router = Router { routes: Vec::new() };
        assert(router@ =~= Seq::<RouteView<H>>::empty());
        router
    }

    /// The number of routes.
    pub fn len(&self) -> (n: usize)
        ensures
            n == self@.len(),
    {
        self.routes.len()
    }

    /// Binds `handler` to `method` and `pattern`, after the routes that are there. A second
    /// handler for the same method and the same pattern is refused, and the table stays as it
    /// was.
    pub fn register(&mut self, method: &str, pattern: &str, handler: H) -> (outcome: Result<
        (),
        ConfigError,
    >)
        requires
            old(self).wf(),
        ensures
            outcome is Err <==> is_registered(old(self)@, method@, parse_pattern(pattern@)),
            outcome matches Err(e) ==> e == ConfigError::DuplicateRoute && final(self)@ == old(self)@,
            outcome is Ok ==> final(self)@ == old(self)@.push(
                RouteView { method: method@, pattern: parse_pattern(pattern@), handler: handler },
            ),
            final(self).wf(),
    {
        let wanted = String::from_str(method);
        let parsed = Pattern::parse(pattern);
        let mut i: usize = 0;
        while i < self.routes.len()
            invariant
                i <= self.routes.len(),
                *self == *old(self),
                old(self).wf(),
                wanted@ == method@,
                parsed@ == parse_pattern(pattern@),
                forall|j: int|
                    0 <= j < i ==> !((#[trigger] self@[j]).method == wanted@ && self@[j].pattern
                        == parsed@),
            decreases self.routes.len() - i,
        {
            if self.routes[i].method == wanted && self.routes[i].pattern.same_as(&parsed) {
                assert(self@[i as int].method == wanted@ && self@[i as int].pattern == parsed@);
                return Err(ConfigError::DuplicateRoute);
            }
            i += 1;
        }
        self.routes.push(Route { method: wanted, pattern: parsed, handler });
        proof {
            assert(self@ =~= old(self)@.push(
                RouteView { method: method@, pattern: parse_pattern(pattern@), handler: handler },
            ));
        }
        Ok(())
    }

    /// Finds the handler for a request.
    pub fn dispatch(&self, method: &str, path: &str) -> (outcome: Result<Matched<H>, RoutingError>)
        ensures
            outcome_view(outcome) == dispatch_result(self@, method@, path@),
    {
        let segments = Segments::of(path);
        let wanted = String::from_str(method);
        let n = self.routes.len();
        // The most specific of the routes that match.
        let mut best: Option<usize> = None;
        let mut i: usize = 0;
        while i < n
            invariant
                i <= n,
                n == self@.len(),
                segments@ == split(path@),
                match best {
                    None => forall|j: int| 0 <= j < i ==> !route_matches(self@, segments@, j),
                    Some(b) => b < i && route_matches(self@, segments@, b as int) && forall|j: int|
                        0 <= j < i && #[trigger] route_matches(self@, segments@, j)
                            ==> !more_specific(self@[j].pattern, self@[b as int].pattern),
                },
            decreases n - i,
        {
            if self.routes[i].pattern.matches(&segments) {
                match best {
                    None => {
                        proof {
                            lemma_more_specific_irreflexive(self@[i as int].pattern);
                        }
                        best = Some(i);
                    },
                    Some(b) => {
                        if self.routes[i].pattern.is_more_specific_than(&self.routes[b].pattern) {
                            proof {
                                lemma_more_specific_irreflexive(self@[i as int].pattern);
                                assert forall|j: int|
                                    0 <= j < i && #[trigger] route_matches(
                                        self@,
                                        segments@,
                                        j,
                                    ) implies !more_specific(
                                    self@[j].pattern,
                                    self@[i as int].pattern,
                                ) by {
                                    if more_specific(self@[j].pattern, self@[i as int].pattern) {
                                        lemma_more_specific_transitive(
                                            self@[j].pattern,
                                            self@[i as int].pattern,
                                            self@[b as int].pattern,
                                        );
                                    }
                                }
                            }
                            best = Some(i);
                        }
                    },
                }
            }
            i += 1;
        }
        let b = match best {
            None => {
                return Err(RoutingError::NotFound);
            },
            Some(b) => b,
        };
        assert(is_best(self@, segments@, b as int));
        // The first of the routes as specific as `b` that is bound to the method.
        let mut i: usize = 0;
        while i < n
            invariant
                i <= n,
                b < n,
                n == self@.len(),
                segments@ == split(path@),
                wanted@ == method@,
                is_best(self@, segments@, b as int),
                forall|j: int|
                    0 <= j < i && #[trigger] is_best(self@, segments@, j) ==> self@[j].method
                        != method@,
            decreases n - i,
        {
            let route = &self.routes[i];
            assert(route@ == self@[i as int]);
            if route.method == wanted && !self.routes[b].pattern.is_more_specific_than(&route.pattern) {
                match route.pattern.capture(&segments) {
                    Some(params) => {
                        proof {
                            self.lemma_as_specific_is_best(segments@, b as int, i as int);
                            assert(is_selected(self@, method@, segments@, i as int));
                            lemma_selected_dispatch(self@, method@, path@, i as int);
                        }
                        return Ok(Matched { handler: route.handler, params });
                    },
                    None => {},
                }
            }
            proof {
                if is_best(self@, segments@, i as int) {
                    assert(route_matches(self@, segments@, b as int));
                }
            }
            i += 1;
        }
        proof {
            assert(route_matches(self@, segments@, b as int));
            assert forall|j: int| !is_selected(self@, method@, segments@, j) by {
                if is_selected(self@, method@, segments@, j) {
                    assert(is_best(self@, segments@, j));
                }
            }
        }
        Err(RoutingError::MethodNotAllowed)
    }

    /// A match that the best match is not more specific than is a best match too.
    proof fn lemma_as_specific_is_best(&self, path: Seq<Seq<char>>, b: int, i: int)
        requires
            is_best(self@, path, b),
            route_matches(self@, path, i),
            !more_specific(self@[b].pattern, self@[i].pattern),
        ensures
            is_best(self@, path, i),
    {
        let routes = self@;
        assert(!more_specific(routes[i].pattern, routes[b].pattern));
        lemma_more_specific_total(routes[i].pattern, routes[b].pattern);
        assert forall|j: int| #[trigger] route_matches(routes, path, j) implies !more_specific(
            routes[j].pattern,
            routes[i].pattern,
        ) by {
            if more_specific(routes[j].pattern, routes[i].pattern) {
                lemma_more_specific_same_shape(routes[j].pattern, routes[i].pattern, routes[b].pattern);
            }
        }
    }
}

} // verus!
