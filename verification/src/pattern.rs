//! Path patterns: literal segments and named placeholders.

use vstd::prelude::*;
use crate::segments::{split, Segments};

verus! {

/// One segment of a pattern.
pub enum SegmentView {
    /// Matches the segment that is this text.
    Literal(Seq<char>),
    /// A placeholder: matches any segment that is not empty, and gives it this name.
    Param(Seq<char>),
}

/// A named path parameter, as a pair of texts: name, then value.
pub type Capture = (Seq<char>, Seq<char>);

/// A pattern segment is a placeholder when it is a name in braces: `{name}`.
pub open spec fn is_placeholder(segment: Seq<char>) -> bool {
    segment.len() >= 3 && segment.first() == '{' && segment.last() == '}'
}

/// What one segment of a pattern's text stands for.
pub open spec fn classify(segment: Seq<char>) -> SegmentView {
    if is_placeholder(segment) {
        SegmentView::Param(segment.subrange(1, segment.len() - 1))
    } else {
        SegmentView::Literal(segment)
    }
}

/// The pattern that `text` writes down: its segments, each classified.
pub open spec fn parse_pattern(text: Seq<char>) -> Seq<SegmentView> {
    split(text).map_values(|segment: Seq<char>| classify(segment))
}

/// Whether one pattern segment accepts one path segment.
pub open spec fn segment_matches(pattern: SegmentView, segment: Seq<char>) -> bool {
    match pattern {
        SegmentView::Literal(text) => text == segment,
        SegmentView::Param(_) => segment.len() > 0,
    }
}

/// A pattern matches a path when both have the same number of segments and each segment of the
/// pattern accepts the path's segment at the same place.
pub open spec fn pattern_matches(pattern: Seq<SegmentView>, path: Seq<Seq<char>>) -> bool {
    &&& pattern.len() == path.len()
    &&& forall|k: int| 0 <= k < pattern.len() ==> segment_matches(#[trigger] pattern[k], path[k])
}

/// Whether the two segments are of one kind: both literal, or both placeholders.
pub open spec fn same_kind(a: SegmentView, b: SegmentView) -> bool {
    (a is Param) == (b is Param)
}

/// `a` is more specific than `b` when, at the first place where the two differ in kind, `a` has
/// the literal and `b` the placeholder.
pub open spec fn more_specific(a: Seq<SegmentView>, b: Seq<SegmentView>) -> bool {
    exists|k: int| differ_first_at(a, b, k)
}

/// Place `k` is the first at which `a` and `b` differ in kind, with the literal in `a`.
pub open spec fn differ_first_at(a: Seq<SegmentView>, b: Seq<SegmentView>, k: int) -> bool {
    &&& 0 <= k < a.len()
    &&& k < b.len()
    &&& a[k] is Literal
    &&& b[k] is Param
    &&& forall|i: int| 0 <= i < k ==> same_kind(#[trigger] a[i], b[i])
}

/// The parameters that a pattern takes from a path: for each placeholder, in order, its name and
/// the path's segment at its place.
pub open spec fn captures(pattern: Seq<SegmentView>, path: Seq<Seq<char>>) -> Seq<Capture>
    decreases pattern.len(),
{
    if pattern.len() == 0 || path.len() == 0 {
        Seq::<Capture>::empty()
    } else {
        let earlier = captures(pattern.drop_last(), path.drop_last());
        match pattern.last() {
            SegmentView::Param(name) => earlier.push((name, path.last())),
            SegmentView::Literal(_) => earlier,
        }
    }
}

/// The value of the first parameter that goes by `name`.
pub open spec fn first_value(params: Seq<Capture>, name: Seq<char>) -> Option<Seq<char>>
    decreases params.len(),
{
    if params.len() == 0 {
        None
    } else if params[0].0 == name {
        Some(params[0].1)
    } else {
        first_value(params.drop_first(), name)
    }
}

/// A pattern without placeholders takes no parameter from a path.
pub proof fn lemma_literal_captures(pattern: Seq<SegmentView>, path: Seq<Seq<char>>)
    requires
        forall|k: int| 0 <= k < pattern.len() ==> #[trigger] pattern[k] is Literal,
    ensures
        captures(pattern, path) == Seq::<Capture>::empty(),
    decreases pattern.len(),
{
    if pattern.len() > 0 && path.len() > 0 {
        lemma_literal_captures(pattern.drop_last(), path.drop_last());
    }
}

/// No pattern is more specific than itself.
pub proof fn lemma_more_specific_irreflexive(a: Seq<SegmentView>)
    ensures
        !more_specific(a, a),
{
}

/// Being more specific carries over: from `a` over `b` to `c`.
pub proof fn lemma_more_specific_transitive(
    a: Seq<SegmentView>,
    b: Seq<SegmentView>,
    c: Seq<SegmentView>,
)
    requires
        more_specific(a, b),
        more_specific(b, c),
    ensures
        more_specific(a, c),
{
    let k1 = choose|k: int| differ_first_at(a, b, k);
    let k2 = choose|k: int| differ_first_at(b, c, k);
    if k1 < k2 {
        assert(same_kind(b[k1], c[k1]));
        assert forall|i: int| 0 <= i < k1 implies same_kind(#[trigger] a[i], c[i]) by {
            assert(same_kind(a[i], b[i]));
            assert(same_kind(b[i], c[i]));
        }
        assert(differ_first_at(a, c, k1));
    } else if k2 < k1 {
        assert(same_kind(a[k2], b[k2]));
        assert forall|i: int| 0 <= i < k2 implies same_kind(#[trigger] a[i], c[i]) by {
            assert(same_kind(a[i], b[i]));
            assert(same_kind(b[i], c[i]));
        }
        assert(differ_first_at(a, c, k2));
    }
}

/// Whether two patterns have the same kind of segment at every place.
pub open spec fn same_shape(a: Seq<SegmentView>, b: Seq<SegmentView>) -> bool {
    &&& a.len() == b.len()
    &&& forall|i: int| 0 <= i < a.len() ==> same_kind(#[trigger] a[i], b[i])
}

/// Of two patterns of one length, one is more specific than the other, or they have one shape.
pub proof fn lemma_more_specific_total(a: Seq<SegmentView>, b: Seq<SegmentView>)
    requires
        a.len() == b.len(),
    ensures
        more_specific(a, b) || more_specific(b, a) || same_shape(a, b),
{
    lemma_first_difference(a, b, a.len() as int);
}

/// Up to place `n`, either the two patterns agree in kind, or one is more specific.
proof fn lemma_first_difference(a: Seq<SegmentView>, b: Seq<SegmentView>, n: int)
    requires
        0 <= n <= a.len(),
        a.len() == b.len(),
    ensures
        more_specific(a, b) || more_specific(b, a) || forall|i: int|
            0 <= i < n ==> same_kind(#[trigger] a[i], b[i]),
    decreases n,
{
    if n > 0 {
        lemma_first_difference(a, b, n - 1);
        if !more_specific(a, b) && !more_specific(b, a) {
            if !same_kind(a[n - 1], b[n - 1]) {
                if a[n - 1] is Literal {
                    assert(differ_first_at(a, b, n - 1));
                } else {
                    assert(forall|i: int| 0 <= i < n - 1 ==> same_kind(#[trigger] b[i], a[i]));
                    assert(differ_first_at(b, a, n - 1));
                }
            }
        }
    }
}

/// Patterns of one shape have the same patterns above them.
pub proof fn lemma_more_specific_same_shape(
    a: Seq<SegmentView>,
    b: Seq<SegmentView>,
    c: Seq<SegmentView>,
)
    requires
        same_shape(b, c),
        more_specific(a, b),
    ensures
        more_specific(a, c),
{
    let k = choose|k: int| differ_first_at(a, b, k);
    assert(same_kind(b[k], c[k]));
    assert forall|i: int| 0 <= i < k implies same_kind(#[trigger] a[i], c[i]) by {
        assert(same_kind(a[i], b[i]));
        assert(same_kind(b[i], c[i]));
    }
    assert(differ_first_at(a, c, k));
}

/// One segment of a stored pattern.
#[derive(Clone, Debug)]
pub enum Segment {
    Literal(Vec<char>),
    Param(String),
}

impl View for Segment {
    type V = SegmentView;

    open spec fn view(&self) -> SegmentView {
        match self {
            Segment::Literal(text) => SegmentView::Literal(text@),
            Segment::Param(name) => SegmentView::Param(name@),
        }
    }
}

/// A name and the value that a placeholder took from a path.
#[derive(Clone, Debug, PartialEq, Eq)]
pub struct Param {
    pub name: String,
    pub value: String,
}

impl View for Param {
    type V = Capture;

    open spec fn view(&self) -> Capture {
        (self.name@, self.value@)
    }
}

/// A list of parameters as pairs of texts.
pub open spec fn param_views(params: Seq<Param>) -> Seq<Capture> {
    params.map_values(|p: Param| p@)
}

/// Looks up the value of the first parameter that goes by `name`.
pub fn find_param<'a>(params: &'a Vec<Param>, name: &str) -> (value: Option<&'a str>)
    ensures
        match value {
            Some(v) => first_value(param_views(params@), name@) == Some(v@),
            None => first_value(param_views(params@), name@) is None,
        },
{
    let wanted = String::from_str(name);
    let ghost all = param_views(params@);
    assert(all.skip(0) =~= all);
    let mut i: usize = 0;
    while i < params.len()
        invariant
            i <= params.len(),
            wanted@ == name@,
            all == param_views(params@),
            first_value(all, name@) == first_value(all.skip(i as int), name@),
        decreases params.len() - i,
    {
        proof {
            assert(all.skip(i as int).drop_first() =~= all.skip(i + 1));
            assert(all.skip(i as int)[0] == params@[i as int]@);
        }
        if params[i].name == wanted {
            return Some(params[i].value.as_str());
        }
        i += 1;
    }
    None
}

/// A parsed path pattern.
#[derive(Clone, Debug)]
pub struct Pattern {
    segments: Vec<Segment>,
}

impl View for Pattern {
    type V = Seq<SegmentView>;

    closed spec fn view(&self) -> Seq<SegmentView> {
        self.segments@.map_values(|s: Segment| s@)
    }
}

impl Pattern {
    /// Reads a pattern: the text is split at its slashes, and each segment of the form `{name}`
    /// becomes a placeholder. Every other segment is taken literally.
    pub fn parse(text: &str) -> (pattern: Pattern)
        ensures
            pattern@ == parse_pattern(text@),
    {
        let parts = Segments::of(text);
        let n = parts.len();
        let mut segments: Vec<Segment> = Vec::new();
        let mut k: usize = 0;
        while k < n
            invariant
                k <= n,
                n == parts@.len(),
                segments.len() == k,
                forall|j: int| 0 <= j < k ==> (#[trigger] segments@[j])@ == classify(parts@[j]),
            decreases n - k,
        {
            let len = parts.len_at(k);
            if len >= 3 && parts.char_at(k, 0) == '{' && parts.char_at(k, len - 1) == '}' {
                segments.push(Segment::Param(parts.slice(k, 1, 1)));
            } else {
                segments.push(Segment::Literal(parts.chars_at(k)));
            }
            k += 1;
        }
        let pattern = Pattern { segments };
        assert(pattern@ =~= parse_pattern(text@));
        pattern
    }

    /// The number of segments.
    pub fn len(&self) -> (n: usize)
        ensures
            n == self@.len(),
    {
        self.segments.len()
    }

    /// Whether the pattern matches `path`.
    pub fn matches(&self, path: &Segments) -> (hit: bool)
        ensures
            hit == pattern_matches(self@, path@),
    {
        let n = self.segments.len();
        if n != path.len() {
            return false;
        }
        let mut k: usize = 0;
        while k < n
            invariant
                k <= n,
                n == self@.len(),
                n == path@.len(),
                forall|j: int| 0 <= j < k ==> segment_matches(#[trigger] self@[j], path@[j]),
            decreases n - k,
        {
            let accepted = match &self.segments[k] {
                Segment::Literal(text) => path.eq_at(k, text),
                Segment::Param(_) => path.len_at(k) > 0,
            };
            assert(accepted == segment_matches(self@[k as int], path@[k as int]));
            if !accepted {
                return false;
            }
            k += 1;
        }
        true
    }

    /// Whether this pattern is more specific than `other`.
    pub fn is_more_specific_than(&self, other: &Pattern) -> (more: bool)
        ensures
            more == more_specific(self@, other@),
    {
        let mut k: usize = 0;
        while k < self.segments.len() && k < other.segments.len()
            invariant
                k <= self@.len(),
                k <= other@.len(),
                forall|i: int| 0 <= i < k ==> same_kind(#[trigger] self@[i], other@[i]),
            decreases self@.len() - k,
        {
            let mine = self.segments[k].is_param();
            let theirs = other.segments[k].is_param();
            if mine != theirs {
                proof {
                    if !mine {
                        assert(differ_first_at(self@, other@, k as int));
                    } else {
                        assert forall|j: int| !differ_first_at(self@, other@, j) by {
                            if differ_first_at(self@, other@, j) && j > k {
                                assert(same_kind(self@[k as int], other@[k as int]));
                            }
                        }
                    }
                }
                return !mine;
            }
            k += 1;
        }
        proof {
            assert forall|j: int| !differ_first_at(self@, other@, j) by {
                if 0 <= j < k {
                    assert(same_kind(self@[j], other@[j]));
                }
            }
        }
        false
    }

    /// Whether both patterns are the same: segment for segment, placeholder names included.
    pub fn same_as(&self, other: &Pattern) -> (same: bool)
        ensures
            same == (self@ == other@),
    {
        let n = self.segments.len();
        if n != other.segments.len() {
            return false;
        }
        let mut k: usize = 0;
        while k < n
            invariant
                k <= n,
                n == self@.len(),
                n == other@.len(),
                forall|j: int| 0 <= j < k ==> self@[j] == other@[j],
            decreases n - k,
        {
            if !self.segments[k].same_as(&other.segments[k]) {
                assert(self@[k as int] != other@[k as int]);
                return false;
            }
            k += 1;
        }
        assert(self@ =~= other@);
        true
    }

    /// The parameters that the pattern takes from `path`, or `None` where it does not match.
    pub fn capture(&self, path: &Segments) -> (params: Option<Vec<Param>>)
        ensures
            params is Some <==> pattern_matches(self@, path@),
            params matches Some(found) ==> param_views(found@) == captures(self@, path@),
    {
        if !self.matches(path) {
            return None;
        }
        let n = self.segments.len();
        let mut params: Vec<Param> = Vec::new();
        let mut k: usize = 0;
        while k < n
            invariant
                k <= n,
                n == self@.len(),
                n == path@.len(),
                param_views(params@) == captures(self@.take(k as int), path@.take(k as int)),
            decreases n - k,
        {
            proof {
                let p = self@.take(k + 1);
                let s = path@.take(k + 1);
                assert(p.drop_last() =~= self@.take(k as int));
                assert(s.drop_last() =~= path@.take(k as int));
                assert(p.last() == self@[k as int]);
                assert(s.last() == path@[k as int]);
            }
            let ghost before = param_views(params@);
            match &self.segments[k] {
                Segment::Param(name) => {
                    params.push(Param { name: name.clone(), value: path.slice(k, 0, 0) });
                    proof {
                        assert(path@[k as int].subrange(0, path@[k as int].len() as int)
                            =~= path@[k as int]);
                        assert(param_views(params@) =~= before.push((name@, path@[k as int])));
                    }
                },
                Segment::Literal(_) => {},
            }
            k += 1;
        }
        proof {
            assert(self@.take(n as int) =~= self@);
            assert(path@.take(n as int) =~= path@);
        }
        Some(params)
    }
}

impl Segment {
    /// Whether the segment is a placeholder.
    pub fn is_param(&self) -> (param: bool)
        ensures
            param == (self@ is Param),
    {
        match self {
            Segment::Literal(_) => false,
            Segment::Param(_) => true,
        }
    }

    /// Whether both segments are the same, placeholder names included.
    pub fn same_as(&self, other: &Segment) -> (same: bool)
        ensures
            same == (self@ == other@),
    {
        match self {
            Segment::Literal(a) => match other {
                Segment::Literal(b) => chars_equal(a, b),
                Segment::Param(_) => false,
            },
            Segment::Param(a) => match other {
                Segment::Literal(_) => false,
                Segment::Param(b) => *a == *b,
            },
        }
    }
}

/// Whether two texts are the same.
fn chars_equal(a: &Vec<char>, b: &Vec<char>) -> (same: bool)
    ensures
        same == (a@ == b@),
{
    if a.len() != b.len() {
        return false;
    }
    let mut i: usize = 0;
    while i < a.len()
        invariant
            i <= a.len(),
            a.len() == b.len(),
            forall|j: int| 0 <= j < i ==> a@[j] == b@[j],
        decreases a.len() - i,
    {
        if a[i] != b[i] {
            return false;
        }
        i += 1;
    }
    assert(a@ =~= b@);
    true
}

} // verus!
