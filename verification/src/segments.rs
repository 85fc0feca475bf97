//! Paths as sequences of segments: the texts between the slashes.

use vstd::prelude::*;
use crate::text::to_chars;

verus! {

/// The segments of `s`: the texts before, between and after its slashes, in order. A text with
/// `n` slashes has `n + 1` segments, some of which may be empty.
pub open spec fn split(s: Seq<char>) -> Seq<Seq<char>>
    decreases s.len(),
{
    if s.len() == 0 {
        seq![Seq::<char>::empty()]
    } else {
        let init = split(s.drop_last());
        if s.last() == '/' {
            init.push(Seq::<char>::empty())
        } else {
            init.drop_last().push(init.last().push(s.last()))
        }
    }
}

/// The segments written out with a slash between each two neighbours.
pub open spec fn join(segments: Seq<Seq<char>>) -> Seq<char>
    decreases segments.len(),
{
    if segments.len() == 0 {
        Seq::<char>::empty()
    } else if segments.len() == 1 {
        segments[0]
    } else {
        join(segments.drop_last()) + seq!['/'] + segments.last()
    }
}

/// Whether `segment` is free of slashes.
pub open spec fn no_slash(segment: Seq<char>) -> bool {
    forall|i: int| 0 <= i < segment.len() ==> segment[i] != '/'
}

/// Every text has at least one segment.
pub proof fn lemma_split_nonempty(s: Seq<char>)
    ensures
        split(s).len() >= 1,
    decreases s.len(),
{
    if s.len() > 0 {
        lemma_split_nonempty(s.drop_last());
    }
}

/// No segment of a text holds a slash.
pub proof fn lemma_split_no_slash(s: Seq<char>)
    ensures
        forall|k: int| 0 <= k < split(s).len() ==> no_slash(#[trigger] split(s)[k]),
    decreases s.len(),
{
    if s.len() > 0 {
        lemma_split_nonempty(s.drop_last());
        lemma_split_no_slash(s.drop_last());
    }
}

/// Joining the segments of a text gives the text back.
pub proof fn lemma_join_split(s: Seq<char>)
    ensures
        join(split(s)) == s,
    decreases s.len(),
{
    if s.len() > 0 {
        let init = split(s.drop_last());
        lemma_split_nonempty(s.drop_last());
        lemma_join_split(s.drop_last());
        if s.last() == '/' {
            assert(init.push(Seq::<char>::empty()).drop_last() =~= init);
            assert(join(split(s)) =~= s);
        } else {
            let grown = init.drop_last().push(init.last().push(s.last()));
            assert(grown.drop_last() =~= init.drop_last());
            if init.len() == 1 {
                assert(join(split(s)) =~= s);
            } else {
                assert(join(init) == join(init.drop_last()) + seq!['/'] + init.last());
                assert(join(grown) =~= join(init).push(s.last()));
                assert(join(split(s)) =~= s);
            }
        }
    }
}

/// A text after which a slash and a slash-free text follow has one segment more: that text.
pub proof fn lemma_split_append(s: Seq<char>, segment: Seq<char>)
    requires
        no_slash(segment),
    ensures
        split(s + seq!['/'] + segment) == split(s).push(segment),
    decreases segment.len(),
{
    let whole = s + seq!['/'] + segment;
    if segment.len() == 0 {
        assert(whole.drop_last() =~= s);
        assert(segment =~= Seq::<char>::empty());
    } else {
        let shorter = segment.drop_last();
        lemma_split_append(s, shorter);
        assert(whole.drop_last() =~= s + seq!['/'] + shorter);
        assert(whole.last() == segment.last());
        assert(split(s).push(shorter).drop_last() =~= split(s));
        assert(shorter.push(segment.last()) =~= segment);
    }
}

/// A slash-free text is its own single segment.
pub proof fn lemma_split_single(segment: Seq<char>)
    requires
        no_slash(segment),
    ensures
        split(segment) == seq![segment],
    decreases segment.len(),
{
    if segment.len() > 0 {
        let shorter = segment.drop_last();
        lemma_split_single(shorter);
        assert(seq![shorter].drop_last().push(shorter.push(segment.last())) =~= seq![segment]) by {
            assert(shorter.push(segment.last()) =~= segment);
        }
    } else {
        assert(segment =~= Seq::<char>::empty());
    }
}

/// Splitting undoes joining: slash-free segments, at least one, are the segments of their join.
pub proof fn lemma_split_join(segments: Seq<Seq<char>>)
    requires
        segments.len() >= 1,
        forall|k: int| 0 <= k < segments.len() ==> no_slash(#[trigger] segments[k]),
    ensures
        split(join(segments)) == segments,
    decreases segments.len(),
{
    if segments.len() == 1 {
        lemma_split_single(segments[0]);
        assert(seq![segments[0]] =~= segments);
    } else {
        let init = segments.drop_last();
        lemma_split_join(init);
        lemma_split_append(join(init), segments.last());
        assert(init.push(segments.last()) =~= segments);
    }
}

/// Where the segments of `chars` lie: span `k` runs from the start of segment `k` to its end.
pub open spec fn spans_of(chars: Seq<char>, spans: Seq<(usize, usize)>) -> bool {
    &&& spans.len() == split(chars).len()
    &&& forall|k: int|
        0 <= k < spans.len() ==> {
            let (start, end) = #[trigger] spans[k];
            start <= end <= chars.len() && chars.subrange(start as int, end as int) == split(
                chars,
            )[k]
        }
}

/// Finds the segments of `chars` in one pass.
pub fn find_spans(chars: &Vec<char>) -> (spans: Vec<(usize, usize)>)
    ensures
        spans_of(chars@, spans@),
{
    let mut spans: Vec<(usize, usize)> = Vec::new();
    let mut start: usize = 0;
    let mut i: usize = 0;
    while i < chars.len()
        invariant
            start <= i <= chars.len(),
            spans.len() + 1 == split(chars@.take(i as int)).len(),
            chars@.subrange(start as int, i as int) == split(chars@.take(i as int)).last(),
            forall|k: int|
                0 <= k < spans.len() ==> {
                    let (from, to) = #[trigger] spans[k];
                    from <= to <= i && chars@.subrange(from as int, to as int) == split(
                        chars@.take(i as int),
                    )[k]
                },
        decreases chars.len() - i,
    {
        let ghost before = chars@.take(i as int);
        let ghost after = chars@.take(i + 1);
        proof {
            assert(after.drop_last() =~= before);
            assert(after.last() == chars@[i as int]);
        }
        if chars[i] == '/' {
            spans.push((start, i));
            start = i + 1;
            proof {
                assert(split(after) == split(before).push(Seq::<char>::empty()));
                assert(chars@.subrange(start as int, i + 1) =~= Seq::<char>::empty());
            }
        } else {
            proof {
                assert(chars@.subrange(start as int, i + 1) =~= chars@.subrange(
                    start as int,
                    i as int,
                ).push(chars@[i as int]));
            }
        }
        i += 1;
    }
    spans.push((start, i));
    assert(chars@.take(i as int) =~= chars@);
    spans
}

/// A text together with its segments.
pub struct Segments {
    text: String,
    chars: Vec<char>,
    spans: Vec<(usize, usize)>,
}

impl View for Segments {
    type V = Seq<Seq<char>>;

    closed spec fn view(&self) -> Seq<Seq<char>> {
        split(self.text@)
    }
}

impl Segments {
    #[verifier::type_invariant]
    spec fn inv(&self) -> bool {
        &&& self.chars@ == self.text@
        &&& spans_of(self.chars@, self.spans@)
    }

    /// Splits `text` at its slashes.
    pub fn of(text: &str) -> (segments: Segments)
        ensures
            segments@ == split(text@),
    {
        let chars = to_chars(text);
        let spans = find_spans(&chars);
        Segments { text: String::from_str(text), chars, spans }
    }

    /// The number of segments.
    pub fn len(&self) -> (n: usize)
        ensures
            n == self@.len(),
    {
        proof {
            use_type_invariant(self);
        }
        self.spans.len()
    }

    /// Segment `k`, or `None` where the text has no such segment.
    pub fn get(&self, k: usize) -> (segment: Option<String>)
        ensures
            segment is Some <==> k < self@.len(),
            segment matches Some(s) ==> s@ == self@[k as int],
    {
        proof {
            use_type_invariant(self);
        }
        if k < self.spans.len() {
            Some(self.slice(k, 0, 0))
        } else {
            None
        }
    }

    /// Segment `k` without its first `skip_front` and its last `skip_back` characters.
    pub(crate) fn slice(&self, k: usize, skip_front: usize, skip_back: usize) -> (part: String)
        requires
            k < self@.len(),
            skip_front + skip_back <= self@[k as int].len(),
        ensures
            part@ == self@[k as int].subrange(
                skip_front as int,
                self@[k as int].len() - skip_back,
            ),
    {
        proof {
            use_type_invariant(self);
        }
        let (start, end) = self.spans[k];
        let part = self.text.as_str().substring_char(start + skip_front, end - skip_back);
        proof {
            assert(part@ =~= self@[k as int].subrange(
                skip_front as int,
                self@[k as int].len() - skip_back,
            ));
        }
        String::from_str(part)
    }

    /// The number of characters in segment `k`.
    pub(crate) fn len_at(&self, k: usize) -> (n: usize)
        requires
            k < self@.len(),
        ensures
            n == self@[k as int].len(),
    {
        proof {
            use_type_invariant(self);
        }
        let (start, end) = self.spans[k];
        end - start
    }

    /// Character `i` of segment `k`.
    pub(crate) fn char_at(&self, k: usize, i: usize) -> (c: char)
        requires
            k < self@.len(),
            i < self@[k as int].len(),
        ensures
            c == self@[k as int][i as int],
    {
        proof {
            use_type_invariant(self);
        }
        let (start, _) = self.spans[k];
        self.chars[start + i]
    }

    /// A copy of the characters of segment `k`.
    pub(crate) fn chars_at(&self, k: usize) -> (copy: Vec<char>)
        requires
            k < self@.len(),
        ensures
            copy@ == self@[k as int],
    {
        let n = self.len_at(k);
        let mut copy: Vec<char> = Vec::new();
        let mut i: usize = 0;
        while i < n
            invariant
                i <= n,
                k < self@.len(),
                n == self@[k as int].len(),
                copy@ == self@[k as int].take(i as int),
            decreases n - i,
        {
            copy.push(self.char_at(k, i));
            i += 1;
        }
        assert(self@[k as int].take(n as int) =~= self@[k as int]);
        copy
    }

    /// Whether segment `k` is the text `other`.
    pub(crate) fn eq_at(&self, k: usize, other: &Vec<char>) -> (same: bool)
        requires
            k < self@.len(),
        ensures
            same == (self@[k as int] == other@),
    {
        let n = self.len_at(k);
        if n != other.len() {
            return false;
        }
        let mut i: usize = 0;
        while i < n
            invariant
                i <= n,
                k < self@.len(),
                n == self@[k as int].len(),
                n == other.len(),
                forall|j: int| 0 <= j < i ==> self@[k as int][j] == other@[j],
            decreases n - i,
        {
            if self.char_at(k, i) != other[i] {
                return false;
            }
            i += 1;
        }
        assert(self@[k as int] =~= other@);
        true
    }
}

} // verus!
