//! Character-level helpers shared by the router and the message types.

use vstd::prelude::*;

verus! {

/// The characters of `s`, in order, as a vector that can be indexed in constant time.
pub fn to_chars(s: &str) -> (chars: Vec<char>)
    ensures
        chars@ == s@,
{
    let mut chars: Vec<char> = Vec::new();
    for c in it: s.chars()
        invariant
            chars@ == s@.take(it.index() as int),
            it.seq() == s@,
    {
        chars.push(c);
    }
    chars
}

/// Whether `c` is a carriage return or a line feed.
pub open spec fn is_line_break(c: char) -> bool {
    c == '\r' || c == '\n'
}

/// Whether a line break occurs anywhere in `s`.
pub open spec fn has_line_break(s: Seq<char>) -> bool {
    exists|i: int| 0 <= i < s.len() && is_line_break(#[trigger] s[i])
}

/// Tells whether `s` holds a carriage return or a line feed.
pub fn contains_line_break(s: &str) -> (found: bool)
    ensures
        found == has_line_break(s@),
{
    let mut found = false;
    for c in it: s.chars()
        invariant
            it.seq() == s@,
            found == has_line_break(s@.take(it.index() as int)),
    {
        proof {
            let k = it.index() as int;
            let before = s@.take(k);
            let after = s@.take(k + 1);
            assert(after[k] == c);
            if has_line_break(before) {
                let w = choose|i: int| 0 <= i < before.len() && is_line_break(#[trigger] before[i]);
                assert(after[w] == before[w]);
            }
            if has_line_break(after) && !is_line_break(c) {
                let w = choose|i: int| 0 <= i < after.len() && is_line_break(#[trigger] after[i]);
                assert(before[w] == after[w]);
            }
        }
        if c == '\r' || c == '\n' {
            found = true;
        }
    }
    assert(s@.take(s@.len() as int) == s@);
    found
}

/// The lower-case form of an ASCII capital letter; every other character stands for itself.
pub open spec fn ascii_lower(c: char) -> char {
    if 'A' <= c && c <= 'Z' {
        ((c as u8) + 32) as char
    } else {
        c
    }
}

/// Equality of two texts that takes an ASCII letter and its capital for the same character.
pub open spec fn eq_ignore_ascii_case(a: Seq<char>, b: Seq<char>) -> bool {
    &&& a.len() == b.len()
    &&& forall|i: int| 0 <= i < a.len() ==> ascii_lower(#[trigger] a[i]) == ascii_lower(b[i])
}

/// Computes `ascii_lower`.
pub fn to_ascii_lower(c: char) -> (lower: char)
    ensures
        lower == ascii_lower(c),
{
    if 'A' <= c && c <= 'Z' {
        let code: u8 = c as u8;
        (code + 32) as char
    } else {
        c
    }
}

/// Compares two texts, taking an ASCII letter and its capital for the same character.
pub fn same_ignoring_ascii_case(a: &str, b: &str) -> (same: bool)
    ensures
        same == eq_ignore_ascii_case(a@, b@),
{
    let left = to_chars(a);
    let right = to_chars(b);
    if left.len() != right.len() {
        return false;
    }
    let mut i: usize = 0;
    while i < left.len()
        invariant
            i <= left.len(),
            left.len() == right.len(),
            left@ == a@,
            right@ == b@,
            forall|k: int| 0 <= k < i ==> ascii_lower(#[trigger] left@[k]) == ascii_lower(right@[k]),
        decreases left.len() - i,
    {
        if to_ascii_lower(left[i]) != to_ascii_lower(right[i]) {
            return false;
        }
        i += 1;
    }
    true
}

} // verus!
