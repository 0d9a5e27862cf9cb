//! The two markers of a template, `{{` and `}}`, and where they stand.

use vstd::prelude::*;

verus! {

/// Whether `c` stands at `i` in `s` and again right behind.
pub open spec fn pair_at(s: Seq<char>, i: int, c: char) -> bool {
    0 <= i && i + 1 < s.len() && s[i] == c && s[i + 1] == c
}

/// The first index of `s` at which `c` stands twice in a row.
pub open spec fn find_pair(s: Seq<char>, c: char) -> Option<int>
    decreases s.len(),
{
    if s.len() < 2 {
        None
    } else if s[0] == c && s[1] == c {
        Some(0)
    } else {
        shift(find_pair(s.drop_first(), c), 1)
    }
}

/// An index found in a suffix, counted from `by` places further left.
pub open spec fn shift(found: Option<int>, by: int) -> Option<int> {
    match found {
        Some(i) => Some(i + by),
        None => None,
    }
}

/// `find_pair` finds a pair, and no pair stands before it; where it finds
/// none, `s` holds none.
pub proof fn lemma_find_pair(s: Seq<char>, c: char)
    ensures
        match find_pair(s, c) {
            Some(i) => pair_at(s, i, c) && forall|j: int| 0 <= j < i ==> !pair_at(s, j, c),
            None => forall|j: int| !pair_at(s, j, c),
        },
    decreases s.len(),
{
    if s.len() >= 2 && !(s[0] == c && s[1] == c) {
        let rest = s.drop_first();
        lemma_find_pair(rest, c);
        // A pair of `s` is a pair of the rest, one place further left.
        assert forall|j: int| pair_at(s, j, c) implies pair_at(rest, j - 1, c) by {}
    }
}

/// The first placeholder of `s`: where its `{{` stands and where the first
/// `}}` behind that stands. `None` where `s` holds no `{{`, or no `}}` behind
/// the first one.
pub open spec fn first_placeholder(s: Seq<char>) -> Option<(int, int)> {
    match find_pair(s, '{') {
        None => None,
        Some(open) => match find_pair(s.skip(open + 2), '}') {
            None => None,
            Some(offset) => Some((open, open + 2 + offset)),
        },
    }
}

/// A placeholder lies within its text, and its two markers do not overlap.
pub proof fn lemma_first_placeholder_bounds(s: Seq<char>)
    ensures
        first_placeholder(s) matches Some((open, close)) ==> 0 <= open && open + 2 <= close && close
            + 2 <= s.len(),
{
    lemma_find_pair(s, '{');
    if let Some(open) = find_pair(s, '{') {
        lemma_find_pair(s.skip(open + 2), '}');
    }
}

/// Looks for the first index at or behind `from` at which `c` stands twice in
/// a row.
pub(crate) fn find_pair_from(chars: &Vec<char>, from: usize, c: char) -> (found: Option<usize>)
    requires
        from <= chars.len(),
    ensures
        found matches Some(i) ==> from <= i && i + 2 <= chars.len(),
        match found {
            Some(i) => find_pair(chars@.skip(from as int), c) == Some(i - from),
            None => find_pair(chars@.skip(from as int), c) is None,
        },
{
    let len = chars.len();
    let mut i = from;
    while len - i >= 2
        invariant
            len == chars.len(),
            from <= i <= len,
            find_pair(chars@.skip(from as int), c) == shift(
                find_pair(chars@.skip(i as int), c),
                i - from,
            ),
        decreases len - i,
    {
        if chars[i] == c && chars[i + 1] == c {
            return Some(i);
        }
        assert(chars@.skip(i as int).drop_first() == chars@.skip(i + 1));
        i += 1;
    }
    None
}

} // verus!
