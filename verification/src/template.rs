//! Parsed templates: static text with placeholders in between.

use crate::flat_map::{flat_entries, flat_get, Entries};
use crate::markers::{find_pair_from, first_placeholder, lemma_first_placeholder_bounds};
use crate::text::{chars_of, reserve_hint, text_between};
use crate::whitespace::{trim_bounds, trimmed};
use rustc_hash::FxHashMap;
use vstd::prelude::*;

verus! {

/// The static segments of the template `s`: the text before each placeholder,
/// and the text behind the last one.
pub open spec fn static_segments(s: Seq<char>) -> Seq<Seq<char>>
    decreases s.len(),
{
    match first_placeholder(s) {
        Some((open, close)) => {
            proof {
                lemma_first_placeholder_bounds(s);
            }
            seq![s.take(open)] + static_segments(s.skip(close + 2))
        },
        None => seq![s],
    }
}

/// The keys of the placeholders of the template `s`, in order: what stands
/// between `{{` and `}}`, trimmed.
pub open spec fn placeholder_keys(s: Seq<char>) -> Seq<Seq<char>>
    decreases s.len(),
{
    match first_placeholder(s) {
        Some((open, close)) => {
            proof {
                lemma_first_placeholder_bounds(s);
            }
            seq![trimmed(s.subrange(open + 2, close))] + placeholder_keys(s.skip(close + 2))
        },
        None => seq![],
    }
}

/// How many placeholders the template `s` holds.
pub open spec fn placeholder_count(s: Seq<char>) -> nat {
    placeholder_keys(s).len()
}

/// A template holds one static segment more than it holds placeholders.
pub proof fn lemma_segment_count(s: Seq<char>)
    ensures
        static_segments(s).len() == placeholder_count(s) + 1,
    decreases s.len(),
{
    if let Some((open, close)) = first_placeholder(s) {
        lemma_first_placeholder_bounds(s);
        lemma_segment_count(s.skip(close + 2));
    }
}

/// The value that fills the slot `i`: `values[i]`, or nothing where `values`
/// has no such element.
pub open spec fn slot_value(values: Seq<Seq<char>>, i: int) -> Seq<char> {
    if 0 <= i < values.len() {
        values[i]
    } else {
        Seq::empty()
    }
}

/// The static segments with the values in between: segment 0, value 0,
/// segment 1, value 1, and so on up to the last segment. Nothing follows the
/// last segment, and a slot without a value stays empty.
pub open spec fn interleave(statics: Seq<Seq<char>>, values: Seq<Seq<char>>) -> Seq<char>
    decreases statics.len(),
{
    if statics.len() == 0 {
        Seq::empty()
    } else if statics.len() == 1 {
        statics[0]
    } else {
        interleave(statics.drop_last(), values) + slot_value(values, statics.len() - 2)
            + statics.last()
    }
}

/// The text kept under `key` in `entries`, or nothing where `entries` has no
/// such key.
pub open spec fn lookup(entries: Entries, key: Seq<char>) -> Seq<char> {
    if entries.contains_key(key) {
        entries[key]
    } else {
        Seq::empty()
    }
}

/// For each key, in order, the text kept under it in `entries`.
pub open spec fn resolved(keys: Seq<Seq<char>>, entries: Entries) -> Seq<Seq<char>> {
    Seq::new(keys.len(), |i: int| lookup(entries, keys[i]))
}

/// The default for the size that rendering sets aside: one and a half times
/// the length of the template, as far as that can be counted.
pub open spec fn default_capacity(len: usize) -> usize {
    if len + len / 2 <= usize::MAX {
        (len + len / 2) as usize
    } else {
        usize::MAX
    }
}

/// The first placeholder at or behind `from`, if there is one: the places of
/// its `{{` and of its `}}`.
pub(crate) fn next_placeholder(chars: &Vec<char>, from: usize) -> (span: Option<(usize, usize)>)
    requires
        from <= chars.len(),
    ensures
        match span {
            Some((open, close)) => {
                &&& from <= open
                &&& open + 2 <= close
                &&& close + 2 <= chars.len()
                &&& first_placeholder(chars@.skip(from as int)) == Some((open - from, close - from))
            },
            None => first_placeholder(chars@.skip(from as int)) is None,
        },
{
    match find_pair_from(chars, from, '{') {
        None => None,
        Some(open) => {
            assert(chars@.skip(from as int).skip(open - from + 2) == chars@.skip(open + 2));
            match find_pair_from(chars, open + 2, '}') {
                None => None,
                Some(close) => Some((open, close)),
            }
        },
    }
}

/// A parsed template.
///
/// `statics` holds the static segments and `placeholders` the keys. A parsed
/// template holds as many keys as segments: the last key is empty and stands
/// for nothing.
#[derive(Debug, Clone)]
pub struct ZipTemplate {
    /// The static segments, in order.
    pub statics: Vec<String>,
    /// The placeholder keys, in order.
    pub placeholders: Vec<String>,
    /// The size, in bytes, that rendering sets aside for its output before it
    /// starts. It has no bearing on what is rendered.
    pub pre_emptive_size: usize,
}

impl ZipTemplate {
    /// Whether the template holds as many keys as static segments.
    pub open spec fn well_formed(&self) -> bool {
        self.statics.len() == self.placeholders.len()
    }

    /// Whether this is the parse of `template`: its segments are the static
    /// segments of `template`, and its keys are the keys of the placeholders
    /// of `template` with one empty key behind them.
    pub open spec fn is_parse_of(&self, template: Seq<char>) -> bool {
        &&& self.statics.deep_view() == static_segments(template)
        &&& self.placeholders.deep_view() == placeholder_keys(template).push(Seq::empty())
    }

    /// The text that rendering gives with `entries` as the mapping: the
    /// segments with, in each slot, the text kept under the key of that slot.
    pub open spec fn rendered(&self, entries: Entries) -> Seq<char> {
        interleave(self.statics.deep_view(), resolved(self.placeholders.deep_view(), entries))
    }

    /// Parses `template`, and has rendering set aside `pre_emptive_size`
    /// bytes. The template is read once, from left to right: each `{{` with a
    /// `}}` behind it is a placeholder, closed by the first such `}}`.
    pub fn parse_with_capacity(template: &str, pre_emptive_size: usize) -> (parsed: Self)
        ensures
            parsed.is_parse_of(template@),
            parsed.statics.len() == placeholder_count(template@) + 1,
            parsed.placeholders.len() == placeholder_count(template@) + 1,
            parsed.placeholders.deep_view().last() == Seq::<char>::empty(),
            parsed.well_formed(),
            parsed.pre_emptive_size == pre_emptive_size,
    {
        let chars = chars_of(template);
        let mut statics: Vec<String> = Vec::new();
        let mut placeholders: Vec<String> = Vec::new();
        let mut cursor: usize = 0;
        assert(template@.skip(0) == template@);
        loop
            invariant
                chars@ == template@,
                cursor <= chars.len(),
                static_segments(template@) == statics.deep_view() + static_segments(
                    template@.skip(cursor as int),
                ),
                placeholder_keys(template@) == placeholders.deep_view() + placeholder_keys(
                    template@.skip(cursor as int),
                ),
            ensures
                first_placeholder(template@.skip(cursor as int)) is None,
            decreases chars.len() - cursor,
        {
            match next_placeholder(&chars, cursor) {
                Some((open, close)) => {
                    let segment = text_between(&chars, cursor, open);
                    let (lo, hi) = trim_bounds(&chars, open + 2, close);
                    let key = text_between(&chars, lo, hi);
                    proof {
                        // What was found in the rest of the template, seen
                        // from the start of the template.
                        let rest = template@.skip(cursor as int);
                        assert(rest.take(open - cursor) == segment@);
                        assert(rest.subrange(open - cursor + 2, close - cursor)
                            == template@.subrange(open + 2, close as int));
                        assert(rest.skip(close - cursor + 2) == template@.skip(close + 2));
                    }
                    statics.push(segment);
                    placeholders.push(key);
                    cursor = close + 2;
                },
                None => {
                    break;
                },
            }
        }
        let ghost keys = placeholders.deep_view();
        let last = text_between(&chars, cursor, chars.len());
        statics.push(last);
        placeholders.push(String::new());
        proof {
            assert(statics.deep_view() == static_segments(template@));
            assert(placeholders.deep_view() == keys.push(Seq::empty()));
            lemma_segment_count(template@);
        }
        ZipTemplate { statics, placeholders, pre_emptive_size }
    }

    /// Parses `template`, and has rendering set aside one and a half times
    /// the length of `template`. Every string has a parse: a `{{` without a
    /// `}}` behind it is text like any other.
    pub fn parse(template: &str) -> (parsed: Self)
        ensures
            parsed.is_parse_of(template@),
            parsed.statics.len() == placeholder_count(template@) + 1,
            parsed.placeholders.len() == placeholder_count(template@) + 1,
            parsed.placeholders.deep_view().last() == Seq::<char>::empty(),
            parsed.well_formed(),
            parsed.pre_emptive_size == default_capacity(template.len()),
    {
        let len = template.len();
        let half = len / 2;
        let capacity = if len <= usize::MAX - half {
            len + half
        } else {
            usize::MAX
        };
        ZipTemplate::parse_with_capacity(template, capacity)
    }

    /// The number of static segments.
    pub fn static_parts_count(&self) -> (count: usize)
        ensures
            count == self.statics.len(),
    {
        self.statics.len()
    }

    /// Renders the template with, in each slot, the text that `flat` keeps
    /// under the key of that slot. A key that `flat` does not hold leaves its
    /// slot empty. The key behind the last segment has no slot.
    pub fn render(&self, flat: &FxHashMap<String, String>) -> (out: String)
        ensures
            out@ == self.rendered(flat_entries(*flat)),
    {
        let mut dynamics: Vec<&str> = Vec::new();
        let mut i: usize = 0;
        while i < self.placeholders.len()
            invariant
                i <= self.placeholders.len(),
                dynamics.deep_view() == resolved(
                    self.placeholders.deep_view().take(i as int),
                    flat_entries(*flat),
                ),
            decreases self.placeholders.len() - i,
        {
            let ghost before = dynamics.deep_view();
            let value: &str = match flat_get(flat, &self.placeholders[i]) {
                Some(text) => text.as_str(),
                None => {
                    proof {
                        reveal_strlit("");
                    }
                    ""
                },
            };
            dynamics.push(value);
            proof {
                let keys = self.placeholders.deep_view();
                let entries = flat_entries(*flat);
                assert(value@ == lookup(entries, keys[i as int]));
                assert(dynamics.deep_view() == before.push(value@));
                assert(before.push(value@) =~= resolved(keys.take(i + 1), entries));
            }
            i += 1;
        }
        proof {
            assert(self.placeholders.deep_view().take(i as int) == self.placeholders.deep_view());
        }
        self.render_from_vec(dynamics.as_slice())
    }

    /// Renders the template with the values of `dynamics` in its slots, by
    /// position: the value `i` stands between the segments `i` and `i + 1`.
    /// A slot without a value stays empty, and values without a slot are left
    /// out. The keys play no part.
    pub fn render_from_vec(&self, dynamics: &[&str]) -> (out: String)
        ensures
            out@ == interleave(self.statics.deep_view(), dynamics.deep_view()),
    {
        let mut out = String::new();
        reserve_hint(&mut out, self.pre_emptive_size);
        let ghost statics = self.statics.deep_view();
        let ghost values = dynamics.deep_view();
        let mut i: usize = 0;
        while i < self.statics.len()
            invariant
                i <= self.statics.len(),
                statics == self.statics.deep_view(),
                values == dynamics.deep_view(),
                out@ == interleave(statics.take(i as int), values),
            decreases self.statics.len() - i,
        {
            if i > 0 && i - 1 < dynamics.len() {
                out.append(dynamics[i - 1]);
            }
            out.append(self.statics[i].as_str());
            proof {
                assert(statics.take(i + 1).drop_last() == statics.take(i as int));
            }
            i += 1;
        }
        proof {
            assert(statics.take(i as int) == statics);
        }
        out
    }
}

} // verus!
