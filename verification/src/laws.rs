//! What holds of parsing and rendering taken together.

use crate::flat_map::Entries;
use crate::markers::{
    find_pair, first_placeholder, lemma_find_pair, lemma_first_placeholder_bounds, pair_at, shift,
};
use crate::template::{
    interleave, lemma_segment_count, lookup, placeholder_count, placeholder_keys, resolved,
    slot_value, static_segments, ZipTemplate,
};
use crate::whitespace::trimmed;
use vstd::prelude::*;

verus! {

/// The template `s` with each of its placeholders replaced by the text that
/// `entries` keeps under its key, and by nothing where `entries` has no such
/// key.
pub open spec fn substituted(s: Seq<char>, entries: Entries) -> Seq<char>
    decreases s.len(),
{
    match first_placeholder(s) {
        Some((open, close)) => {
            proof {
                lemma_first_placeholder_bounds(s);
            }
            s.take(open) + lookup(entries, trimmed(s.subrange(open + 2, close))) + substituted(
                s.skip(close + 2),
                entries,
            )
        },
        None => s,
    }
}

/// Whether `text` holds a brace.
pub open spec fn has_brace(text: Seq<char>) -> bool {
    text.contains('{') || text.contains('}')
}

/// The parse of a template with `k` placeholders holds `k + 1` segments and
/// `k + 1` keys, the last of them empty.
pub proof fn lemma_parse_counts(parsed: ZipTemplate, template: Seq<char>)
    requires
        parsed.is_parse_of(template),
    ensures
        parsed.statics.len() == placeholder_count(template) + 1,
        parsed.placeholders.len() == placeholder_count(template) + 1,
        parsed.placeholders.deep_view().last() == Seq::<char>::empty(),
        parsed.well_formed(),
{
    lemma_segment_count(template);
    assert(parsed.statics.deep_view().len() == parsed.statics.len());
    assert(parsed.placeholders.deep_view().len() == parsed.placeholders.len());
}

/// Interleaving reads of the values only the slots between two segments: two
/// lists of values that agree there give one text.
pub proof fn lemma_interleave_agrees(
    statics: Seq<Seq<char>>,
    values: Seq<Seq<char>>,
    others: Seq<Seq<char>>,
)
    requires
        forall|i: int| 0 <= i < statics.len() - 1 ==> slot_value(values, i) == slot_value(others, i),
    ensures
        interleave(statics, values) == interleave(statics, others),
    decreases statics.len(),
{
    if statics.len() > 1 {
        lemma_interleave_agrees(statics.drop_last(), values, others);
    }
}

/// A slot without a value is rendered as a slot with the empty text.
pub proof fn lemma_missing_value_is_empty(statics: Seq<Seq<char>>, values: Seq<Seq<char>>)
    ensures
        interleave(statics, values) == interleave(statics, values.push(Seq::empty())),
{
    lemma_interleave_agrees(statics, values, values.push(Seq::empty()));
}

/// Values without a slot are left out: a value behind as many values as there
/// are slots changes nothing.
pub proof fn lemma_spare_value_is_left_out(
    statics: Seq<Seq<char>>,
    values: Seq<Seq<char>>,
    spare: Seq<char>,
)
    requires
        values.len() + 1 >= statics.len(),
    ensures
        interleave(statics, values.push(spare)) == interleave(statics, values),
{
    lemma_interleave_agrees(statics, values.push(spare), values);
}

/// A key that the mapping does not hold is rendered as a key with the empty
/// text: never as the text of the placeholder.
pub proof fn lemma_missing_key_is_empty(parsed: ZipTemplate, entries: Entries, key: Seq<char>)
    requires
        !entries.contains_key(key),
    ensures
        parsed.rendered(entries) == parsed.rendered(entries.insert(key, Seq::empty())),
{
    let keys = parsed.placeholders.deep_view();
    assert(resolved(keys, entries) =~= resolved(keys, entries.insert(key, Seq::empty())));
}

/// Interleaving begins with the first segment and the first value, and goes
/// on with the rest of both.
pub proof fn lemma_interleave_front(
    first: Seq<char>,
    statics: Seq<Seq<char>>,
    value: Seq<char>,
    values: Seq<Seq<char>>,
)
    requires
        statics.len() >= 1,
    ensures
        interleave(seq![first] + statics, seq![value] + values) == first + value + interleave(
            statics,
            values,
        ),
    decreases statics.len(),
{
    let all = seq![first] + statics;
    let all_values = seq![value] + values;
    if statics.len() == 1 {
        assert(interleave(all.drop_last(), all_values) == first);
    } else {
        assert(all.drop_last() =~= seq![first] + statics.drop_last());
        lemma_interleave_front(first, statics.drop_last(), value, values);
    }
}

/// Rendering replaces each placeholder of the template by the text kept under
/// its key, and leaves everything else of the template as it stands.
pub proof fn lemma_render_substitutes(parsed: ZipTemplate, template: Seq<char>, entries: Entries)
    requires
        parsed.is_parse_of(template),
    ensures
        parsed.rendered(entries) == substituted(template, entries),
{
    lemma_interleave_substitutes(template, entries);
}

/// Interleaving the segments of `s` with the texts kept under its keys gives
/// `s` with its placeholders replaced.
proof fn lemma_interleave_substitutes(s: Seq<char>, entries: Entries)
    ensures
        interleave(static_segments(s), resolved(placeholder_keys(s).push(Seq::empty()), entries))
            == substituted(s, entries),
    decreases s.len(),
{
    match first_placeholder(s) {
        Some((open, close)) => {
            lemma_first_placeholder_bounds(s);
            let rest = s.skip(close + 2);
            let key = trimmed(s.subrange(open + 2, close));
            let rest_keys = placeholder_keys(rest).push(Seq::empty());
            lemma_interleave_substitutes(rest, entries);
            lemma_segment_count(rest);
            assert(resolved(seq![key] + rest_keys, entries) =~= seq![lookup(entries, key)]
                + resolved(rest_keys, entries));
            lemma_interleave_front(
                s.take(open),
                static_segments(rest),
                lookup(entries, key),
                resolved(rest_keys, entries),
            );
        },
        None => {},
    }
}

/// A template without placeholders is rendered as it stands, whatever the
/// mapping holds.
pub proof fn lemma_plain_text_is_kept(parsed: ZipTemplate, template: Seq<char>, entries: Entries)
    requires
        parsed.is_parse_of(template),
        placeholder_count(template) == 0,
    ensures
        parsed.rendered(entries) == template,
{
    lemma_render_substitutes(parsed, template, entries);
    assert(first_placeholder(template) is None) by {
        if first_placeholder(template) is Some {
            lemma_first_placeholder_bounds(template);
            assert(placeholder_keys(template).len() >= 1);
        }
    }
}

/// Where `head` holds no `{{` and does not end in `{`, the first `{{` of
/// `head + tail` is the first `{{` of `tail`.
proof fn lemma_find_open_behind(head: Seq<char>, tail: Seq<char>)
    requires
        forall|j: int| !pair_at(head, j, '{'),
        head.len() > 0 ==> head.last() != '{',
    ensures
        find_pair(head + tail, '{') == shift(find_pair(tail, '{'), head.len() as int),
{
    let whole = head + tail;
    let n = head.len() as int;
    lemma_find_pair(whole, '{');
    lemma_find_pair(tail, '{');
    // A `{{` of the whole lies in the tail, and a `{{` of the tail is one of
    // the whole: so the first of the one is the first of the other.
    assert forall|j: int| pair_at(whole, j, '{') implies pair_at(tail, j - n, '{') by {
        if j + 1 < n {
            assert(pair_at(head, j, '{'));
        }
    }
    assert forall|j: int| pair_at(tail, j, '{') implies pair_at(whole, j + n, '{') by {}
}

/// Rendering leaves no placeholder behind: where none of the texts that
/// `entries` keeps holds a `{`, the rendered text, parsed again, has no
/// placeholder.
pub proof fn lemma_render_leaves_no_placeholder(
    parsed: ZipTemplate,
    template: Seq<char>,
    entries: Entries,
)
    requires
        parsed.is_parse_of(template),
        forall|key: Seq<char>| entries.contains_key(key) ==> !(#[trigger] entries[key]).contains('{'),
    ensures
        first_placeholder(parsed.rendered(entries)) is None,
        placeholder_count(parsed.rendered(entries)) == 0,
{
    lemma_render_substitutes(parsed, template, entries);
    lemma_substituted_has_no_placeholder(template, entries);
}

/// Where none of the texts that `entries` keeps holds a `{`, `s` with its
/// placeholders replaced has no placeholder.
proof fn lemma_substituted_has_no_placeholder(s: Seq<char>, entries: Entries)
    requires
        forall|key: Seq<char>| entries.contains_key(key) ==> !(#[trigger] entries[key]).contains('{'),
    ensures
        first_placeholder(substituted(s, entries)) is None,
    decreases s.len(),
{
    match first_placeholder(s) {
        Some((open, close)) => {
            lemma_first_placeholder_bounds(s);
            lemma_find_pair(s, '{');
            let rest = s.skip(close + 2);
            let value = lookup(entries, trimmed(s.subrange(open + 2, close)));
            let head = s.take(open) + value;
            let tail = substituted(rest, entries);
            lemma_substituted_has_no_placeholder(rest, entries);
            // The value holds no `{`, and the segment before the placeholder
            // holds no `{{` and does not end in `{`: else the placeholder
            // would open further left.
            assert(!value.contains('{'));
            assert forall|j: int| !pair_at(head, j, '{') by {
                if pair_at(head, j, '{') {
                    assert(j + 1 < open ==> pair_at(s, j, '{'));
                    assert(j + 1 >= open ==> value.contains(head[j + 1]));
                }
            }
            if head.len() > 0 && head.last() == '{' {
                assert(value.len() > 0 ==> value.contains(head.last()));
                assert(pair_at(s, open - 1, '{'));
            }
            lemma_find_open_behind(head, tail);
            if let Some(p) = find_pair(tail, '{') {
                lemma_find_pair(tail, '{');
                assert((head + tail).skip(head.len() + p + 2) =~= tail.skip(p + 2));
            }
            assert(substituted(s, entries) =~= head + tail);
        },
        None => {},
    }
}

/// Interleaving texts without braces gives a text without braces.
proof fn lemma_interleave_has_no_brace(statics: Seq<Seq<char>>, values: Seq<Seq<char>>)
    requires
        forall|i: int| 0 <= i < statics.len() ==> !has_brace(#[trigger] statics[i]),
        forall|i: int| 0 <= i < values.len() ==> !has_brace(#[trigger] values[i]),
    ensures
        !has_brace(interleave(statics, values)),
    decreases statics.len(),
{
    if statics.len() == 1 {
        assert(!has_brace(statics[0]));
    } else if statics.len() > 1 {
        let before = interleave(statics.drop_last(), values);
        let value = slot_value(values, statics.len() - 2);
        let last = statics.last();
        assert forall|i: int| 0 <= i < statics.len() - 1 implies !has_brace(
            #[trigger] statics.drop_last()[i],
        ) by {
            assert(!has_brace(statics[i]));
        }
        lemma_interleave_has_no_brace(statics.drop_last(), values);
        assert(!has_brace(last));
        assert(!has_brace(value)) by {
            if 0 <= statics.len() - 2 < values.len() {
                assert(!has_brace(values[statics.len() - 2]));
            }
        }
        let out = before + value + last;
        assert forall|j: int| 0 <= j < out.len() implies out[j] != '{' && out[j] != '}' by {
            if j < before.len() {
                assert(before.contains(out[j]));
            } else if j < before.len() + value.len() {
                assert(value.contains(out[j]));
            } else {
                assert(last.contains(out[j]));
            }
        }
    }
}

/// Rendering leaves no marker behind: where neither a segment of the template
/// nor a text that `entries` keeps holds a brace, the rendered text holds no
/// brace, and so neither `{{` nor `}}`.
pub proof fn lemma_render_leaves_no_marker(parsed: ZipTemplate, entries: Entries)
    requires
        forall|i: int|
            0 <= i < parsed.statics.len() ==> !has_brace(#[trigger] parsed.statics.deep_view()[i]),
        forall|key: Seq<char>| entries.contains_key(key) ==> !has_brace(#[trigger] entries[key]),
    ensures
        !has_brace(parsed.rendered(entries)),
        forall|j: int| !pair_at(parsed.rendered(entries), j, '{'),
        forall|j: int| !pair_at(parsed.rendered(entries), j, '}'),
{
    let out = parsed.rendered(entries);
    let keys = parsed.placeholders.deep_view();
    let values = resolved(keys, entries);
    assert forall|i: int| 0 <= i < values.len() implies !has_brace(#[trigger] values[i]) by {
        assert(entries.contains_key(keys[i]) ==> !has_brace(entries[keys[i]]));
    }
    lemma_interleave_has_no_brace(parsed.statics.deep_view(), values);
    assert forall|j: int| !pair_at(out, j, '{') && !pair_at(out, j, '}') by {
        if pair_at(out, j, '{') || pair_at(out, j, '}') {
            assert(out.contains(out[j]));
        }
    }
}

/// Rendering is a function of the template and the mapping: two renderings of
/// one template with one mapping give one text.
pub proof fn lemma_render_is_repeatable(
    parsed: ZipTemplate,
    entries: Entries,
    first: Seq<char>,
    second: Seq<char>,
)
    requires
        first == parsed.rendered(entries),
        second == parsed.rendered(entries),
    ensures
        first == second,
{
}

} // verus!
