//! Flattening a structured value into texts by path.

use crate::decimal::{decimal, push_decimal};
use crate::flat_map::{flat_entries, flat_insert, flat_new, Entries};
use crate::json::{number_to_text, Json, JsonValue};
use crate::text::push_char;
use rustc_hash::FxHashMap;
use vstd::prelude::*;

verus! {

/// The path of what stands under `name` in the value at `prefix`: the two
/// joined by a dot, or `name` alone at the root.
pub open spec fn child_path(prefix: Seq<char>, name: Seq<char>) -> Seq<char> {
    if prefix.len() == 0 {
        name
    } else {
        prefix + seq!['.'] + name
    }
}

/// The text written for a boolean.
pub open spec fn bool_text(b: bool) -> Seq<char> {
    if b {
        seq!['t', 'r', 'u', 'e']
    } else {
        seq!['f', 'a', 'l', 's', 'e']
    }
}

/// `into`, and on top of it an entry for each scalar of `value`, under the
/// path that leads to it from `prefix`. A null gives the empty text, a string
/// its characters as they are, a boolean `true` or `false`, and a number the
/// text written for it. A member of an object stands under its name and an
/// item of an array under its index. Members and items are taken in order, so
/// that of two scalars with one path the later stays. Arrays and objects
/// have no entry of their own.
pub open spec fn flattened(value: Json, prefix: Seq<char>, into: Entries) -> Entries
    decreases value, 0nat,
{
    match value {
        Json::Null => into.insert(prefix, Seq::empty()),
        Json::Bool(b) => into.insert(prefix, bool_text(b)),
        Json::Number(text) => into.insert(prefix, text),
        Json::Text(text) => into.insert(prefix, text),
        Json::Array(items) => flattened_items(items, items.len(), prefix, into),
        Json::Object(members) => flattened_members(members, members.len(), prefix, into),
    }
}

/// `into`, and on top of it the entries of the first `count` of `items`.
pub open spec fn flattened_items(
    items: Seq<Json>,
    count: nat,
    prefix: Seq<char>,
    into: Entries,
) -> Entries
    decreases items, count,
{
    if count == 0 || count > items.len() {
        into
    } else {
        flattened(
            items[count - 1],
            child_path(prefix, decimal((count - 1) as nat)),
            flattened_items(items, (count - 1) as nat, prefix, into),
        )
    }
}

/// `into`, and on top of it the entries of the first `count` of `members`.
pub open spec fn flattened_members(
    members: Seq<(Seq<char>, Json)>,
    count: nat,
    prefix: Seq<char>,
    into: Entries,
) -> Entries
    decreases members, count,
{
    if count == 0 || count > members.len() {
        into
    } else {
        flattened(
            members[count - 1].1,
            child_path(prefix, members[count - 1].0),
            flattened_members(members, (count - 1) as nat, prefix, into),
        )
    }
}

/// The path of the member `name` of the object at `prefix`.
fn member_path(prefix: &String, name: &String) -> (path: String)
    ensures
        path@ == child_path(prefix@, name@),
{
    if prefix.as_str().is_empty() {
        name.clone()
    } else {
        let mut path = prefix.clone();
        push_char(&mut path, '.');
        path.append(name.as_str());
        path
    }
}

/// The path of the item `index` of the array at `prefix`.
fn item_path(prefix: &String, index: usize) -> (path: String)
    ensures
        path@ == child_path(prefix@, decimal(index as nat)),
{
    let mut path = if prefix.as_str().is_empty() {
        String::new()
    } else {
        let mut path = prefix.clone();
        push_char(&mut path, '.');
        path
    };
    push_decimal(&mut path, index);
    path
}

/// The text written for the boolean `b`.
fn bool_to_text(b: bool) -> (text: String)
    ensures
        text@ == bool_text(b),
{
    proof {
        reveal_strlit("true");
        reveal_strlit("false");
    }
    if b {
        String::from_str("true")
    } else {
        String::from_str("false")
    }
}

/// Adds to `out` the entries of `value`, which stands at `prefix`.
fn flatten_into(value: &JsonValue, prefix: String, out: &mut FxHashMap<String, String>)
    ensures
        flat_entries(*final(out)) == flattened(value@, prefix@, flat_entries(*old(out))),
    decreases value,
{
    let ghost before = flat_entries(*out);
    match value {
        JsonValue::Null => {
            flat_insert(out, prefix, String::new());
        },
        JsonValue::Bool(b) => {
            flat_insert(out, prefix, bool_to_text(*b));
        },
        JsonValue::Number(n) => {
            flat_insert(out, prefix, number_to_text(n));
        },
        JsonValue::String(text) => {
            flat_insert(out, prefix, text.clone());
        },
        JsonValue::Array(items) => {
            let ghost models = value@->Array_0;
            let mut i: usize = 0;
            while i < items.len()
                invariant
                    i <= items.len(),
                    *value == JsonValue::Array(*items),
                    models == value@->Array_0,
                    models.len() == items.len(),
                    flat_entries(*out) == flattened_items(models, i as nat, prefix@, before),
                decreases items.len() - i,
            {
                let path = item_path(&prefix, i);
                flatten_into(&items[i], path, out);
                i += 1;
            }
        },
        JsonValue::Object(members) => {
            let ghost models = value@->Object_0;
            let mut i: usize = 0;
            while i < members.len()
                invariant
                    i <= members.len(),
                    *value == JsonValue::Object(*members),
                    models == value@->Object_0,
                    models.len() == members.len(),
                    flat_entries(*out) == flattened_members(models, i as nat, prefix@, before),
                decreases members.len() - i,
            {
                let path = member_path(&prefix, &members[i].0);
                flatten_into(&members[i].1, path, out);
                i += 1;
            }
        },
    }
}

/// Flattens `value` into a mapping from the path of each of its scalars to
/// the text of that scalar. The root stands at the empty path.
pub fn flatten_json(value: &JsonValue) -> (flat: FxHashMap<String, String>)
    ensures
        flat_entries(flat) == flattened(value@, Seq::empty(), Entries::empty()),
{
    let mut flat = flat_new();
    flatten_into(value, String::new(), &mut flat);
    flat
}

} // verus!
