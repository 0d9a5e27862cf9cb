//! Flat mappings: from a path to the text that stands there.
//!
//! The mapping is a hash map of the standard library that hashes with
//! rustc_hash. Its methods are not verified: each is called in one small
//! function here, whose contract says over `flat_entries` what the method is
//! documented to do.

use rustc_hash::FxHashMap;
use vstd::prelude::*;

verus! {

/// rustc_hash's builder of hashers. It holds no state: every hasher it builds
/// starts alike, so equal keys hash alike.
#[verifier::external_type_specification]
#[verifier::external_body]
pub struct ExFxBuildHasher(rustc_hash::FxBuildHasher);

/// Texts by path.
pub type Entries = Map<Seq<char>, Seq<char>>;

/// What a flat mapping holds: for the text of each of its keys, the text of
/// the value kept under that key.
pub uninterp spec fn flat_entries(map: FxHashMap<String, String>) -> Entries;

/// Not verified. `HashMap::default` gives a map that holds nothing.
#[verifier::external_body]
pub(crate) fn flat_new() -> (flat: FxHashMap<String, String>)
    ensures
        flat_entries(flat) == Entries::empty(),
{
    FxHashMap::default()
}

/// Not verified. `HashMap::insert` keeps `value` under `key`, in place of what
/// was kept under an equal key before, and leaves every other entry as it was.
#[verifier::external_body]
pub(crate) fn flat_insert(map: &mut FxHashMap<String, String>, key: String, value: String)
    ensures
        flat_entries(*final(map)) == flat_entries(*old(map)).insert(key@, value@),
{
    map.insert(key, value);
}

/// Not verified. `HashMap::get` gives the value kept under a key equal to
/// `key`, and `None` where the map holds no such key.
#[verifier::external_body]
pub(crate) fn flat_get<'a>(
    map: &'a FxHashMap<String, String>,
    key: &String,
) -> (found: Option<&'a String>)
    ensures
        match found {
            Some(text) => flat_entries(*map).contains_key(key@) && text@ == flat_entries(*map)[key@],
            None => !flat_entries(*map).contains_key(key@),
        },
{
    map.get(key)
}

} // verus!
