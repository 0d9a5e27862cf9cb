//! Strings as sequences of characters: taking them apart and putting them
//! together.

use vstd::prelude::*;

verus! {

/// Not verified. `String::push` appends the one character `c` to the end of
/// `text` and leaves the rest of `text` as it was.
#[verifier::external_body]
pub(crate) fn push_char(text: &mut String, c: char)
    ensures
        final(text)@ == old(text)@.push(c),
{
    text.push(c)
}

/// Not verified. `String::try_reserve` asks for room for `additional` more
/// bytes and leaves the text of `text` as it was, whether or not the room was
/// had.
#[verifier::external_body]
pub(crate) fn reserve_hint(text: &mut String, additional: usize)
    ensures
        final(text)@ == old(text)@,
{
    let _ = text.try_reserve(additional);
}

/// The characters of `s`, in order.
pub(crate) fn chars_of(s: &str) -> (chars: Vec<char>)
    ensures
        chars@ == s@,
{
    let mut chars: Vec<char> = Vec::new();
    for c in it: s.chars()
        invariant
            it.seq() == s@,
            chars@ == it.seq().take(it.index() as int),
    {
        chars.push(c);
    }
    chars
}

/// The string made of `chars[lo..hi]`.
pub(crate) fn text_between(chars: &Vec<char>, lo: usize, hi: usize) -> (text: String)
    requires
        lo <= hi <= chars.len(),
    ensures
        text@ == chars@.subrange(lo as int, hi as int),
{
    let mut text = String::new();
    let mut i = lo;
    while i < hi
        invariant
            lo <= i <= hi <= chars.len(),
            text@ == chars@.subrange(lo as int, i as int),
        decreases hi - i,
    {
        push_char(&mut text, chars[i]);
        i += 1;
    }
    text
}

} // verus!
