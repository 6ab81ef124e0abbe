//! Unicode case mapping, as `char::to_uppercase` and `str::to_lowercase` do it.
use vstd::prelude::*;
use crate::text::{all_ascii, ascii_lower, ascii_upper, is_ascii_char, push_all};

verus! {

/// The characters that `char::to_uppercase` yields for `c`.
pub uninterp spec fn upper_of(c: char) -> Seq<char>;

/// What `str::to_lowercase` returns for a text.
pub uninterp spec fn lower_of(s: Seq<char>) -> Seq<char>;

/// Calls `char::to_uppercase` and collects what it yields.  The contract
/// names the result `upper_of(c)`, states that it is at least one character
/// (as the documentation says) and that an ASCII character maps to its ASCII
/// uppercase alone, as the Unicode case tables do.
#[verifier::external_body]
pub fn char_upper(c: char) -> (res: Vec<char>)
    ensures
        res@ == upper_of(c),
        res@.len() >= 1,
        is_ascii_char(c) ==> res@ == seq![ascii_upper(c)],
{
    c.to_uppercase().collect()
}

/// Calls `str::to_lowercase`.  The contract names the result `lower_of` of
/// the text and states that an all-ASCII text maps character by character to
/// its ASCII lowercase.
#[verifier::external_body]
pub fn str_lower(s: &str) -> (res: String)
    ensures
        res@ == lower_of(s@),
        all_ascii(s@) ==> res@ == s@.map_values(|c: char| ascii_lower(c)),
{
    s.to_lowercase()
}

/// `str::to_uppercase`: each character replaced by its uppercase mapping.
pub open spec fn upper_all(s: Seq<char>) -> Seq<char>
    decreases s.len(),
{
    if s.len() == 0 {
        Seq::empty()
    } else {
        upper_all(s.drop_last()) + upper_of(s.last())
    }
}

/// The uppercase of `s`, character by character.
pub fn upper_chars(s: &Vec<char>) -> (res: Vec<char>)
    ensures
        res@ == upper_all(s@),
{
    let mut res: Vec<char> = Vec::new();
    assert(s@.take(0) =~= Seq::<char>::empty());
    for i in 0..s.len()
        invariant
            res@ == upper_all(s@.take(i as int)),
    {
        assert(s@.take(i + 1).drop_last() == s@.take(i as int));
        let u = char_upper(s[i]);
        push_all(&mut res, &u);
    }
    assert(s@.take(s.len() as int) == s@);
    res
}

} // verus!
