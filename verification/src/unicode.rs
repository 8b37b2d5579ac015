//! Unicode case mapping, which the standard library implements from the
//! Unicode character database.

use vstd::prelude::*;
use crate::text::{all_ascii, ascii_lower, ascii_upper, is_ascii_char, upper_char};

verus! {

/// What `str::to_lowercase` returns for a string of these characters.
pub uninterp spec fn lowercase(s: Seq<char>) -> Seq<char>;

/// What `str::to_uppercase` returns for a string of these characters.
pub uninterp spec fn uppercase(s: Seq<char>) -> Seq<char>;

/// What `char::to_uppercase` yields for this character, collected.
pub uninterp spec fn char_uppercase(c: char) -> Seq<char>;

/// `str::to_lowercase`. Claimed: the result is the Unicode lower-case mapping
/// of `s` (named, not spelled out), and for an all-ASCII `s` it is the ASCII
/// lower-casing, character by character.
#[verifier::external_body]
pub(crate) fn to_lowercase(s: &str) -> (r: String)
    ensures
        r@ == lowercase(s@),
        all_ascii(s@) ==> r@ == ascii_lower(s@),
{
    s.to_lowercase()
}

/// `str::to_uppercase`. Claimed: the result is the Unicode upper-case mapping
/// of `s` (named, not spelled out), and for an all-ASCII `s` it is the ASCII
/// upper-casing, character by character.
#[verifier::external_body]
pub(crate) fn to_uppercase(s: &str) -> (r: String)
    ensures
        r@ == uppercase(s@),
        all_ascii(s@) ==> r@ == ascii_upper(s@),
{
    s.to_uppercase()
}

/// `char::to_uppercase`, collected into a string. Claimed: the result is the
/// Unicode upper-case mapping of `c` (named), and for an ASCII `c` it is the
/// single ASCII upper-case character.
#[verifier::external_body]
pub(crate) fn char_to_uppercase(c: char) -> (r: String)
    ensures
        r@ == char_uppercase(c),
        is_ascii_char(c) ==> r@ == seq![upper_char(c)],
{
    c.to_uppercase().collect::<String>()
}

} // verus!
