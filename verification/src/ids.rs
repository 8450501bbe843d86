//! Fresh identifiers for subscriptions, authorization sessions and accounts.

use vstd::prelude::*;

verus! {

/// A fresh random identifier.
///
/// Which digits it has is left to chance, so two calls need not agree and
/// nothing here says that they differ. Its form is fixed: thirty-two small
/// hexadecimal digits in groups of eight, four, four, four and twelve
/// with hyphens between them, and the third group begins with `4`, which
/// is the version of the identifiers that are drawn at random. An
/// identifier is therefore never empty and holds no character of markup.
pub fn fresh_id() -> (id: String)
    ensures
        is_random_id(id@),
{
    random_uuid()
}

/// Whether `c` is a hexadecimal digit written small.
pub open spec fn is_small_hex(c: char) -> bool {
    ('0' <= c && c <= '9') || ('a' <= c && c <= 'f')
}

/// Whether `c` may stand at the place `i` of the text of a random
/// identifier: a hyphen after the eighth, twelfth, sixteenth and twentieth
/// digit, the version `4` as the thirteenth digit, a digit elsewhere.
pub open spec fn fits_place(i: int, c: char) -> bool {
    if i == 8 || i == 13 || i == 18 || i == 23 {
        c == '-'
    } else if i == 14 {
        c == '4'
    } else {
        is_small_hex(c)
    }
}

/// Whether `s` has the form of a random identifier.
pub open spec fn is_random_id(s: Seq<char>) -> bool {
    s.len() == 36 && forall|i: int| 0 <= i < 36 ==> fits_place(i, #[trigger] s[i])
}

/// `uuid::Uuid::new_v4` printed by its `Display`: a random identifier of
/// version 4 in the hyphenated form with small letters. Which digits it has
/// is left to chance; only the form is claimed.
#[verifier::external_body]
pub(crate) fn random_uuid() -> (id: String)
    ensures
        is_random_id(id@),
{
    uuid::Uuid::new_v4().to_string()
}

} // verus!
