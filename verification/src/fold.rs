use vstd::prelude::*;

verus! {

/// The canonical lowercase fold of one character: locale-independent
/// simple case mapping, used by every case-insensitive operation.
pub uninterp spec fn fold_of(c: char) -> char;

/// Relies on char::to_lowercase: the lowercase mapping of a character is
/// a function of that character alone, independent of locale and
/// environment. The fold takes the mapping's first unit; for every
/// character whose mapping is a single unit this is the mapping itself.
#[verifier::external_body]
pub(crate) fn fold_char(c: char) -> (r: char)
    ensures
        r == fold_of(c),
{
    c.to_lowercase().next().unwrap_or(c)
}

} // verus!
