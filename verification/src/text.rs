//! Text primitives: the compact strings that tokens carry, and the few
//! string operations of the standard library that the lexer needs.

use ecow::EcoString;
use vstd::prelude::*;

verus! {

/// Makes the compact string type known to the verifier. Nothing of its
/// representation is visible; its contents are spoken of through
/// [`eco_chars`].
#[verifier::external_type_specification]
#[verifier::external_body]
pub struct ExEcoString(ecow::EcoString);

/// The characters that a compact string holds, in order.
pub uninterp spec fn eco_chars(s: EcoString) -> Seq<char>;

/// Calls `EcoString::from(String)`, which copies the bytes of the given
/// string into a new compact string, inline if they are few and on the
/// heap otherwise. Assumed: the result holds exactly the characters of the
/// argument. As with any allocation, nothing is claimed of a text too
/// long for the address space.
#[verifier::external_body]
pub(crate) fn eco_from_string(s: String) -> (r: EcoString)
    ensures
        eco_chars(r) == s@,
{
    EcoString::from(s)
}

/// Calls `EcoString::as_str`, which hands out the whole buffer as a string
/// slice. Assumed: the slice holds exactly the characters of the compact
/// string.
#[verifier::external_body]
pub(crate) fn eco_as_str(s: &EcoString) -> (r: &str)
    ensures
        r@ == eco_chars(*s),
{
    s.as_str()
}

/// Calls `EcoString::clone`, which copies an inline string and, for one
/// on the heap, shares the allocation and counts the reference. Assumed:
/// the copy holds the same characters. The count cannot overflow before
/// the copies themselves have filled the memory.
#[verifier::external_body]
pub(crate) fn eco_clone(s: &EcoString) -> (r: EcoString)
    ensures
        eco_chars(r) == eco_chars(*s),
{
    s.clone()
}

/// Calls `String::push` of the standard library. Assumed, as documented:
/// the character is appended at the end and nothing else changes.
#[verifier::external_body]
pub(crate) fn push_char(s: &mut String, c: char)
    ensures
        final(s)@ == old(s)@.push(c),
{
    s.push(c)
}

/// Calls `str::eq` of the standard library, written `==`. Assumed, as
/// documented: the result says whether both slices hold the same
/// characters.
#[verifier::external_body]
pub(crate) fn str_eq(a: &str, b: &str) -> (r: bool)
    ensures
        r == (a@ == b@),
{
    a == b
}

} // verus!
