//! What the library takes on trust: the items of `rand` and of std that it
//! calls and that no proof here looks into.

use rand::rngs::StdRng;
use rand::Rng;
use vstd::prelude::*;

verus! {

/// `rand::rngs::StdRng`, carried through the library as an opaque value.
#[verifier::external_type_specification]
#[verifier::external_body]
pub struct ExStdRng(StdRng);

/// Calls `Rng::gen_range` of `rand` on the half-open range `low..high`.
///
/// The range must not be empty, since `gen_range` panics on an empty range.
/// Whatever the generator yields, the value drawn lies in the range; nothing
/// is claimed of which value it is.
#[verifier::external_body]
pub(crate) fn draw_between(rng: &mut StdRng, low: usize, high: usize) -> (drawn: usize)
    requires
        low < high,
    ensures
        low <= drawn < high,
{
    rng.gen_range(low..high)
}

/// `String::push` of std appends the given character to the end of the
/// string.
pub assume_specification[ String::push ](text: &mut String, c: char)
    ensures
        final(text)@ == old(text)@.push(c),
;

} // verus!
