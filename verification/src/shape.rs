//! Shapes of port values, held as `arrayfire::Dim4`.

use arrayfire::Dim4;
use vstd::prelude::*;

verus! {

/// `arrayfire::Dim4`, carried through as an opaque value.
#[verifier::external_type_specification]
#[verifier::external_body]
pub struct ExDim4(Dim4);

/// The four extents that a `Dim4` holds, in order.
pub uninterp spec fn extents(d: Dim4) -> Seq<u64>;

/// Calls `Dim4::get`, which hands out the four stored extents; they are
/// copied into an array of the caller's own.
#[verifier::external_body]
pub(crate) fn extents_of(d: &Dim4) -> (r: [u64; 4])
    ensures
        r@ == extents(*d),
{
    *d.get()
}

/// Calls `Dim4`'s `==`, which the crate derives: two values are equal exactly
/// when the four extents they hold are equal, place by place.
#[verifier::external_body]
pub(crate) fn same_extents(a: &Dim4, b: &Dim4) -> (r: bool)
    ensures
        r == (extents(*a) == extents(*b)),
{
    a == b
}

/// The text that `Dim4` is displayed as. It depends on the four extents
/// alone.
pub uninterp spec fn dims_text(shape: Seq<u64>) -> Seq<char>;

/// Formats a `Dim4` through its `Display` impl, which writes the four
/// stored extents between square brackets.
#[verifier::external_body]
pub(crate) fn text_of(d: &Dim4) -> (s: String)
    ensures
        s@ == dims_text(extents(*d)),
{
    format!("{}", d)
}

} // verus!
