//! The interface that code generated for an enumeration implements.
use vstd::prelude::*;

verus! {

/// Gives an enumeration the integer value of each of its variants, and the
/// variant of each such value.
pub trait Ordinalize: Sized {
    /// The type of the values of the variants.
    type VariantType;

    /// The number of variants.
    fn variant_count() -> usize;

    /// The variant of `number`, which the caller knows to be the value of
    /// one.
    fn from_ordinal_unsafe(number: Self::VariantType) -> Self;

    /// The variant of `number`, if it is the value of one.
    fn from_ordinal(number: Self::VariantType) -> Option<Self>;

    /// The value of this variant.
    fn ordinal(&self) -> Self::VariantType;
}

} // verus!
