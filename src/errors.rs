//! Why an enumeration cannot be resolved.
use vstd::prelude::*;

verus! {

/// A rejection of an enumeration, with the position (counted from zero, in
/// declaration order) of the variant it concerns where there is one.
#[derive(Clone, Copy, Debug, PartialEq, Eq, Structural)]
pub enum ResolveError {
    /// The declaration is not an enumeration.
    NotEnum,
    /// The enumeration has no variant.
    NoVariant,
    /// The variant carries data fields.
    NotUnitVariant(usize),
    /// The variant's value is not an integer literal, a negated one or a
    /// constant expression, or it lies outside the integer type.
    UnsupportedDiscriminant(usize),
    /// The variant's value is a constant expression, but no integer type was
    /// pinned for the enumeration.
    OpaqueWithoutPinnedWidth(usize),
}

/// The rejection of a declaration that is not an enumeration.
pub fn not_enum() -> (r: ResolveError)
    ensures
        r == ResolveError::NotEnum,
{
    ResolveError::NotEnum
}

/// The rejection of an enumeration with no variant.
pub fn no_variant() -> (r: ResolveError)
    ensures
        r == ResolveError::NoVariant,
{
    ResolveError::NoVariant
}

/// The rejection of the variant at `index`, which carries data fields.
pub fn not_unit_variant(index: usize) -> (r: ResolveError)
    ensures
        r == ResolveError::NotUnitVariant(index),
{
    ResolveError::NotUnitVariant(index)
}

/// The rejection of the value of the variant at `index`.
pub fn unsupported_discriminant(index: usize) -> (r: ResolveError)
    ensures
        r == ResolveError::UnsupportedDiscriminant(index),
{
    ResolveError::UnsupportedDiscriminant(index)
}

/// The rejection of a constant expression at `index` in an enumeration whose
/// integer type was not pinned.
pub fn constant_variable_on_non_determined_size_enum(index: usize) -> (r: ResolveError)
    ensures
        r == ResolveError::OpaqueWithoutPinnedWidth(index),
{
    ResolveError::OpaqueWithoutPinnedWidth(index)
}

} // verus!
