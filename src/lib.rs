//! Discriminant resolution for enumerations whose variants carry no data.
//!
//! Given the declared variants of such an enumeration, the library computes the
//! integer value of every variant, the narrowest signed integer type that holds
//! them all (unless one was pinned), and the plan of the lookups between
//! variants and values that code generated for the enumeration performs.
use vstd::prelude::*;

pub mod errors;
pub mod expr;
pub mod laws;
pub mod number;
pub mod resolve;
pub mod table;
pub mod traits;
pub mod width;

pub use errors::{
    constant_variable_on_non_determined_size_enum, no_variant, not_enum, not_unit_variant,
    unsupported_discriminant, ResolveError,
};
pub use expr::{classify, Class, Expr};
pub use number::{read_decimal, Number};
pub use resolve::{resolve, Declaration, Descriptor, Lookup, Resolution, Unchecked, Variant};
pub use table::Table;
pub use traits::Ordinalize;
pub use width::{select_width, IntRepr};

verus! {

} // verus!
