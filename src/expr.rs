//! The shape of a variant's declared value, and its classification.
use vstd::prelude::*;

use crate::number::{decimal_value, is_decimal, read_decimal, representable, Number};

verus! {

/// The shape of the expression that declares a variant's value.
#[derive(Debug)]
pub enum Expr {
    /// An integer literal, by the decimal digits of its value (no sign, base
    /// prefix, separator or suffix).
    IntLit(String),
    /// A literal of another kind (a string, a float, a boolean, ...).
    OtherLit,
    /// Unary minus applied to an operand.
    Neg(Box<Expr>),
    /// Another unary operator (`!`, `*`).
    OtherUnary,
    /// A path, naming a constant.
    Path,
    /// A cast (`x as i8`).
    Cast,
    /// A binary operation (`1 + 1`).
    Binary,
    /// A call (`eight()`).
    Call,
    /// Any other form.
    Other,
}

/// What a declared value is to the resolver.
#[derive(Clone, Copy, Debug)]
pub enum Class {
    /// An integer known now.
    Literal(Number),
    /// A constant expression that only the compiler evaluates.
    Opaque,
    /// A form that cannot give a variant's value.
    Unsupported,
}

/// Whether `e` is a constant expression left to the compiler: a path, a cast,
/// a binary operation or a call, negated or not.
pub open spec fn is_opaque(e: Expr) -> bool {
    match e {
        Expr::Path | Expr::Cast | Expr::Binary | Expr::Call => true,
        Expr::Neg(inner) => match *inner {
            Expr::Path | Expr::Cast | Expr::Binary | Expr::Call => true,
            _ => false,
        },
        _ => false,
    }
}

/// The integer that `e` writes, where it is an integer literal or a negated
/// one.
pub open spec fn literal_of(e: Expr) -> Option<int> {
    match e {
        Expr::IntLit(d) => if is_decimal(d@) {
            Some(decimal_value(d@))
        } else {
            None
        },
        Expr::Neg(inner) => match *inner {
            Expr::IntLit(d) => if is_decimal(d@) {
                Some(-decimal_value(d@))
            } else {
                None
            },
            _ => None,
        },
        _ => None,
    }
}

/// The class of `e`: a literal whose value can be written as a discriminant,
/// a constant expression, or neither.
pub open spec fn class_of(e: Expr) -> Option<Option<int>> {
    if is_opaque(e) {
        Some(None)
    } else {
        match literal_of(e) {
            Some(v) => if representable(v) {
                Some(Some(v))
            } else {
                None
            },
            None => None,
        }
    }
}

impl Class {
    /// The class as `class_of` gives it.
    pub open spec fn model(self) -> Option<Option<int>> {
        match self {
            Class::Literal(n) => Some(Some(n.value())),
            Class::Opaque => Some(None),
            Class::Unsupported => None,
        }
    }
}

/// Classifies a declared value.
pub fn classify(e: &Expr) -> (r: Class)
    ensures
        r.model() == class_of(*e),
{
    match e {
        Expr::IntLit(d) => match read_decimal(d.as_str()) {
            Some(v) => Class::Literal(Number::from_u128(v)),
            None => Class::Unsupported,
        },
        Expr::Neg(inner) => match &**inner {
            Expr::IntLit(d) => match read_decimal(d.as_str()) {
                Some(v) => match Number::negative_of(v) {
                    Some(n) => Class::Literal(n),
                    None => Class::Unsupported,
                },
                None => Class::Unsupported,
            },
            Expr::Path | Expr::Cast | Expr::Binary | Expr::Call => Class::Opaque,
            _ => Class::Unsupported,
        },
        Expr::Path | Expr::Cast | Expr::Binary | Expr::Call => Class::Opaque,
        _ => Class::Unsupported,
    }
}

} // verus!
