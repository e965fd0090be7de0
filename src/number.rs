//! Integers in the range that a discriminant can be written in.
use vstd::prelude::*;

verus! {

/// The least value a discriminant can take: that of `i128::MIN`.
pub open spec fn lowest() -> int {
    i128::MIN as int
}

/// The greatest value a discriminant can take: that of `u128::MAX`.
pub open spec fn highest() -> int {
    u128::MAX as int
}

/// Whether `v` can be written as a discriminant of some integer type.
pub open spec fn representable(v: int) -> bool {
    lowest() <= v <= highest()
}

/// An integer between `i128::MIN` and `u128::MAX`.
///
/// Both forms may hold any value of their type: `Negative(5)` is five. The
/// constructors pick `Negative` for negative values only. The operations go
/// by `value`; `==` compares the forms, `same_value` the values.
#[derive(Clone, Copy, Debug, PartialEq, Eq)]
pub enum Number {
    /// A value held as an `i128`; the constructors use it for negative values.
    Negative(i128),
    /// A value held as a `u128`.
    NonNegative(u128),
}

impl Number {
    /// The integer this number stands for.
    pub open spec fn value(self) -> int {
        match self {
            Number::Negative(v) => v as int,
            Number::NonNegative(v) => v as int,
        }
    }

    pub fn from_i128(v: i128) -> (r: Number)
        ensures
            r.value() == v,
    {
        if v < 0 {
            Number::Negative(v)
        } else {
            Number::NonNegative(v as u128)
        }
    }

    pub fn from_u128(v: u128) -> (r: Number)
        ensures
            r.value() == v,
    {
        Number::NonNegative(v)
    }

    /// The number `-m`, or `None` where it is below `i128::MIN`.
    pub fn negative_of(m: u128) -> (r: Option<Number>)
        ensures
            r is Some <==> representable(-m),
            r matches Some(n) ==> n.value() == -m,
    {
        if m == 0 {
            Some(Number::NonNegative(0))
        } else if m - 1 <= i128::MAX as u128 {
            let v: i128 = (m - 1) as i128;
            Some(Number::Negative(-v - 1))
        } else {
            None
        }
    }

    /// The value as an `i128`, where it fits.
    pub fn to_i128(&self) -> (r: Option<i128>)
        ensures
            r is Some <==> i128::MIN <= self.value() <= i128::MAX,
            r matches Some(v) ==> v == self.value(),
    {
        match *self {
            Number::Negative(v) => Some(v),
            Number::NonNegative(v) => if v <= i128::MAX as u128 {
                Some(v as i128)
            } else {
                None
            },
        }
    }

    /// The value as a `u128`, where it fits.
    pub fn to_u128(&self) -> (r: Option<u128>)
        ensures
            r is Some <==> 0 <= self.value(),
            r matches Some(v) ==> v == self.value(),
    {
        match *self {
            Number::Negative(v) => if v >= 0 {
                Some(v as u128)
            } else {
                None
            },
            Number::NonNegative(v) => Some(v),
        }
    }

    /// Whether the value is at least `lo`.
    pub fn at_least(&self, lo: i128) -> (r: bool)
        ensures
            r == (self.value() >= lo),
    {
        match *self {
            Number::Negative(v) => v >= lo,
            Number::NonNegative(v) => lo < 0 || v >= lo as u128,
        }
    }

    /// Whether the value is at most `hi`.
    pub fn at_most(&self, hi: u128) -> (r: bool)
        ensures
            r == (self.value() <= hi),
    {
        match *self {
            Number::Negative(v) => v < 0 || v as u128 <= hi,
            Number::NonNegative(v) => v <= hi,
        }
    }

    /// Whether the value is below that of `other`.
    pub fn less_than(&self, other: &Number) -> (r: bool)
        ensures
            r == (self.value() < other.value()),
    {
        match (*self, *other) {
            (Number::Negative(a), Number::Negative(b)) => a < b,
            (Number::NonNegative(a), Number::NonNegative(b)) => a < b,
            (Number::Negative(a), Number::NonNegative(b)) => a < 0 || (a as u128) < b,
            (Number::NonNegative(a), Number::Negative(b)) => b >= 0 && a < b as u128,
        }
    }

    /// Whether the two numbers have the same value.
    pub fn same_value(&self, other: &Number) -> (r: bool)
        ensures
            r == (self.value() == other.value()),
    {
        !self.less_than(other) && !other.less_than(self)
    }

    /// The value plus `k`, or `None` where that is above `u128::MAX`.
    pub fn plus(&self, k: usize) -> (r: Option<Number>)
        ensures
            r is Some <==> self.value() + k <= highest(),
            r matches Some(n) ==> n.value() == self.value() + k,
    {
        match *self {
            Number::Negative(v) => if v < 0 {
                Some(Number::from_i128(v + k as i128))
            } else {
                let u: u128 = v as u128;
                if u <= u128::MAX - k as u128 {
                    Some(Number::NonNegative(u + k as u128))
                } else {
                    None
                }
            },
            Number::NonNegative(u) => if u <= u128::MAX - k as u128 {
                Some(Number::NonNegative(u + k as u128))
            } else {
                None
            },
        }
    }
}

/// Whether `s` is a non-empty string of the ASCII digits `0` to `9`.
pub open spec fn is_decimal(s: Seq<char>) -> bool {
    s.len() > 0 && forall|i: int| 0 <= i < s.len() ==> is_digit(#[trigger] s[i])
}

pub open spec fn is_digit(c: char) -> bool {
    '0' <= c && c <= '9'
}

/// The number that the decimal digits `s` spell.
pub open spec fn decimal_value(s: Seq<char>) -> int
    decreases s.len(),
{
    if s.len() == 0 {
        0
    } else {
        decimal_value(s.drop_last()) * 10 + (s.last() as int - '0' as int)
    }
}

/// Relies on `BigInt::from_str` of num-bigint, which reads a string of decimal
/// digits as the number they spell, at any size, and on its
/// `ToPrimitive::to_u128`, which gives that number back where it fits a `u128`.
#[verifier::external_body]
fn parse_decimal(digits: &str) -> (r: Option<u128>)
    requires
        is_decimal(digits@),
    ensures
        r is Some <==> decimal_value(digits@) <= u128::MAX,
        r matches Some(v) ==> v == decimal_value(digits@),
{
    let big = <num_bigint::BigInt as std::str::FromStr>::from_str(digits).ok()?;
    num_traits::ToPrimitive::to_u128(&big)
}

/// Reads a string of decimal digits; `None` where it holds anything else, is
/// empty, or spells a number above `u128::MAX`.
pub fn read_decimal(s: &str) -> (r: Option<u128>)
    ensures
        r is Some <==> is_decimal(s@) && decimal_value(s@) <= u128::MAX,
        r matches Some(v) ==> v == decimal_value(s@),
{
    let n = s.unicode_len();
    if n == 0 {
        return None;
    }
    let mut i: usize = 0;
    while i < n
        invariant
            n == s@.len(),
            i <= n,
            forall|j: int| 0 <= j < i ==> is_digit(#[trigger] s@[j]),
        decreases n - i,
    {
        let c = s.get_char(i);
        if !('0' <= c && c <= '9') {
            return None;
        }
        i = i + 1;
    }
    parse_decimal(s)
}

} // verus!
