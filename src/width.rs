//! The integer types that an enumeration's values can be held in, and the
//! choice of the narrowest one.
use vstd::prelude::*;

use crate::number::Number;

verus! {

/// An integer type named in a representation directive (`#[repr(u16)]`), or
/// chosen for an enumeration that names none.
#[derive(Clone, Copy, Debug, PartialEq, Eq, Structural)]
pub enum IntRepr {
    I8,
    I16,
    I32,
    I64,
    I128,
    Isize,
    U8,
    U16,
    U32,
    U64,
    U128,
    Usize,
}

impl IntRepr {
    /// The least value of the type.
    pub open spec fn min(self) -> int {
        match self {
            IntRepr::I8 => i8::MIN as int,
            IntRepr::I16 => i16::MIN as int,
            IntRepr::I32 => i32::MIN as int,
            IntRepr::I64 => i64::MIN as int,
            IntRepr::I128 => i128::MIN as int,
            IntRepr::Isize => isize::MIN as int,
            _ => 0,
        }
    }

    /// The greatest value of the type.
    pub open spec fn max(self) -> int {
        match self {
            IntRepr::I8 => i8::MAX as int,
            IntRepr::I16 => i16::MAX as int,
            IntRepr::I32 => i32::MAX as int,
            IntRepr::I64 => i64::MAX as int,
            IntRepr::I128 => i128::MAX as int,
            IntRepr::Isize => isize::MAX as int,
            IntRepr::U8 => u8::MAX as int,
            IntRepr::U16 => u16::MAX as int,
            IntRepr::U32 => u32::MAX as int,
            IntRepr::U64 => u64::MAX as int,
            IntRepr::U128 => u128::MAX as int,
            IntRepr::Usize => usize::MAX as int,
        }
    }

    /// Whether the type holds `v`.
    pub open spec fn covers(self, v: int) -> bool {
        self.min() <= v <= self.max()
    }

    /// The least value of the type, as an `i128`.
    pub fn lower_bound(&self) -> (r: i128)
        ensures
            r == self.min(),
    {
        match *self {
            IntRepr::I8 => i8::MIN as i128,
            IntRepr::I16 => i16::MIN as i128,
            IntRepr::I32 => i32::MIN as i128,
            IntRepr::I64 => i64::MIN as i128,
            IntRepr::I128 => i128::MIN,
            IntRepr::Isize => isize::MIN as i128,
            _ => 0,
        }
    }

    /// The greatest value of the type, as a `u128`.
    pub fn upper_bound(&self) -> (r: u128)
        ensures
            r == self.max(),
    {
        match *self {
            IntRepr::I8 => i8::MAX as u128,
            IntRepr::I16 => i16::MAX as u128,
            IntRepr::I32 => i32::MAX as u128,
            IntRepr::I64 => i64::MAX as u128,
            IntRepr::I128 => i128::MAX as u128,
            IntRepr::Isize => isize::MAX as u128,
            IntRepr::U8 => u8::MAX as u128,
            IntRepr::U16 => u16::MAX as u128,
            IntRepr::U32 => u32::MAX as u128,
            IntRepr::U64 => u64::MAX as u128,
            IntRepr::U128 => u128::MAX,
            IntRepr::Usize => usize::MAX as u128,
        }
    }

    /// Whether the type holds the value of `n`.
    pub fn holds(&self, n: &Number) -> (r: bool)
        ensures
            r == self.covers(n.value()),
    {
        n.at_least(self.lower_bound()) && n.at_most(self.upper_bound())
    }

    /// The position of the type among the signed types that are chosen from,
    /// narrowest first; `None` for the others.
    pub open spec fn rank(self) -> Option<nat> {
        match self {
            IntRepr::I8 => Some(0),
            IntRepr::I16 => Some(1),
            IntRepr::I32 => Some(2),
            IntRepr::I64 => Some(3),
            IntRepr::I128 => Some(4),
            _ => None,
        }
    }
}

/// The narrowest of `i8`, `i16`, `i32`, `i64` and `i128` that holds both `lo`
/// and `hi`, if any does.
pub open spec fn narrowest(lo: int, hi: int) -> Option<IntRepr> {
    if IntRepr::I8.covers(lo) && IntRepr::I8.covers(hi) {
        Some(IntRepr::I8)
    } else if IntRepr::I16.covers(lo) && IntRepr::I16.covers(hi) {
        Some(IntRepr::I16)
    } else if IntRepr::I32.covers(lo) && IntRepr::I32.covers(hi) {
        Some(IntRepr::I32)
    } else if IntRepr::I64.covers(lo) && IntRepr::I64.covers(hi) {
        Some(IntRepr::I64)
    } else if IntRepr::I128.covers(lo) && IntRepr::I128.covers(hi) {
        Some(IntRepr::I128)
    } else {
        None
    }
}

/// Chooses the narrowest signed type that holds every value from `min` to
/// `max`; `None` where even `i128` does not.
pub fn select_width(min: &Number, max: &Number) -> (r: Option<IntRepr>)
    ensures
        r == narrowest(min.value(), max.value()),
{
    let candidates = [IntRepr::I8, IntRepr::I16, IntRepr::I32, IntRepr::I64, IntRepr::I128];
    let mut i: usize = 0;
    while i < 5
        invariant
            0 <= i <= 5,
            candidates@ == seq![IntRepr::I8, IntRepr::I16, IntRepr::I32, IntRepr::I64, IntRepr::I128],
            forall|j: int| 0 <= j < i ==> !(#[trigger] candidates@[j].covers(min.value()) && candidates@[j].covers(max.value())),
        decreases 5 - i,
    {
        let w = candidates[i];
        if w.holds(min) && w.holds(max) {
            assert(candidates@[i as int] == w);
            return Some(w);
        }
        assert(candidates@[i as int] == w);
        i = i + 1;
    }
    assert(!(candidates@[4].covers(min.value()) && candidates@[4].covers(max.value())));
    None
}

/// The width chosen for a range holds every value of the range, and no
/// narrower candidate holds both of its ends.
pub proof fn lemma_narrowest(lo: int, hi: int)
    requires
        lo <= hi,
    ensures
        narrowest(lo, hi) matches Some(w) ==> {
            &&& w.rank() is Some
            &&& forall|v: int| lo <= v <= hi ==> w.covers(v)
            &&& forall|u: IntRepr| #[trigger] u.rank() matches Some(k) && k < w.rank()->0
                ==> !(u.covers(lo) && u.covers(hi))
        },
        narrowest(lo, hi) is None ==> !(IntRepr::I128.covers(lo) && IntRepr::I128.covers(hi)),
{
}

} // verus!
