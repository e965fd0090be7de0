//! The lookups between variants and values that generated code performs, once
//! every value is known.
use vstd::prelude::*;

use crate::number::Number;
use crate::resolve::{Descriptor, Ordinal, Resolution};

verus! {

/// The values of an enumeration's variants, in declaration order, as the
/// compiled enumeration has them.
#[derive(Debug)]
pub struct Table {
    pub values: Vec<Number>,
}

/// Whether `i` is the first position of `vals` whose value is `v`.
pub open spec fn is_first(vals: Seq<Number>, v: int, i: int) -> bool {
    &&& 0 <= i < vals.len()
    &&& vals[i].value() == v
    &&& forall|j: int| 0 <= j < i ==> (#[trigger] vals[j]).value() != v
}

/// Whether some position of `vals` has the value `v`.
pub open spec fn has_value(vals: Seq<Number>, v: int) -> bool {
    exists|j: int| 0 <= j < vals.len() && (#[trigger] vals[j]).value() == v
}

/// Whether no two positions of `vals` have the same value.
pub open spec fn distinct_values(vals: Seq<Number>) -> bool {
    forall|i: int, j: int|
        0 <= i < vals.len() && 0 <= j < vals.len() && i != j ==> (#[trigger] vals[i]).value()
            != (#[trigger] vals[j]).value()
}

impl Table {
    /// The number of variants.
    pub fn variant_count(&self) -> (r: usize)
        ensures
            r == self.values@.len(),
    {
        self.values.len()
    }

    /// The value of the variant at `variant`.
    pub fn ordinal(&self, variant: usize) -> (r: Number)
        requires
            variant < self.values@.len(),
        ensures
            r == self.values@[variant as int],
    {
        self.values[variant]
    }

    /// The first variant whose value is that of `number`, if any; the
    /// position is counted from zero in declaration order.
    pub fn from_ordinal(&self, number: &Number) -> (r: Option<usize>)
        ensures
            r is None <==> !has_value(self.values@, number.value()),
            r matches Some(i) ==> is_first(self.values@, number.value(), i as int),
    {
        let mut i: usize = 0;
        while i < self.values.len()
            invariant
                i <= self.values@.len(),
                forall|j: int| 0 <= j < i ==> (#[trigger] self.values@[j]).value() != number.value(),
            decreases self.values@.len() - i,
        {
            if self.values[i].same_value(number) {
                return Some(i);
            }
            i = i + 1;
        }
        None
    }

    /// The variant of a value that the caller knows to belong to one; an
    /// enumeration with one variant gives it whatever the value.
    pub fn from_ordinal_unsafe(&self, number: &Number) -> (r: usize)
        requires
            self.values@.len() == 1 || has_value(self.values@, number.value()),
        ensures
            self.values@.len() == 1 ==> r == 0,
            self.values@.len() != 1 ==> is_first(self.values@, number.value(), r as int),
    {
        if self.values.len() == 1 {
            return 0;
        }
        match self.from_ordinal(number) {
            Some(i) => i,
            None => 0,
        }
    }
}

/// The value of `o` where the constant expression of the variant at position
/// `a` has the value `anchors[a]`.
pub open spec fn value_in(o: Ordinal, anchors: Seq<Number>) -> Option<int> {
    match o {
        Ordinal::Known(v) => Some(v),
        Ordinal::Anchored(a, k) => if a < anchors.len() {
            Some(anchors[a as int].value() + k)
        } else {
            None
        },
    }
}

impl Resolution {
    /// Whether the value of the variant at `i` is known from `anchors` and
    /// fits the integer type.
    pub open spec fn evaluates(self, i: int, anchors: Seq<Number>) -> bool {
        value_in(self.ordinals@[i].model(), anchors) matches Some(v) && self.width.covers(v)
    }

    /// The values of the variants, where `anchors[a]` is the value that the
    /// compiler gives the constant expression of the variant at position `a`
    /// (entries at other positions are not read). `None` where a value needs
    /// an entry that is missing, or leaves the integer type.
    pub fn evaluate(&self, anchors: &Vec<Number>) -> (r: Option<Table>)
        ensures
            r is Some <==> forall|i: int| 0 <= i < self.ordinals@.len() ==> self.evaluates(i, anchors@),
            r matches Some(t) ==> {
                &&& t.values@.len() == self.ordinals@.len()
                &&& forall|i: int| 0 <= i < self.ordinals@.len()
                    ==> value_in(self.ordinals@[i].model(), anchors@) == Some((#[trigger] t.values@[i]).value())
            },
    {
        let mut values: Vec<Number> = Vec::new();
        let mut i: usize = 0;
        while i < self.ordinals.len()
            invariant
                i <= self.ordinals@.len(),
                values@.len() == i,
                forall|j: int| 0 <= j < i ==> self.evaluates(j, anchors@),
                forall|j: int| 0 <= j < i
                    ==> value_in(self.ordinals@[j].model(), anchors@) == Some((#[trigger] values@[j]).value()),
            decreases self.ordinals@.len() - i,
        {
            let v = match self.ordinals[i] {
                Descriptor::Known(x) => x,
                Descriptor::Anchored { anchor, offset } => {
                    if anchor >= anchors.len() {
                        assert(!self.evaluates(i as int, anchors@));
                        return None;
                    }
                    match anchors[anchor].plus(offset) {
                        Some(x) => x,
                        None => {
                            proof {
                                assert(!self.width.covers(anchors@[anchor as int].value() + offset));
                                assert(!self.evaluates(i as int, anchors@));
                            }
                            return None;
                        },
                    }
                },
            };
            if !self.width.holds(&v) {
                assert(!self.evaluates(i as int, anchors@));
                return None;
            }
            values.push(v);
            i = i + 1;
        }
        Some(Table { values })
    }
}

} // verus!
