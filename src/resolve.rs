//! The resolution of an enumeration's variants into values, an integer type
//! and a lookup plan.
use vstd::prelude::*;

use crate::errors::{
    constant_variable_on_non_determined_size_enum, no_variant, not_enum, not_unit_variant,
    unsupported_discriminant, ResolveError,
};
use crate::expr::{class_of, classify, Class, Expr};
use crate::number::{highest, lowest, representable, Number};
use crate::width::{narrowest, select_width, IntRepr};

verus! {

/// A declared variant.
#[derive(Debug)]
pub struct Variant {
    /// The variant's name.
    pub name: String,
    /// Whether the variant carries no data fields.
    pub unit: bool,
    /// The expression that declares the variant's value, if any.
    pub discriminant: Option<Expr>,
}

/// A declaration offered for resolution.
#[derive(Debug)]
pub struct Declaration {
    /// Whether the declaration is an enumeration.
    pub is_enum: bool,
    /// The integer type pinned by a representation directive, if any.
    pub repr: Option<IntRepr>,
    /// The variants, in declaration order.
    pub variants: Vec<Variant>,
}

/// The value of a variant.
pub enum Ordinal {
    /// A value known when the enumeration is resolved.
    Known(int),
    /// The value of the constant expression declared on the variant at the
    /// first position, plus the second.
    Anchored(nat, nat),
}

/// A variant's value as resolution hands it out.
#[derive(Clone, Copy, Debug, PartialEq, Eq)]
pub enum Descriptor {
    /// A value known now.
    Known(Number),
    /// The value of the constant expression declared on the variant at
    /// `anchor`, plus `offset`.
    Anchored { anchor: usize, offset: usize },
}

impl Descriptor {
    pub open spec fn model(self) -> Ordinal {
        match self {
            Descriptor::Known(n) => Ordinal::Known(n.value()),
            Descriptor::Anchored { anchor, offset } => Ordinal::Anchored(anchor as nat, offset as nat),
        }
    }
}

/// Whether `ds` stands for `ords`, entry by entry.
pub open spec fn models(ds: Seq<Descriptor>, ords: Seq<Ordinal>) -> bool {
    &&& ds.len() == ords.len()
    &&& forall|i: int| 0 <= i < ds.len() ==> (#[trigger] ds[i]).model() == ords[i]
}

/// How generated code finds the variant of a value.
#[derive(Clone, Copy, Debug, PartialEq, Eq, Structural)]
pub enum Lookup {
    /// One match over the literal values.
    Match,
    /// Comparisons against each value in declaration order, the first equal
    /// one winning; needed where a value is a constant expression, which
    /// cannot stand as a pattern.
    Sequential,
}

/// How generated code turns a value that is known to belong to a variant into
/// that variant.
#[derive(Clone, Copy, Debug, PartialEq, Eq, Structural)]
pub enum Unchecked {
    /// The enumeration has one variant, which is returned whatever the value.
    Sole,
    /// The value is reinterpreted as the enumeration.
    Reinterpret,
}

/// A resolved enumeration.
#[derive(Debug)]
pub struct Resolution {
    /// The integer type of the values.
    pub width: IntRepr,
    /// The variants' names, in declaration order.
    pub names: Vec<String>,
    /// The variants' values, in declaration order.
    pub ordinals: Vec<Descriptor>,
    /// How the variant of a value is found.
    pub lookup: Lookup,
    /// How a trusted value becomes a variant.
    pub unchecked: Unchecked,
}

/// The state of the resolver after a prefix of the variants.
pub enum Scan {
    /// A variant was rejected.
    Failed(ResolveError),
    /// The values so far; the value of the next variant without a declared
    /// value while no constant expression is in force; and the variant whose
    /// constant expression is in force, with the next offset from it.
    Running { ords: Seq<Ordinal>, counter: int, chain: Option<(nat, nat)> },
}

/// The resolver's step on the variant `v` at position `i`.
pub open spec fn step(s: Scan, v: Variant, i: int, pinned: bool) -> Scan {
    match s {
        Scan::Failed(e) => Scan::Failed(e),
        Scan::Running { ords, counter, chain } => if !v.unit {
            Scan::Failed(ResolveError::NotUnitVariant(i as usize))
        } else {
            match v.discriminant {
                None => match chain {
                    None => if representable(counter) {
                        Scan::Running {
                            ords: ords.push(Ordinal::Known(counter)),
                            counter: counter + 1,
                            chain: None,
                        }
                    } else {
                        Scan::Failed(ResolveError::UnsupportedDiscriminant(i as usize))
                    },
                    Some((a, k)) => Scan::Running {
                        ords: ords.push(Ordinal::Anchored(a, k)),
                        counter,
                        chain: Some((a, k + 1)),
                    },
                },
                Some(e) => match class_of(e) {
                    Some(Some(x)) => Scan::Running {
                        ords: ords.push(Ordinal::Known(x)),
                        counter: x + 1,
                        chain: None,
                    },
                    Some(None) => if pinned {
                        Scan::Running {
                            ords: ords.push(Ordinal::Anchored(i as nat, 0)),
                            counter,
                            chain: Some((i as nat, 1)),
                        }
                    } else {
                        Scan::Failed(ResolveError::OpaqueWithoutPinnedWidth(i as usize))
                    },
                    None => Scan::Failed(ResolveError::UnsupportedDiscriminant(i as usize)),
                },
            }
        },
    }
}

/// The resolver's state after the first `i` of `vs`.
pub open spec fn scan(vs: Seq<Variant>, pinned: bool, i: nat) -> Scan
    decreases i,
{
    if i == 0 || i > vs.len() {
        Scan::Running { ords: Seq::empty(), counter: 0, chain: None }
    } else {
        step(scan(vs, pinned, (i - 1) as nat), vs[i - 1], i - 1, pinned)
    }
}

/// Whether every known value of `ords` fits `w`.
pub open spec fn fits(ords: Seq<Ordinal>, w: IntRepr) -> bool {
    forall|i: int| 0 <= i < ords.len() ==> match #[trigger] ords[i] {
        Ordinal::Known(v) => w.covers(v),
        _ => true,
    }
}

/// Whether the known value at `i` is the first that does not fit `w`.
pub open spec fn first_unfit(ords: Seq<Ordinal>, w: IntRepr, i: int) -> bool {
    &&& 0 <= i < ords.len()
    &&& ords[i] matches Ordinal::Known(v) && !w.covers(v)
    &&& fits(ords.take(i), w)
}

/// The narrowest of the signed types that every known value fits.
pub open spec fn auto_width(ords: Seq<Ordinal>) -> Option<IntRepr> {
    if fits(ords, IntRepr::I8) {
        Some(IntRepr::I8)
    } else if fits(ords, IntRepr::I16) {
        Some(IntRepr::I16)
    } else if fits(ords, IntRepr::I32) {
        Some(IntRepr::I32)
    } else if fits(ords, IntRepr::I64) {
        Some(IntRepr::I64)
    } else if fits(ords, IntRepr::I128) {
        Some(IntRepr::I128)
    } else {
        None
    }
}

/// The type that the values must fit: the pinned one, else `i128`.
pub open spec fn target_width(repr: Option<IntRepr>) -> IntRepr {
    match repr {
        Some(w) => w,
        None => IntRepr::I128,
    }
}

/// The integer type of the values: the pinned one where they fit it, else the
/// narrowest signed type they fit.
pub open spec fn chosen_width(ords: Seq<Ordinal>, repr: Option<IntRepr>) -> Option<IntRepr> {
    match repr {
        Some(w) => if fits(ords, w) {
            Some(w)
        } else {
            None
        },
        None => auto_width(ords),
    }
}

/// Whether some value of `ords` is a constant expression.
pub open spec fn has_anchored(ords: Seq<Ordinal>) -> bool {
    exists|i: int| 0 <= i < ords.len() && #[trigger] ords[i] is Anchored
}

/// The values of the variants of `d`, where the scan over them goes through.
pub open spec fn ordinals_of(d: Declaration) -> Seq<Ordinal> {
    match scan(d.variants@, d.repr is Some, d.variants@.len()) {
        Scan::Running { ords, .. } => ords,
        Scan::Failed(_) => Seq::empty(),
    }
}

/// Whether `d` resolves.
pub open spec fn resolves(d: Declaration) -> bool {
    &&& d.is_enum
    &&& d.variants@.len() > 0
    &&& scan(d.variants@, d.repr is Some, d.variants@.len()) is Running
    &&& chosen_width(ordinals_of(d), d.repr) is Some
}

/// Whether `e` is the rejection that `d` meets: the first failing check, in the
/// order declaration kind, variant count, each variant in turn, and last the
/// integer type, located at the first value that does not fit it.
pub open spec fn rejected_by(d: Declaration, e: ResolveError) -> bool {
    if !d.is_enum {
        e == ResolveError::NotEnum
    } else if d.variants@.len() == 0 {
        e == ResolveError::NoVariant
    } else {
        match scan(d.variants@, d.repr is Some, d.variants@.len()) {
            Scan::Failed(f) => e == f,
            Scan::Running { ords, .. } => e matches ResolveError::UnsupportedDiscriminant(i)
                && first_unfit(ords, target_width(d.repr), i as int),
        }
    }
}

impl Resolution {
    /// Whether this is the resolution of `d`.
    pub open spec fn of(self, d: Declaration) -> bool {
        let ords = ordinals_of(d);
        &&& models(self.ordinals@, ords)
        &&& self.names@.len() == d.variants@.len()
        &&& forall|i: int| 0 <= i < d.variants@.len() ==> (#[trigger] self.names@[i])@ == d.variants@[i].name@
        &&& chosen_width(ords, d.repr) == Some(self.width)
        &&& self.lookup == (if has_anchored(ords) { Lookup::Sequential } else { Lookup::Match })
        &&& self.unchecked == (if d.variants@.len() == 1 { Unchecked::Sole } else { Unchecked::Reinterpret })
    }
}

/// Resolves the variants of `d`.
pub fn resolve(d: &Declaration) -> (r: Result<Resolution, ResolveError>)
    ensures
        r is Ok <==> resolves(*d),
        r matches Ok(res) ==> res.of(*d),
        r matches Err(e) ==> rejected_by(*d, e),
{
    if !d.is_enum {
        return Err(not_enum());
    }
    let n = d.variants.len();
    if n == 0 {
        return Err(no_variant());
    }
    let pinned = d.repr.is_some();
    let ghost vs = d.variants@;
    let mut ordinals: Vec<Descriptor> = Vec::new();
    let mut names: Vec<String> = Vec::new();
    let mut counter: Option<Number> = Some(Number::NonNegative(0));
    let mut chain: Option<(usize, usize)> = None;
    let mut any_anchored = false;
    let mut i: usize = 0;
    while i < n
        invariant
            d.is_enum,
            n == vs.len(),
            vs == d.variants@,
            pinned == d.repr is Some,
            i <= n,
            names@.len() == i,
            forall|j: int| 0 <= j < i ==> (#[trigger] names@[j])@ == vs[j].name@,
            scan(vs, pinned, i as nat) matches Scan::Running { ords, counter: c, chain: ch } && {
                &&& models(ordinals@, ords)
                &&& lowest() <= c <= highest() + 1
                &&& (counter is Some <==> c <= highest())
                &&& (counter matches Some(x) ==> x.value() == c)
                &&& match chain {
                    None => ch is None,
                    Some((a, k)) => ch == Some((a as nat, k as nat)) && k <= i,
                }
                &&& any_anchored == has_anchored(ords)
            },
        decreases n - i,
    {
        let ghost before = scan(vs, pinned, i as nat);
        let ghost ords = before->ords;
        assert(scan(vs, pinned, (i + 1) as nat) == step(before, vs[i as int], i as int, pinned));
        let v = &d.variants[i];
        if !v.unit {
            proof {
                lemma_failed_persists(vs, pinned, (i + 1) as nat, n as nat);
            }
            return Err(not_unit_variant(i));
        }
        match &v.discriminant {
            None => match chain {
                None => match counter {
                    Some(c) => {
                        ordinals.push(Descriptor::Known(c));
                        counter = c.plus(1);
                    },
                    None => {
                        proof {
                            lemma_failed_persists(vs, pinned, (i + 1) as nat, n as nat);
                        }
                        return Err(unsupported_discriminant(i));
                    },
                },
                Some((a, k)) => {
                    ordinals.push(Descriptor::Anchored { anchor: a, offset: k });
                    chain = Some((a, k + 1));
                    any_anchored = true;
                },
            },
            Some(e) => match classify(e) {
                Class::Literal(x) => {
                    ordinals.push(Descriptor::Known(x));
                    counter = x.plus(1);
                    chain = None;
                },
                Class::Opaque => {
                    if !pinned {
                        proof {
                            lemma_failed_persists(vs, pinned, (i + 1) as nat, n as nat);
                        }
                        return Err(constant_variable_on_non_determined_size_enum(i));
                    }
                    ordinals.push(Descriptor::Anchored { anchor: i, offset: 0 });
                    chain = Some((i, 1));
                    any_anchored = true;
                },
                Class::Unsupported => {
                    proof {
                        lemma_failed_persists(vs, pinned, (i + 1) as nat, n as nat);
                    }
                    return Err(unsupported_discriminant(i));
                },
            },
        }
        proof {
            let after = scan(vs, pinned, (i + 1) as nat);
            assert(after is Running);
            let ords2 = after->ords;
            assert(ords2 == ords.push(ordinals@.last().model()));
            assert(forall|j: int| 0 <= j < ords.len() ==> ords2[j] == ords[j]);
            if has_anchored(ords) {
                let w = choose|j: int| 0 <= j < ords.len() && #[trigger] ords[j] is Anchored;
                assert(ords2[w] is Anchored);
            }
            if has_anchored(ords2) {
                let w = choose|j: int| 0 <= j < ords2.len() && #[trigger] ords2[j] is Anchored;
                if w < ords.len() {
                    assert(ords[w] is Anchored);
                }
            }
            assert(models(ordinals@, ords2));
        }
        names.push(v.name.clone());
        i = i + 1;
    }
    let ghost ords = scan(vs, pinned, n as nat)->ords;
    assert(ords == ordinals_of(*d));
    assert(models(ordinals@, ords));
    let width = match d.repr {
        Some(w) => match first_unfit_index(&ordinals, w, Ghost(ords)) {
            Some(j) => {
                return Err(unsupported_discriminant(j));
            },
            None => w,
        },
        None => match value_bounds(&ordinals, Ghost(ords)) {
            Some((lo, hi)) => match select_width(&lo, &hi) {
                Some(w) => {
                    proof {
                        lemma_fits_bounds(ords, lo.value(), hi.value());
                    }
                    w
                },
                None => {
                    proof {
                        lemma_fits_bounds(ords, lo.value(), hi.value());
                    }
                    let j = first_unfit_index(&ordinals, IntRepr::I128, Ghost(ords)).unwrap();
                    return Err(unsupported_discriminant(j));
                },
            },
            None => IntRepr::I8,
        },
    };
    let lookup = if any_anchored {
        Lookup::Sequential
    } else {
        Lookup::Match
    };
    let unchecked = if n == 1 {
        Unchecked::Sole
    } else {
        Unchecked::Reinterpret
    };
    Ok(Resolution { width, names, ordinals, lookup, unchecked })
}

/// Where the known values lie between `lo` and `hi`, both reached, each
/// signed type fits them all exactly when it holds both ends.
proof fn lemma_fits_bounds(ords: Seq<Ordinal>, lo: int, hi: int)
    requires
        exists|i: int| 0 <= i < ords.len() && #[trigger] ords[i] == Ordinal::Known(lo),
        exists|i: int| 0 <= i < ords.len() && #[trigger] ords[i] == Ordinal::Known(hi),
        forall|i: int| 0 <= i < ords.len() ==> match #[trigger] ords[i] {
            Ordinal::Known(v) => lo <= v <= hi,
            _ => true,
        },
    ensures
        forall|w: IntRepr| #[trigger] fits(ords, w) <==> w.covers(lo) && w.covers(hi),
        auto_width(ords) == narrowest(lo, hi),
{
    assert forall|w: IntRepr| #[trigger] fits(ords, w) <==> w.covers(lo) && w.covers(hi) by {
        let a = choose|i: int| 0 <= i < ords.len() && #[trigger] ords[i] == Ordinal::Known(lo);
        let b = choose|i: int| 0 <= i < ords.len() && #[trigger] ords[i] == Ordinal::Known(hi);
        if fits(ords, w) {
            assert(match ords[a] {
                Ordinal::Known(v) => w.covers(v),
                _ => true,
            });
            assert(match ords[b] {
                Ordinal::Known(v) => w.covers(v),
                _ => true,
            });
        }
    }
}

/// The least and the greatest known value, if any value is known.
fn value_bounds(ds: &Vec<Descriptor>, Ghost(ords): Ghost<Seq<Ordinal>>) -> (r: Option<(Number, Number)>)
    requires
        models(ds@, ords),
    ensures
        r matches Some((lo, hi)) ==> {
            &&& exists|i: int| 0 <= i < ords.len() && #[trigger] ords[i] == Ordinal::Known(lo.value())
            &&& exists|i: int| 0 <= i < ords.len() && #[trigger] ords[i] == Ordinal::Known(hi.value())
            &&& forall|i: int| 0 <= i < ords.len() ==> match #[trigger] ords[i] {
                Ordinal::Known(v) => lo.value() <= v <= hi.value(),
                _ => true,
            }
        },
        r is None ==> forall|i: int| 0 <= i < ords.len() ==> (#[trigger] ords[i]) is Anchored,
{
    let mut bounds: Option<(Number, Number)> = None;
    let mut i: usize = 0;
    while i < ds.len()
        invariant
            i <= ds@.len(),
            models(ds@, ords),
            bounds matches Some((lo, hi)) ==> {
                &&& exists|j: int| 0 <= j < i && #[trigger] ords[j] == Ordinal::Known(lo.value())
                &&& exists|j: int| 0 <= j < i && #[trigger] ords[j] == Ordinal::Known(hi.value())
                &&& forall|j: int| 0 <= j < i ==> match #[trigger] ords[j] {
                    Ordinal::Known(v) => lo.value() <= v <= hi.value(),
                    _ => true,
                }
            },
            bounds is None ==> forall|j: int| 0 <= j < i ==> (#[trigger] ords[j]) is Anchored,
        decreases ds@.len() - i,
    {
        assert(ords[i as int] == ds@[i as int].model());
        if let Descriptor::Known(x) = ds[i] {
            bounds = match bounds {
                None => Some((x, x)),
                Some((lo, hi)) => {
                    let lo2 = if x.less_than(&lo) {
                        x
                    } else {
                        lo
                    };
                    let hi2 = if hi.less_than(&x) {
                        x
                    } else {
                        hi
                    };
                    Some((lo2, hi2))
                },
            };
        }
        i = i + 1;
    }
    bounds
}

/// The position of the first known value that `w` does not hold, if any.
fn first_unfit_index(ds: &Vec<Descriptor>, w: IntRepr, Ghost(ords): Ghost<Seq<Ordinal>>) -> (r: Option<usize>)
    requires
        models(ds@, ords),
    ensures
        r is None <==> fits(ords, w),
        r matches Some(i) ==> first_unfit(ords, w, i as int),
{
    let mut i: usize = 0;
    while i < ds.len()
        invariant
            i <= ds@.len(),
            models(ds@, ords),
            fits(ords.take(i as int), w),
        decreases ds@.len() - i,
    {
        assert(ords[i as int] == ds@[i as int].model());
        if let Descriptor::Known(x) = ds[i] {
            if !w.holds(&x) {
                return Some(i);
            }
        }
        assert(fits(ords.take(i + 1), w)) by {
            assert forall|j: int| 0 <= j < i + 1 implies match #[trigger] ords.take(i + 1)[j] {
                Ordinal::Known(v) => w.covers(v),
                _ => true,
            } by {
                if j < i {
                    assert(ords.take(i + 1)[j] == ords.take(i as int)[j]);
                }
            }
        }
        i = i + 1;
    }
    assert(ords.take(ds@.len() as int) == ords);
    None
}

/// Once a variant is rejected, the scan stays at that rejection.
pub(crate) proof fn lemma_failed_persists(vs: Seq<Variant>, pinned: bool, i: nat, j: nat)
    requires
        i <= j <= vs.len(),
        scan(vs, pinned, i) is Failed,
    ensures
        scan(vs, pinned, j) == scan(vs, pinned, i),
    decreases j - i,
{
    if j > i {
        lemma_failed_persists(vs, pinned, i, (j - 1) as nat);
    }
}

} // verus!
