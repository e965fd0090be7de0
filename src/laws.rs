//! What holds of every resolution.
use vstd::prelude::*;

use crate::expr::{is_opaque, literal_of, Expr};
use crate::number::{decimal_value, is_decimal, representable};
use crate::resolve::{
    fits, lemma_failed_persists, ordinals_of, resolves, scan, step, Declaration, Lookup,
    Ordinal, Resolution, Scan, Variant,
};
use crate::table::{distinct_values, is_first, Table};
use crate::width::IntRepr;

verus! {

/// A scan that goes through holds one value per variant.
proof fn lemma_scan_len(vs: Seq<Variant>, pinned: bool, i: nat)
    requires
        i <= vs.len(),
        scan(vs, pinned, i) is Running,
    ensures
        scan(vs, pinned, i)->ords.len() == i,
    decreases i,
{
    if i > 0 {
        if scan(vs, pinned, (i - 1) as nat) is Failed {
            lemma_failed_persists(vs, pinned, (i - 1) as nat, i);
        }
        lemma_scan_len(vs, pinned, (i - 1) as nat);
    }
}

/// Where the scan over `n` variants goes through, so does the scan over the
/// first `j`, and its values are the first `j` of the longer one.
proof fn lemma_scan_extends(vs: Seq<Variant>, pinned: bool, j: nat, n: nat)
    requires
        j <= n <= vs.len(),
        scan(vs, pinned, n) is Running,
    ensures
        scan(vs, pinned, j) is Running,
        scan(vs, pinned, j)->ords == scan(vs, pinned, n)->ords.take(j as int),
        scan(vs, pinned, n)->ords.len() == n,
    decreases n,
{
    lemma_scan_len(vs, pinned, n);
    if j < n {
        if scan(vs, pinned, (n - 1) as nat) is Failed {
            lemma_failed_persists(vs, pinned, (n - 1) as nat, n);
        }
        lemma_scan_extends(vs, pinned, j, (n - 1) as nat);
        let long = scan(vs, pinned, n)->ords;
        let short = scan(vs, pinned, (n - 1) as nat)->ords;
        assert(long.take(j as int) =~= short.take(j as int));
    } else {
        assert(scan(vs, pinned, n)->ords.take(n as int) =~= scan(vs, pinned, n)->ords);
    }
}

/// The scan over variants with no declared value counts up from zero.
proof fn lemma_implicit_scan(vs: Seq<Variant>, pinned: bool, i: nat)
    requires
        i <= vs.len() <= usize::MAX,
        forall|j: int| 0 <= j < vs.len() ==> (#[trigger] vs[j]).unit && vs[j].discriminant is None,
    ensures
        scan(vs, pinned, i) == (Scan::Running {
            ords: Seq::new(i, |j: int| Ordinal::Known(j)),
            counter: i as int,
            chain: None,
        }),
    decreases i,
{
    if i == 0 {
        assert(Seq::new(0, |j: int| Ordinal::Known(j)) =~= Seq::<Ordinal>::empty());
    } else {
        lemma_implicit_scan(vs, pinned, (i - 1) as nat);
        assert(representable(i - 1));
        assert(scan(vs, pinned, i) == step(scan(vs, pinned, (i - 1) as nat), vs[i - 1], i - 1, pinned));
        assert(vs[i - 1].unit && vs[i - 1].discriminant is None);
        assert(Seq::new((i - 1) as nat, |j: int| Ordinal::Known(j)).push(Ordinal::Known(i - 1))
            =~= Seq::new(i, |j: int| Ordinal::Known(j)));
    }
}

/// Where no variant declares a value, the variants take the values 0, 1, 2,
/// ... in declaration order, and without a pinned type the enumeration
/// resolves.
pub proof fn law_implicit_values(d: Declaration)
    requires
        d.is_enum,
        0 < d.variants@.len() <= usize::MAX,
        forall|i: int|
            0 <= i < d.variants@.len() ==> (#[trigger] d.variants@[i]).unit
                && d.variants@[i].discriminant is None,
    ensures
        ordinals_of(d).len() == d.variants@.len(),
        forall|i: int| 0 <= i < d.variants@.len() ==> ordinals_of(d)[i] == Ordinal::Known(i),
        d.repr is None ==> resolves(d),
{
    lemma_implicit_scan(d.variants@, d.repr is Some, d.variants@.len());
    let ords = ordinals_of(d);
    assert(fits(ords, IntRepr::I128));
}

/// A variant declared with an integer literal, negated or not, takes exactly
/// that value, and a variant with no declared value right after it takes the
/// value one above.
pub proof fn law_explicit_value(d: Declaration, res: Resolution, i: int, e: Expr)
    requires
        res.of(d),
        resolves(d),
        0 <= i < d.variants@.len(),
        d.variants@[i].discriminant == Some(e),
        literal_of(e) is Some,
    ensures
        res.ordinals@[i].model() == Ordinal::Known(literal_of(e)->0),
        i + 1 < d.variants@.len() && d.variants@[i + 1].discriminant is None
            ==> res.ordinals@[i + 1].model() == Ordinal::Known(literal_of(e)->0 + 1),
{
    let vs = d.variants@;
    let pinned = d.repr is Some;
    let n = vs.len();
    lemma_scan_extends(vs, pinned, i as nat, n);
    lemma_scan_extends(vs, pinned, (i + 1) as nat, n);
    let full = scan(vs, pinned, n)->ords;
    assert(scan(vs, pinned, (i + 1) as nat) == step(scan(vs, pinned, i as nat), vs[i], i, pinned));
    assert(scan(vs, pinned, (i + 1) as nat)->ords[i] == full[i]);
    if i + 1 < n && vs[i + 1].discriminant is None {
        lemma_scan_extends(vs, pinned, (i + 2) as nat, n);
        assert(scan(vs, pinned, (i + 2) as nat) == step(
            scan(vs, pinned, (i + 1) as nat),
            vs[i + 1],
            i + 1,
            pinned,
        ));
        assert(scan(vs, pinned, (i + 2) as nat)->ords[i + 1] == full[i + 1]);
    }
}

/// A negative literal is taken as given, and counting goes on upward from it.
pub proof fn law_negative_value(d: Declaration, res: Resolution, i: int, digits: String)
    requires
        res.of(d),
        resolves(d),
        0 <= i < d.variants@.len(),
        d.variants@[i].discriminant == Some(Expr::Neg(Box::new(Expr::IntLit(digits)))),
        is_decimal(digits@),
    ensures
        res.ordinals@[i].model() == Ordinal::Known(-decimal_value(digits@)),
        i + 1 < d.variants@.len() && d.variants@[i + 1].discriminant is None
            ==> res.ordinals@[i + 1].model() == Ordinal::Known(-decimal_value(digits@) + 1),
{
    law_explicit_value(d, res, i, Expr::Neg(Box::new(Expr::IntLit(digits))));
}

/// Without a pinned type, the type chosen is the narrowest of `i8`, `i16`,
/// `i32`, `i64` and `i128` that holds every value.
pub proof fn law_auto_width(d: Declaration, res: Resolution)
    requires
        res.of(d),
        d.repr is None,
    ensures
        res.width.rank() is Some,
        fits(ordinals_of(d), res.width),
        forall|u: IntRepr|
            #[trigger] u.rank() matches Some(k) && k < res.width.rank()->0 ==> !fits(ordinals_of(d), u),
{
}

/// A pinned type is the type of the values, whatever narrower type would hold
/// them.
pub proof fn law_pinned_width(d: Declaration, res: Resolution)
    requires
        res.of(d),
        d.repr is Some,
    ensures
        res.width == d.repr->0,
{
}

/// The scan along a chain of variants with no declared value after one
/// declared with a constant expression.
proof fn lemma_chain(vs: Seq<Variant>, pinned: bool, i: int, j: int, n: nat)
    requires
        n <= vs.len(),
        scan(vs, pinned, n) is Running,
        0 <= i,
        0 <= j,
        i + j < n,
        vs[i].discriminant matches Some(e) && is_opaque(e),
        forall|k: int| i < k <= i + j ==> (#[trigger] vs[k]).discriminant is None,
    ensures
        scan(vs, pinned, (i + j + 1) as nat)->chain == Some((i as nat, (j + 1) as nat)),
        scan(vs, pinned, (i + j + 1) as nat)->ords[i + j] == Ordinal::Anchored(i as nat, j as nat),
    decreases j,
{
    lemma_scan_extends(vs, pinned, (i + j) as nat, n);
    lemma_scan_extends(vs, pinned, (i + j + 1) as nat, n);
    lemma_scan_len(vs, pinned, (i + j) as nat);
    assert(scan(vs, pinned, (i + j + 1) as nat) == step(
        scan(vs, pinned, (i + j) as nat),
        vs[i + j],
        i + j,
        pinned,
    ));
    if j > 0 {
        lemma_chain(vs, pinned, i, j - 1, n);
    }
}

/// A variant declared with a constant expression E, followed by variants with
/// no declared value, gives them E + 1, E + 2, ... in turn; and an
/// enumeration with such a value finds variants by comparisons in sequence.
pub proof fn law_opaque_chain(d: Declaration, res: Resolution, i: int, m: int)
    requires
        res.of(d),
        resolves(d),
        0 <= i,
        0 <= m,
        i + m < d.variants@.len(),
        d.variants@[i].discriminant matches Some(e) && is_opaque(e),
        forall|k: int| i < k <= i + m ==> (#[trigger] d.variants@[k]).discriminant is None,
    ensures
        forall|j: int| 0 <= j <= m ==> (#[trigger] res.ordinals@[i + j]).model() == Ordinal::Anchored(i as nat, j as nat),
        res.lookup == Lookup::Sequential,
{
    let vs = d.variants@;
    let pinned = d.repr is Some;
    let n = vs.len();
    let full = scan(vs, pinned, n)->ords;
    lemma_scan_len(vs, pinned, n);
    assert(ordinals_of(d) == full);
    assert forall|j: int| 0 <= j <= m implies (#[trigger] res.ordinals@[i + j]).model() == Ordinal::Anchored(i as nat, j as nat) by {
        lemma_chain(vs, pinned, i, j, n);
        lemma_scan_extends(vs, pinned, (i + j + 1) as nat, n);
        assert(scan(vs, pinned, (i + j + 1) as nat)->ords[i + j] == full[i + j]);
    }
    assert(res.ordinals@[i + 0].model() == Ordinal::Anchored(i as nat, 0));
    assert(full[i] is Anchored);
}

/// Where no two variants share a value, looking up the value of any variant
/// gives back that variant, and so does the trusted lookup.
pub proof fn law_round_trip(t: Table, i: int)
    requires
        distinct_values(t.values@),
        0 <= i < t.values@.len(),
    ensures
        is_first(t.values@, t.values@[i].value(), i),
{
    assert forall|j: int| 0 <= j < i implies (#[trigger] t.values@[j]).value() != t.values@[i].value() by {
        assert(t.values@[j].value() != t.values@[i].value());
    }
}

} // verus!
