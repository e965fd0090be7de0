use enum_ordinalize::{
    resolve, Declaration, Expr, IntRepr, Number, Ordinalize, Resolution, Table, Variant,
};

fn unit(name: &str) -> Variant {
    Variant { name: name.to_string(), unit: true, discriminant: None }
}

fn lit(v: i128) -> Expr {
    if v < 0 {
        Expr::Neg(Box::new(Expr::IntLit(v.unsigned_abs().to_string())))
    } else {
        Expr::IntLit(v.to_string())
    }
}

fn valued(name: &str, e: Expr) -> Variant {
    Variant { name: name.to_string(), unit: true, discriminant: Some(e) }
}

fn enumeration(repr: Option<IntRepr>, variants: Vec<Variant>) -> Declaration {
    Declaration { is_enum: true, repr, variants }
}

fn n(v: i128) -> Number {
    Number::from_i128(v)
}

fn values_of(t: &Table) -> Vec<i128> {
    t.values.iter().map(|v| v.to_i128().unwrap()).collect()
}

fn names_of(r: &Resolution) -> Vec<&str> {
    r.names.iter().map(|s| s.as_str()).collect()
}

/// Resolves `d` and checks everything the generated code gives: the count, the
/// variants, the values, and both lookups of each value.
fn check(d: Declaration, anchors: Vec<Number>, width: IntRepr, names: &[&str], values: &[i128]) {
    let r = resolve(&d).unwrap();
    assert_eq!(width, r.width);
    let t = r.evaluate(&anchors).unwrap();
    assert_eq!(names.len(), t.variant_count());
    assert_eq!(names.to_vec(), names_of(&r));
    assert_eq!(values.to_vec(), values_of(&t));
    for (i, v) in values.iter().enumerate() {
        assert_eq!(Some(*v), t.ordinal(i).to_i128());
        assert_eq!(Some(i), t.from_ordinal(&n(*v)));
        assert_eq!(i, t.from_ordinal_unsafe(&n(*v)));
    }
}

#[test]
fn derive_create_ordinalized_enum_1_1() {
    let d = enumeration(None, vec![unit("Zero"), unit("One"), unit("Two")]);
    check(d, vec![], IntRepr::I8, &["Zero", "One", "Two"], &[0, 1, 2]);
}

#[test]
fn derive_create_ordinalized_enum_1_2() {
    let d = enumeration(Some(IntRepr::U64), vec![unit("Zero"), unit("One"), unit("Two")]);
    check(d, vec![], IntRepr::U64, &["Zero", "One", "Two"], &[0, 1, 2]);
}

#[test]
fn create_ordinalized_enum_2() {
    let d = enumeration(None, vec![valued("Two", lit(2)), valued("Four", lit(4)), valued("Eight", lit(8))]);
    check(d, vec![], IntRepr::I8, &["Two", "Four", "Eight"], &[2, 4, 8]);
}

#[test]
fn create_ordinalized_enum_3() {
    let d = enumeration(
        None,
        vec![
            valued("Two", lit(2)),
            unit("Three"),
            unit("Four"),
            valued("Ten", lit(10)),
            valued("Eleven", lit(11)),
        ],
    );
    check(d, vec![], IntRepr::I8, &["Two", "Three", "Four", "Ten", "Eleven"], &[2, 3, 4, 10, 11]);
}

#[test]
fn create_ordinalized_enum_4_1() {
    let d = enumeration(None, vec![unit("Zero"), valued("Thousand", lit(1000)), unit("ThousandZeroOne")]);
    check(d, vec![], IntRepr::I16, &["Zero", "Thousand", "ThousandZeroOne"], &[0, 1000, 1001]);
}

#[test]
fn create_ordinalized_enum_4_2() {
    let d = enumeration(
        None,
        vec![unit("Zero"), valued("NegativeThousand", lit(-1000)), unit("NegativeNineHundredNinetyNine")],
    );
    check(
        d,
        vec![],
        IntRepr::I16,
        &["Zero", "NegativeThousand", "NegativeNineHundredNinetyNine"],
        &[0, -1000, -999],
    );
}

#[test]
fn create_ordinalized_enum_5() {
    let d = enumeration(None, vec![unit("Zero")]);
    check(d, vec![], IntRepr::I8, &["Zero"], &[0]);
}

#[test]
fn create_ordinalized_enum_5_1() {
    // Two = 1 + 1, Four = FOUR, Eight = eight(), Ten = TEN as i8
    let d = enumeration(
        Some(IntRepr::I8),
        vec![
            valued("Two", Expr::Binary),
            valued("Four", Expr::Path),
            valued("Eight", Expr::Call),
            valued("Ten", Expr::Cast),
        ],
    );
    let anchors = vec![n(2), n(4), n(8), n(10)];
    check(d, anchors, IntRepr::I8, &["Two", "Four", "Eight", "Ten"], &[2, 4, 8, 10]);
}

#[test]
fn create_ordinalized_enum_5_2() {
    // Two = 1 + 1, Six = FOUR + 2, Ten = TEN as i8, Hundred = 100
    let d = enumeration(
        Some(IntRepr::I8),
        vec![
            unit("Zero"),
            unit("One"),
            valued("Two", Expr::Binary),
            unit("Three"),
            unit("Four"),
            valued("Six", Expr::Binary),
            unit("Seven"),
            unit("Eight"),
            valued("Ten", Expr::Cast),
            unit("Eleven"),
            unit("Twelve"),
            valued("Hundred", lit(100)),
            unit("HundredOne"),
            unit("HundredTwo"),
        ],
    );
    let mut anchors = vec![n(0); 14];
    anchors[2] = n(2);
    anchors[5] = n(6);
    anchors[8] = n(10);
    let r = resolve(&d).unwrap();
    let t = r.evaluate(&anchors).unwrap();
    assert_eq!(14, t.variant_count());
    assert_eq!(
        vec![
            "Zero", "One", "Two", "Three", "Four", "Six", "Seven", "Eight", "Ten", "Eleven",
            "Twelve", "Hundred", "HundredOne", "HundredTwo"
        ],
        names_of(&r)
    );
    assert_eq!(vec![0, 1, 2, 3, 4, 6, 7, 8, 10, 11, 12, 100, 101, 102], values_of(&t));
    for (i, v) in [(0usize, 0i128), (1, 1), (4, 4), (7, 8), (10, 12), (13, 102)] {
        assert_eq!(Some(v), t.ordinal(i).to_i128());
        assert_eq!(Some(i), t.from_ordinal(&n(v)));
        assert_eq!(i, t.from_ordinal_unsafe(&n(v)));
    }
}

#[test]
fn derive_impl_trait_false_create_ordinalized_enum_1_3() {
    #[derive(Debug, PartialEq, Eq)]
    enum MyEnum {
        A,
        B,
    }

    impl Ordinalize for MyEnum {
        type VariantType = u8;

        fn variant_count() -> usize {
            2
        }

        fn from_ordinal_unsafe(number: u8) -> Self {
            match number {
                0 => MyEnum::A,
                _ => MyEnum::B,
            }
        }

        fn from_ordinal(number: u8) -> Option<Self> {
            match number {
                0 => Some(Self::A),
                1 => Some(Self::B),
                _ => None,
            }
        }

        fn ordinal(&self) -> u8 {
            match self {
                Self::A => 0,
                Self::B => 1,
            }
        }
    }

    assert_eq!(2, MyEnum::variant_count());
    assert_eq!(Some(MyEnum::B), MyEnum::from_ordinal(1));
    assert_eq!(MyEnum::A, MyEnum::from_ordinal_unsafe(0));
    assert_eq!(1, MyEnum::B.ordinal());
    let d = enumeration(Some(IntRepr::U8), vec![unit("A"), unit("B")]);
    check(d, vec![], IntRepr::U8, &["A", "B"], &[0, 1]);
}

#[test]
fn derive_nightly_create_ordinalized_enum_4_3() {
    let d = enumeration(
        Some(IntRepr::I128),
        vec![valued("A", lit(2)), valued("B", lit(4)), valued("C", lit(75557863725914323419136))],
    );
    check(d, vec![], IntRepr::I128, &["A", "B", "C"], &[2, 4, 75557863725914323419136]);
}

#[test]
fn tests_128_create_ordinalized_enum_4_3() {
    let d = enumeration(
        Some(IntRepr::I128),
        vec![valued("A", lit(2)), valued("B", lit(4)), valued("C", Expr::IntLit("75557863725914323419136".to_string()))],
    );
    let r = resolve(&d).unwrap();
    let t = r.evaluate(&vec![]).unwrap();
    assert_eq!(Some(2), t.ordinal(0).to_i128());
    assert_eq!(Some(4), t.ordinal(1).to_i128());
    assert_eq!(Some(75557863725914323419136), t.ordinal(2).to_i128());
    assert_eq!(0, t.from_ordinal_unsafe(&n(2)));
    assert_eq!(1, t.from_ordinal_unsafe(&n(4)));
    assert_eq!(2, t.from_ordinal_unsafe(&n(75557863725914323419136)));
}

fn abc() -> Declaration {
    enumeration(None, vec![unit("A"), unit("B"), unit("C")])
}

#[test]
fn get_variants_const_fn_1() {
    let r = resolve(&abc()).unwrap();
    assert_eq!(vec!["A", "B", "C"], names_of(&r));
}

#[test]
fn get_variants_const_fn_2() {
    let r = resolve(&abc()).unwrap();
    assert_eq!(vec!["A", "B", "C"], names_of(&r));
}

#[test]
fn get_variants_const_1() {
    let r = resolve(&abc()).unwrap();
    assert_eq!(vec!["A", "B", "C"], names_of(&r));
}

#[test]
fn get_variants_const_2() {
    let r = resolve(&abc()).unwrap();
    assert_eq!(vec!["A", "B", "C"], names_of(&r));
}

#[test]
fn get_variants_trait_1() {
    let r = resolve(&abc()).unwrap();
    assert_eq!(vec!["A", "B", "C"], names_of(&r));
    assert_eq!(3usize, r.evaluate(&vec![]).unwrap().variant_count());
}

#[test]
fn get_variants_trait_2() {
    let r = resolve(&abc()).unwrap();
    assert_eq!(vec!["A", "B", "C"], names_of(&r));
    assert_eq!(3usize, r.evaluate(&vec![]).unwrap().variant_count());
}

#[test]
fn get_variants_trait_3() {
    // An enumeration with no variant lists none, and cannot be given values.
    let d = enumeration(None, vec![]);
    assert_eq!(0usize, d.variants.len());
    assert_eq!(Err(enum_ordinalize::ResolveError::NoVariant), resolve(&d).map(|_| ()));
}

#[test]
fn from_ordinal_1() {
    let t = resolve(&abc()).unwrap().evaluate(&vec![]).unwrap();
    assert_eq!(Some(1), t.from_ordinal(&n(1)));
}

#[test]
fn from_ordinal_2() {
    let t = resolve(&abc()).unwrap().evaluate(&vec![]).unwrap();
    assert_eq!(Some(1), t.from_ordinal(&n(1)));
}

#[test]
fn from_ordinal_unsafe_1() {
    let t = resolve(&abc()).unwrap().evaluate(&vec![]).unwrap();
    assert_eq!(1, t.from_ordinal_unsafe(&n(1)));
}

#[test]
fn from_ordinal_unsafe_2() {
    let t = resolve(&abc()).unwrap().evaluate(&vec![]).unwrap();
    assert_eq!(1, t.from_ordinal_unsafe(&n(1)));
}

#[test]
fn ordinal_1() {
    let t = resolve(&abc()).unwrap().evaluate(&vec![]).unwrap();
    assert_eq!(Some(1), t.ordinal(1).to_i128());
}

#[test]
fn ordinal_2() {
    let t = resolve(&abc()).unwrap().evaluate(&vec![]).unwrap();
    assert_eq!(Some(1), t.ordinal(1).to_i128());
}

#[test]
fn impl_values_variants_const_fn_1() {
    let r = resolve(&abc()).unwrap();
    assert_eq!(IntRepr::I8, r.width);
    assert_eq!(vec![0, 1, 2], values_of(&r.evaluate(&vec![]).unwrap()));
}

#[test]
fn impl_values_variants_const_fn_2() {
    let r = resolve(&abc()).unwrap();
    assert_eq!(IntRepr::I8, r.width);
    assert_eq!(vec![0, 1, 2], values_of(&r.evaluate(&vec![]).unwrap()));
}

#[test]
fn impl_values_variants_const_1() {
    let r = resolve(&abc()).unwrap();
    assert_eq!(IntRepr::I8, r.width);
    assert_eq!(vec![0, 1, 2], values_of(&r.evaluate(&vec![]).unwrap()));
}

#[test]
fn impl_values_variants_const_2() {
    let r = resolve(&abc()).unwrap();
    assert_eq!(IntRepr::I8, r.width);
    assert_eq!(vec![0, 1, 2], values_of(&r.evaluate(&vec![]).unwrap()));
}

#[test]
fn variant_count_const_fn_1() {
    assert_eq!(3, resolve(&abc()).unwrap().evaluate(&vec![]).unwrap().variant_count());
}

#[test]
fn variant_count_const_fn_2() {
    assert_eq!(3, resolve(&abc()).unwrap().evaluate(&vec![]).unwrap().variant_count());
}

#[test]
fn variant_count_const_1() {
    assert_eq!(3, resolve(&abc()).unwrap().evaluate(&vec![]).unwrap().variant_count());
}

#[test]
fn variant_count_const_2() {
    assert_eq!(3, resolve(&abc()).unwrap().evaluate(&vec![]).unwrap().variant_count());
}

#[test]
fn impl_variants_variants_const_fn_1() {
    assert_eq!(vec!["A", "B", "C"], names_of(&resolve(&abc()).unwrap()));
}

#[test]
fn impl_variants_variants_const_fn_2() {
    assert_eq!(vec!["A", "B", "C"], names_of(&resolve(&abc()).unwrap()));
}

#[test]
fn impl_variants_variants_const_1() {
    assert_eq!(vec!["A", "B", "C"], names_of(&resolve(&abc()).unwrap()));
}

#[test]
fn impl_variants_variants_const_2() {
    assert_eq!(vec!["A", "B", "C"], names_of(&resolve(&abc()).unwrap()));
}
