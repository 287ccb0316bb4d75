use enum_mapping::model::{BuildError, EnumDescriptor, PayloadShape, RawVariant};

fn raw(name: &str, discriminant: Option<&str>, shape: PayloadShape, catch_all: bool) -> RawVariant {
    RawVariant {
        name: name.to_string(),
        discriminant: discriminant.map(|s| s.to_string()),
        shape,
        catch_all,
    }
}

/// The four variants of the mixed declaration: `A`, `B(String)`,
/// `C(u32, String) = 5`, `D { f1: String, f2: u32 }`.
fn mixed_raws(d_catch_all: bool) -> Vec<RawVariant> {
    vec![
        raw("A", None, PayloadShape::Unit, false),
        raw("B", None, PayloadShape::Unnamed(1), false),
        raw("C", Some("5"), PayloadShape::Unnamed(2), false),
        raw(
            "D",
            None,
            PayloadShape::Named(vec!["f1".to_string(), "f2".to_string()]),
            d_catch_all,
        ),
    ]
}

fn build_mixed(d_catch_all: bool) -> EnumDescriptor {
    EnumDescriptor::build("E1".to_string(), mixed_raws(d_catch_all)).unwrap()
}

#[test]
fn u8_mixed() {
    let d = build_mixed(true);
    assert!(d.catch_all_present());

    let t = d.reverse_total(6);
    assert!(matches!(d.variants[t].shape, PayloadShape::Named(_)));
    assert!(matches!(d.variants[d.reverse_total(5)].shape, PayloadShape::Unnamed(2)));
    assert!(matches!(d.variants[d.reverse_total(0)].shape, PayloadShape::Unit));
    assert!(matches!(d.variants[d.reverse_total(1)].shape, PayloadShape::Unnamed(1)));
    assert_eq!(d.variants[d.reverse_total(6)].name, "D");
    assert_eq!(d.variants[d.reverse_total(5)].name, "C");
    assert_eq!(d.variants[d.reverse_total(0)].name, "A");
    assert_eq!(d.variants[d.reverse_total(1)].name, "B");

    assert!(matches!(d.forward(0), 0));
    assert!(matches!(d.forward(1), 1u8));
    assert!(matches!(d.forward(2), 5u8));
    assert!(matches!(d.forward(3), 6u8));
}

#[test]
#[should_panic]
fn u8_mixed_invalid() {
    let d = build_mixed(false);
    let _t: usize = d.reverse_fallible(7).unwrap();
}

#[test]
fn mixed_catch_all_scenario() {
    let d = build_mixed(true);
    assert_eq!(d.forward(0), 0);
    assert_eq!(d.forward(1), 1);
    assert_eq!(d.forward(2), 5);
    assert_eq!(d.forward(3), 6);
    assert_eq!(d.reverse_total(0), 0);
    assert_eq!(d.reverse_total(1), 1);
    assert_eq!(d.reverse_total(5), 2);
    assert_eq!(d.reverse_total(6), 3);
    // the catch-all variant absorbs any unlisted value
    assert_eq!(d.reverse_total(200), 3);
    assert_eq!(d.reverse_total(2), 3);
}

#[test]
fn mixed_fallible_scenario() {
    let d = build_mixed(false);
    assert!(!d.catch_all_present());
    assert_eq!(d.reverse_fallible(7), None);
    assert_eq!(d.reverse_fallible(0), Some(0));
    assert_eq!(d.reverse_fallible(1), Some(1));
    assert_eq!(d.reverse_fallible(5), Some(2));
    assert_eq!(d.reverse_fallible(6), Some(3));
    // values between the listed ids have no variant
    assert_eq!(d.reverse_fallible(2), None);
    assert_eq!(d.reverse_fallible(3), None);
    assert_eq!(d.reverse_fallible(4), None);
}

#[test]
fn fallible_completeness_whole_range() {
    let d = build_mixed(false);
    for value in 0..=255u8 {
        let listed = d.variants.iter().any(|v| v.id == value);
        assert_eq!(d.reverse_fallible(value).is_some(), listed);
    }
}

#[test]
fn empty_declaration() {
    let d = EnumDescriptor::build("E".to_string(), Vec::new()).unwrap();
    assert!(d.variants.is_empty());
    assert!(!d.catch_all_present());
    assert_eq!(d.reverse_fallible(0), None);
}

#[test]
fn auto_increment() {
    let raws = vec![
        raw("A", None, PayloadShape::Unit, false),
        raw("B", None, PayloadShape::Unit, false),
        raw("C", None, PayloadShape::Unit, false),
        raw("D", None, PayloadShape::Unit, false),
    ];
    let d = EnumDescriptor::build("E".to_string(), raws).unwrap();
    for (k, v) in d.variants.iter().enumerate() {
        assert_eq!(v.id, k as u8);
    }
}

#[test]
fn explicit_reset() {
    let raws = vec![
        raw("A", Some("10"), PayloadShape::Unit, false),
        raw("B", None, PayloadShape::Unit, false),
        raw("C", Some("3"), PayloadShape::Unit, false),
        raw("D", None, PayloadShape::Unit, false),
    ];
    let d = EnumDescriptor::build("E".to_string(), raws).unwrap();
    assert_eq!(d.variants[0].id, 10);
    assert_eq!(d.variants[1].id, 11);
    assert_eq!(d.variants[2].id, 3);
    assert_eq!(d.variants[3].id, 4);
}

#[test]
fn saturation() {
    let raws = vec![
        raw("A", Some("254"), PayloadShape::Unit, false),
        raw("B", None, PayloadShape::Unit, false),
        raw("C", None, PayloadShape::Unit, false),
        raw("D", None, PayloadShape::Unit, false),
    ];
    let d = EnumDescriptor::build("E".to_string(), raws).unwrap();
    assert_eq!(d.variants[0].id, 254);
    assert_eq!(d.variants[1].id, 255);
    // the counter stops at the maximum: trailing implicit variants alias it
    assert_eq!(d.variants[2].id, 255);
    assert_eq!(d.variants[3].id, 255);
}

#[test]
fn round_trip_listed_ids() {
    let d = build_mixed(false);
    for k in 0..d.variants.len() {
        let back = d.reverse_fallible(d.forward(k)).unwrap();
        assert_eq!(back, k);
        assert_eq!(d.variants[back].name, d.variants[k].name);
    }
    let d = build_mixed(true);
    for k in 0..d.variants.len() {
        let back = d.reverse_total(d.forward(k));
        assert_eq!(back, k);
    }
}

#[test]
fn duplicate_ids_first_match_wins() {
    let raws = vec![
        raw("A", Some("7"), PayloadShape::Unit, false),
        raw("B", Some("7"), PayloadShape::Unit, false),
    ];
    let d = EnumDescriptor::build("E".to_string(), raws).unwrap();
    assert_eq!(d.variants[0].id, 7);
    assert_eq!(d.variants[1].id, 7);
    assert_eq!(d.reverse_fallible(7), Some(0));
}

#[test]
fn out_of_range_discriminant() {
    let raws = vec![
        raw("A", Some("256"), PayloadShape::Unit, false),
        raw("B", None, PayloadShape::Unit, false),
    ];
    let r = EnumDescriptor::build("E".to_string(), raws);
    assert_eq!(r.unwrap_err(), BuildError::OutOfRange);

    let raws = vec![raw("A", Some("99999999999999999999999999"), PayloadShape::Unit, false)];
    let r = EnumDescriptor::build("E".to_string(), raws);
    assert_eq!(r.unwrap_err(), BuildError::OutOfRange);

    let raws = vec![raw("A", Some("255"), PayloadShape::Unit, false)];
    assert!(EnumDescriptor::build("E".to_string(), raws).is_ok());
}

#[test]
fn multiple_catch_all_rejected() {
    let raws = vec![
        raw("A", None, PayloadShape::Unit, true),
        raw("B", None, PayloadShape::Unit, true),
    ];
    let r = EnumDescriptor::build("E".to_string(), raws);
    assert_eq!(r.unwrap_err(), BuildError::MultipleCatchAll);
}

#[test]
fn out_of_range_takes_precedence() {
    let raws = vec![
        raw("A", None, PayloadShape::Unit, true),
        raw("B", None, PayloadShape::Unit, true),
        raw("C", Some("300"), PayloadShape::Unit, false),
    ];
    let r = EnumDescriptor::build("E".to_string(), raws);
    assert_eq!(r.unwrap_err(), BuildError::OutOfRange);
}

#[test]
fn parse_digits() {
    assert_eq!(enum_mapping::model::parse_u8("0"), Some(0));
    assert_eq!(enum_mapping::model::parse_u8("42"), Some(42));
    assert_eq!(enum_mapping::model::parse_u8("042"), Some(42));
    assert_eq!(enum_mapping::model::parse_u8("255"), Some(255));
    assert_eq!(enum_mapping::model::parse_u8("256"), None);
    assert_eq!(enum_mapping::model::parse_u8("1000"), None);
}
