use snug::{BaseUnits, ParsedUnit, ParserError, Prefix, Unit};

fn pow10(e: i128) -> f64 {
    10f64.powi(e as i32)
}

#[test]
fn parsing_units() {
    assert_eq!(
        ParsedUnit::parse("s").unwrap(),
        ParsedUnit::new(Unit::from_map(&[(BaseUnits::Time, 1)]), 0)
    );
    assert_eq!(pow10(ParsedUnit::parse("s").unwrap().exp), 1.0);

    assert_eq!(
        ParsedUnit::parse("kg").unwrap(),
        ParsedUnit::new(Unit::from_map(&[(BaseUnits::Mass, 1)]), 3)
    );
    assert_eq!(pow10(ParsedUnit::parse("kg").unwrap().exp), 1e3);

    assert_eq!(
        ParsedUnit::parse("um").unwrap(),
        ParsedUnit::new(Unit::from_map(&[(BaseUnits::Length, 1)]), -6)
    );
    assert_eq!(pow10(ParsedUnit::parse("um").unwrap().exp), 1e-6);

    assert_eq!(
        ParsedUnit::parse("N").unwrap(),
        ParsedUnit::new(
            Unit::from_map(&[
                (BaseUnits::Length, 1),
                (BaseUnits::Mass, 1),
                (BaseUnits::Time, -2)
            ]),
            3
        )
    );
    assert_eq!(pow10(ParsedUnit::parse("N").unwrap().exp), 1e3);

    assert_eq!(
        ParsedUnit::parse("mN").unwrap(),
        ParsedUnit::new(
            Unit::from_map(&[
                (BaseUnits::Length, 1),
                (BaseUnits::Mass, 1),
                (BaseUnits::Time, -2)
            ]),
            0
        )
    );
    assert_eq!(pow10(ParsedUnit::parse("mN").unwrap().exp), 1.0);
}

#[test]
fn parsing_works() {
    assert_eq!(Prefix::parse_prefix("cm"), Some((-2, "m")));
    assert_eq!(Prefix::parse_prefix("m"), None);
}

#[test]
fn parsing_is_deterministic() {
    assert_eq!(ParsedUnit::parse("N / kg"), ParsedUnit::parse("N / kg"));
    assert_eq!(ParsedUnit::parse("xyz"), ParsedUnit::parse("xyz"));
}

#[test]
fn parse_empty_is_dimensionless() {
    let p = ParsedUnit::parse("").unwrap();
    assert_eq!(p, ParsedUnit::new(Unit::default(), 0));
    let q = ParsedUnit::parse("   ").unwrap();
    assert_eq!(q, ParsedUnit::new(Unit::default(), 0));
}

#[test]
fn parse_compound_expressions() {
    let p = ParsedUnit::parse("N / kg").unwrap();
    assert_eq!(
        p.unit,
        Unit::from_map(&[(BaseUnits::Length, 1), (BaseUnits::Time, -2)])
    );
    assert_eq!(p.exp, 0);

    let q = ParsedUnit::parse("km / ms").unwrap();
    assert_eq!(
        q.unit,
        Unit::from_frac(&[BaseUnits::Length], &[BaseUnits::Time])
    );
    assert_eq!(q.exp, 6);

    let r = ParsedUnit::parse("m * s").unwrap();
    assert_eq!(
        r.unit,
        Unit::from_map(&[(BaseUnits::Length, 1), (BaseUnits::Time, 1)])
    );
    assert_eq!(r.exp, 0);
}

#[test]
fn denominator_flag_never_resets() {
    // after the first `/` every later token divides, even across `*`
    let p = ParsedUnit::parse("m / s * s").unwrap();
    assert_eq!(
        p.unit,
        Unit::from_map(&[(BaseUnits::Length, 1), (BaseUnits::Time, -2)])
    );
    let q = ParsedUnit::parse("m / s / s").unwrap();
    assert_eq!(
        q.unit,
        Unit::from_map(&[(BaseUnits::Length, 1), (BaseUnits::Time, -2)])
    );
}

#[test]
fn unit_only_parsing_discards_the_scale() {
    assert_eq!(
        Unit::parse("N / kg").unwrap(),
        Unit::from_frac(&[BaseUnits::Length], &[BaseUnits::Time, BaseUnits::Time])
    );
    assert_eq!(
        Unit::parse("km").unwrap(),
        Unit::from_map(&[(BaseUnits::Length, 1)])
    );
    assert!(matches!(Unit::parse("bogus"), Err(ParserError::NotFound(_))));
}

#[test]
fn unknown_symbol_is_not_found() {
    match ParsedUnit::parse("xyz") {
        Err(ParserError::NotFound(t)) => assert_eq!(t, "xyz"),
        other => panic!("expected NotFound, got {:?}", other),
    }
    match ParsedUnit::parse("m / xyz") {
        Err(ParserError::NotFound(t)) => assert_eq!(t, "xyz"),
        other => panic!("expected NotFound, got {:?}", other),
    }
}
