use snug::{baseunit, BaseUnits, ParsedUnit, ParserError, Prefix, Unit};

#[test]
fn prefix_precedence() {
    // `cm` is centi + meter ...
    let cm = ParsedUnit::parse_single("cm").unwrap();
    assert_eq!(cm.unit, Unit::from_map(&[(BaseUnits::Length, 1)]));
    assert_eq!(cm.exp, -2);
    assert_eq!(10f64.powi(cm.exp as i32), 1e-2);
    // ... but `m` is the meter itself, not milli with nothing left
    let m = ParsedUnit::parse_single("m").unwrap();
    assert_eq!(m.unit, Unit::from_map(&[(BaseUnits::Length, 1)]));
    assert_eq!(m.exp, 0);
}

#[test]
fn longest_prefix_wins() {
    // `da` (deka) is matched before `d` (deci)
    assert_eq!(Prefix::parse_prefix("dam"), Some((1, "m")));
    let dam = ParsedUnit::parse_single("dam").unwrap();
    assert_eq!(dam.unit, Unit::from_map(&[(BaseUnits::Length, 1)]));
    assert_eq!(dam.exp, 1);
}

#[test]
fn prefix_alone_is_not_a_unit() {
    // `da` strips to an empty remainder, so the prefix match is refused,
    // and `da` is no table symbol either
    assert_eq!(Prefix::parse_prefix("da"), None);
    match ParsedUnit::parse_single("da") {
        Err(ParserError::NotFound(t)) => assert_eq!(t, "da"),
        other => panic!("expected NotFound, got {:?}", other),
    }
}

#[test]
fn micro_has_an_ascii_fallback() {
    let mu = ParsedUnit::parse_single("μm").unwrap();
    let u = ParsedUnit::parse_single("um").unwrap();
    assert_eq!(mu, u);
    assert_eq!(mu.exp, -6);
}

#[test]
fn fallback_lookup_keeps_the_prefix_factor() {
    // `cd` first strips centi, fails to find `d`, then finds `cd` whole —
    // and the centi factor from the stripped attempt is kept
    let cd = ParsedUnit::parse_single("cd").unwrap();
    assert_eq!(cd.unit, Unit::from_map(&[(BaseUnits::Luminosity, 1)]));
    assert_eq!(cd.exp, -2);
    // `deg` likewise goes through the deci attempt
    let deg = ParsedUnit::parse_single("deg").unwrap();
    assert_eq!(deg.unit, Unit::from_map(&[(BaseUnits::Angle, 1)]));
    assert_eq!(deg.exp, -1);
}

#[test]
fn base_table_aliases() {
    let newton = baseunit::parse("Newton").unwrap();
    assert_eq!(newton, baseunit::parse("N").unwrap());
    assert_eq!(newton.exp, 3);

    let celsius = baseunit::parse("°C").unwrap();
    assert_eq!(celsius, baseunit::parse("degC").unwrap());
    assert_eq!(celsius, baseunit::parse("deg C").unwrap());
    assert_eq!(celsius.unit, Unit::from_map(&[(BaseUnits::Temp, 1)]));
    assert_eq!(celsius.exp, 0);

    let angle = baseunit::parse("°").unwrap();
    assert_eq!(angle, baseunit::parse("deg").unwrap());
    assert_eq!(angle, baseunit::parse("deg.").unwrap());
}

#[test]
fn base_table_trims_whitespace() {
    let m = baseunit::parse("  m ").unwrap();
    assert_eq!(m.unit, Unit::from_map(&[(BaseUnits::Length, 1)]));
    match baseunit::parse(" nope ") {
        Err(ParserError::NotFound(t)) => assert_eq!(t, " nope "),
        other => panic!("expected NotFound, got {:?}", other),
    }
}

#[test]
fn prefix_exponents() {
    assert_eq!(Prefix::Quetta.exp_of(), 30);
    assert_eq!(Prefix::Kilo.exp_of(), 3);
    assert_eq!(Prefix::Deka.exp_of(), 1);
    assert_eq!(Prefix::Deci.exp_of(), -1);
    assert_eq!(Prefix::Micro.exp_of(), -6);
    assert_eq!(Prefix::Quonto.exp_of(), -30);
}

#[test]
fn index_round_trip() {
    for i in 0..7usize {
        let b = BaseUnits::from_index(i);
        assert_eq!(b.index_of(), i);
    }
    assert_eq!(BaseUnits::from_index(0), BaseUnits::Time);
    assert_eq!(BaseUnits::from_index(6), BaseUnits::Angle);
}
