use snug::{BaseUnits, ParsedUnit, ParserError, Unit};

fn value_in_base(value: f64, unit_str: &str) -> (f64, Unit) {
    let p = ParsedUnit::parse(unit_str).unwrap();
    (value * 10f64.powi(p.exp as i32), p.unit)
}

#[test]
fn scale_correctness() {
    let n = ParsedUnit::parse("N").unwrap();
    assert_eq!(
        n.unit,
        Unit::from_map(&[(BaseUnits::Length, 1), (BaseUnits::Mass, 1), (BaseUnits::Time, -2)])
    );
    assert_eq!(10f64.powi(n.exp as i32), 1000.0);

    let mn = ParsedUnit::parse("mN").unwrap();
    assert_eq!(mn.unit, n.unit);
    assert_eq!(10f64.powi(mn.exp as i32), 1.0);
}

#[test]
fn force_mass_time_scenario() {
    let (force_v, force_u) = value_in_base(43.213, "N");
    let (mass_v, mass_u) = value_in_base(12.0, "kg");
    let (time_v, time_u) = value_in_base(452.42, "ms");

    let accel_v = force_v / mass_v;
    let accel_u = force_u.div(&mass_u);
    assert_eq!(
        accel_u,
        Unit::from_frac(&[BaseUnits::Length], &[BaseUnits::Time, BaseUnits::Time])
    );
    assert!((accel_v - 3.6010833333333334).abs() < 1e-10);

    let vel_v = accel_v * time_v;
    let vel_u = accel_u.mul(&time_u);
    assert_eq!(vel_u, Unit::from_frac(&[BaseUnits::Length], &[BaseUnits::Time]));
    assert!((vel_v - 1.6292021216666668).abs() < 1e-10);
}

#[test]
fn incompatible_unit_addition_is_an_error() {
    let (_, m) = value_in_base(1.0, "m");
    let (_, s) = value_in_base(1.0, "s");
    match m.same_dimension(&s) {
        Err(ParserError::IncompatibleUnits(a, b)) => {
            assert_eq!(a, "m");
            assert_eq!(b, "s");
        },
        other => panic!("expected IncompatibleUnits, got {:?}", other),
    }
}

#[test]
fn same_dimension_accepts_equal_units() {
    let m1 = ParsedUnit::parse("m").unwrap().unit;
    let m2 = ParsedUnit::parse("km").unwrap().unit;
    // the kilo factor lives in the scale, not the dimension vector
    assert!(m1.same_dimension(&m2).is_ok());
    assert_eq!(m1, m2);
}
