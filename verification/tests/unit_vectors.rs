use snug::{BaseUnits, Unit};

#[test]
fn multiply_after_divide_restores_the_unit() {
    let a = Unit::from_map(&[(BaseUnits::Length, 2), (BaseUnits::Time, -1)]);
    let b = Unit::from_map(&[(BaseUnits::Mass, 1), (BaseUnits::Time, 3)]);
    assert_eq!(a.div(&b).mul(&b), a);
}

#[test]
fn multiplying_by_the_identity_changes_nothing() {
    let a = Unit::from_map(&[(BaseUnits::Charge, 4), (BaseUnits::Angle, -2)]);
    assert_eq!(a.mul(&Unit::default()), a);
    assert_eq!(Unit::default().mul(&a), a);
}

#[test]
fn from_map_last_write_wins() {
    let u = Unit::from_map(&[(BaseUnits::Time, 1), (BaseUnits::Time, 3)]);
    assert_eq!(u, Unit::from_map(&[(BaseUnits::Time, 3)]));
}

#[test]
fn from_frac_sums_repeated_dimensions() {
    let u = Unit::from_frac(
        &[BaseUnits::Length, BaseUnits::Length],
        &[BaseUnits::Time, BaseUnits::Length],
    );
    assert_eq!(u, Unit::from_map(&[(BaseUnits::Length, 1), (BaseUnits::Time, -1)]));
}

#[test]
fn exponent_reads_one_dimension() {
    let u = Unit::from_map(&[(BaseUnits::Length, 1), (BaseUnits::Time, -2)]);
    assert_eq!(u.exponent(&BaseUnits::Length), 1);
    assert_eq!(u.exponent(&BaseUnits::Time), -2);
    assert_eq!(u.exponent(&BaseUnits::Mass), 0);
}

#[test]
fn checked_arithmetic_matches_plain_arithmetic() {
    let a = Unit::from_map(&[(BaseUnits::Length, 1)]);
    let b = Unit::from_map(&[(BaseUnits::Time, 1)]);
    assert_eq!(a.checked_mul(&b).unwrap(), a.mul(&b));
    assert_eq!(a.checked_div(&b).unwrap(), a.div(&b));
}
