use snug::{BaseUnits, Unit};

#[test]
fn display_single_dimensions() {
    assert_eq!(Unit::from_frac(&[BaseUnits::Length], &[]).display(), "m");
    assert_eq!(Unit::from_frac(&[BaseUnits::Time], &[]).display(), "s");
    assert_eq!(Unit::from_frac(&[BaseUnits::Mass], &[]).display(), "g");
    assert_eq!(Unit::from_frac(&[BaseUnits::Charge], &[]).display(), "C");
    assert_eq!(Unit::from_frac(&[BaseUnits::Temp], &[]).display(), "°C");
    assert_eq!(Unit::from_frac(&[BaseUnits::Luminosity], &[]).display(), "cd");
    assert_eq!(Unit::from_frac(&[BaseUnits::Angle], &[]).display(), "°");
}

#[test]
fn display_negative_exponents_keep_their_sign() {
    // a lone denominator exponent of minus two renders with the literal sign
    assert_eq!(
        Unit::from_frac(&[], &[BaseUnits::Time, BaseUnits::Time]).display(),
        "1 / s^-2"
    );
    assert_eq!(Unit::from_frac(&[], &[BaseUnits::Length]).display(), "1 / m");
}

#[test]
fn display_dimensionless_is_one() {
    assert_eq!(Unit::default().display(), "1");
    assert_eq!(
        Unit::from_frac(&[BaseUnits::Length], &[BaseUnits::Length]).display(),
        "1"
    );
}

#[test]
fn display_positive_powers_and_fractions() {
    assert_eq!(
        Unit::from_map(&[(BaseUnits::Length, 2)]).display(),
        "m^2"
    );
    assert_eq!(
        Unit::from_frac(&[BaseUnits::Length], &[BaseUnits::Time]).display(),
        "m / s"
    );
    // enumeration order: time before length in the numerator
    assert_eq!(
        Unit::from_map(&[(BaseUnits::Length, 1), (BaseUnits::Time, 3)]).display(),
        "s^3m"
    );
    assert_eq!(
        Unit::from_map(&[(BaseUnits::Length, 1), (BaseUnits::Mass, 1), (BaseUnits::Time, -2)])
            .display(),
        "mg / s^-2"
    );
}

#[test]
fn display_large_exponents() {
    assert_eq!(Unit::from_map(&[(BaseUnits::Length, 127)]).display(), "m^127");
    assert_eq!(
        Unit::from_map(&[(BaseUnits::Length, -128)]).display(),
        "1 / m^-128"
    );
}

#[test]
fn symbol_of_each_dimension() {
    assert_eq!(BaseUnits::Time.symbol(), "s");
    assert_eq!(BaseUnits::Length.symbol(), "m");
    assert_eq!(BaseUnits::Mass.symbol(), "g");
    assert_eq!(BaseUnits::Charge.symbol(), "C");
    assert_eq!(BaseUnits::Temp.symbol(), "°C");
    assert_eq!(BaseUnits::Luminosity.symbol(), "cd");
    assert_eq!(BaseUnits::Angle.symbol(), "°");
}
