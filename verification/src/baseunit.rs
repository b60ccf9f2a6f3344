//! The base dimensions and the table of named unit symbols.

use vstd::prelude::*;
use vstd::string::StringExecFns;

use crate::parse::{ParsedUnit, ParserError};
use crate::text;
use crate::unit::Unit;

verus! {

/// The closed set of base dimensions.  Each unit is a vector of exponents
/// over these, in this order.
#[derive(Debug, PartialEq, Eq, Structural, Clone, Copy)]
pub enum BaseUnits {
    /// second
    Time,
    /// meter
    Length,
    /// gram: prefixes carry the magnitude, so the base is the gram, and a
    /// kilogram costs a factor of a thousand
    Mass,
    /// coulomb
    Charge,
    /// degree Celsius, treated as a linear base dimension
    Temp,
    /// candela
    Luminosity,
    /// degree of angle
    Angle,
}

/// The dense index of a base dimension, `0..7` in enumeration order.
pub open spec fn base_index(b: BaseUnits) -> int {
    match b {
        BaseUnits::Time => 0,
        BaseUnits::Length => 1,
        BaseUnits::Mass => 2,
        BaseUnits::Charge => 3,
        BaseUnits::Temp => 4,
        BaseUnits::Luminosity => 5,
        BaseUnits::Angle => 6,
    }
}

/// The canonical display symbol of the base dimension with index `i`.
pub open spec fn symbol_spec(i: int) -> Seq<char> {
    if i == 0 {
        "s"@
    } else if i == 1 {
        "m"@
    } else if i == 2 {
        "g"@
    } else if i == 3 {
        "C"@
    } else if i == 4 {
        "°C"@
    } else if i == 5 {
        "cd"@
    } else {
        "°"@
    }
}

impl BaseUnits {
    /// The dense index of this dimension, for array storage.
    pub fn index_of(&self) -> (i: usize)
        ensures
            i as int == base_index(*self),
            i < 7,
    {
        match self {
            BaseUnits::Time => 0,
            BaseUnits::Length => 1,
            BaseUnits::Mass => 2,
            BaseUnits::Charge => 3,
            BaseUnits::Temp => 4,
            BaseUnits::Luminosity => 5,
            BaseUnits::Angle => 6,
        }
    }

    /// The base dimension with dense index `i`.
    pub fn from_index(i: usize) -> (b: BaseUnits)
        requires
            i < 7,
        ensures
            base_index(b) == i as int,
    {
        if i == 0 {
            BaseUnits::Time
        } else if i == 1 {
            BaseUnits::Length
        } else if i == 2 {
            BaseUnits::Mass
        } else if i == 3 {
            BaseUnits::Charge
        } else if i == 4 {
            BaseUnits::Temp
        } else if i == 5 {
            BaseUnits::Luminosity
        } else {
            BaseUnits::Angle
        }
    }

    /// The canonical display symbol of this dimension.
    pub fn symbol(&self) -> (r: String)
        ensures
            r@ == symbol_spec(base_index(*self)),
    {
        String::from_str(symbol_str(self.index_of()))
    }
}

/// The display symbol of the base dimension with index `i`.
pub(crate) fn symbol_str(i: usize) -> (r: &'static str)
    requires
        i < 7,
    ensures
        r@ == symbol_spec(i as int),
{
    if i == 0 {
        "s"
    } else if i == 1 {
        "m"
    } else if i == 2 {
        "g"
    } else if i == 3 {
        "C"
    } else if i == 4 {
        "°C"
    } else if i == 5 {
        "cd"
    } else {
        "°"
    }
}

/// The static table of named units: the exponent vector and the power of
/// ten that converts the named unit to base terms.  `None` for a symbol
/// that is not in the table.
pub open spec fn base_lookup(t: Seq<char>) -> Option<(Seq<int>, int)> {
    if t == "s"@ {
        Some((seq![1int, 0, 0, 0, 0, 0, 0], 0int))
    } else if t == "m"@ {
        Some((seq![0int, 1, 0, 0, 0, 0, 0], 0int))
    } else if t == "g"@ {
        Some((seq![0int, 0, 1, 0, 0, 0, 0], 0int))
    } else if t == "C"@ {
        Some((seq![0int, 0, 0, 1, 0, 0, 0], 0int))
    } else if t == "°C"@ || t == "degC"@ || t == "deg C"@ {
        Some((seq![0int, 0, 0, 0, 1, 0, 0], 0int))
    } else if t == "cd"@ {
        Some((seq![0int, 0, 0, 0, 0, 1, 0], 0int))
    } else if t == "°"@ || t == "deg"@ || t == "deg."@ {
        Some((seq![0int, 0, 0, 0, 0, 0, 1], 0int))
    } else if t == "N"@ || t == "Newton"@ {
        // kg·m/s², and the base of mass is the gram: a thousand g·m/s²
        Some((seq![-2int, 1, 1, 0, 0, 0, 0], 3int))
    } else {
        None
    }
}

/// What `parse` resolves a symbol to: the table entry of the symbol with
/// surrounding whitespace removed.
pub open spec fn base_parse_spec(t: Seq<char>) -> Option<(Seq<int>, int)> {
    base_lookup(text::trim_spec(t))
}

/// Every table entry has small exponents and a scale exponent of zero or
/// three.
pub proof fn lemma_base_lookup_bounds(t: Seq<char>)
    ensures
        base_lookup(t) matches Some(en) ==> {
            &&& en.0.len() == 7
            &&& 0 <= en.1 <= 3
            &&& forall|i: int| 0 <= i < 7 ==> -2 <= #[trigger] en.0[i] <= 1
        },
{
}

/// Looks a unit symbol up in the static table, ignoring surrounding
/// whitespace.  An unknown symbol is a `NotFound` error carrying the
/// input as given.
pub fn parse(input: &str) -> (r: Result<ParsedUnit, ParserError>)
    ensures
        r is Ok <==> base_parse_spec(input@) is Some,
        r matches Ok(p) ==> {
            &&& base_parse_spec(input@) matches Some(en)
            &&& p.unit.wf()
            &&& p.unit@ == en.0
            &&& p.exp == en.1
        },
        r matches Err(e) ==> e matches ParserError::NotFound(s) && s@ == input@,
{
    let (a, b) = text::trim_range(input);
    let entry: Option<(Unit, i128)> = if text::range_matches(input, a, b, "s") {
        Some((Unit::from_exps(1, 0, 0, 0, 0, 0, 0), 0))
    } else if text::range_matches(input, a, b, "m") {
        Some((Unit::from_exps(0, 1, 0, 0, 0, 0, 0), 0))
    } else if text::range_matches(input, a, b, "g") {
        Some((Unit::from_exps(0, 0, 1, 0, 0, 0, 0), 0))
    } else if text::range_matches(input, a, b, "C") {
        Some((Unit::from_exps(0, 0, 0, 1, 0, 0, 0), 0))
    } else if text::range_matches(input, a, b, "°C") || text::range_matches(input, a, b, "degC")
        || text::range_matches(input, a, b, "deg C") {
        Some((Unit::from_exps(0, 0, 0, 0, 1, 0, 0), 0))
    } else if text::range_matches(input, a, b, "cd") {
        Some((Unit::from_exps(0, 0, 0, 0, 0, 1, 0), 0))
    } else if text::range_matches(input, a, b, "°") || text::range_matches(input, a, b, "deg")
        || text::range_matches(input, a, b, "deg.") {
        Some((Unit::from_exps(0, 0, 0, 0, 0, 0, 1), 0))
    } else if text::range_matches(input, a, b, "N") || text::range_matches(
        input,
        a,
        b,
        "Newton",
    ) {
        Some((Unit::from_exps(-2, 1, 1, 0, 0, 0, 0), 3))
    } else {
        None
    };
    match entry {
        Some((unit, exp)) => Ok(ParsedUnit::new(unit, exp)),
        None => Err(ParserError::NotFound(input.to_owned())),
    }
}

} // verus!
