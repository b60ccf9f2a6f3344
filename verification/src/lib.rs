//! A dimensional-analysis engine.
//!
//! A physical unit is a vector of signed exponents over a fixed set of seven
//! base dimensions.  Unit symbols, optionally carrying an SI magnitude prefix,
//! are parsed from text; compound expressions such as `"N / kg"` combine
//! symbols with `*` and `/`.  Every scale factor in the engine is an exact
//! power of ten, so a parsed unit is a dimension vector together with an
//! integer exponent of ten, and a quantity in base units is obtained by
//! multiplying a literal value by that power of ten.

pub mod baseunit;
pub mod laws;
pub mod parse;
pub mod prefix;
pub mod text;
pub mod unit;

pub use baseunit::BaseUnits;
pub use parse::{ParsedUnit, ParserError};
pub use prefix::Prefix;
pub use unit::Unit;
