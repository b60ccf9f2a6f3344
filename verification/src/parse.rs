//! Resolving unit tokens and parsing compound unit expressions.

use vstd::prelude::*;
use vstd::string::StrSliceExecFns;

use crate::baseunit;
use crate::prefix;
use crate::prefix::Prefix;
use crate::text;
use crate::unit::{dimensionless, unit_div_spec, unit_mul_spec, Unit};

verus! {

/// Why a unit string could not be used.
#[derive(Debug, Clone, PartialEq, Eq)]
pub enum ParserError {
    /// A token is not a known unit symbol, with or without a prefix.
    NotFound(String),
    /// Two quantities of different dimensions were added or subtracted;
    /// carries the display of both units.
    IncompatibleUnits(String, String),
}

/// The result of resolving a unit string: a dimension vector together with
/// the power of ten that converts the written unit to base terms.  A value
/// in the written unit times ten to `exp` is the value in base units.
#[derive(Debug, Clone, PartialEq, Eq)]
pub struct ParsedUnit {
    /// the dimension vector
    pub unit: Unit,
    /// the exponent of ten of the scale factor
    pub exp: i128,
}

impl ParsedUnit {
    /// Pairs a dimension vector with a scale exponent.
    pub fn new(unit: Unit, exp: i128) -> (r: ParsedUnit)
        ensures
            r.unit == unit,
            r.exp == exp,
    {
        ParsedUnit { unit, exp }
    }
}

/// What a single token resolves to.  A prefix is stripped first and the
/// rest looked up; when that lookup fails the whole token is looked up
/// instead.  A prefix that matched contributes its power of ten in either
/// case, even when the lookup that succeeded was on the whole token.
pub open spec fn resolve_spec(t: Seq<char>) -> Option<(Seq<int>, int)> {
    match prefix::parse_prefix_spec(t) {
        Some((e, rest)) => match baseunit::base_parse_spec(rest) {
            Some((u, be)) => Some((u, be + e)),
            None => match baseunit::base_parse_spec(t) {
                Some((u, be)) => Some((u, be + e)),
                None => None,
            },
        },
        None => match baseunit::base_parse_spec(t) {
            Some((u, be)) => Some((u, be)),
            None => None,
        },
    }
}

/// A resolved token has seven small exponents and a scale exponent no
/// larger than a prefix and a table entry together allow.
proof fn lemma_resolve_bounds(t: Seq<char>)
    ensures
        resolve_spec(t) matches Some(en) ==> {
            &&& en.0.len() == 7
            &&& -30 <= en.1 <= 33
            &&& forall|i: int| 0 <= i < 7 ==> -2 <= #[trigger] en.0[i] <= 1
        },
{
    prefix::lemma_prefix_exp_bounds(t);
    baseunit::lemma_base_lookup_bounds(text::trim_spec(t));
    match prefix::parse_prefix_spec(t) {
        Some((e, rest)) => {
            baseunit::lemma_base_lookup_bounds(text::trim_spec(rest));
        },
        None => {},
    }
}

/// The left-to-right fold of an expression's tokens.  A bare `/` sends
/// every later token to the denominator — the flag never resets — and a
/// bare `*` does nothing.  The error is the first token that does not
/// resolve.
pub open spec fn fold_tokens(
    ts: Seq<Seq<char>>,
    u: Seq<int>,
    e: int,
    denom: bool,
) -> Result<(Seq<int>, int), Seq<char>>
    decreases ts.len(),
{
    if ts.len() == 0 {
        Ok((u, e))
    } else {
        let t = ts[0];
        if t == "/"@ {
            fold_tokens(ts.skip(1), u, e, true)
        } else if t == "*"@ {
            fold_tokens(ts.skip(1), u, e, denom)
        } else {
            match resolve_spec(t) {
                Some((tu, te)) => if denom {
                    fold_tokens(ts.skip(1), unit_div_spec(u, tu), e - te, denom)
                } else {
                    fold_tokens(ts.skip(1), unit_mul_spec(u, tu), e + te, denom)
                },
                None => Err(t),
            }
        }
    }
}

/// What a whole expression parses to: its whitespace-separated tokens,
/// folded from the dimensionless unit and a scale of one.
pub open spec fn parse_spec(s: Seq<char>) -> Result<(Seq<int>, int), Seq<char>> {
    fold_tokens(text::tokenize(s), dimensionless(), 0, false)
}

impl ParsedUnit {
    /// Resolves one unit token, such as `km`: the longest matching prefix
    /// is stripped and the rest looked up in the unit table; when that
    /// lookup fails, the whole token is looked up instead.  A prefix that
    /// matched contributes its power of ten in either case.  A token found
    /// neither way is a `NotFound` error carrying the token.
    pub fn parse_single(unit_str: &str) -> (r: Result<ParsedUnit, ParserError>)
        ensures
            r is Ok <==> resolve_spec(unit_str@) is Some,
            r matches Ok(p) ==> {
                &&& resolve_spec(unit_str@) matches Some(en)
                &&& p.unit.wf()
                &&& p.unit@ == en.0
                &&& p.exp == en.1
            },
            r matches Err(e) ==> e matches ParserError::NotFound(t) && t@ == unit_str@,
    {
        proof {
            prefix::lemma_prefix_exp_bounds(unit_str@);
            baseunit::lemma_base_lookup_bounds(text::trim_spec(unit_str@));
        }
        match Prefix::parse_prefix(unit_str) {
            Some((e, rest)) => {
                proof {
                    baseunit::lemma_base_lookup_bounds(text::trim_spec(rest@));
                }
                match baseunit::parse(rest) {
                    Ok(p) => Ok(ParsedUnit::new(p.unit, p.exp + e as i128)),
                    Err(_) => match baseunit::parse(unit_str) {
                        Ok(p) => Ok(ParsedUnit::new(p.unit, p.exp + e as i128)),
                        Err(err) => Err(err),
                    },
                }
            },
            None => baseunit::parse(unit_str),
        }
    }

    /// Parses a compound unit expression: whitespace-separated tokens,
    /// where `*` separates factors, a bare `/` sends all later tokens to
    /// the denominator, and every other token is resolved as a unit symbol
    /// with an optional prefix.  The result's scale exponent sums the
    /// tokens' powers of ten, denominator tokens negated.  The same input
    /// always parses to the same result.
    pub fn parse(unit_str: &str) -> (r: Result<ParsedUnit, ParserError>)
        ensures
            r is Ok <==> parse_spec(unit_str@) is Ok,
            r matches Ok(p) ==> {
                &&& parse_spec(unit_str@) matches Ok(en)
                &&& p.unit.wf()
                &&& p.unit@ == en.0
                &&& p.exp == en.1
            },
            r matches Err(e) ==> {
                &&& parse_spec(unit_str@) matches Err(tok)
                &&& e matches ParserError::NotFound(t)
                &&& t@ == tok
            },
    {
        let toks = text::token_ranges(unit_str);
        let ghost all = text::tokenize(unit_str@);
        let mut unit = Unit::default();
        let mut exp: i128 = 0;
        let mut denom = false;
        let n = toks.len();
        let mut j: usize = 0;
        proof {
            assert(all.skip(0) =~= all);
        }
        while j < n
            invariant
                n == toks@.len(),
                j <= n,
                unit.wf(),
                all == text::tokenize(unit_str@),
                all == toks@.map_values(
                    |p: (usize, usize)| unit_str@.subrange(p.0 as int, p.1 as int),
                ),
                forall|l: int|
                    0 <= l < n ==> toks@[l].0 < toks@[l].1 && toks@[l].1 <= unit_str@.len(),
                parse_spec(unit_str@) == fold_tokens(
                    all.skip(j as int),
                    unit@,
                    exp as int,
                    denom,
                ),
                forall|l: int|
                    0 <= l < 7 ==> -2 * (j as int) <= #[trigger] unit@[l] <= 2 * (j as int),
                -33 * (j as int) <= exp as int <= 33 * (j as int),
            decreases n - j,
        {
            let (a, b) = toks[j];
            proof {
                assert(all[j as int] == unit_str@.subrange(a as int, b as int));
                assert(all.skip(j as int)[0] == all[j as int]);
                assert(all.skip(j as int).skip(1) =~= all.skip(j + 1));
            }
            if text::range_matches(unit_str, a, b, "/") {
                denom = true;
            } else if text::range_matches(unit_str, a, b, "*") {
                // a bare `*` separates factors and changes nothing
            } else {
                let tok = unit_str.substring_char(a, b);
                match ParsedUnit::parse_single(tok) {
                    Ok(p) => {
                        proof {
                            lemma_resolve_bounds(tok@);
                        }
                        if denom {
                            unit = unit.div(&p.unit);
                            exp = exp - p.exp;
                        } else {
                            unit = unit.mul(&p.unit);
                            exp = exp + p.exp;
                        }
                    },
                    Err(err) => {
                        return Err(err);
                    },
                }
            }
            j = j + 1;
        }
        proof {
            assert(all.skip(n as int) =~= Seq::<Seq<char>>::empty());
        }
        Ok(ParsedUnit::new(unit, exp))
    }
}

} // verus!
