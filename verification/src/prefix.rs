//! SI magnitude prefixes: each contributes a power of ten to a unit's
//! scale factor.

use vstd::prelude::*;
use vstd::string::StrSliceExecFns;

verus! {

/// The SI magnitude prefixes, largest first.
#[derive(Debug, Clone, PartialEq, Eq, Structural)]
pub enum Prefix {
    Quetta,
    Ronna,
    Yotta,
    Zetta,
    Exa,
    Peta,
    Tera,
    Giga,
    Mega,
    Kilo,
    Hecto,
    Deka,
    Deci,
    Centi,
    Milli,
    Micro,
    Nano,
    Pico,
    Femto,
    Atto,
    Zepto,
    Yocto,
    Ronto,
    Quonto,
}

/// The power of ten a prefix stands for.
pub open spec fn prefix_exp(p: Prefix) -> int {
    match p {
        Prefix::Quetta => 30,
        Prefix::Ronna => 27,
        Prefix::Yotta => 24,
        Prefix::Zetta => 21,
        Prefix::Exa => 18,
        Prefix::Peta => 15,
        Prefix::Tera => 12,
        Prefix::Giga => 9,
        Prefix::Mega => 6,
        Prefix::Kilo => 3,
        Prefix::Hecto => 2,
        Prefix::Deka => 1,
        Prefix::Deci => -1,
        Prefix::Centi => -2,
        Prefix::Milli => -3,
        Prefix::Micro => -6,
        Prefix::Nano => -9,
        Prefix::Pico => -12,
        Prefix::Femto => -15,
        Prefix::Atto => -18,
        Prefix::Zepto => -21,
        Prefix::Yocto => -24,
        Prefix::Ronto => -27,
        Prefix::Quonto => -30,
    }
}

/// A prefix symbol at the front of `s`: the power of ten and the rest of
/// `s`.  The two-character symbol `da` is matched before `d`, so the
/// longer symbol wins; `μ` and the ASCII fallback `u` both mean micro.
pub open spec fn prefix_match(s: Seq<char>) -> Option<(int, Seq<char>)> {
    if s.len() == 0 {
        None
    } else if s[0] == 'Q' {
        Some((30int, s.skip(1)))
    } else if s[0] == 'R' {
        Some((27int, s.skip(1)))
    } else if s[0] == 'Y' {
        Some((24int, s.skip(1)))
    } else if s[0] == 'Z' {
        Some((21int, s.skip(1)))
    } else if s[0] == 'E' {
        Some((18int, s.skip(1)))
    } else if s[0] == 'P' {
        Some((15int, s.skip(1)))
    } else if s[0] == 'T' {
        Some((12int, s.skip(1)))
    } else if s[0] == 'G' {
        Some((9int, s.skip(1)))
    } else if s[0] == 'M' {
        Some((6int, s.skip(1)))
    } else if s[0] == 'k' {
        Some((3int, s.skip(1)))
    } else if s[0] == 'h' {
        Some((2int, s.skip(1)))
    } else if s.len() >= 2 && s[0] == 'd' && s[1] == 'a' {
        Some((1int, s.skip(2)))
    } else if s[0] == 'd' {
        Some((-1int, s.skip(1)))
    } else if s[0] == 'c' {
        Some((-2int, s.skip(1)))
    } else if s[0] == 'm' {
        Some((-3int, s.skip(1)))
    } else if s[0] == 'μ' || s[0] == 'u' {
        Some((-6int, s.skip(1)))
    } else if s[0] == 'n' {
        Some((-9int, s.skip(1)))
    } else if s[0] == 'p' {
        Some((-12int, s.skip(1)))
    } else if s[0] == 'f' {
        Some((-15int, s.skip(1)))
    } else if s[0] == 'a' {
        Some((-18int, s.skip(1)))
    } else if s[0] == 'z' {
        Some((-21int, s.skip(1)))
    } else if s[0] == 'y' {
        Some((-24int, s.skip(1)))
    } else if s[0] == 'r' {
        Some((-27int, s.skip(1)))
    } else if s[0] == 'q' {
        Some((-30int, s.skip(1)))
    } else {
        None
    }
}

/// A prefix match that leaves nothing after the prefix is discarded: a
/// token that is itself a unit symbol, such as `m`, is not a prefix.
pub open spec fn parse_prefix_spec(s: Seq<char>) -> Option<(int, Seq<char>)> {
    match prefix_match(s) {
        Some((e, rest)) => if rest.len() == 0 {
            None
        } else {
            Some((e, rest))
        },
        None => None,
    }
}

/// A matched prefix is between quonto and quetta.
pub proof fn lemma_prefix_exp_bounds(s: Seq<char>)
    ensures
        parse_prefix_spec(s) matches Some(p) ==> -30 <= p.0 <= 30 && p.1.len() < s.len(),
{
}

impl Prefix {
    /// The power of ten this prefix stands for.
    pub fn exp_of(&self) -> (r: i8)
        ensures
            r as int == prefix_exp(*self),
    {
        match self {
            Prefix::Quetta => 30,
            Prefix::Ronna => 27,
            Prefix::Yotta => 24,
            Prefix::Zetta => 21,
            Prefix::Exa => 18,
            Prefix::Peta => 15,
            Prefix::Tera => 12,
            Prefix::Giga => 9,
            Prefix::Mega => 6,
            Prefix::Kilo => 3,
            Prefix::Hecto => 2,
            Prefix::Deka => 1,
            Prefix::Deci => -1,
            Prefix::Centi => -2,
            Prefix::Milli => -3,
            Prefix::Micro => -6,
            Prefix::Nano => -9,
            Prefix::Pico => -12,
            Prefix::Femto => -15,
            Prefix::Atto => -18,
            Prefix::Zepto => -21,
            Prefix::Yocto => -24,
            Prefix::Ronto => -27,
            Prefix::Quonto => -30,
        }
    }

    /// Splits a prefix off the front of `s`, greedily matching the longest
    /// prefix symbol, and refusing a match that would leave an empty
    /// remainder.  Returns the prefix's power of ten and the rest of `s`.
    pub fn parse_prefix<'a>(s: &'a str) -> (r: Option<(i8, &'a str)>)
        ensures
            r is Some <==> parse_prefix_spec(s@) is Some,
            r matches Some(p) ==> {
                &&& parse_prefix_spec(s@) matches Some(q)
                &&& p.0 as int == q.0
                &&& p.1@ == q.1
            },
    {
        let n = s.unicode_len();
        if n == 0 {
            return None;
        }
        let c0 = s.get_char(0);
        let matched: Option<(i8, usize)> = if c0 == 'Q' {
            Some((30, 1))
        } else if c0 == 'R' {
            Some((27, 1))
        } else if c0 == 'Y' {
            Some((24, 1))
        } else if c0 == 'Z' {
            Some((21, 1))
        } else if c0 == 'E' {
            Some((18, 1))
        } else if c0 == 'P' {
            Some((15, 1))
        } else if c0 == 'T' {
            Some((12, 1))
        } else if c0 == 'G' {
            Some((9, 1))
        } else if c0 == 'M' {
            Some((6, 1))
        } else if c0 == 'k' {
            Some((3, 1))
        } else if c0 == 'h' {
            Some((2, 1))
        } else if c0 == 'd' {
            if n >= 2 && s.get_char(1) == 'a' {
                Some((1, 2))
            } else {
                Some((-1, 1))
            }
        } else if c0 == 'c' {
            Some((-2, 1))
        } else if c0 == 'm' {
            Some((-3, 1))
        } else if c0 == 'μ' || c0 == 'u' {
            Some((-6, 1))
        } else if c0 == 'n' {
            Some((-9, 1))
        } else if c0 == 'p' {
            Some((-12, 1))
        } else if c0 == 'f' {
            Some((-15, 1))
        } else if c0 == 'a' {
            Some((-18, 1))
        } else if c0 == 'z' {
            Some((-21, 1))
        } else if c0 == 'y' {
            Some((-24, 1))
        } else if c0 == 'r' {
            Some((-27, 1))
        } else if c0 == 'q' {
            Some((-30, 1))
        } else {
            None
        };
        match matched {
            Some((e, k)) => {
                if k == n {
                    None
                } else {
                    let rest = s.substring_char(k, n);
                    proof {
                        assert(rest@ =~= s@.skip(k as int));
                    }
                    Some((e, rest))
                }
            },
            None => None,
        }
    }
}

} // verus!
