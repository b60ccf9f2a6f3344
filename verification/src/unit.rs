//! The dimension vector: one signed exponent per base dimension.

use vstd::prelude::*;
use vstd::string::StrSliceExecFns;
use vstd::string::StringExecFns;

use crate::baseunit::{base_index, symbol_spec, symbol_str, BaseUnits};
use crate::parse::{parse_spec, ParsedUnit, ParserError};
use crate::text;

verus! {

/// The number of base dimensions.
pub open spec fn dim_count() -> int {
    7
}

/// The all-zero exponent vector: the unit of a dimensionless quantity.
pub open spec fn dimensionless() -> Seq<int> {
    Seq::new(7, |i: int| 0)
}

/// Element-wise sum of two exponent vectors: the unit of a product.
pub open spec fn unit_mul_spec(a: Seq<int>, b: Seq<int>) -> Seq<int> {
    Seq::new(a.len(), |i: int| a[i] + b[i])
}

/// Element-wise difference of two exponent vectors: the unit of a quotient.
pub open spec fn unit_div_spec(a: Seq<int>, b: Seq<int>) -> Seq<int> {
    Seq::new(a.len(), |i: int| a[i] - b[i])
}

/// Exponent vector built from (dimension, exponent) pairs; a later pair
/// overwrites an earlier one for the same dimension.
pub open spec fn from_pairs_spec(pairs: Seq<(BaseUnits, i8)>) -> Seq<int>
    decreases pairs.len(),
{
    if pairs.len() == 0 {
        dimensionless()
    } else {
        let last = pairs.last();
        from_pairs_spec(pairs.drop_last()).update(base_index(last.0), last.1 as int)
    }
}

/// `u` with `delta` added to the exponent of each dimension in `ds`,
/// once per occurrence.
pub open spec fn bump_spec(u: Seq<int>, ds: Seq<BaseUnits>, delta: int) -> Seq<int>
    decreases ds.len(),
{
    if ds.len() == 0 {
        u
    } else {
        let prev = bump_spec(u, ds.drop_last(), delta);
        let i = base_index(ds.last());
        prev.update(i, prev[i] + delta)
    }
}

/// Exponent vector of a fraction of base dimensions: +1 per numerator
/// occurrence, -1 per denominator occurrence.
pub open spec fn from_frac_spec(num: Seq<BaseUnits>, den: Seq<BaseUnits>) -> Seq<int> {
    bump_spec(bump_spec(dimensionless(), num, 1), den, -1)
}

/// What one exponent contributes to the numerator of a unit's display:
/// the dimension's symbol for exponent one, symbol`^`exponent for two or
/// more, nothing otherwise.
pub open spec fn num_entry(e: int, i: int) -> Seq<char> {
    if e == 1 {
        symbol_spec(i)
    } else if e >= 2 {
        symbol_spec(i) + "^"@ + text::int_str(e)
    } else {
        Seq::empty()
    }
}

/// What one exponent contributes to the denominator of a unit's display:
/// the dimension's symbol for exponent minus one, symbol`^`exponent — with
/// the negative sign written out — for minus two or less, nothing
/// otherwise.
pub open spec fn den_entry(e: int, i: int) -> Seq<char> {
    if e == -1 {
        symbol_spec(i)
    } else if e <= -2 {
        symbol_spec(i) + "^"@ + text::int_str(e)
    } else {
        Seq::empty()
    }
}

/// The numerator text of the first `k` dimensions, in enumeration order.
pub open spec fn num_part(u: Seq<int>, k: int) -> Seq<char>
    decreases k,
{
    if k <= 0 {
        Seq::empty()
    } else {
        num_part(u, k - 1) + num_entry(u[k - 1], k - 1)
    }
}

/// The denominator text of the first `k` dimensions, in enumeration order.
pub open spec fn den_part(u: Seq<int>, k: int) -> Seq<char>
    decreases k,
{
    if k <= 0 {
        Seq::empty()
    } else {
        den_part(u, k - 1) + den_entry(u[k - 1], k - 1)
    }
}

/// The canonical rendering of a unit: the numerator text, `1` when it is
/// empty, followed by ` / ` and the denominator text when that is not.
pub open spec fn display_spec(u: Seq<int>) -> Seq<char> {
    let num = num_part(u, 7);
    let den = den_part(u, 7);
    let numf = if num.len() == 0 {
        "1"@
    } else {
        num
    };
    if den.len() == 0 {
        numf
    } else {
        numf + " / "@ + den
    }
}

/// A unit, as a vector of seven signed exponents, one per base dimension
/// in enumeration order.  Two units are the same dimension exactly when
/// their vectors are equal.
#[derive(Debug, Clone, Eq)]
pub struct Unit {
    e: Vec<i128>,
}

impl View for Unit {
    type V = Seq<int>;

    closed spec fn view(&self) -> Seq<int> {
        self.e@.map_values(|x: i128| x as int)
    }
}

impl PartialEq for Unit {
    fn eq(&self, other: &Unit) -> (r: bool) {
        if self.e.len() != other.e.len() {
            proof {
                assert(self@.len() != other@.len());
            }
            return false;
        }
        let n = self.e.len();
        let mut i: usize = 0;
        while i < n
            invariant
                n == self.e@.len() == other.e@.len(),
                i <= n,
                forall|l: int| 0 <= l < i ==> self.e@[l] == other.e@[l],
            decreases n - i,
        {
            if self.e[i] != other.e[i] {
                assert(self@[i as int] != other@[i as int]);
                return false;
            }
            i = i + 1;
        }
        proof {
            assert(self@ =~= other@);
        }
        true
    }
}

impl vstd::std_specs::cmp::PartialEqSpecImpl for Unit {
    open spec fn obeys_eq_spec() -> bool {
        true
    }

    open spec fn eq_spec(&self, other: &Unit) -> bool {
        self@ == other@
    }
}

impl Default for Unit {
    /// The dimensionless unit.
    fn default() -> (r: Unit)
        ensures
            r.wf(),
            r@ == dimensionless(),
    {
        let e: Vec<i128> = vec![0, 0, 0, 0, 0, 0, 0];
        let r = Unit { e };
        proof {
            assert(r@ =~= dimensionless());
        }
        r
    }
}

impl Unit {
    /// A unit is well formed when it has one exponent per base dimension.
    pub open spec fn wf(&self) -> bool {
        self@.len() == dim_count()
    }

    /// A unit with the seven exponents given directly.
    pub(crate) fn from_exps(
        e0: i128,
        e1: i128,
        e2: i128,
        e3: i128,
        e4: i128,
        e5: i128,
        e6: i128,
    ) -> (r: Unit)
        ensures
            r.wf(),
            r@ == seq![
                e0 as int,
                e1 as int,
                e2 as int,
                e3 as int,
                e4 as int,
                e5 as int,
                e6 as int,
            ],
    {
        let e: Vec<i128> = vec![e0, e1, e2, e3, e4, e5, e6];
        let r = Unit { e };
        proof {
            assert(r@ =~= seq![
                e0 as int,
                e1 as int,
                e2 as int,
                e3 as int,
                e4 as int,
                e5 as int,
                e6 as int,
            ]);
        }
        r
    }

    /// The exponent vector given by a list of (dimension, exponent) pairs;
    /// when a dimension repeats, the last pair wins.
    pub fn from_map(pairs: &[(BaseUnits, i8)]) -> (r: Unit)
        ensures
            r.wf(),
            r@ == from_pairs_spec(pairs@),
    {
        let mut u = Unit::default();
        let n = pairs.len();
        let mut k: usize = 0;
        proof {
            assert(pairs@.take(0) =~= Seq::<(BaseUnits, i8)>::empty());
        }
        while k < n
            invariant
                n == pairs@.len(),
                k <= n,
                u.wf(),
                u@ == from_pairs_spec(pairs@.take(k as int)),
            decreases n - k,
        {
            let (b, p) = pairs[k];
            let i = b.index_of();
            u.e.set(i, p as i128);
            proof {
                assert(pairs@.take(k + 1).drop_last() =~= pairs@.take(k as int));
                assert(pairs@.take(k + 1).last() == pairs@[k as int]);
                assert(u@ =~= from_pairs_spec(pairs@.take(k as int)).update(
                    base_index(b),
                    p as int,
                ));
            }
            k = k + 1;
        }
        proof {
            assert(pairs@.take(n as int) =~= pairs@);
        }
        u
    }

    /// The exponent vector of a fraction of base dimensions: each numerator
    /// occurrence raises its dimension's exponent by one, each denominator
    /// occurrence lowers it by one; a dimension in both lists nets out.
    pub fn from_frac(num: &[BaseUnits], denom: &[BaseUnits]) -> (r: Unit)
        ensures
            r.wf(),
            r@ == from_frac_spec(num@, denom@),
    {
        let mut u = Unit::default();
        let n = num.len();
        let mut k: usize = 0;
        proof {
            assert(num@.take(0) =~= Seq::<BaseUnits>::empty());
        }
        while k < n
            invariant
                n == num@.len(),
                k <= n,
                u.wf(),
                u@ == bump_spec(dimensionless(), num@.take(k as int), 1),
                forall|l: int| 0 <= l < 7 ==> -(k as int) <= #[trigger] u@[l] <= k as int,
            decreases n - k,
        {
            let i = num[k].index_of();
            let v = u.e[i];
            proof {
                assert(v as int == u@[i as int]);
                assert(-(k as int) <= u@[i as int] <= k as int);
            }
            u.e.set(i, v + 1);
            proof {
                assert(num@.take(k + 1).drop_last() =~= num@.take(k as int));
                assert(u@ =~= bump_spec(dimensionless(), num@.take(k + 1), 1));
            }
            k = k + 1;
        }
        proof {
            assert(num@.take(n as int) =~= num@);
        }
        let half = Ghost(u@);
        let m = denom.len();
        let mut k2: usize = 0;
        proof {
            assert(denom@.take(0) =~= Seq::<BaseUnits>::empty());
        }
        while k2 < m
            invariant
                m == denom@.len(),
                k2 <= m,
                u.wf(),
                half@.len() == 7,
                u@ == bump_spec(half@, denom@.take(k2 as int), -1),
                forall|l: int|
                    0 <= l < 7 ==> half@[l] - k2 as int <= #[trigger] u@[l] <= half@[l]
                        + k2 as int,
                forall|l: int| 0 <= l < 7 ==> -(n as int) <= #[trigger] half@[l] <= n as int,
            decreases m - k2,
        {
            let i = denom[k2].index_of();
            let v = u.e[i];
            proof {
                assert(v as int == u@[i as int]);
                assert(half@[i as int] - k2 as int <= u@[i as int] <= half@[i as int]
                    + k2 as int);
                assert(-(n as int) <= half@[i as int] <= n as int);
            }
            u.e.set(i, v - 1);
            proof {
                assert(denom@.take(k2 + 1).drop_last() =~= denom@.take(k2 as int));
                assert(u@ =~= bump_spec(half@, denom@.take(k2 + 1), -1));
            }
            k2 = k2 + 1;
        }
        proof {
            assert(denom@.take(m as int) =~= denom@);
        }
        u
    }

    /// The exponent of one base dimension.
    pub fn exponent(&self, b: &BaseUnits) -> (r: i128)
        requires
            self.wf(),
        ensures
            r as int == self@[base_index(*b)],
    {
        self.e[b.index_of()]
    }

    /// The unit of a product: element-wise exponent addition.
    pub fn mul(&self, rhs: &Unit) -> (r: Unit)
        requires
            self.wf(),
            rhs.wf(),
            forall|i: int|
                0 <= i < 7 ==> i128::MIN <= (#[trigger] self@[i]) + rhs@[i] <= i128::MAX,
        ensures
            r.wf(),
            r@ == unit_mul_spec(self@, rhs@),
    {
        let mut e: Vec<i128> = Vec::new();
        let mut i: usize = 0;
        while i < 7
            invariant
                i <= 7,
                self.wf(),
                rhs.wf(),
                forall|l: int|
                    0 <= l < 7 ==> i128::MIN <= (#[trigger] self@[l]) + rhs@[l] <= i128::MAX,
                e@.len() == i,
                forall|l: int| 0 <= l < i ==> e@[l] as int == self@[l] + rhs@[l],
            decreases 7 - i,
        {
            assert(self@[i as int] == self.e@[i as int] as int);
            e.push(self.e[i] + rhs.e[i]);
            i = i + 1;
        }
        let r = Unit { e };
        proof {
            assert(r@ =~= unit_mul_spec(self@, rhs@));
        }
        r
    }

    /// The unit of a quotient: element-wise exponent subtraction.
    pub fn div(&self, rhs: &Unit) -> (r: Unit)
        requires
            self.wf(),
            rhs.wf(),
            forall|i: int|
                0 <= i < 7 ==> i128::MIN <= (#[trigger] self@[i]) - rhs@[i] <= i128::MAX,
        ensures
            r.wf(),
            r@ == unit_div_spec(self@, rhs@),
    {
        let mut e: Vec<i128> = Vec::new();
        let mut i: usize = 0;
        while i < 7
            invariant
                i <= 7,
                self.wf(),
                rhs.wf(),
                forall|l: int|
                    0 <= l < 7 ==> i128::MIN <= (#[trigger] self@[l]) - rhs@[l] <= i128::MAX,
                e@.len() == i,
                forall|l: int| 0 <= l < i ==> e@[l] as int == self@[l] - rhs@[l],
            decreases 7 - i,
        {
            assert(self@[i as int] == self.e@[i as int] as int);
            e.push(self.e[i] - rhs.e[i]);
            i = i + 1;
        }
        let r = Unit { e };
        proof {
            assert(r@ =~= unit_div_spec(self@, rhs@));
        }
        r
    }

    /// The unit of a product, `None` when an exponent sum cannot be
    /// represented.
    pub fn checked_mul(&self, rhs: &Unit) -> (r: Option<Unit>)
        requires
            self.wf(),
            rhs.wf(),
        ensures
            r is Some <==> forall|i: int|
                0 <= i < 7 ==> i128::MIN <= (#[trigger] self@[i]) + rhs@[i] <= i128::MAX,
            r matches Some(u) ==> u.wf() && u@ == unit_mul_spec(self@, rhs@),
    {
        let mut i: usize = 0;
        while i < 7
            invariant
                i <= 7,
                self.wf(),
                rhs.wf(),
                forall|l: int|
                    0 <= l < i ==> i128::MIN <= (#[trigger] self@[l]) + rhs@[l] <= i128::MAX,
            decreases 7 - i,
        {
            let a = self.e[i];
            let b = rhs.e[i];
            if b >= 0 {
                if a > i128::MAX - b {
                    assert(self@[i as int] + rhs@[i as int] > i128::MAX);
                    return None;
                }
            } else {
                if a < i128::MIN - b {
                    assert(self@[i as int] + rhs@[i as int] < i128::MIN);
                    return None;
                }
            }
            assert(i128::MIN <= self@[i as int] + rhs@[i as int] <= i128::MAX);
            i = i + 1;
        }
        Some(self.mul(rhs))
    }

    /// The unit of a quotient, `None` when an exponent difference cannot be
    /// represented.
    pub fn checked_div(&self, rhs: &Unit) -> (r: Option<Unit>)
        requires
            self.wf(),
            rhs.wf(),
        ensures
            r is Some <==> forall|i: int|
                0 <= i < 7 ==> i128::MIN <= (#[trigger] self@[i]) - rhs@[i] <= i128::MAX,
            r matches Some(u) ==> u.wf() && u@ == unit_div_spec(self@, rhs@),
    {
        let mut i: usize = 0;
        while i < 7
            invariant
                i <= 7,
                self.wf(),
                rhs.wf(),
                forall|l: int|
                    0 <= l < i ==> i128::MIN <= (#[trigger] self@[l]) - rhs@[l] <= i128::MAX,
            decreases 7 - i,
        {
            let a = self.e[i];
            let b = rhs.e[i];
            if b <= 0 {
                if a > i128::MAX + b {
                    assert(self@[i as int] - rhs@[i as int] > i128::MAX);
                    return None;
                }
            } else {
                if a < i128::MIN + b {
                    assert(self@[i as int] - rhs@[i as int] < i128::MIN);
                    return None;
                }
            }
            assert(i128::MIN <= self@[i as int] - rhs@[i as int] <= i128::MAX);
            i = i + 1;
        }
        Some(self.div(rhs))
    }

    /// The canonical text of this unit, in enumeration order of the base
    /// dimensions: each positive exponent in the numerator and each
    /// negative one in the denominator, with `^` and the exponent — its
    /// sign included — where the exponent is not one; `1` for an empty
    /// numerator; ` / ` between the parts when there is a denominator.
    pub fn display(&self) -> (r: String)
        requires
            self.wf(),
        ensures
            r@ == display_spec(self@),
    {
        let mut num = String::new();
        let mut den = String::new();
        let mut i: usize = 0;
        while i < 7
            invariant
                self.wf(),
                i <= 7,
                num@ == num_part(self@, i as int),
                den@ == den_part(self@, i as int),
            decreases 7 - i,
        {
            let e = self.e[i];
            proof {
                assert(e as int == self@[i as int]);
            }
            if e == 0 {
                // nothing to show for an absent dimension
            } else if e == 1 {
                num.append(symbol_str(i));
            } else if e == -1 {
                den.append(symbol_str(i));
            } else if e >= 2 {
                num.append(symbol_str(i));
                num.append("^");
                text::append_int(&mut num, e);
            } else {
                den.append(symbol_str(i));
                den.append("^");
                text::append_int(&mut den, e);
            }
            proof {
                assert(num@ =~= num_part(self@, i as int + 1));
                assert(den@ =~= den_part(self@, i as int + 1));
            }
            i = i + 1;
        }
        let mut out: String = if num.as_str().is_empty() {
            String::from_str("1")
        } else {
            num
        };
        if den.as_str().is_empty() {
            proof {
                assert(out@ =~= display_spec(self@));
            }
            out
        } else {
            out.append(" / ");
            out.append(den.as_str());
            proof {
                assert(out@ =~= display_spec(self@));
            }
            out
        }
    }

    /// Parses a compound unit expression and keeps only its dimensions,
    /// for comparing expected against actual units; any scale the
    /// expression carries is discarded.
    pub fn parse(unit_str: &str) -> (r: Result<Unit, ParserError>)
        ensures
            r is Ok <==> parse_spec(unit_str@) is Ok,
            r matches Ok(u) ==> {
                &&& parse_spec(unit_str@) matches Ok(en)
                &&& u.wf()
                &&& u@ == en.0
            },
            r matches Err(e) ==> {
                &&& parse_spec(unit_str@) matches Err(tok)
                &&& e matches ParserError::NotFound(t)
                &&& t@ == tok
            },
    {
        match ParsedUnit::parse(unit_str) {
            Ok(p) => Ok(p.unit),
            Err(e) => Err(e),
        }
    }

    /// Checks that two units are the same dimension, as addition and
    /// subtraction require.  Different dimensions are an
    /// `IncompatibleUnits` error carrying the display of both units.
    pub fn same_dimension(&self, other: &Unit) -> (r: Result<(), ParserError>)
        requires
            self.wf(),
            other.wf(),
        ensures
            r is Ok <==> self@ == other@,
            r matches Err(e) ==> {
                &&& e matches ParserError::IncompatibleUnits(a, b)
                &&& a@ == display_spec(self@)
                &&& b@ == display_spec(other@)
            },
    {
        if self == other {
            Ok(())
        } else {
            Err(ParserError::IncompatibleUnits(self.display(), other.display()))
        }
    }
}

} // verus!
