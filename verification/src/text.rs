//! Text helpers shared by the unit tables and the expression parser:
//! whitespace splitting, trimming, comparing character ranges against
//! symbols, and rendering integers in decimal.

use vstd::prelude::*;
use vstd::string::StrSliceExecFns;
use vstd::string::StringExecFns;

verus! {

/// The characters that separate tokens: the Unicode `White_Space` set,
/// which is also what trimming removes.
pub open spec fn is_space(c: char) -> bool {
    c == '\u{9}' || c == '\u{a}' || c == '\u{b}' || c == '\u{c}' || c == '\u{d}' || c == ' '
        || c == '\u{85}' || c == '\u{a0}' || c == '\u{1680}' || c == '\u{2000}' || c == '\u{2001}'
        || c == '\u{2002}' || c == '\u{2003}' || c == '\u{2004}' || c == '\u{2005}'
        || c == '\u{2006}' || c == '\u{2007}' || c == '\u{2008}' || c == '\u{2009}'
        || c == '\u{200a}' || c == '\u{2028}' || c == '\u{2029}' || c == '\u{202f}'
        || c == '\u{205f}' || c == '\u{3000}'
}

pub(crate) fn space_char(c: char) -> (b: bool)
    ensures
        b == is_space(c),
{
    c == '\u{9}' || c == '\u{a}' || c == '\u{b}' || c == '\u{c}' || c == '\u{d}' || c == ' '
        || c == '\u{85}' || c == '\u{a0}' || c == '\u{1680}' || c == '\u{2000}' || c == '\u{2001}'
        || c == '\u{2002}' || c == '\u{2003}' || c == '\u{2004}' || c == '\u{2005}'
        || c == '\u{2006}' || c == '\u{2007}' || c == '\u{2008}' || c == '\u{2009}'
        || c == '\u{200a}' || c == '\u{2028}' || c == '\u{2029}' || c == '\u{202f}'
        || c == '\u{205f}' || c == '\u{3000}'
}

/// Length of the leading run of non-space characters.
pub open spec fn token_len(s: Seq<char>) -> nat
    decreases s.len(),
{
    if s.len() == 0 || is_space(s[0]) {
        0
    } else {
        1 + token_len(s.skip(1))
    }
}

pub proof fn lemma_token_len_le(s: Seq<char>)
    ensures
        token_len(s) <= s.len(),
    decreases s.len(),
{
    if s.len() > 0 && !is_space(s[0]) {
        lemma_token_len_le(s.skip(1));
    }
}

/// The whitespace-separated tokens of `s`, in order.
pub open spec fn tokenize(s: Seq<char>) -> Seq<Seq<char>>
    decreases s.len(),
    via tokenize_decreases
{
    if s.len() == 0 {
        Seq::empty()
    } else if is_space(s[0]) {
        tokenize(s.skip(1))
    } else {
        seq![s.take(token_len(s) as int)] + tokenize(s.skip(token_len(s) as int))
    }
}

#[via_fn]
proof fn tokenize_decreases(s: Seq<char>) {
    if s.len() > 0 && !is_space(s[0]) {
        lemma_token_len_le(s);
        assert(token_len(s) >= 1);
    }
}

/// Number of spaces at the front of `s`.
pub open spec fn leading_spaces(s: Seq<char>) -> nat
    decreases s.len(),
{
    if s.len() > 0 && is_space(s[0]) {
        1 + leading_spaces(s.skip(1))
    } else {
        0
    }
}

/// Number of spaces at the back of `s`.
pub open spec fn trailing_spaces(s: Seq<char>) -> nat
    decreases s.len(),
{
    if s.len() > 0 && is_space(s[s.len() - 1]) {
        1 + trailing_spaces(s.drop_last())
    } else {
        0
    }
}

/// `s` with leading and trailing whitespace removed.
pub open spec fn trim_spec(s: Seq<char>) -> Seq<char> {
    let rest = s.skip(leading_spaces(s) as int);
    rest.take(rest.len() - trailing_spaces(rest))
}

pub proof fn lemma_leading_spaces(s: Seq<char>, k: int)
    requires
        0 <= k <= s.len(),
        forall|l: int| 0 <= l < k ==> is_space(s[l]),
        k == s.len() || !is_space(s[k]),
    ensures
        leading_spaces(s) == k,
    decreases k,
{
    if k == 0 {
    } else {
        lemma_leading_spaces(s.skip(1), k - 1);
    }
}

pub proof fn lemma_trailing_spaces(s: Seq<char>, k: int)
    requires
        0 <= k <= s.len(),
        forall|l: int| s.len() - k <= l < s.len() ==> is_space(s[l]),
        k == s.len() || !is_space(s[s.len() - k - 1]),
    ensures
        trailing_spaces(s) == k,
    decreases k,
{
    if k == 0 {
    } else {
        assert(is_space(s[s.len() - 1]));
        lemma_trailing_spaces(s.drop_last(), k - 1);
    }
}

pub proof fn lemma_token_len(s: Seq<char>, k: int)
    requires
        0 <= k <= s.len(),
        forall|l: int| 0 <= l < k ==> !is_space(s[l]),
        k == s.len() || is_space(s[k]),
    ensures
        token_len(s) == k,
    decreases k,
{
    if k == 0 {
    } else {
        lemma_token_len(s.skip(1), k - 1);
    }
}

/// The token ranges of `s`, as in-bounds character index pairs whose
/// substrings are exactly the whitespace-separated tokens of `s`.
pub(crate) fn token_ranges(s: &str) -> (toks: Vec<(usize, usize)>)
    ensures
        tokenize(s@) == toks@.map_values(
            |p: (usize, usize)| s@.subrange(p.0 as int, p.1 as int),
        ),
        forall|j: int|
            0 <= j < toks@.len() ==> toks@[j].0 < toks@[j].1 && toks@[j].1 <= s@.len(),
{
    let n = s.unicode_len();
    let mut toks: Vec<(usize, usize)> = Vec::new();
    let mut i: usize = 0;
    proof {
        let f = |p: (usize, usize)| s@.subrange(p.0 as int, p.1 as int);
        assert(s@.skip(0) =~= s@);
        assert(toks@.map_values(f) + tokenize(s@) =~= tokenize(s@));
    }
    while i < n
        invariant
            n == s@.len(),
            i <= n,
            tokenize(s@) == toks@.map_values(
                |p: (usize, usize)| s@.subrange(p.0 as int, p.1 as int),
            ) + tokenize(s@.skip(i as int)),
            forall|j: int|
                0 <= j < toks@.len() ==> toks@[j].0 < toks@[j].1 && toks@[j].1 <= s@.len(),
        decreases n - i,
    {
        let c = s.get_char(i);
        if space_char(c) {
            proof {
                assert(s@.skip(i as int).skip(1) =~= s@.skip(i + 1));
            }
            i = i + 1;
        } else {
            let start = i;
            let mut j: usize = i + 1;
            while j < n && !space_char(s.get_char(j))
                invariant
                    n == s@.len(),
                    start < j <= n,
                    forall|l: int| start <= l < j ==> !is_space(s@[l]),
                decreases n - j,
            {
                j = j + 1;
            }
            proof {
                let rest = s@.skip(start as int);
                lemma_token_len(rest, j - start);
                assert(rest.take(j - start) =~= s@.subrange(start as int, j as int));
                assert(rest.skip(j - start) =~= s@.skip(j as int));
                let f = |p: (usize, usize)| s@.subrange(p.0 as int, p.1 as int);
                assert(toks@.push((start, j)).map_values(f) =~= toks@.map_values(f) + seq![
                    s@.subrange(start as int, j as int),
                ]);
            }
            toks.push((start, j));
            i = j;
        }
    }
    proof {
        assert(s@.skip(n as int) =~= Seq::<char>::empty());
        assert(tokenize(s@) =~= toks@.map_values(
            |p: (usize, usize)| s@.subrange(p.0 as int, p.1 as int),
        ));
    }
    toks
}

/// True when the characters of `s` between `a` and `b` are exactly `pat`.
pub(crate) fn range_matches(s: &str, a: usize, b: usize, pat: &str) -> (r: bool)
    requires
        a <= b <= s@.len(),
    ensures
        r == (s@.subrange(a as int, b as int) == pat@),
{
    let plen = pat.unicode_len();
    if b - a != plen {
        return false;
    }
    let mut i: usize = 0;
    while i < plen
        invariant
            plen == pat@.len(),
            b - a == plen,
            a <= b <= s@.len(),
            i <= plen,
            forall|l: int| 0 <= l < i ==> s@.subrange(a as int, b as int)[l] == pat@[l],
        decreases plen - i,
    {
        if s.get_char(a + i) != pat.get_char(i) {
            return false;
        }
        i = i + 1;
    }
    proof {
        assert(s@.subrange(a as int, b as int) =~= pat@);
    }
    true
}

/// The bounds of `s` without its leading and trailing whitespace.
pub(crate) fn trim_range(s: &str) -> (r: (usize, usize))
    ensures
        r.0 <= r.1 <= s@.len(),
        s@.subrange(r.0 as int, r.1 as int) == trim_spec(s@),
{
    let n = s.unicode_len();
    let mut a: usize = 0;
    while a < n && space_char(s.get_char(a))
        invariant
            n == s@.len(),
            a <= n,
            forall|l: int| 0 <= l < a ==> is_space(s@[l]),
        decreases n - a,
    {
        a = a + 1;
    }
    let mut b: usize = n;
    while b > a && space_char(s.get_char(b - 1))
        invariant
            n == s@.len(),
            a <= b <= n,
            forall|l: int| 0 <= l < a ==> is_space(s@[l]),
            forall|l: int| b <= l < n ==> is_space(s@[l]),
        decreases b,
    {
        b = b - 1;
    }
    proof {
        lemma_leading_spaces(s@, a as int);
        let rest = s@.skip(a as int);
        lemma_trailing_spaces(rest, n - b);
        assert(rest.take(rest.len() - (n - b)) =~= s@.subrange(a as int, b as int));
    }
    (a, b)
}

/// The character of a single decimal digit.
pub open spec fn digit_char(d: int) -> char {
    if d == 0 {
        '0'
    } else if d == 1 {
        '1'
    } else if d == 2 {
        '2'
    } else if d == 3 {
        '3'
    } else if d == 4 {
        '4'
    } else if d == 5 {
        '5'
    } else if d == 6 {
        '6'
    } else if d == 7 {
        '7'
    } else if d == 8 {
        '8'
    } else {
        '9'
    }
}

/// The decimal digits of a non-negative integer, most significant first.
pub open spec fn dec_digits(n: nat) -> Seq<char>
    decreases n,
{
    if n < 10 {
        seq![digit_char(n as int)]
    } else {
        dec_digits(n / 10).push(digit_char((n % 10) as int))
    }
}

/// The decimal rendering of an integer, with a leading `-` when negative.
pub open spec fn int_str(n: int) -> Seq<char> {
    if n < 0 {
        seq!['-'] + dec_digits((-n) as nat)
    } else {
        dec_digits(n as nat)
    }
}

fn digit_str(d: u8) -> (r: &'static str)
    requires
        d < 10,
    ensures
        r@ == seq![digit_char(d as int)],
{
    proof {
        reveal_strlit("0");
        reveal_strlit("1");
        reveal_strlit("2");
        reveal_strlit("3");
        reveal_strlit("4");
        reveal_strlit("5");
        reveal_strlit("6");
        reveal_strlit("7");
        reveal_strlit("8");
        reveal_strlit("9");
    }
    if d == 0 {
        "0"
    } else if d == 1 {
        "1"
    } else if d == 2 {
        "2"
    } else if d == 3 {
        "3"
    } else if d == 4 {
        "4"
    } else if d == 5 {
        "5"
    } else if d == 6 {
        "6"
    } else if d == 7 {
        "7"
    } else if d == 8 {
        "8"
    } else {
        "9"
    }
}

fn append_udec(out: &mut String, m: u128)
    ensures
        final(out)@ == old(out)@ + dec_digits(m as nat),
    decreases m,
{
    if m < 10 {
        out.append(digit_str(m as u8));
    } else {
        append_udec(out, m / 10);
        out.append(digit_str((m % 10) as u8));
        proof {
            assert(old(out)@ + dec_digits((m / 10) as nat) + seq![
                digit_char((m % 10) as int),
            ] =~= old(out)@ + dec_digits(m as nat));
        }
    }
}

/// Appends the decimal rendering of `v` to `out`.
pub(crate) fn append_int(out: &mut String, v: i128)
    ensures
        final(out)@ == old(out)@ + int_str(v as int),
{
    if v < 0 {
        proof {
            reveal_strlit("-");
        }
        out.append("-");
        let m: u128 = if v == i128::MIN {
            (i128::MAX as u128) + 1
        } else {
            (-v) as u128
        };
        append_udec(out, m);
        proof {
            assert(old(out)@ + "-"@ + dec_digits(m as nat) =~= old(out)@ + int_str(v as int));
        }
    } else {
        append_udec(out, v as u128);
    }
}

} // verus!
