//! Numbers of the language: exact fractions of 64-bit integers. Every result
//! of arithmetic is the exact fraction, or none where its numerator or
//! denominator leaves the 64-bit range.
use vstd::prelude::*;
use crate::scanner::is_digit;
use crate::text::{chars_of, decimal, digit, digit_char, push_decimal, string_from_chars};

verus! {

/// The fraction `num / den`, with `den > 0`. Fractions are not reduced: two
/// numbers are the same value when `same_value` holds.
#[derive(Clone, Copy, Debug)]
pub struct Number {
    num: i64,
    den: i64,
}

pub open spec fn fits(x: int) -> bool {
    i64::MIN <= x <= i64::MAX
}

impl Number {
    #[verifier::type_invariant]
    spec fn positive_denominator(self) -> bool {
        self.den > 0
    }

    pub closed spec fn numer(self) -> int {
        self.num as int
    }

    pub closed spec fn denom(self) -> int {
        self.den as int
    }

    /// The number `n / d`, where both fit and `d > 0`.
    pub closed spec fn from_parts(n: int, d: int) -> Number {
        Number { num: n as i64, den: d as i64 }
    }

    /// What `from_parts` holds, where its parts fit.
    pub proof fn lemma_from_parts(n: int, d: int)
        requires
            fits(n),
            fits(d),
            d > 0,
        ensures
            Number::from_parts(n, d).numer() == n,
            Number::from_parts(n, d).denom() == d,
    {
    }
}

/// `n / d` as a number, where it can be one.
pub open spec fn make(n: int, d: int) -> Option<Number> {
    if fits(n) && fits(d) && d > 0 {
        Some(Number::from_parts(n, d))
    } else {
        None
    }
}

pub open spec fn same_value(a: Number, b: Number) -> bool {
    a.numer() * b.denom() == b.numer() * a.denom()
}

pub open spec fn less(a: Number, b: Number) -> bool {
    a.numer() * b.denom() < b.numer() * a.denom()
}

pub open spec fn is_zero(a: Number) -> bool {
    a.numer() == 0
}

pub open spec fn sum(a: Number, b: Number) -> Option<Number> {
    make(a.numer() * b.denom() + b.numer() * a.denom(), a.denom() * b.denom())
}

pub open spec fn difference(a: Number, b: Number) -> Option<Number> {
    make(a.numer() * b.denom() - b.numer() * a.denom(), a.denom() * b.denom())
}

pub open spec fn product(a: Number, b: Number) -> Option<Number> {
    make(a.numer() * b.numer(), a.denom() * b.denom())
}

/// `a / b` for `b` not zero; the sign goes to the numerator.
pub open spec fn quotient(a: Number, b: Number) -> Option<Number> {
    if b.numer() < 0 {
        make(-(a.numer() * b.denom()), -(a.denom() * b.numer()))
    } else {
        make(a.numer() * b.denom(), a.denom() * b.numer())
    }
}

pub open spec fn negation(a: Number) -> Option<Number> {
    make(-a.numer(), a.denom())
}

pub open spec fn wide(x: int) -> bool {
    -0x4000_0000_0000_0000_0000_0000_0000_0000 <= x <= 0x4000_0000_0000_0000_0000_0000_0000_0000
}

/// The exact product of two 64-bit integers.
fn wide_mul(a: i64, b: i64) -> (r: i128)
    ensures
        r == a as int * b as int,
        wide(r as int),
        b > 0 ==> -0x4000_0000_0000_0000_0000_0000_0000_0000 < r < 0x4000_0000_0000_0000_0000_0000_0000_0000,
{
    proof {
        let x = a as int;
        let y = b as int;
        let m = 0x8000_0000_0000_0000int;
        assert(-m <= x < m);
        assert(-m <= y < m);
        assert(-(m * m) <= x * y <= m * m) by (nonlinear_arith)
            requires
                -m <= x < m,
                -m <= y < m,
                m > 0,
        ;
        if y > 0 {
            assert(-(m * m) < x * y < m * m) by (nonlinear_arith)
                requires
                    -m <= x < m,
                    0 < y < m,
                    m > 0,
            ;
        }
    }
    a as i128 * b as i128
}

fn make_number(n: i128, d: i128) -> (r: Option<Number>)
    ensures
        r == make(n as int, d as int),
{
    if n < i64::MIN as i128 || n > i64::MAX as i128 || d <= 0 || d > i64::MAX as i128 {
        None
    } else {
        Some(Number { num: n as i64, den: d as i64 })
    }
}

impl Number {
    /// The whole number `n`.
    pub fn from_int(n: i64) -> (r: Number)
        ensures
            r.numer() == n,
            r.denom() == 1,
    {
        Number { num: n, den: 1 }
    }

    /// The fraction `num / den`, when `den > 0`.
    pub fn ratio(num: i64, den: i64) -> (r: Option<Number>)
        ensures
            r == make(num as int, den as int),
    {
        make_number(num as i128, den as i128)
    }

    pub fn numerator(&self) -> (r: i64)
        ensures
            r == self.numer(),
    {
        self.num
    }

    pub fn denominator(&self) -> (r: i64)
        ensures
            r == self.denom(),
            r > 0,
    {
        proof {
            use_type_invariant(self);
        }
        self.den
    }

    pub fn is_zero(&self) -> (r: bool)
        ensures
            r == is_zero(*self),
    {
        self.num == 0
    }

    pub fn same_value(&self, other: &Number) -> (r: bool)
        ensures
            r == same_value(*self, *other),
    {
        wide_mul(self.num, other.den) == wide_mul(other.num, self.den)
    }

    pub fn less(&self, other: &Number) -> (r: bool)
        ensures
            r == less(*self, *other),
    {
        wide_mul(self.num, other.den) < wide_mul(other.num, self.den)
    }

    pub fn add(&self, other: &Number) -> (r: Option<Number>)
        ensures
            r == sum(*self, *other),
    {
        proof {
            use_type_invariant(self);
            use_type_invariant(other);
        }
        let n = wide_mul(self.num, other.den) + wide_mul(other.num, self.den);
        let d = wide_mul(self.den, other.den);
        make_number(n, d)
    }

    pub fn subtract(&self, other: &Number) -> (r: Option<Number>)
        ensures
            r == difference(*self, *other),
    {
        proof {
            use_type_invariant(self);
            use_type_invariant(other);
        }
        let n = wide_mul(self.num, other.den) - wide_mul(other.num, self.den);
        let d = wide_mul(self.den, other.den);
        make_number(n, d)
    }

    pub fn multiply(&self, other: &Number) -> (r: Option<Number>)
        ensures
            r == product(*self, *other),
    {
        let n = wide_mul(self.num, other.num);
        let d = wide_mul(self.den, other.den);
        make_number(n, d)
    }

    pub fn divide(&self, other: &Number) -> (r: Option<Number>)
        requires
            !is_zero(*other),
        ensures
            r == quotient(*self, *other),
    {
        let n = wide_mul(self.num, other.den);
        let d = wide_mul(self.den, other.num);
        if other.num < 0 {
            make_number(-n, -d)
        } else {
            make_number(n, d)
        }
    }

    pub fn negate(&self) -> (r: Option<Number>)
        ensures
            r == negation(*self),
    {
        make_number(-(self.num as i128), self.den as i128)
    }
}

/// How many digits after the point a number shows at most.
pub const FRACTION_DIGITS: usize = 16;

pub open spec fn digit_value(c: char) -> int {
    (c as u32) as int - ('0' as u32) as int
}

/// A number literal read left to right: its digits as one integer, the power
/// of ten under the digits after the point, and whether the point was met.
/// None where the text holds another char, a second point, or leaves the
/// 64-bit range.
pub open spec fn read_literal(s: Seq<char>) -> Option<(int, int, bool)>
    decreases s.len(),
{
    if s.len() == 0 {
        Some((0, 1, false))
    } else {
        match read_literal(s.drop_last()) {
            None => None,
            Some((m, d, dot)) => {
                let c = s.last();
                if is_digit(c) {
                    let m2 = m * 10 + digit_value(c);
                    let d2 = if dot { d * 10 } else { d };
                    if fits(m2) && fits(d2) { Some((m2, d2, dot)) } else { None }
                } else if c == '.' && !dot {
                    Some((m, d, true))
                } else {
                    None
                }
            },
        }
    }
}

/// The number a literal such as `12` or `3.25` denotes: digits, with at most
/// one point between digits.
pub open spec fn literal_value(s: Seq<char>) -> Option<Number> {
    if s.len() > 0 && is_digit(s[0]) && is_digit(s.last()) {
        match read_literal(s) {
            Some((m, d, _)) => make(m, d),
            None => None,
        }
    } else {
        None
    }
}

/// The first `k` decimal digits of `r / d` (for `r < d`).
pub open spec fn fraction_digits(r: nat, d: nat, k: nat) -> Seq<char>
    decreases k,
{
    if k == 0 || d == 0 {
        Seq::empty()
    } else {
        seq![digit_char((r * 10) / d)] + fraction_digits((r * 10) % d, d, (k - 1) as nat)
    }
}

pub open spec fn trim_zeros(s: Seq<char>) -> Seq<char>
    decreases s.len(),
{
    if s.len() > 0 && s.last() == '0' {
        trim_zeros(s.drop_last())
    } else {
        s
    }
}

pub open spec fn abs(x: int) -> int {
    if x < 0 { -x } else { x }
}

/// How a number is shown: sign, whole part, a point, and the digits after
/// the point without trailing zeros, cut after `FRACTION_DIGITS` (`0` where
/// none is left), as in `7.0`, `-0.5` or `0.3333333333333333`.
pub open spec fn number_text(x: Number) -> Seq<char> {
    let a = abs(x.numer());
    let d = x.denom();
    let f = trim_zeros(fraction_digits((a % d) as nat, d as nat, FRACTION_DIGITS as nat));
    (if x.numer() < 0 { "-"@ } else { ""@ }) + decimal((a / d) as nat) + "."@ + (if f.len() == 0 { "0"@ } else { f })
}

/// How the lexeme of a number token is shown: as the number it denotes, or as
/// zero where it denotes none.
pub open spec fn lexeme_text(s: Seq<char>) -> Seq<char> {
    match literal_value(s) {
        Some(x) => number_text(x),
        None => "0.0"@,
    }
}

impl Number {
    /// The number a literal denotes.
    pub fn from_literal(text: &str) -> (r: Option<Number>)
        ensures
            r == literal_value(text@),
    {
        let cs = chars_of(text);
        let n = cs.len();
        if n == 0 || !('0' <= cs[0] && cs[0] <= '9') || !('0' <= cs[n - 1] && cs[n - 1] <= '9') {
            return None;
        }
        let mut m: i64 = 0;
        let mut d: i64 = 1;
        let mut dot = false;
        let mut i: usize = 0;
        while i < n
            invariant
                n == cs@.len(),
                i <= n,
                read_literal(cs@.subrange(0, i as int)) == Some((m as int, d as int, dot)),
                d > 0,
                m >= 0,
                n > 0,
                is_digit(cs@[0]),
                is_digit(cs@.last()),
                cs@ == text@,
            decreases n - i,
        {
            let c = cs[i];
            assert(cs@.subrange(0, i + 1).drop_last() =~= cs@.subrange(0, i as int));
            if '0' <= c && c <= '9' {
                let v = (c as u32 - '0' as u32) as i128;
                let m2 = m as i128 * 10 + v;
                let d2 = if dot { d as i128 * 10 } else { d as i128 };
                if m2 > i64::MAX as i128 || d2 > i64::MAX as i128 {
                    proof {
                        assert(read_literal(cs@.subrange(0, i + 1)) is None);
                        lemma_read_literal_stays_none(cs@, i as int + 1);
                    }
                    return None;
                }
                m = m2 as i64;
                d = d2 as i64;
            } else if c == '.' && !dot {
                dot = true;
            } else {
                proof {
                    assert(read_literal(cs@.subrange(0, i + 1)) is None);
                    lemma_read_literal_stays_none(cs@, i as int + 1);
                    assert(cs@.subrange(0, n as int) =~= cs@);
                }
                return None;
            }
            i += 1;
        }
        assert(cs@.subrange(0, n as int) =~= cs@);
        Some(Number { num: m, den: d })
    }

    /// The text this number is shown as.
    pub fn to_text(&self) -> (r: String)
        ensures
            r@ == number_text(*self),
    {
        proof {
            use_type_invariant(self);
        }
        let a: u128 = if self.num < 0 { (-(self.num as i128)) as u128 } else { self.num as u128 };
        let d: u128 = self.den as u128;
        let mut out = if self.num < 0 { String::from_str("-") } else { String::from_str("") };
        push_decimal(&mut out, a / d);
        out.append(".");
        let mut digits: Vec<char> = Vec::new();
        let mut r: u128 = a % d;
        let mut k: usize = 0;
        while k < FRACTION_DIGITS
            invariant
                d > 0,
                d < 0x8000_0000_0000_0000,
                r < d,
                k <= FRACTION_DIGITS,
                fraction_digits((a % d) as nat, d as nat, FRACTION_DIGITS as nat)
                    == digits@ + fraction_digits(r as nat, d as nat, (FRACTION_DIGITS - k) as nat),
            decreases FRACTION_DIGITS - k,
        {
            let ghost before = digits@;
            let ghost r0 = r;
            let t = r * 10;
            assert(t / d < 10) by (nonlinear_arith)
                requires
                    t == r * 10,
                    r < d,
                    d > 0,
            ;
            digits.push(digit(t / d));
            r = t % d;
            assert(before + fraction_digits(r0 as nat, d as nat, (FRACTION_DIGITS - k) as nat)
                =~= digits@ + fraction_digits(r as nat, d as nat, (FRACTION_DIGITS - k - 1) as nat));
            k += 1;
        }
        assert(digits@ + Seq::empty() =~= digits@);
        let mut end = digits.len();
        assert(digits@.subrange(0, digits@.len() as int) =~= digits@);
        while end > 0 && digits[end - 1] == '0'
            invariant
                end <= digits@.len(),
                trim_zeros(digits@) == trim_zeros(digits@.subrange(0, end as int)),
            decreases end,
        {
            assert(digits@.subrange(0, end as int).drop_last() =~= digits@.subrange(0, end - 1));
            end -= 1;
        }
        if end == 0 {
            out.append("0");
        } else {
            let f = string_from_chars(&digits, 0, end);
            out.append(f.as_str());
        }
        out
    }
}

proof fn lemma_read_literal_stays_none(s: Seq<char>, k: int)
    requires
        0 <= k <= s.len(),
        read_literal(s.subrange(0, k)) is None,
    ensures
        read_literal(s) is None,
    decreases s.len() - k,
{
    if k < s.len() {
        assert(s.subrange(0, k + 1).drop_last() =~= s.subrange(0, k));
        lemma_read_literal_stays_none(s, k + 1);
    } else {
        assert(s.subrange(0, k) =~= s);
    }
}

/// How a number token's lexeme is shown, as in `42.0` for `42`.
pub fn format_tokenized_number(value: &str) -> (r: String)
    ensures
        r@ == lexeme_text(value@),
{
    match Number::from_literal(value) {
        Some(x) => x.to_text(),
        None => String::from_str("0.0"),
    }
}

} // verus!
