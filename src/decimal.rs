//! Exact decimal numbers, as captured from log lines and converted between time units.

use crate::text::{first_index_of, lemma_first_index_of, nat_digits, str_eq, substring, u128_to_string};
use vstd::prelude::*;

verus! {

/// The most digits a captured number may carry.
pub const MAX_DIGITS: usize = 36;

/// A decimal number `mantissa * 10^exponent`.
#[derive(Clone, Copy, Debug, PartialEq, Eq, Structural)]
pub struct Decimal {
    pub mantissa: i128,
    pub exponent: i32,
}

pub open spec fn is_digit(c: char) -> bool {
    '0' <= c && c <= '9'
}

pub open spec fn digit_value(c: char) -> int {
    (c as int) - ('0' as int)
}

pub open spec fn all_digits(s: Seq<char>) -> bool {
    forall|i: int| 0 <= i < s.len() ==> is_digit(#[trigger] s[i])
}

/// The integer written by a run of decimal digits.
pub open spec fn digits_value(s: Seq<char>) -> int
    decreases s.len(),
{
    if s.len() == 0 {
        0
    } else {
        digits_value(s.drop_last()) * 10 + digit_value(s.last())
    }
}

pub open spec fn pow10(n: nat) -> int
    decreases n,
{
    if n == 0 {
        1
    } else {
        10 * pow10((n - 1) as nat)
    }
}

/// The characters after an optional leading minus sign.
pub open spec fn unsigned_part(s: Seq<char>) -> Seq<char> {
    if s.len() > 0 && s[0] == '-' {
        s.drop_first()
    } else {
        s
    }
}

pub open spec fn integer_part(s: Seq<char>) -> Seq<char> {
    let u = unsigned_part(s);
    u.subrange(0, first_index_of(u, '.') as int)
}

pub open spec fn fraction_part(s: Seq<char>) -> Seq<char> {
    let u = unsigned_part(s);
    let d = first_index_of(u, '.') as int;
    if d < u.len() {
        u.subrange(d + 1, u.len() as int)
    } else {
        Seq::empty()
    }
}

/// The text is a plain number: an optional `-`, digits, and at most one `.` among them, with
/// at least one digit and no more than `MAX_DIGITS` in all.
pub open spec fn is_number_text(s: Seq<char>) -> bool {
    let i = integer_part(s);
    let f = fraction_part(s);
    &&& all_digits(i)
    &&& all_digits(f)
    &&& 1 <= i.len() + f.len() <= MAX_DIGITS
}

/// The number written by `s`, when `s` is plain number text.
pub open spec fn plain_number_of_text(s: Seq<char>) -> Option<Decimal> {
    if is_number_text(s) {
        let m = digits_value(integer_part(s) + fraction_part(s));
        let neg = s.len() > 0 && s[0] == '-';
        Some(
            Decimal {
                mantissa: (if neg {
                    -m
                } else {
                    m
                }) as i128,
                exponent: -(fraction_part(s).len() as int) as i32,
            },
        )
    } else {
        None
    }
}

pub proof fn lemma_digits_value_bound(s: Seq<char>)
    requires
        all_digits(s),
    ensures
        0 <= digits_value(s) < pow10(s.len()),
    decreases s.len(),
{
    if s.len() > 0 {
        let t = s.drop_last();
        assert forall|i: int| 0 <= i < t.len() implies is_digit(#[trigger] t[i]) by {
            assert(t[i] == s[i]);
        }
        lemma_digits_value_bound(t);
        assert(is_digit(s[s.len() - 1]));
    }
}

pub proof fn lemma_pow10_mono(a: nat, b: nat)
    requires
        a <= b,
    ensures
        1 <= pow10(a) <= pow10(b),
    decreases b,
{
    if a < b {
        lemma_pow10_mono(a, (b - 1) as nat);
    } else {
        lemma_pow10_pos(a);
    }
}

pub proof fn lemma_pow10_pos(n: nat)
    ensures
        1 <= pow10(n),
    decreases n,
{
    if n > 0 {
        lemma_pow10_pos((n - 1) as nat);
    }
}

proof fn lemma_pow10_36()
    ensures
        pow10(36) == 1_000_000_000_000_000_000_000_000_000_000_000_000int,
{
    reveal_with_fuel(pow10, 37);
}

/// Parses plain number text (see `is_number_text`) into an exact decimal.
pub fn parse_plain_decimal(s: &str) -> (r: Option<Decimal>)
    ensures
        r == plain_number_of_text(s@),
        r matches Some(d) ==> -(MAX_DIGITS as int) <= d.exponent <= 0,
{
    let n = s.unicode_len();
    let neg = n > 0 && s.get_char(0) == '-';
    let start: usize = if neg {
        1
    } else {
        0
    };
    let ghost u = unsigned_part(s@);
    assert(u =~= s@.subrange(start as int, n as int));
    let mut m: i128 = 0;
    let mut count: usize = 0;
    let mut i: usize = start;
    // integer part
    while i < n && s.get_char(i) != '.'
        invariant
            n == s@.len(),
            start <= i <= n,
            u == s@.subrange(start as int, n as int),
            u == unsigned_part(s@),
            count == i - start,
            count <= MAX_DIGITS,
            forall|k: int| 0 <= k < i - start ==> u[k] != '.',
            all_digits(u.subrange(0, i - start)),
            m == digits_value(u.subrange(0, i - start)),
            0 <= m < pow10(count as nat),
        decreases n - i,
    {
        let c = s.get_char(i);
        assert(u[(i - start) as int] == c);
        proof {
            lemma_first_index_of(u, '.', (i - start + 1) as int);
        }
        assert(first_index_of(u, '.') > i - start);
        if !('0' <= c && c <= '9') {
            assert(integer_part(s@)[(i - start) as int] == c);
            return None;
        }
        if count == MAX_DIGITS {
            assert(integer_part(s@).len() > MAX_DIGITS);
            return None;
        }
        proof {
            lemma_pow10_mono((count + 1) as nat, 36);
            lemma_pow10_36();
            assert(u.subrange(0, i - start + 1).drop_last() =~= u.subrange(0, i - start));
        }
        m = m * 10 + ((c as u32 - '0' as u32) as i128);
        count = count + 1;
        i = i + 1;
        assert(all_digits(u.subrange(0, i - start))) by {
            assert forall|k: int| 0 <= k < i - start implies is_digit(#[trigger] u.subrange(0, i - start)[k]) by {
                if k < i - start - 1 {
                    assert(u.subrange(0, i - start)[k] == u.subrange(0, i - start - 1)[k]);
                }
            }
        }
    }
    proof {
        lemma_first_index_of(u, '.', (i - start) as int);
    }
    let ghost ip = u.subrange(0, i - start);
    assert(ip == integer_part(s@));
    let int_digits = count;
    if i < n {
        i = i + 1;
    }
    let frac_start = i;
    assert(fraction_part(s@) =~= s@.subrange(frac_start as int, n as int));
    // fraction part
    while i < n
        invariant
            n == s@.len(),
            frac_start <= i <= n,
            count == int_digits + (i - frac_start),
            count <= MAX_DIGITS,
            ip == integer_part(s@),
            ip.len() == int_digits,
            all_digits(ip),
            fraction_part(s@) == s@.subrange(frac_start as int, n as int),
            all_digits(s@.subrange(frac_start as int, i as int)),
            m == digits_value(ip + s@.subrange(frac_start as int, i as int)),
            0 <= m < pow10(count as nat),
        decreases n - i,
    {
        let c = s.get_char(i);
        if !('0' <= c && c <= '9') {
            assert(fraction_part(s@)[(i - frac_start) as int] == c);
            return None;
        }
        if count == MAX_DIGITS {
            assert(fraction_part(s@).len() > i - frac_start);
            return None;
        }
        proof {
            lemma_pow10_mono((count + 1) as nat, 36);
            lemma_pow10_36();
            assert((ip + s@.subrange(frac_start as int, i + 1)).drop_last() =~= ip + s@.subrange(
                frac_start as int,
                i as int,
            ));
        }
        m = m * 10 + ((c as u32 - '0' as u32) as i128);
        count = count + 1;
        i = i + 1;
        assert(all_digits(s@.subrange(frac_start as int, i as int))) by {
            assert forall|k: int| 0 <= k < i - frac_start implies is_digit(
                #[trigger] s@.subrange(frac_start as int, i as int)[k],
            ) by {
                if k < i - frac_start - 1 {
                    assert(s@.subrange(frac_start as int, i as int)[k] == s@.subrange(
                        frac_start as int,
                        i - 1,
                    )[k]);
                }
            }
        }
    }
    assert(s@.subrange(frac_start as int, i as int) == fraction_part(s@));
    if count == 0 {
        return None;
    }
    let frac_len = (n - frac_start) as i32;
    let mantissa = if neg {
        -m
    } else {
        m
    };
    Some(Decimal { mantissa, exponent: -frac_len })
}

/// Index of the first `e` or `E` of `s`, or its length.
pub open spec fn exponent_mark(s: Seq<char>) -> int {
    let a = first_index_of(s, 'e') as int;
    let b = first_index_of(s, 'E') as int;
    if a < b {
        a
    } else {
        b
    }
}

/// An exponent: an optional sign and one to four digits.
pub open spec fn exponent_value(e: Seq<char>) -> Option<int> {
    let signed = e.len() > 0 && (e[0] == '-' || e[0] == '+');
    let d = if signed {
        e.drop_first()
    } else {
        e
    };
    if 1 <= d.len() <= 4 && all_digits(d) {
        Some(
            if e[0] == '-' {
                -digits_value(d)
            } else {
                digits_value(d)
            },
        )
    } else {
        None
    }
}

/// The number written by `s`: an optional `+` (not followed by `-`), plain number text (see
/// `is_number_text`), then optionally `e` or `E` and an exponent (see `exponent_value`).
pub open spec fn number_of_text(s: Seq<char>) -> Option<Decimal> {
    let plus = s.len() > 0 && s[0] == '+';
    let t = if plus {
        s.drop_first()
    } else {
        s
    };
    if plus && t.len() > 0 && t[0] == '-' {
        None
    } else {
        let k = exponent_mark(t);
        match plain_number_of_text(t.subrange(0, k)) {
            None => None,
            Some(d) => if k == t.len() {
                Some(d)
            } else {
                match exponent_value(t.subrange(k + 1, t.len() as int)) {
                    None => None,
                    Some(x) => Some(Decimal { mantissa: d.mantissa, exponent: (d.exponent + x) as i32 }),
                }
            },
        }
    }
}

fn parse_exponent(e: &str) -> (r: Option<i32>)
    ensures
        r matches Some(x) ==> exponent_value(e@) == Some(x as int),
        r is None ==> exponent_value(e@) is None,
        r matches Some(x) ==> -9999 <= x <= 9999,
{
    let n = e.unicode_len();
    let signed = n > 0 && (e.get_char(0) == '-' || e.get_char(0) == '+');
    let start: usize = if signed {
        1
    } else {
        0
    };
    let ghost d = if signed {
        e@.drop_first()
    } else {
        e@
    };
    assert(d =~= e@.subrange(start as int, n as int));
    if n - start < 1 || n - start > 4 {
        return None;
    }
    let mut v: i32 = 0;
    let mut i: usize = start;
    assert(d.subrange(0, 0) =~= Seq::<char>::empty());
    while i < n
        invariant
            n == e@.len(),
            start <= i <= n,
            n - start <= 4,
            d == e@.subrange(start as int, n as int),
            d == (if e@.len() > 0 && (e@[0] == '-' || e@[0] == '+') {
                e@.drop_first()
            } else {
                e@
            }),
            all_digits(d.subrange(0, i - start)),
            v == digits_value(d.subrange(0, i - start)),
            0 <= v < pow10((i - start) as nat),
        decreases n - i,
    {
        let c = e.get_char(i);
        assert(d[(i - start) as int] == c);
        if !('0' <= c && c <= '9') {
            assert(!is_digit(d[(i - start) as int]));
            assert(!all_digits(d));
            return None;
        }
        proof {
            lemma_pow10_mono((i - start + 1) as nat, 4);
            reveal_with_fuel(pow10, 5);
            assert(d.subrange(0, i - start + 1).drop_last() =~= d.subrange(0, i - start));
        }
        v = v * 10 + ((c as u32 - '0' as u32) as i32);
        i = i + 1;
        assert(all_digits(d.subrange(0, i - start))) by {
            assert forall|k: int| 0 <= k < i - start implies is_digit(#[trigger] d.subrange(0, i - start)[k]) by {
                if k < i - start - 1 {
                    assert(d.subrange(0, i - start)[k] == d.subrange(0, i - start - 1)[k]);
                }
            }
        }
    }
    assert(d.subrange(0, n - start) =~= d);
    proof {
        lemma_pow10_mono((n - start) as nat, 4);
        reveal_with_fuel(pow10, 5);
    }
    if e.get_char(0) == '-' {
        Some(-v)
    } else {
        Some(v)
    }
}

/// Parses number text (see `number_of_text`) into an exact decimal.
pub fn parse_decimal(s: &str) -> (r: Option<Decimal>)
    ensures
        r == number_of_text(s@),
        r matches Some(d) ==> -10_100 <= d.exponent <= 10_100,
{
    let n = s.unicode_len();
    let plus = n > 0 && s.get_char(0) == '+';
    let t = if plus {
        substring(s, 1, n)
    } else {
        substring(s, 0, n)
    };
    assert(t@ =~= (if plus { s@.drop_first() } else { s@ }));
    let tn = t.unicode_len();
    if plus && tn > 0 && t.as_str().get_char(0) == '-' {
        return None;
    }
    let a = crate::text::find_char(t.as_str(), 'e');
    let b = crate::text::find_char(t.as_str(), 'E');
    let k = if a < b {
        a
    } else {
        b
    };
    let mant = substring(t.as_str(), 0, k);
    let d = match parse_plain_decimal(mant.as_str()) {
        None => return None,
        Some(d) => d,
    };
    if k == tn {
        return Some(d);
    }
    let exp_text = substring(t.as_str(), k + 1, tn);
    match parse_exponent(exp_text.as_str()) {
        None => None,
        Some(x) => Some(Decimal { mantissa: d.mantissa, exponent: d.exponent + x }),
    }
}

/// How many powers of ten a time unit lies above a millisecond.
pub open spec fn unit_shift(unit: Seq<char>) -> int {
    if unit == "s"@ {
        3
    } else if unit == "us"@ || unit == "µs"@ || unit == "microseconds"@ {
        -3
    } else if unit == "ns"@ {
        -6
    } else {
        0
    }
}

fn unit_shift_of(unit: &str) -> (r: i32)
    ensures
        r == unit_shift(unit@),
{
    if str_eq(unit, "s") {
        3
    } else if str_eq(unit, "us") || str_eq(unit, "µs") || str_eq(unit, "microseconds") {
        -3
    } else if str_eq(unit, "ns") {
        -6
    } else {
        0
    }
}

/// The number `d` in the unit `unit`, expressed in milliseconds.
pub open spec fn in_millis(d: Decimal, unit: Seq<char>) -> Decimal {
    Decimal { mantissa: d.mantissa, exponent: (d.exponent + unit_shift(unit)) as i32 }
}

/// Converts a captured value and its optional unit to milliseconds: `s`, `ms`, `us` (also
/// `µs` and `microseconds`) and `ns` are known; any other unit, or none, leaves the number as
/// it is. Text that is not a number gives `None`.
pub fn normalize_value(value: &str, unit: &str) -> (r: Option<Decimal>)
    ensures
        r == (match number_of_text(value@) {
            Some(d) => Some(in_millis(d, unit@)),
            None => None,
        }),
{
    match parse_decimal(value) {
        Some(d) => {
            let shift = unit_shift_of(unit);
            Some(Decimal { mantissa: d.mantissa, exponent: d.exponent + shift })
        },
        None => None,
    }
}

/// `n` zero characters.
pub open spec fn zeros(n: nat) -> Seq<char> {
    Seq::new(n, |i: int| '0')
}

/// Text of a non-negative number `m * 10^e`, plain positional notation.
pub open spec fn unsigned_text(m: nat, e: int) -> Seq<char> {
    let digits = nat_digits(m);
    if e >= 0 {
        if m == 0 {
            digits
        } else {
            digits + zeros(e as nat)
        }
    } else {
        let k = (-e) as nat;
        let padded = if digits.len() <= k {
            zeros((k + 1 - digits.len()) as nat) + digits
        } else {
            digits
        };
        padded.subrange(0, padded.len() - k) + seq!['.'] + padded.subrange(
            padded.len() - k,
            padded.len() as int,
        )
    }
}

/// `(m, e)` with the trailing zeros of `m` moved into a negative exponent, as far as it goes.
pub open spec fn reduced(m: nat, e: int) -> (nat, int)
    decreases (if e < 0 { -e } else { 0 }),
{
    if e < 0 && m % 10 == 0 {
        reduced(m / 10, e + 1)
    } else {
        (m, e)
    }
}

/// Shortest plain text of a decimal: an optional `-`, digits, and a `.` only when the number
/// has a fractional part (`12.5`, `4500`, `0.0000015`).
pub open spec fn decimal_text(d: Decimal) -> Seq<char> {
    let a = if d.mantissa < 0 { -d.mantissa } else { d.mantissa as int };
    let r = reduced(a as nat, d.exponent as int);
    let body = unsigned_text(r.0, r.1);
    if d.mantissa < 0 {
        seq!['-'] + body
    } else {
        body
    }
}

fn append_zeros(s: &mut String, count: u64)
    ensures
        final(s)@ == old(s)@ + zeros(count as nat),
{
    let mut j: u64 = 0;
    proof {
        reveal_strlit("0");
    }
    assert(old(s)@ =~= old(s)@ + zeros(0));
    while j < count
        invariant
            j <= count,
            s@ == old(s)@ + zeros(j as nat),
        decreases count - j,
    {
        s.append("0");
        proof {
            reveal_strlit("0");
        }
        assert(zeros((j + 1) as nat) =~= zeros(j as nat).push('0'));
        assert(old(s)@ + zeros((j + 1) as nat) =~= old(s)@ + zeros(j as nat) + seq!['0']);
        j = j + 1;
    }
}

impl Decimal {
    /// Plain positional text of the number; see `decimal_text`.
    pub fn to_text(&self) -> (r: String)
        ensures
            r@ == decimal_text(*self),
    {
        let neg = self.mantissa < 0;
        let mut a: u128 = if neg {
            ((-(self.mantissa + 1)) as u128) + 1
        } else {
            self.mantissa as u128
        };
        let mut e: i64 = self.exponent as i64;
        let ghost a0 = a as nat;
        let ghost e0 = e as int;
        assert(a0 as int == (if self.mantissa < 0 { -self.mantissa } else { self.mantissa as int }));
        while e < 0 && a % 10 == 0
            invariant
                reduced(a as nat, e as int) == reduced(a0, e0),
                e <= 0 || e == e0,
                e0 <= e,
                e0 == self.exponent as int,
            decreases (if e < 0 { -e } else { 0 }),
        {
            a = a / 10;
            e = e + 1;
        }
        assert(reduced(a as nat, e as int) == (a as nat, e as int));
        let digits = u128_to_string(a);
        let mut body = String::new();
        if e >= 0 {
            body.append(digits.as_str());
            if a != 0 {
                append_zeros(&mut body, e as u64);
            }
            assert(body@ =~= unsigned_text(a as nat, e as int));
        } else {
            let k: u64 = (-e) as u64;
            let len = digits.unicode_len();
            let mut padded = String::new();
            if (len as u64) <= k {
                append_zeros(&mut padded, k + 1 - len as u64);
            }
            padded.append(digits.as_str());
            let plen = padded.unicode_len();
            assert(plen > k);
            let cut = plen - k as usize;
            let head = substring(padded.as_str(), 0, cut);
            let tail = substring(padded.as_str(), cut, plen);
            body.append(head.as_str());
            proof {
                reveal_strlit(".");
            }
            body.append(".");
            body.append(tail.as_str());
            assert(body@ =~= unsigned_text(a as nat, e as int));
        }
        if neg {
            let mut r = String::from_str("-");
            proof {
                reveal_strlit("-");
            }
            r.append(body.as_str());
            assert(r@ =~= seq!['-'] + body@);
            r
        } else {
            body
        }
    }
}

} // verus!
