//! Text helpers: comparing strings and reading the numbers of a score.

use vstd::prelude::*;
use vstd::utf8::decode_utf8;
use vstd::utf8::encode_utf8;
use vstd::utf8::encode_utf8_decode_utf8;

verus! {

/// Whether two strings hold the same characters.
pub fn str_eq(a: &str, b: &str) -> (same: bool)
    ensures
        same == (a@ == b@),
{
    let x = a.as_bytes();
    let y = b.as_bytes();
    proof {
        encode_utf8_decode_utf8(a@);
        encode_utf8_decode_utf8(b@);
    }
    if x.len() != y.len() {
        return false;
    }
    let mut i: usize = 0;
    while i < x.len()
        invariant
            i <= x.len(),
            x.len() == y.len(),
            forall|j: int| 0 <= j < i ==> x@[j] == y@[j],
            x@ == encode_utf8(a@),
            y@ == encode_utf8(b@),
            decode_utf8(encode_utf8(a@)) == a@,
            decode_utf8(encode_utf8(b@)) == b@,
        decreases x.len() - i,
    {
        if x[i] != y[i] {
            return false;
        }
        i += 1;
    }
    assert(x@ =~= y@);
    true
}

/// Whether a character is a decimal digit.
pub open spec fn is_digit(c: char) -> bool {
    '0' <= c && c <= '9'
}

/// The value of a decimal digit.
pub open spec fn digit_value(c: char) -> nat {
    (c as u32 - '0' as u32) as nat
}

/// Whether every character is a decimal digit.
pub open spec fn all_digits(s: Seq<char>) -> bool {
    forall|i: int| 0 <= i < s.len() ==> is_digit(#[trigger] s[i])
}

/// The number that a run of decimal digits writes; 0 for the empty run.
pub open spec fn digits_value(s: Seq<char>) -> nat
    decreases s.len(),
{
    if s.len() == 0 {
        0
    } else {
        digits_value(s.drop_last()) * 10 + digit_value(s.last())
    }
}

/// Ten to the power `n`.
pub open spec fn pow10(n: nat) -> nat
    decreases n,
{
    if n == 0 {
        1
    } else {
        10 * pow10((n - 1) as nat)
    }
}

/// The position of the first `.` in `s`, or `s.len()` if it has none.
pub open spec fn first_dot(s: Seq<char>) -> int
    decreases s.len(),
{
    if s.len() == 0 || s[0] == '.' {
        0
    } else {
        1 + first_dot(s.drop_first())
    }
}

/// The number an unsigned integer literal writes: one or more decimal digits.
pub open spec fn parse_integer(s: Seq<char>) -> Option<nat> {
    if s.len() > 0 && all_digits(s) {
        Some(digits_value(s))
    } else {
        None
    }
}

/// The millionths that the first six digits of a fraction stand for; further
/// digits are dropped.
pub open spec fn fraction_micros(frac: Seq<char>) -> nat {
    if frac.len() >= 6 {
        digits_value(frac.take(6))
    } else {
        digits_value(frac) * pow10((6 - frac.len()) as nat)
    }
}

/// The value, in millionths, of a decimal literal: one or more digits,
/// optionally followed by a `.` and one or more digits.
pub open spec fn parse_decimal(s: Seq<char>) -> Option<nat> {
    let d = first_dot(s);
    if d == s.len() {
        if s.len() > 0 && all_digits(s) {
            Some(digits_value(s) * 1_000_000)
        } else {
            None
        }
    } else {
        let whole = s.take(d);
        let frac = s.skip(d + 1);
        if whole.len() > 0 && all_digits(whole) && frac.len() > 0 && all_digits(frac) {
            Some(digits_value(whole) * 1_000_000 + fraction_micros(frac))
        } else {
            None
        }
    }
}

/// `first_dot` is a position of `s` or its length; it holds a `.` if it is a
/// position, and no earlier position does.
pub proof fn lemma_first_dot(s: Seq<char>)
    ensures
        0 <= first_dot(s) <= s.len(),
        first_dot(s) < s.len() ==> s[first_dot(s)] == '.',
        forall|j: int| 0 <= j < first_dot(s) ==> #[trigger] s[j] != '.',
    decreases s.len(),
{
    if s.len() > 0 && s[0] != '.' {
        let rest = s.drop_first();
        lemma_first_dot(rest);
        assert forall|j: int| 0 <= j < first_dot(s) implies #[trigger] s[j] != '.' by {
            if j > 0 {
                assert(s[j] == rest[j - 1]);
            }
        }
    }
}

/// A run of `n` digits writes a number below ten to the `n`.
pub proof fn lemma_digits_bound(s: Seq<char>)
    requires
        all_digits(s),
    ensures
        digits_value(s) < pow10(s.len()),
    decreases s.len(),
{
    if s.len() > 0 {
        lemma_digits_bound(s.drop_last());
        assert(is_digit(s.last()));
    }
}

/// A run of digits writes a number no smaller than any of its prefixes does.
pub proof fn lemma_digits_prefix(s: Seq<char>, k: int)
    requires
        0 <= k <= s.len(),
    ensures
        digits_value(s.take(k)) <= digits_value(s),
    decreases s.len(),
{
    if k == s.len() {
        assert(s.take(k) =~= s);
    } else {
        lemma_digits_prefix(s.drop_last(), k);
        assert(s.drop_last().take(k) =~= s.take(k));
    }
}

/// Reads the digits of `text` from position `from` up to `to`. Gives their
/// value if the range is not empty, holds digits only and the value fits.
fn read_digits(text: &str, from: usize, to: usize) -> (r: Option<u64>)
    requires
        text.is_ascii(),
        from <= to <= text@.len(),
    ensures
        match r {
            Some(v) => from < to && all_digits(text@.subrange(from as int, to as int)) && v
                == digits_value(text@.subrange(from as int, to as int)),
            None => from == to || !all_digits(text@.subrange(from as int, to as int))
                || digits_value(text@.subrange(from as int, to as int)) > u64::MAX,
        },
{
    if from == to {
        return None;
    }
    let ghost run = text@.subrange(from as int, to as int);
    let mut value: u64 = 0;
    let mut i: usize = from;
    while i < to
        invariant
            text.is_ascii(),
            from <= i <= to <= text@.len(),
            run == text@.subrange(from as int, to as int),
            all_digits(run.take(i - from)),
            value == digits_value(run.take(i - from)),
        decreases to - i,
    {
        let b: u8 = text.get_ascii(i);
        let ghost c = text@[i as int];
        proof {
            assert(run[i - from] == c);
            assert(run.take(i - from + 1).drop_last() =~= run.take(i - from));
            assert(run.take(i - from + 1).last() == c);
            assert('\0' <= c <= '\u{7f}');
        }
        if b < 48 || b > 57 {
            assert(!is_digit(run[i - from]));
            return None;
        }
        assert(is_digit(c));
        let digit: u64 = (b - 48) as u64;
        assert(digit == digit_value(c));
        let next = match value.checked_mul(10) {
            Some(v) => v.checked_add(digit),
            None => None,
        };
        match next {
            Some(v) => {
                value = v;
            },
            None => {
                proof {
                    lemma_digits_prefix(run, i - from + 1);
                }
                return None;
            },
        }
        assert forall|j: int| 0 <= j < run.take(i - from + 1).len() implies is_digit(
            #[trigger] run.take(i - from + 1)[j],
        ) by {
            if j < i - from {
                assert(run.take(i - from + 1)[j] == run.take(i - from)[j]);
            }
        }
        i += 1;
    }
    assert(run.take(i - from) =~= run);
    Some(value)
}

/// Reads an unsigned integer literal: one or more decimal digits, with a
/// value that fits 32 bits.
pub fn parse_u32(text: &str) -> (r: Option<u32>)
    ensures
        match r {
            Some(v) => parse_integer(text@) == Some(v as nat),
            None => parse_integer(text@) matches Some(v) ==> v > u32::MAX,
        },
{
    if !text.is_ascii() {
        proof {
            if all_digits(text@) {
                assert forall|i: int| 0 <= i < text@.len() implies '\0' <= #[trigger] text@[i]
                    <= '\u{7f}' by {
                    assert(is_digit(text@[i]));
                }
            }
        }
        return None;
    }
    let n = text.unicode_len();
    assert(text@.subrange(0, n as int) =~= text@);
    match read_digits(text, 0, n) {
        Some(v) => if v <= 0xffff_ffff {
            Some(v as u32)
        } else {
            None
        },
        None => None,
    }
}

/// Whether `text` holds digits only from position `from` up to `to`.
fn only_digits(text: &str, from: usize, to: usize) -> (yes: bool)
    requires
        text.is_ascii(),
        from <= to <= text@.len(),
    ensures
        yes == all_digits(text@.subrange(from as int, to as int)),
{
    let ghost run = text@.subrange(from as int, to as int);
    let mut i: usize = from;
    while i < to
        invariant
            text.is_ascii(),
            from <= i <= to <= text@.len(),
            run == text@.subrange(from as int, to as int),
            forall|j: int| 0 <= j < i - from ==> is_digit(#[trigger] run[j]),
        decreases to - i,
    {
        let b: u8 = text.get_ascii(i);
        proof {
            assert(run[i - from] == text@[i as int]);
            assert('\0' <= text@[i as int] <= '\u{7f}');
        }
        if b < 48 || b > 57 {
            assert(!is_digit(run[i - from]));
            return false;
        }
        i += 1;
    }
    true
}

/// Ten to the power `6 - digits`, for at most six digits.
fn micro_scale(digits: usize) -> (scale: u64)
    requires
        digits <= 6,
    ensures
        scale == pow10((6 - digits) as nat),
        scale <= 1_000_000,
{
    reveal_with_fuel(pow10, 8);
    if digits == 0 {
        1_000_000
    } else if digits == 1 {
        100_000
    } else if digits == 2 {
        10_000
    } else if digits == 3 {
        1_000
    } else if digits == 4 {
        100
    } else if digits == 5 {
        10
    } else {
        1
    }
}

/// A non-negative decimal number with six decimal places, held as a count of
/// millionths. Tempo, mix weights, gains, cutoff frequencies, probabilities
/// and playback speeds are all numbers of this kind.
#[derive(Debug, Clone, Copy, PartialEq, Eq, Structural)]
pub struct Decimal {
    pub micros: u64,
}

impl View for Decimal {
    type V = Decimal;

    open spec fn view(&self) -> Decimal {
        *self
    }
}

impl Decimal {
    /// The decimal that stands for the whole number `n`.
    pub fn from_int(n: u32) -> (d: Decimal)
        ensures
            d.micros == n * 1_000_000,
    {
        Decimal { micros: n as u64 * 1_000_000 }
    }

    /// The whole part of the number.
    pub fn floor(&self) -> (n: u64)
        ensures
            n == self.micros / 1_000_000,
    {
        self.micros / 1_000_000
    }

    /// Reads a decimal literal: digits, optionally followed by a `.` and more
    /// digits. Digits past the sixth decimal place are dropped. Gives `None`
    /// for any other text, and for a number too large to hold.
    pub fn parse(text: &str) -> (r: Option<Decimal>)
        ensures
            match r {
                Some(d) => parse_decimal(text@) == Some(d.micros as nat),
                None => parse_decimal(text@) matches Some(v) ==> v > u64::MAX,
            },
    {
        let ghost s = text@;
        proof {
            lemma_first_dot(s);
        }
        if !text.is_ascii() {
            proof {
                if parse_decimal(s) is Some {
                    let d = first_dot(s);
                    assert forall|i: int| 0 <= i < s.len() implies '\0' <= #[trigger] s[i]
                        <= '\u{7f}' by {
                        if i < d {
                            assert(s.take(d)[i] == s[i]);
                            assert(is_digit(s.take(d)[i]));
                        } else if i > d {
                            assert(s.skip(d + 1)[i - d - 1] == s[i]);
                            assert(is_digit(s.skip(d + 1)[i - d - 1]));
                        }
                    }
                }
            }
            return None;
        }
        let n = text.unicode_len();
        let mut d: usize = 0;
        while d < n && text.get_ascii(d) != 46
            invariant
                text.is_ascii(),
                d <= n == text@.len(),
                forall|j: int| 0 <= j < d ==> #[trigger] text@[j] != '.',
            decreases n - d,
        {
            proof {
                assert('\0' <= text@[d as int] <= '\u{7f}');
            }
            d += 1;
        }
        proof {
            if d < n {
                assert('\0' <= text@[d as int] <= '\u{7f}');
                assert(s[d as int] == '.');
            }
            assert(d == first_dot(s));
            assert(s.take(d as int) =~= s.subrange(0, d as int));
        }
        let whole = match read_digits(text, 0, d) {
            Some(v) => v,
            None => {
                proof {
                    if d == n {
                        assert(s.take(d as int) =~= s);
                    } else if all_digits(s.take(d as int)) && d > 0 {
                        assert(digits_value(s.take(d as int)) * 1_000_000 > u64::MAX);
                    }
                }
                return None;
            },
        };
        if d == n {
            assert(s.take(d as int) =~= s);
            return match whole.checked_mul(1_000_000) {
                Some(m) => Some(Decimal { micros: m }),
                None => None,
            };
        }
        let ghost frac = s.skip(d + 1);
        assert(frac =~= s.subrange(d + 1, n as int));
        if d + 1 == n || !only_digits(text, d + 1, n) {
            return None;
        }
        let k: usize = if n - (d + 1) >= 6 {
            6
        } else {
            n - (d + 1)
        };
        proof {
            assert(s.subrange(d + 1, d + 1 + k) =~= frac.take(k as int));
            assert forall|j: int| 0 <= j < k implies is_digit(
                #[trigger] frac.take(k as int)[j],
            ) by {
                assert(frac.take(k as int)[j] == frac[j]);
            }
            lemma_digits_bound(frac.take(k as int));
            reveal_with_fuel(pow10, 8);
            if k < 6 {
                assert(frac.take(k as int) =~= frac);
            }
        }
        let head = match read_digits(text, d + 1, d + 1 + k) {
            Some(v) => v,
            None => {
                return None;
            },
        };
        let scale = micro_scale(k);
        assert(head * scale == fraction_micros(frac)) by {
            if k == 6 {
                assert(scale == 1);
            }
        }
        assert(head * scale <= 1_000_000 * 1_000_000) by (nonlinear_arith)
            requires
                head < 1_000_000,
                scale <= 1_000_000,
        ;
        let part: u64 = head * scale;
        match whole.checked_mul(1_000_000) {
            Some(m) => match m.checked_add(part) {
                Some(total) => Some(Decimal { micros: total }),
                None => None,
            },
            None => None,
        }
    }
}

} // verus!
