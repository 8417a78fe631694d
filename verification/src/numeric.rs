//! Parsing of the decimal attribute strings that transform frames and
//! material records carry.
//!
//! Values are held in exact fixed-point thousandths (milli-units), so no
//! floating point enters the pipeline.  The accepted grammar is an
//! optional minus sign, one to ten integer digits, and optionally a dot
//! followed by one to six fraction digits; fraction digits beyond the
//! thousandths are rounded half away from zero.  Any other string is
//! malformed, and the caller substitutes its local default (identity
//! translation, identity rotation, diffuse material).

use vstd::prelude::*;
use vstd::string::StrSliceExecFns;

verus! {

/// Decimal digit test.
pub open spec fn is_digit(c: char) -> bool {
    '0' <= c && c <= '9'
}

/// Numeric value of a digit character.
pub open spec fn digit_val(c: char) -> int {
    c as int - '0' as int
}

/// Whether a string consists of decimal digits only.
pub open spec fn all_digits(s: Seq<char>) -> bool {
    forall|i: int| 0 <= i < s.len() ==> is_digit(#[trigger] s[i])
}

/// The value of a digit string, most significant digit first.
pub open spec fn digits_val(s: Seq<char>) -> int
    decreases s.len()
{
    if s.len() == 0 {
        0
    } else {
        digits_val(s.drop_last()) * 10 + digit_val(s.last())
    }
}

/// Ten to the `n`th power.
pub open spec fn pow10(n: nat) -> int
    decreases n
{
    if n == 0 {
        1
    } else {
        10 * pow10((n - 1) as nat)
    }
}

/// Position of the first dot at or after `from`, if any.
pub open spec fn find_dot(s: Seq<char>, from: int) -> Option<int>
    decreases s.len() - from when 0 <= from
{
    if from >= s.len() {
        None
    } else if s[from] == '.' {
        Some(from)
    } else {
        find_dot(s, from + 1)
    }
}

/// The signed milli-unit value of a parsed sign, integer part, and
/// fraction digit string (rounded half away from zero to thousandths).
pub open spec fn signed_milli(neg: bool, intval: int, frac: Seq<char>) -> i64 {
    let fm = if frac.len() == 0 {
        0
    } else {
        (2 * digits_val(frac) * 1000 + pow10(frac.len())) / (2 * pow10(frac.len()))
    };
    let mag = intval * 1000 + fm;
    if neg {
        (-mag) as i64
    } else {
        mag as i64
    }
}

/// The milli-unit value of a decimal attribute string, or `None` when
/// the string does not fit the accepted grammar.
pub open spec fn parse_decimal_spec(s: Seq<char>) -> Option<i64> {
    let neg = s.len() > 0 && s[0] == '-';
    let start: int = if neg {
        1
    } else {
        0
    };
    match find_dot(s, start) {
        Some(p) => {
            let ip = s.subrange(start, p);
            let fp = s.subrange(p + 1, s.len() as int);
            if 1 <= ip.len() <= 10 && all_digits(ip) && 1 <= fp.len() <= 6 && all_digits(fp) {
                Some(signed_milli(neg, digits_val(ip), fp))
            } else {
                None
            }
        },
        None => {
            let ip = s.subrange(start, s.len() as int);
            if 1 <= ip.len() <= 10 && all_digits(ip) {
                Some(signed_milli(neg, digits_val(ip), Seq::empty()))
            } else {
                None
            }
        },
    }
}

/// The value of an unsigned integer attribute string (one to ten digits,
/// within the 32-bit range), or `None` when malformed.
pub open spec fn parse_u32_spec(s: Seq<char>) -> Option<u32> {
    if 1 <= s.len() <= 10 && all_digits(s) && digits_val(s) <= u32::MAX {
        Some(digits_val(s) as u32)
    } else {
        None
    }
}

/// Digit strings are bounded by the power of ten of their length.
proof fn lemma_digits_val_bound(s: Seq<char>)
    requires
        all_digits(s),
    ensures
        0 <= digits_val(s) < pow10(s.len()),
    decreases s.len(),
{
    if s.len() > 0 {
        assert(all_digits(s.drop_last())) by {
            assert(forall|i: int|
                0 <= i < s.len() - 1 ==> s.drop_last()[i] == #[trigger] s[i]);
        }
        lemma_digits_val_bound(s.drop_last());
        assert(0 <= digit_val(s.last()) <= 9);
        assert(pow10(s.len()) == 10 * pow10((s.len() - 1) as nat));
    }
}

/// Powers of ten up to the ten-digit limit.
proof fn lemma_pow10_values()
    ensures
        pow10(0) == 1,
        pow10(1) == 10,
        pow10(2) == 100,
        pow10(3) == 1000,
        pow10(4) == 10000,
        pow10(5) == 100000,
        pow10(6) == 1000000,
        pow10(7) == 10000000,
        pow10(8) == 100000000,
        pow10(9) == 1000000000,
        pow10(10) == 10000000000,
{
    assert(pow10(1) == 10 * pow10(0));
    assert(pow10(2) == 10 * pow10(1));
    assert(pow10(3) == 10 * pow10(2));
    assert(pow10(4) == 10 * pow10(3));
    assert(pow10(5) == 10 * pow10(4));
    assert(pow10(6) == 10 * pow10(5));
    assert(pow10(7) == 10 * pow10(6));
    assert(pow10(8) == 10 * pow10(7));
    assert(pow10(9) == 10 * pow10(8));
    assert(pow10(10) == 10 * pow10(9));
}

/// Parse a run of digits `s[from..to]` into its value; `None` when some
/// character in the range is not a digit.
fn parse_digits(s: &str, from: usize, to: usize) -> (r: Option<u64>)
    requires
        from <= to <= s@.len(),
        to - from <= 10,
    ensures
        r is Some <==> all_digits(s@.subrange(from as int, to as int)),
        r matches Some(v) ==> v == digits_val(s@.subrange(from as int, to as int))
            && v < 10000000000,
{
    proof {
        lemma_pow10_values();
    }
    let mut t: usize = from;
    let mut v: u64 = 0;
    while t < to
        invariant
            from <= t <= to <= s@.len(),
            to - from <= 10,
            all_digits(s@.subrange(from as int, t as int)),
            v == digits_val(s@.subrange(from as int, t as int)),
            v < pow10((t - from) as nat),
            pow10(10) == 10000000000,
            v < 10000000000,
        decreases to - t,
    {
        let c = s.get_char(t);
        if c < '0' || c > '9' {
            assert(!all_digits(s@.subrange(from as int, to as int))) by {
                assert(s@.subrange(from as int, to as int)[t - from] == s@[t as int]);
            }
            return None;
        }
        let d = (c as u32) - ('0' as u32);
        proof {
            let pre = s@.subrange(from as int, t as int);
            let post = s@.subrange(from as int, t + 1);
            assert(post.drop_last() =~= pre);
            assert(post.last() == s@[t as int]);
            assert(forall|i: int| 0 <= i < post.len() - 1 ==> post[i] == pre[i]);
            assert(pow10(((t + 1) - from) as nat) == 10 * pow10((t - from) as nat));
            lemma_pow10_monotone((t + 1 - from) as nat, 10);
        }
        v = v * 10 + (d as u64);
        t = t + 1;
    }
    assert(s@.subrange(from as int, t as int) =~= s@.subrange(from as int, to as int));
    Some(v)
}

/// Powers of ten are monotone in the exponent.
proof fn lemma_pow10_monotone(a: nat, b: nat)
    requires
        a <= b,
    ensures
        pow10(a) <= pow10(b),
    decreases b,
{
    if a < b {
        lemma_pow10_monotone(a, (b - 1) as nat);
        assert(pow10(b) == 10 * pow10((b - 1) as nat));
        assert(pow10((b - 1) as nat) >= 1) by {
            lemma_pow10_pos((b - 1) as nat);
        }
    }
}

/// Powers of ten are positive.
proof fn lemma_pow10_pos(n: nat)
    ensures
        pow10(n) >= 1,
    decreases n,
{
    if n > 0 {
        lemma_pow10_pos((n - 1) as nat);
    }
}

/// Parse a decimal attribute string into exact milli-units.
pub fn parse_decimal_milli(s: &str) -> (r: Option<i64>)
    ensures
        r == parse_decimal_spec(s@),
        r matches Some(v) ==> -10_000_000_000_000 <= v <= 10_000_000_000_000,
{
    proof {
        lemma_pow10_values();
    }
    let len = s.unicode_len();
    let neg = len >= 1 && s.get_char(0) == '-';
    let start: usize = if neg {
        1
    } else {
        0
    };
    let mut t: usize = start;
    let mut dot: Option<usize> = None;
    loop
        invariant_except_break
            dot is None,
        invariant
            start <= t <= len,
            len == s@.len(),
            find_dot(s@, start as int) == find_dot(s@, t as int),
        ensures
            match dot {
                Some(p) => find_dot(s@, start as int) == Some(p as int) && start <= p < len,
                None => find_dot(s@, start as int) is None,
            },
        decreases len - t,
    {
        if t >= len {
            break;
        }
        if s.get_char(t) == '.' {
            dot = Some(t);
            break;
        }
        t = t + 1;
    }
    match dot {
        Some(p) => {
            assert(find_dot(s@, start as int) == Some(p as int));
            if p < start + 1 || p > start + 10 {
                return None;
            }
            if len < p + 2 || len > p + 7 {
                return None;
            }
            let iv = match parse_digits(s, start, p) {
                Some(iv) => iv,
                None => {
                    return None;
                },
            };
            let fd = match parse_digits(s, p + 1, len) {
                Some(fd) => fd,
                None => {
                    return None;
                },
            };
            let fl = len - (p + 1);
            let pw: u64 = if fl == 1 {
                10
            } else if fl == 2 {
                100
            } else if fl == 3 {
                1000
            } else if fl == 4 {
                10000
            } else if fl == 5 {
                100000
            } else {
                1000000
            };
            assert(pw == pow10(s@.subrange(p + 1, len as int).len() as nat));
            proof {
                lemma_digits_val_bound(s@.subrange(p + 1, len as int));
            }
            let fm = (2 * fd * 1000 + pw) / (2 * pw);
            proof {
                vstd::arithmetic::div_mod::lemma_multiply_divide_lt(
                    2 * fd * 1000 + pw, 2 * pw as int, 1001,
                );
            }
            let mag = iv * 1000 + fm;
            let v: i64 = if neg {
                -(mag as i64)
            } else {
                mag as i64
            };
            assert(v == signed_milli(neg, digits_val(s@.subrange(start as int, p as int)),
                s@.subrange(p + 1, len as int)));
            Some(v)
        },
        None => {
            assert(find_dot(s@, start as int) is None);
            if len < start + 1 || len > start + 10 {
                return None;
            }
            let iv = match parse_digits(s, start, len) {
                Some(iv) => iv,
                None => {
                    return None;
                },
            };
            let mag = iv * 1000;
            let v: i64 = if neg {
                -(mag as i64)
            } else {
                mag as i64
            };
            Some(v)
        },
    }
}

/// Parse an unsigned integer attribute string.
pub fn parse_u32_attr(s: &str) -> (r: Option<u32>)
    ensures
        r == parse_u32_spec(s@),
{
    let len = s.unicode_len();
    if len < 1 || len > 10 {
        return None;
    }
    let v = match parse_digits(s, 0, len) {
        Some(v) => v,
        None => {
            assert(s@.subrange(0, len as int) =~= s@);
            return None;
        },
    };
    assert(s@.subrange(0, len as int) =~= s@);
    if v > 0xFFFF_FFFFu64 {
        return None;
    }
    Some(v as u32)
}

} // verus!
