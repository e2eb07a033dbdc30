//! Decimal numerals, read as `str::parse` reads them into integers.
use vstd::prelude::*;

use crate::text::chars_of;

verus! {

pub open spec fn is_digit(c: char) -> bool {
    '0' <= c && c <= '9'
}

pub open spec fn digit_value(c: char) -> int {
    c as int - '0' as int
}

/// Whether `s` is made of decimal digits only.
pub open spec fn all_digits(s: Seq<char>) -> bool {
    forall|i: int| 0 <= i < s.len() ==> is_digit(#[trigger] s[i])
}

/// The number that the decimal digits `s` write.
pub open spec fn digits_value(s: Seq<char>) -> int
    decreases s.len(),
{
    if s.len() == 0 {
        0
    } else {
        digits_value(s.drop_last()) * 10 + digit_value(s.last())
    }
}

/// The integer that `s` writes: an optional sign, then at least one decimal
/// digit, and nothing else.
pub open spec fn numeral_value(s: Seq<char>) -> Option<int> {
    if s.len() > 0 && (s[0] == '-' || s[0] == '+') {
        let d = s.drop_first();
        if d.len() > 0 && all_digits(d) {
            Some(
                if s[0] == '-' {
                    -digits_value(d)
                } else {
                    digits_value(d)
                },
            )
        } else {
            None
        }
    } else if s.len() > 0 && all_digits(s) {
        Some(digits_value(s))
    } else {
        None
    }
}

/// What `str::parse::<i64>` gives for `s`: the integer it writes, when that
/// fits.
pub open spec fn parse_i64_spec(s: Seq<char>) -> Option<i64> {
    match numeral_value(s) {
        Some(v) => if i64::MIN <= v && v <= i64::MAX {
            Some(v as i64)
        } else {
            None
        },
        None => None,
    }
}

/// What `str::parse::<u32>` gives for `s`: the integer it writes, when it
/// has no minus sign and fits.
pub open spec fn parse_u32_spec(s: Seq<char>) -> Option<u32> {
    if s.len() > 0 && s[0] == '-' {
        None
    } else {
        match numeral_value(s) {
            Some(v) => if 0 <= v && v <= u32::MAX {
                Some(v as u32)
            } else {
                None
            },
            None => None,
        }
    }
}

proof fn lemma_digits_nonneg(s: Seq<char>)
    requires
        all_digits(s),
    ensures
        digits_value(s) >= 0,
    decreases s.len(),
{
    if s.len() > 0 {
        assert(all_digits(s.drop_last()));
        lemma_digits_nonneg(s.drop_last());
        assert(is_digit(s[s.len() - 1]));
    }
}

/// A longer run of digits writes at least as much.
proof fn lemma_digits_mono(s: Seq<char>, k: int)
    requires
        all_digits(s),
        0 <= k <= s.len(),
    ensures
        digits_value(s.take(k)) <= digits_value(s),
    decreases s.len() - k,
{
    if k < s.len() {
        lemma_digits_mono(s, k + 1);
        assert(s.take(k + 1).drop_last() =~= s.take(k));
        assert(all_digits(s.take(k)));
        lemma_digits_nonneg(s.take(k));
        assert(is_digit(s[k]));
    } else {
        assert(s.take(k) =~= s);
    }
}

/// The number that the digits of `cs` from `start` on write, when they are
/// at least one digit, all digits, and write at most `limit`.
fn digits_up_to(cs: &Vec<char>, start: usize, limit: u64) -> (r: Option<u64>)
    requires
        start <= cs@.len(),
        9 <= limit <= 0x8000_0000_0000_0000u64,
    ensures
        ({
            let d = cs@.subrange(start as int, cs@.len() as int);
            match r {
                Some(v) => d.len() > 0 && all_digits(d) && digits_value(d) <= limit && v
                    == digits_value(d),
                None => !(d.len() > 0 && all_digits(d) && digits_value(d) <= limit),
            }
        }),
{
    let ghost d = cs@.subrange(start as int, cs@.len() as int);
    let n = cs.len();
    if start == n {
        return None;
    }
    let mut acc: u64 = 0;
    let mut k = start;
    while k < n
        invariant
            n == cs@.len(),
            d == cs@.subrange(start as int, n as int),
            start <= k <= n,
            9 <= limit <= 0x8000_0000_0000_0000u64,
            all_digits(d.take(k - start)),
            acc == digits_value(d.take(k - start)),
            acc <= limit,
        decreases n - k,
    {
        let c = cs[k];
        assert(d[k - start] == c);
        if !('0' <= c && c <= '9') {
            assert(!is_digit(d[k - start]));
            return None;
        }
        let dv = (c as u32 - '0' as u32) as u64;
        assert(dv == digit_value(c) && dv <= 9);
        proof {
            assert(d.take(k - start + 1).drop_last() =~= d.take(k - start));
            assert(all_digits(d.take(k - start + 1)));
        }
        if acc > (limit - dv) / 10 {
            proof {
                assert(acc * 10 + dv > limit) by (nonlinear_arith)
                    requires
                        acc > (limit - dv) / 10,
                        dv <= limit,
                ;
                let rest = d.take(k - start + 1);
                if all_digits(d) {
                    lemma_digits_mono(d, k - start + 1);
                    assert(d.take(k - start + 1) =~= rest);
                }
            }
            return None;
        }
        proof {
            assert(acc * 10 + dv <= limit) by (nonlinear_arith)
                requires
                    acc <= (limit - dv) / 10,
                    dv <= limit,
            ;
        }
        acc = acc * 10 + dv;
        k = k + 1;
    }
    assert(d.take(n - start) =~= d);
    Some(acc)
}

/// Reads `s` as `str::parse::<i64>` does.
pub fn parse_i64(s: &str) -> (r: Option<i64>)
    ensures
        r == parse_i64_spec(s@),
{
    let cs = chars_of(s);
    if cs.len() == 0 {
        return None;
    }
    let first = cs[0];
    let neg = first == '-';
    let start: usize = if first == '-' || first == '+' {
        1
    } else {
        0
    };
    proof {
        assert(cs@.subrange(1, cs@.len() as int) =~= s@.drop_first());
        assert(cs@.subrange(0, cs@.len() as int) =~= s@);
    }
    let limit: u64 = if neg {
        0x8000_0000_0000_0000
    } else {
        0x7fff_ffff_ffff_ffff
    };
    match digits_up_to(&cs, start, limit) {
        Some(v) => {
            if neg {
                if v == 0x8000_0000_0000_0000 {
                    Some(i64::MIN)
                } else {
                    Some(-(v as i64))
                }
            } else {
                Some(v as i64)
            }
        },
        None => {
            proof {
                let d = cs@.subrange(start as int, cs@.len() as int);
                if start == 0 && s@.len() > 0 && all_digits(s@) {
                    assert(!is_digit(s@[0]) ==> s@[0] == '-' || s@[0] == '+' || true);
                }
            }
            None
        },
    }
}

/// Reads `s` as `str::parse::<u32>` does.
pub fn parse_u32(s: &str) -> (r: Option<u32>)
    ensures
        r == parse_u32_spec(s@),
{
    let cs = chars_of(s);
    if cs.len() == 0 {
        return None;
    }
    let first = cs[0];
    if first == '-' {
        return None;
    }
    let start: usize = if first == '+' {
        1
    } else {
        0
    };
    proof {
        assert(cs@.subrange(1, cs@.len() as int) =~= s@.drop_first());
        assert(cs@.subrange(0, cs@.len() as int) =~= s@);
    }
    match digits_up_to(&cs, start, 0xffff_ffff) {
        Some(v) => Some(v as u32),
        None => None,
    }
}

} // verus!
