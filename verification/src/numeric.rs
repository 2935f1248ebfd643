//! Exact decimal reading and writing on character sequences.
//!
//! The query language needs three things of numbers: the lexer reads the
//! distance of a proximity operator as a `u32`, the range rule reads range
//! bounds as `i64`, and token descriptions write a `u32` back out.  All
//! three are defined here over the mathematical digit value of a sequence.

use vstd::prelude::*;

use crate::chars::push_char;
use crate::chars::spec_digit_val;
use crate::chars::spec_is_digit;
use crate::chars::is_digit;

verus! {

/// Every character is an ASCII decimal digit.
pub open spec fn all_digits(s: Seq<char>) -> bool {
    forall|i: int| 0 <= i < s.len() ==> spec_is_digit(#[trigger] s[i])
}

/// The value of a digit string read in base ten.
pub open spec fn digits_val(s: Seq<char>) -> int
    decreases s.len(),
{
    if s.len() == 0 {
        0
    } else {
        digits_val(s.drop_last()) * 10 + spec_digit_val(s.last())
    }
}

pub proof fn lemma_digits_val_nonneg(s: Seq<char>)
    requires
        all_digits(s),
    ensures
        digits_val(s) >= 0,
    decreases s.len(),
{
    if s.len() > 0 {
        assert(all_digits(s.drop_last()));
        lemma_digits_val_nonneg(s.drop_last());
    }
}

/// Reading more digits never shrinks the value.
pub proof fn lemma_digits_val_take_le(s: Seq<char>, k: int)
    requires
        all_digits(s),
        0 <= k <= s.len(),
    ensures
        digits_val(s.take(k)) <= digits_val(s),
    decreases s.len() - k,
{
    if k == s.len() {
        assert(s.take(k) =~= s);
    } else {
        assert(s.take(k + 1).drop_last() =~= s.take(k));
        assert(s.take(k + 1).last() == s[k]);
        assert(all_digits(s.take(k)));
        lemma_digits_val_nonneg(s.take(k));
        assert(digits_val(s.take(k + 1)) == digits_val(s.take(k)) * 10 + spec_digit_val(s[k]));
        lemma_digits_val_take_le(s, k + 1);
    }
}

/// The magnitude cap shared by both signed readings: `2^63`.
pub open spec fn mag_cap() -> int {
    0x8000000000000000
}

/// What reading an unsigned digit run yields: its value, when the run is
/// nonempty, all digits, and no larger than `2^63`.
pub open spec fn spec_digits_mag(s: Seq<char>) -> Option<u64> {
    if s.len() > 0 && all_digits(s) && digits_val(s) <= mag_cap() {
        Some(digits_val(s) as u64)
    } else {
        None
    }
}

/// What `str::parse::<u32>` yields: an optional `+`, then digits, value in
/// range.
pub open spec fn spec_parse_u32(s: Seq<char>) -> Option<u32> {
    let d = if s.len() > 0 && s[0] == '+' {
        s.skip(1)
    } else {
        s
    };
    if d.len() > 0 && all_digits(d) && digits_val(d) <= u32::MAX {
        Some(digits_val(d) as u32)
    } else {
        None
    }
}

/// What `str::parse::<i64>` yields: an optional sign, then digits, value in
/// range.
pub open spec fn spec_parse_i64(s: Seq<char>) -> Option<i64> {
    if s.len() == 0 {
        None
    } else if s[0] == '-' {
        let d = s.skip(1);
        if d.len() > 0 && all_digits(d) && digits_val(d) <= mag_cap() {
            Some((-digits_val(d)) as i64)
        } else {
            None
        }
    } else {
        let d = if s[0] == '+' {
            s.skip(1)
        } else {
            s
        };
        if d.len() > 0 && all_digits(d) && digits_val(d) <= i64::MAX {
            Some(digits_val(d) as i64)
        } else {
            None
        }
    }
}

/// Reads the digit run `v[from..to]`, capped at `2^63`.
fn digits_mag_in(v: &Vec<char>, from: usize, to: usize) -> (r: Option<u64>)
    requires
        from <= to <= v@.len(),
    ensures
        r == spec_digits_mag(v@.subrange(from as int, to as int)),
        r matches Some(m) ==> {
            let sub = v@.subrange(from as int, to as int);
            &&& sub.len() > 0
            &&& all_digits(sub)
            &&& m == digits_val(sub)
            &&& m <= 0x8000000000000000u64
        },
{
    let ghost sub = v@.subrange(from as int, to as int);
    if from == to {
        return None;
    }
    let mut i: usize = from;
    let mut acc: u64 = 0;
    while i < to
        invariant
            from <= i <= to <= v@.len(),
            sub == v@.subrange(from as int, to as int),
            all_digits(sub.take(i - from)),
            acc == digits_val(sub.take(i - from)),
            acc <= 0x8000000000000000u64,
        decreases to - i,
    {
        let c = v[i];
        let ghost k = i - from;
        proof {
            assert(sub[k] == v@[i as int]);
            assert(sub.take(k + 1).drop_last() =~= sub.take(k));
            assert(sub.take(k + 1).last() == sub[k]);
        }
        if !is_digit(c) {
            proof {
                assert(!all_digits(sub));
            }
            return None;
        }
        let d = (c as u32 - 48) as u64;
        if acc > 1844674407370955160u64 {
            // One more digit pushes the value past the cap for good.
            proof {
                assert(digits_val(sub.take(k + 1)) == acc * 10 + spec_digit_val(sub[k]));
                assert(digits_val(sub.take(k + 1)) > mag_cap());
                if all_digits(sub) {
                    lemma_digits_val_take_le(sub, k + 1);
                }
            }
            return None;
        }
        acc = acc * 10 + d;
        i = i + 1;
        if acc > 0x8000000000000000u64 {
            proof {
                if all_digits(sub) {
                    lemma_digits_val_take_le(sub, i - from);
                }
            }
            return None;
        }
    }
    proof {
        assert(sub.take(to - from) =~= sub);
    }
    Some(acc)
}

/// Reads `v[from..to]` as `str::parse::<u32>` would.
pub fn parse_u32_in(v: &Vec<char>, from: usize, to: usize) -> (r: Option<u32>)
    requires
        from <= to <= v@.len(),
    ensures
        r == spec_parse_u32(v@.subrange(from as int, to as int)),
{
    let ghost sub = v@.subrange(from as int, to as int);
    let start: usize = if from < to && v[from] == '+' {
        from + 1
    } else {
        from
    };
    proof {
        if from < to && sub[0] == '+' {
            assert(sub.skip(1) =~= v@.subrange(from + 1, to as int));
        }
    }
    match digits_mag_in(v, start, to) {
        Some(m) => {
            if m <= u32::MAX as u64 {
                Some(m as u32)
            } else {
                None
            }
        },
        None => None,
    }
}

/// Reads a whole string as `str::parse::<i64>` would.
pub fn parse_i64_str(s: &String) -> (r: Option<i64>)
    ensures
        r == spec_parse_i64(s@),
{
    let text = s.as_str();
    let n = text.unicode_len();
    if n == 0 {
        return None;
    }
    let c0 = text.get_char(0);
    let neg = c0 == '-';
    let start: usize = if neg || c0 == '+' {
        1
    } else {
        0
    };
    // Collect the characters once, then read the digit run.
    let mut v: Vec<char> = Vec::new();
    let mut i: usize = 0;
    while i < n
        invariant
            0 <= i <= n,
            n == text@.len(),
            text@ == s@,
            v@ =~= s@.take(i as int),
        decreases n - i,
    {
        let c = text.get_char(i);
        v.push(c);
        proof {
            assert(v@ =~= s@.take(i + 1));
        }
        i = i + 1;
    }
    proof {
        assert(v@ =~= s@);
        if start == 1 {
            assert(s@.skip(1) =~= v@.subrange(1, n as int));
        } else {
            assert(s@ =~= v@.subrange(0, n as int));
        }
    }
    match digits_mag_in(&v, start, n) {
        Some(m) => {
            proof {
                lemma_digits_val_nonneg(v@.subrange(start as int, n as int));
            }
            if neg {
                if m == 0x8000000000000000u64 {
                    Some(i64::MIN)
                } else {
                    Some(-(m as i64))
                }
            } else {
                if m <= i64::MAX as u64 {
                    Some(m as i64)
                } else {
                    None
                }
            }
        },
        None => None,
    }
}

/// Reads a whole string as `str::parse::<u32>` would.
pub fn parse_u32_str(s: &String) -> (r: Option<u32>)
    ensures
        r == spec_parse_u32(s@),
{
    let text = s.as_str();
    let n = text.unicode_len();
    let mut v: Vec<char> = Vec::new();
    let mut i: usize = 0;
    while i < n
        invariant
            0 <= i <= n,
            n == text@.len(),
            text@ == s@,
            v@ =~= s@.take(i as int),
        decreases n - i,
    {
        let c = text.get_char(i);
        v.push(c);
        proof {
            assert(v@ =~= s@.take(i + 1));
        }
        i = i + 1;
    }
    proof {
        assert(v@ =~= s@);
        assert(v@.subrange(0, n as int) =~= s@);
    }
    parse_u32_in(&v, 0, n)
}

/// The decimal digits of `n`, most significant first.
pub open spec fn spec_u32_dec(n: int) -> Seq<char>
    decreases n,
{
    if n < 10 {
        seq![spec_dec_digit(n)]
    } else {
        spec_u32_dec(n / 10).push(spec_dec_digit(n % 10))
    }
}

/// The character of one decimal digit.
pub open spec fn spec_dec_digit(d: int) -> char {
    ((48 + d) as u8) as char
}

/// Writes `n` in decimal.
pub fn u32_dec(n: u32) -> (s: String)
    ensures
        s@ == spec_u32_dec(n as int),
    decreases n,
{
    if n < 10 {
        let mut s = String::new();
        push_char(&mut s, (48u8 + n as u8) as char);
        proof {
            assert(s@ =~= seq![spec_dec_digit(n as int)]);
        }
        s
    } else {
        let mut s = u32_dec(n / 10);
        push_char(&mut s, (48u8 + (n % 10) as u8) as char);
        s
    }
}

} // verus!
