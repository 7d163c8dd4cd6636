//! Decimal formatting and parsing of widths, and the power-of-two test.
//!
//! Width keys arrive as decimal strings and widths leave again as decimal
//! digits inside concrete binding names, so both directions carry exact
//! character-level specifications.

use vstd::prelude::*;

verus! {

/// The single decimal digit `d` as a one-character sequence.
pub open spec fn spec_digit(d: nat) -> Seq<char> {
    if d == 0 {
        "0"@
    } else if d == 1 {
        "1"@
    } else if d == 2 {
        "2"@
    } else if d == 3 {
        "3"@
    } else if d == 4 {
        "4"@
    } else if d == 5 {
        "5"@
    } else if d == 6 {
        "6"@
    } else if d == 7 {
        "7"@
    } else if d == 8 {
        "8"@
    } else {
        "9"@
    }
}

/// The canonical decimal spelling of `n`: no sign, no leading zeros
/// (a single `0` for zero itself).
pub open spec fn spec_dec(n: nat) -> Seq<char>
    decreases n,
{
    if n < 10 {
        spec_digit(n)
    } else {
        spec_dec(n / 10) + spec_digit(n % 10)
    }
}

/// Appends the canonical decimal spelling of `n` to `out`.
pub fn append_dec(out: &mut String, n: u64)
    ensures
        final(out)@ == old(out)@ + spec_dec(n as nat),
    decreases n,
{
    if n >= 10 {
        append_dec(out, n / 10);
    }
    let d: u64 = n % 10;
    if d == 0 {
        out.append("0");
    } else if d == 1 {
        out.append("1");
    } else if d == 2 {
        out.append("2");
    } else if d == 3 {
        out.append("3");
    } else if d == 4 {
        out.append("4");
    } else if d == 5 {
        out.append("5");
    } else if d == 6 {
        out.append("6");
    } else if d == 7 {
        out.append("7");
    } else if d == 8 {
        out.append("8");
    } else {
        out.append("9");
    }
    proof {
        if n >= 10 {
            assert(old(out)@ + spec_dec((n / 10) as nat) + spec_digit((n % 10) as nat)
                =~= old(out)@ + spec_dec(n as nat));
        }
    }
}

/// Whether `c` is a decimal digit.
pub open spec fn spec_is_digit(c: char) -> bool {
    48 <= c as int <= 57
}

/// The numeric value of the digit `c`.
pub open spec fn spec_digit_val(c: char) -> nat {
    (c as int - 48) as nat
}

/// The value of a digit string, most significant digit first.
pub open spec fn spec_digits_val(s: Seq<char>) -> nat
    decreases s.len(),
{
    if s.len() == 0 {
        0
    } else {
        spec_digits_val(s.drop_last()) * 10 + spec_digit_val(s.last())
    }
}

/// Whether every character of `s` is a decimal digit.
pub open spec fn spec_all_digits(s: Seq<char>) -> bool {
    forall|i: int| 0 <= i < s.len() ==> spec_is_digit(s[i])
}

/// The width denoted by the key `s`: a non-empty, all-digit string whose
/// value fits in a `u64`; anything else denotes no width.
pub open spec fn spec_parse_width(s: Seq<char>) -> Option<u64> {
    if s.len() > 0 && spec_all_digits(s) && spec_digits_val(s) <= u64::MAX {
        Some(spec_digits_val(s) as u64)
    } else {
        None
    }
}

/// Appending further digits never shrinks the value of a digit string.
proof fn lemma_digits_val_prefix(s: Seq<char>, j: int)
    requires
        0 <= j <= s.len(),
    ensures
        spec_digits_val(s.take(j)) <= spec_digits_val(s),
    decreases s.len() - j,
{
    if j < s.len() {
        assert(s.take(j + 1).drop_last() =~= s.take(j));
        assert(spec_digits_val(s.take(j + 1)) == spec_digits_val(s.take(j)) * 10 + spec_digit_val(
            s.take(j + 1).last(),
        ));
        lemma_digits_val_prefix(s, j + 1);
    } else {
        assert(s.take(j) =~= s);
    }
}

/// Parses a decimal width key; yields nothing on an empty string,
/// a non-digit character, or a value over `u64::MAX`.
pub fn parse_width(s: &str) -> (r: Option<u64>)
    ensures
        r == spec_parse_width(s@),
{
    let n = s.unicode_len();
    if n == 0 {
        return None;
    }
    let mut val: u64 = 0;
    for i in 0..n
        invariant
            n == s@.len(),
            spec_all_digits(s@.take(i as int)),
            val == spec_digits_val(s@.take(i as int)),
    {
        let c = s.get_char(i);
        let cv = c as u32;
        if cv < 48 || cv > 57 {
            return None;
        }
        let d: u64 = (cv - 48) as u64;
        assert(s@.take(i + 1).drop_last() =~= s@.take(i as int));
        if val > (u64::MAX - d) / 10 {
            proof {
                lemma_digits_val_prefix(s@, i + 1);
            }
            return None;
        }
        val = val * 10 + d;
    }
    assert(s@.take(n as int) =~= s@);
    Some(val)
}

/// Whether `n` is a positive power of two.
pub open spec fn spec_is_pow2(n: int) -> bool
    decreases n,
{
    if n <= 0 {
        false
    } else if n == 1 {
        true
    } else {
        n % 2 == 0 && spec_is_pow2(n / 2)
    }
}

/// Tests whether `w` is a positive power of two.
pub fn is_pow2(w: u64) -> (r: bool)
    ensures
        r == spec_is_pow2(w as int),
{
    if w == 0 {
        return false;
    }
    let mut n: u64 = w;
    while n > 1
        invariant
            n >= 1,
            spec_is_pow2(w as int) == spec_is_pow2(n as int),
        decreases n,
    {
        if n % 2 == 1 {
            return false;
        }
        n = n / 2;
    }
    true
}

} // verus!
