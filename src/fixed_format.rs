//! Decimal text of fixed-point values with two fraction digits.

use vstd::prelude::*;

use crate::text::{digit_byte, put, put_digit, text_bytes, text_new};

verus! {

/// Decimal digits of `n`, most significant first, without leading zeros
/// (zero is the single digit `0`).
pub open spec fn decimal_digits(n: nat) -> Seq<u8>
    decreases n,
{
    if n < 10 {
        seq![digit_byte(n)]
    } else {
        decimal_digits(n / 10).push(digit_byte(n % 10))
    }
}

pub open spec fn abs(x: int) -> nat {
    if x < 0 {
        (-x) as nat
    } else {
        x as nat
    }
}

/// The text of a value given in hundredths: a `-` exactly when the value is
/// negative, the integer part of its magnitude, a `.`, and the two fraction
/// digits.
pub open spec fn fixed_2dp_text(hundredths: int) -> Seq<u8> {
    let m = abs(hundredths);
    let sign = if hundredths < 0 {
        seq!['-' as u8]
    } else {
        Seq::<u8>::empty()
    };
    sign + decimal_digits(m / 100) + seq![
        '.' as u8,
        digit_byte((m % 100) / 10),
        digit_byte(m % 10),
    ]
}

/// A negative value whose integer part is zero keeps its sign: its text
/// starts with `-0.`.
pub proof fn lemma_small_negative_keeps_sign(hundredths: int)
    requires
        -100 < hundredths < 0,
    ensures
        fixed_2dp_text(hundredths)[0] == '-' as u8,
        fixed_2dp_text(hundredths)[1] == '0' as u8,
        fixed_2dp_text(hundredths)[2] == '.' as u8,
{
    assert(decimal_digits(0) == seq![digit_byte(0)]);
}

pub open spec fn pow10(k: nat) -> nat
    decreases k,
{
    if k == 0 {
        1
    } else {
        10 * pow10((k - 1) as nat)
    }
}

/// A number below `10^k` has at most `k` digits.
pub proof fn lemma_digits_len(n: nat, k: nat)
    requires
        1 <= k,
        n < pow10(k),
    ensures
        decimal_digits(n).len() <= k,
    decreases n,
{
    if n >= 10 {
        assert(k >= 2) by {
            if k == 1 {
                assert(pow10(1) == 10) by {
                    reveal_with_fuel(pow10, 2);
                }
            }
        }
        assert(n / 10 < pow10((k - 1) as nat));
        lemma_digits_len(n / 10, (k - 1) as nat);
    }
}

fn put_decimal(out: &mut heapless::String<32>, n: u32)
    requires
        text_bytes(*old(out)).len() + decimal_digits(n as nat).len() <= 32,
    ensures
        text_bytes(*final(out)) == text_bytes(*old(out)) + decimal_digits(n as nat),
    decreases n,
{
    if n >= 10 {
        put_decimal(out, n / 10);
    }
    put_digit(out, (n % 10) as u8);
    assert(text_bytes(*out) =~= text_bytes(*old(out)) + decimal_digits(n as nat));
}

/// Appends the text of a value in hundredths to a buffer holding at most
/// 20 bytes (the text takes at most 12).
pub(crate) fn put_fixed_2dp(out: &mut heapless::String<32>, hundredths: i32)
    requires
        text_bytes(*old(out)).len() <= 20,
    ensures
        text_bytes(*final(out)) == text_bytes(*old(out)) + fixed_2dp_text(hundredths as int),
{
    let negative = hundredths < 0;
    let m: u32 = if negative {
        (0i64 - hundredths as i64) as u32
    } else {
        hundredths as u32
    };
    assert(m as int == abs(hundredths as int));
    if negative {
        put(out, '-');
    }
    proof {
        assert(pow10(8) == 100_000_000) by {
            reveal_with_fuel(pow10, 9);
        }
        lemma_digits_len((m / 100) as nat, 8);
    }
    put_decimal(out, m / 100);
    put(out, '.');
    put_digit(out, ((m % 100) / 10) as u8);
    put_digit(out, (m % 10) as u8);
    assert(text_bytes(*out) =~= text_bytes(*old(out)) + fixed_2dp_text(hundredths as int));
}

/// Text of a value given in hundredths, with two fraction digits: `-5` gives
/// `-0.05`, `123` gives `1.23`, `0` gives `0.00`.
pub fn format_fixed_2dp(hundredths: i32) -> (r: heapless::String<32>)
    ensures
        text_bytes(r) == fixed_2dp_text(hundredths as int),
{
    let mut out = text_new();
    put_fixed_2dp(&mut out, hundredths);
    assert(text_bytes(out) =~= fixed_2dp_text(hundredths as int));
    out
}

} // verus!
