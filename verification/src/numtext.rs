//! Decimal text for the numbers a record holds.
//!
//! Unsigned integers are rendered in the usual base-10 form.  Exact rationals
//! (used for derived values such as watts or percentages) are rendered as a
//! truncated decimal with a fixed number of fraction digits.
use vstd::prelude::*;

verus! {

/// Number of fraction digits a rendered rational carries.
pub const FRACTION_DIGITS: u64 = 6;

/// The decimal digit character for `d` (meaningful for `d < 10`).
pub open spec fn digit_char(d: nat) -> char {
    if d == 0 {
        '0'
    } else if d == 1 {
        '1'
    } else if d == 2 {
        '2'
    } else if d == 3 {
        '3'
    } else if d == 4 {
        '4'
    } else if d == 5 {
        '5'
    } else if d == 6 {
        '6'
    } else if d == 7 {
        '7'
    } else if d == 8 {
        '8'
    } else {
        '9'
    }
}

/// Base-10 rendering of a natural number, most significant digit first.
pub open spec fn dec_str(n: nat) -> Seq<char>
    decreases n,
{
    if n < 10 {
        seq![digit_char(n)]
    } else {
        dec_str(n / 10).push(digit_char(n % 10))
    }
}

/// The first `k` fraction digits of `rem / den`, truncated (meaningful for
/// `rem < den`).
pub open spec fn frac_digits(rem: nat, den: nat, k: nat) -> Seq<char>
    decreases k,
{
    if k == 0 || den == 0 {
        Seq::empty()
    } else {
        seq![digit_char(rem * 10 / den)] + frac_digits(rem * 10 % den, den, (k - 1) as nat)
    }
}

/// Decimal rendering of the rational `num / den`: the truncated integer part,
/// a point, and `FRACTION_DIGITS` truncated fraction digits.
pub open spec fn ratio_str(num: nat, den: nat) -> Seq<char> {
    dec_str(num / den) + seq!['.'] + frac_digits(num % den, den, FRACTION_DIGITS as nat)
}

/// Relies on `String::push` from std: appends the given character to the end
/// of the string.
pub assume_specification[ String::push ](s: &mut String, c: char)
    ensures
        final(s)@ == old(s)@.push(c),
;

fn digit_to_char(d: u8) -> (c: char)
    requires
        d < 10,
    ensures
        c == digit_char(d as nat),
{
    match d {
        0 => '0',
        1 => '1',
        2 => '2',
        3 => '3',
        4 => '4',
        5 => '5',
        6 => '6',
        7 => '7',
        8 => '8',
        _ => '9',
    }
}

/// Appends the base-10 rendering of `n` to `s`.
pub fn push_dec_u128(s: &mut String, n: u128)
    ensures
        final(s)@ == old(s)@ + dec_str(n as nat),
    decreases n,
{
    if n >= 10 {
        push_dec_u128(s, n / 10);
    }
    let d = (n % 10) as u8;
    s.push(digit_to_char(d));
    proof {
        assert(s@ =~= old(s)@ + dec_str(n as nat));
    }
}

/// Appends the base-10 rendering of `n` to `s`.
pub fn push_dec_u64(s: &mut String, n: u64)
    ensures
        final(s)@ == old(s)@ + dec_str(n as nat),
{
    push_dec_u128(s, n as u128);
}

/// The base-10 rendering of `n` as an owned string.
pub fn u64_to_string(n: u64) -> (r: String)
    ensures
        r@ == dec_str(n as nat),
{
    let mut s = String::new();
    push_dec_u64(&mut s, n);
    proof {
        assert(s@ =~= dec_str(n as nat));
    }
    s
}

/// Appends the decimal rendering of the rational `num / den` to `s`.
pub fn push_ratio(s: &mut String, num: u128, den: u64)
    requires
        den > 0,
    ensures
        final(s)@ == old(s)@ + ratio_str(num as nat, den as nat),
{
    let d128 = den as u128;
    push_dec_u128(s, num / d128);
    s.push('.');
    let ghost intro = old(s)@ + dec_str((num / d128) as nat) + seq!['.'];
    assert(s@ =~= intro);
    let mut rem: u128 = num % d128;
    let mut k: u64 = 0;
    while k < FRACTION_DIGITS
        invariant
            den > 0,
            d128 == den as u128,
            rem < d128,
            k <= FRACTION_DIGITS,
            s@ + frac_digits(rem as nat, den as nat, (FRACTION_DIGITS - k) as nat) == intro
                + frac_digits((num % d128) as nat, den as nat, FRACTION_DIGITS as nat),
        decreases FRACTION_DIGITS - k,
    {
        let scaled = rem * 10;
        let digit = (scaled / d128) as u8;
        assert(scaled / d128 < 10) by (nonlinear_arith)
            requires
                rem < d128,
                d128 > 0,
                scaled == rem * 10,
        {}
        let ghost prev = s@;
        let ghost prev_rem = rem as nat;
        s.push(digit_to_char(digit));
        rem = scaled % d128;
        k = k + 1;
        proof {
            assert(frac_digits(prev_rem, den as nat, (FRACTION_DIGITS - k + 1) as nat) =~= seq![
                digit_char((prev_rem * 10 / (den as nat))),
            ] + frac_digits(rem as nat, den as nat, (FRACTION_DIGITS - k) as nat));
            assert(s@ + frac_digits(rem as nat, den as nat, (FRACTION_DIGITS - k) as nat) =~= prev
                + frac_digits(prev_rem, den as nat, (FRACTION_DIGITS - k + 1) as nat));
        }
    }
    proof {
        assert(s@ + frac_digits(rem as nat, den as nat, 0) =~= s@);
        assert(s@ =~= old(s)@ + ratio_str(num as nat, den as nat));
    }
}

/// Digits compose only of digit characters; a rendering is never empty.
pub open spec fn is_digit(c: char) -> bool {
    c == '0' || c == '1' || c == '2' || c == '3' || c == '4' || c == '5' || c == '6' || c == '7'
        || c == '8' || c == '9'
}

pub proof fn lemma_dec_str_digits(n: nat)
    ensures
        dec_str(n).len() >= 1,
        forall|i: int| 0 <= i < dec_str(n).len() ==> is_digit(#[trigger] dec_str(n)[i]),
    decreases n,
{
    if n >= 10 {
        lemma_dec_str_digits(n / 10);
    }
}

/// Numeric value of a digit character (meaningful for digit characters).
pub open spec fn digit_val(c: char) -> nat {
    if c == '0' {
        0
    } else if c == '1' {
        1
    } else if c == '2' {
        2
    } else if c == '3' {
        3
    } else if c == '4' {
        4
    } else if c == '5' {
        5
    } else if c == '6' {
        6
    } else if c == '7' {
        7
    } else if c == '8' {
        8
    } else {
        9
    }
}

/// Numeric value of a digit string, most significant digit first.
pub open spec fn dec_val(s: Seq<char>) -> nat
    decreases s.len(),
{
    if s.len() == 0 {
        0
    } else {
        dec_val(s.drop_last()) * 10 + digit_val(s.last())
    }
}

/// Reading back a rendering gives the number again; renderings are therefore
/// injective.
pub proof fn lemma_dec_val_of_dec_str(n: nat)
    ensures
        dec_val(dec_str(n)) == n,
    decreases n,
{
    if n < 10 {
        assert(dec_str(n).drop_last() =~= Seq::<char>::empty());
        assert(dec_val(dec_str(n)) == dec_val(Seq::<char>::empty()) * 10 + digit_val(
            digit_char(n),
        ));
    } else {
        lemma_dec_val_of_dec_str(n / 10);
        assert(dec_str(n).drop_last() =~= dec_str(n / 10));
        assert(dec_val(dec_str(n)) == (n / 10) * 10 + n % 10);
        vstd::arithmetic::div_mod::lemma_fundamental_div_mod(n as int, 10);
    }
}

pub proof fn lemma_dec_str_injective(a: nat, b: nat)
    requires
        dec_str(a) == dec_str(b),
    ensures
        a == b,
{
    lemma_dec_val_of_dec_str(a);
    lemma_dec_val_of_dec_str(b);
}

} // verus!
