//! Building ASCII text as bytes: literal text, copied bytes and integers in
//! decimal.

use vstd::prelude::*;
use vstd::string::*;

verus! {

/// The byte of the decimal digit `d`.
pub open spec fn digit_byte(d: int) -> u8 {
    (0x30 + d) as u8
}

/// The decimal digits of `n`, most significant first, without leading zeros;
/// `0` is the one digit `0`.
pub open spec fn decimal_digits(n: nat) -> Seq<u8>
    decreases n,
{
    if n < 10 {
        seq![digit_byte(n as int)]
    } else {
        decimal_digits(n / 10).push(digit_byte((n % 10) as int))
    }
}

/// `v` in decimal, with a minus sign before the digits of a negative number.
pub open spec fn decimal(v: int) -> Seq<u8> {
    if v < 0 {
        seq![0x2Du8] + decimal_digits((-v) as nat)
    } else {
        decimal_digits(v as nat)
    }
}

/// The digits that stand before the last digits of a number, where `rest` is
/// the number without those last digits: none once `rest` is 0.
spec fn leading_digits(rest: nat) -> Seq<u8> {
    if rest == 0 {
        Seq::<u8>::empty()
    } else {
        decimal_digits(rest)
    }
}

proof fn lemma_leading_digits(rest: nat)
    requires
        rest > 0,
    ensures
        decimal_digits(rest) == leading_digits(rest / 10).push(digit_byte((rest % 10) as int)),
{
}

/// Appends `bytes` to `out`.
pub fn push_bytes(out: &mut Vec<u8>, bytes: &[u8])
    ensures
        final(out)@ == old(out)@ + bytes@,
{
    let n: usize = bytes.len();
    let mut i: usize = 0;
    while i < n
        invariant
            i <= n,
            n == bytes@.len(),
            out@ == old(out)@ + bytes@.subrange(0, i as int),
        decreases n - i,
    {
        out.push(bytes[i]);
        i = i + 1;
    }
}

/// Appends the UTF-8 bytes of `text` to `out`.
pub fn push_text(out: &mut Vec<u8>, text: &str)
    ensures
        final(out)@ == old(out)@ + text.spec_bytes(),
{
    push_bytes(out, text.as_bytes());
}

/// Appends `n` in decimal to `out`.
pub fn push_unsigned(out: &mut Vec<u8>, n: u128)
    ensures
        final(out)@ == old(out)@ + decimal_digits(n as nat),
{
    let mut reversed: Vec<u8> = Vec::new();
    reversed.push(0x30u8 + (n % 10) as u8);
    let mut rest: u128 = n / 10;
    proof {
        if n > 0 {
            lemma_leading_digits(n as nat);
        }
    }
    while rest > 0
        invariant
            reversed@.len() > 0,
            decimal_digits(n as nat) == leading_digits(rest as nat) + reversed@.reverse(),
        decreases rest,
    {
        proof {
            lemma_leading_digits(rest as nat);
        }
        reversed.push(0x30u8 + (rest % 10) as u8);
        rest = rest / 10;
    }
    let mut k: usize = reversed.len();
    while k > 0
        invariant
            k <= reversed@.len(),
            out@ == old(out)@ + reversed@.reverse().subrange(0, reversed@.len() - k),
        decreases k,
    {
        k = k - 1;
        out.push(reversed[k]);
    }
}

/// Appends `v` in decimal to `out`.
pub fn push_decimal(out: &mut Vec<u8>, v: i128)
    ensures
        final(out)@ == old(out)@ + decimal(v as int),
{
    if v < 0 {
        out.push(0x2Du8);
        let magnitude: u128 = (-(v + 1)) as u128 + 1;
        push_unsigned(out, magnitude);
    } else {
        push_unsigned(out, v as u128);
    }
}

} // verus!
