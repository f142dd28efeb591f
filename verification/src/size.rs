//! Sizes as people read them.

use vstd::prelude::*;
use vstd::string::*;

use crate::text::{decimal_text, pad_text_left};
#[allow(unused_imports)]
use crate::text::{decimal, digit_char, pad_left};

verus! {

/// `a / b`, rounded to the nearest integer; a tie goes to the even one.
pub open spec fn round_half_even(a: nat, b: nat) -> nat
    recommends
        b > 0,
{
    let q = a / b;
    let r = a % b;
    if 2 * r < b || (2 * r == b && q % 2 == 0) {
        q
    } else {
        q + 1
    }
}

/// The distance between neighbouring values of a 53-bit significand at `n`.
pub open spec fn significand_step(n: nat) -> nat
    decreases n,
{
    if n < 0x20_0000_0000_0000 {
        1
    } else {
        2 * significand_step(n / 2)
    }
}

/// The value nearest to `n` that has a significand of 53 bits.
pub open spec fn double_value(n: nat) -> nat {
    round_half_even(n, significand_step(n)) * significand_step(n)
}

/// `size / unit` with one digit behind the point and the letter of the unit,
/// in a field of four characters before the letter. The quotient is taken of
/// the double-precision value of the size.
pub open spec fn scaled_size(size: nat, unit: nat, letter: char) -> Seq<char> {
    let tenths = round_half_even(10 * double_value(size), unit);
    pad_left(decimal(tenths / 10).push('.').push(digit_char(tenths % 10)), 4).push(letter)
}

/// A size as `ls -h` shows it.
pub open spec fn size_text(size: nat) -> Seq<char> {
    if size < 0x400 {
        pad_left(decimal(size), 4)
    } else if size < 0x10_0000 {
        scaled_size(size, 0x400, 'K')
    } else if size < 0x4000_0000 {
        scaled_size(size, 0x10_0000, 'M')
    } else {
        scaled_size(size, 0x4000_0000, 'G')
    }
}

proof fn lemma_step_bounds(n: nat)
    ensures
        significand_step(n) >= 1,
        significand_step(n) <= n || significand_step(n) == 1,
    decreases n,
{
    if n >= 0x20_0000_0000_0000 {
        lemma_step_bounds(n / 2);
    }
}

fn round_to_even(a: u128, b: u128) -> (r: u128)
    requires
        b > 0,
        b < 0x1_0000_0000_0000_0000_0000,
        a < 0x1_0000_0000_0000_0000_0000_0000,
    ensures
        r == round_half_even(a as nat, b as nat),
        r <= a / b + 1,
{
    let q: u128 = a / b;
    let r: u128 = a % b;
    if 2 * r < b || (2 * r == b && q % 2 == 0) {
        q
    } else {
        q + 1
    }
}

fn find_step(n: u64) -> (r: u64)
    ensures
        r == significand_step(n as nat),
        1 <= r,
        r <= n || r == 1,
    decreases n,
{
    proof {
        lemma_step_bounds(n as nat);
    }
    if n < 0x20_0000_0000_0000 {
        1
    } else {
        proof {
            lemma_step_bounds((n / 2) as nat);
        }
        let half: u64 = find_step(n / 2);
        2 * half
    }
}

/// The double-precision value of `n`.
fn nearest_double(n: u64) -> (r: u128)
    ensures
        r == double_value(n as nat),
        r <= 2 * n + 1,
{
    let step: u64 = find_step(n);
    let q: u128 = round_to_even(n as u128, step as u128);
    assert(q <= n / step + 1);
    assert(q * step <= 2 * n + 1) by (nonlinear_arith)
        requires
            q <= n / step + 1,
            step >= 1,
            step <= n || step == 1,
    {
        assert((n / step) * step <= n);
        assert((n / step + 1) * step == (n / step) * step + step);
        assert(q * step <= (n / step + 1) * step);
    }
    q * (step as u128)
}

fn scaled_size_text(size: u64, unit: u64, letter: char) -> (r: String)
    requires
        unit >= 0x400,
    ensures
        r@ == scaled_size(size as nat, unit as nat, letter),
{
    let value: u128 = nearest_double(size);
    let tenths: u128 = round_to_even(10 * value, unit as u128);
    assert(tenths <= 0xffff_ffff_ffff_ffff) by {
        let a: int = 10 * value;
        assert(a / (unit as int) <= a / 0x400) by (nonlinear_arith)
            requires
                unit >= 0x400,
                a >= 0,
        ;
    }
    let mut s = decimal_text((tenths / 10) as u64);
    s.push('.');
    s.append(decimal_text((tenths % 10) as u64).as_str());
    proof {
        let d = (tenths % 10) as nat;
        assert(decimal(d) =~= seq![digit_char(d)]);
        assert(s@ =~= decimal((tenths / 10) as nat).push('.').push(digit_char(d)));
    }
    let mut r = pad_text_left(s.as_str(), 4);
    r.push(letter);
    r
}

/// A size as `ls -h` shows it: as it is below a kibibyte, otherwise in
/// kibibytes, mebibytes or gibibytes with one digit behind the point.
pub fn human_readable_size(size: u64) -> (r: String)
    ensures
        r@ == size_text(size as nat),
{
    if size < 0x400 {
        pad_text_left(decimal_text(size).as_str(), 4)
    } else if size < 0x10_0000 {
        scaled_size_text(size, 0x400, 'K')
    } else if size < 0x4000_0000 {
        scaled_size_text(size, 0x10_0000, 'M')
    } else {
        scaled_size_text(size, 0x4000_0000, 'G')
    }
}

} // verus!
