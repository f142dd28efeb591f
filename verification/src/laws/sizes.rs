//! Laws of sizes as people read them.

use vstd::prelude::*;
use vstd::string::*;

#[allow(unused_imports)]
use crate::size::{double_value, human_readable_size, round_half_even, significand_step};
#[allow(unused_imports)]
use crate::text::{decimal, digit_char, pad_left};

verus! {

/// The unit in which a size from 1024 on is shown.
pub open spec fn unit_of(size: nat) -> nat {
    if size < 0x10_0000 {
        0x400
    } else if size < 0x4000_0000 {
        0x10_0000
    } else {
        0x4000_0000
    }
}

/// The letter of that unit.
pub open spec fn letter_of(size: nat) -> char {
    if size < 0x10_0000 {
        'K'
    } else if size < 0x4000_0000 {
        'M'
    } else {
        'G'
    }
}

/// A number of tenths, written with a point, in a field of four and with a
/// letter behind it.
pub open spec fn written_tenths(tenths: nat, letter: char) -> Seq<char> {
    pad_left(decimal(tenths / 10) + seq!['.'] + decimal(tenths % 10), 4) + seq![letter]
}

/// Rounding gives the nearest integer, and of two that are equally near the
/// even one.
pub proof fn law_rounding_is_nearest(a: nat, b: nat)
    requires
        b > 0,
    ensures
        2 * (a - round_half_even(a, b) * b) <= b,
        2 * (round_half_even(a, b) * b - a) <= b,
        2 * (a - round_half_even(a, b) * b) == b || 2 * (round_half_even(a, b) * b - a) == b
            ==> round_half_even(a, b) % 2 == 0,
{
    vstd::arithmetic::div_mod::lemma_fundamental_div_mod(a as int, b as int);
    let q = (a / b) as int;
    let r = (a % b) as int;
    assert(a == b * q + r);
    assert((q + 1) * b == b * q + b) by (nonlinear_arith);
    assert(q * b == b * q) by (nonlinear_arith);
}

/// A size below 1024 is shown as it is, in a field of four. Any other is shown
/// in tenths of its unit: the nearest number of tenths where the size has at
/// most 53 bits, and of two that are equally near the even one.
pub proof fn law_size_is_shown_in_its_unit(size: u64, text: String)
    requires
        call_ensures(human_readable_size, (size,), text),
        size < 0x20_0000_0000_0000,
    ensures
        size < 0x400 ==> text@ == pad_left(decimal(size as nat), 4),
        size >= 0x400 ==> exists|tenths: nat|
            {
                let unit = unit_of(size as nat);
                let off = 10 * size - tenths * unit;
                &&& text@ == #[trigger] written_tenths(tenths, letter_of(size as nat))
                &&& -(unit as int) <= 2 * off <= unit
                &&& 2 * off == unit || 2 * off == -(unit as int) ==> tenths % 2 == 0
            },
{
    let n = size as nat;
    assert(significand_step(n) == 1);
    law_rounding_is_nearest(n, 1);
    assert(double_value(n) == n) by {
        let r = round_half_even(n, 1) as int;
        assert(r * 1 == r);
        assert(2 * (n - r) <= 1 && 2 * (r - n) <= 1);
    }
    if size >= 0x400 {
        let unit = unit_of(n);
        let tenths = round_half_even(10 * n, unit);
        law_rounding_is_nearest(10 * n, unit);
        lemma_written(tenths, letter_of(n));
        assert(text@ == written_tenths(tenths, letter_of(n)));
    }
}

proof fn lemma_written(tenths: nat, letter: char)
    ensures
        pad_left(decimal(tenths / 10).push('.').push(digit_char(tenths % 10)), 4).push(letter)
            == written_tenths(tenths, letter),
{
    let d = tenths % 10;
    assert(decimal(d) =~= seq![digit_char(d)]);
    assert(decimal(tenths / 10).push('.').push(digit_char(d)) =~= decimal(tenths / 10) + seq!['.']
        + decimal(d));
    let field = pad_left(decimal(tenths / 10) + seq!['.'] + decimal(d), 4);
    assert(field.push(letter) =~= field + seq![letter]);
}

/// A larger size is shown in gigabytes, as the nearest number of tenths of the
/// nearest value of 53 significant bits.
pub proof fn law_large_size_is_shown_in_gigabytes(size: u64, text: String)
    requires
        call_ensures(human_readable_size, (size,), text),
        size >= 0x20_0000_0000_0000,
    ensures
        exists|tenths: nat, value: nat|
            {
                let off = 10 * value - tenths * 0x4000_0000;
                &&& text@ == #[trigger] written_tenths(tenths, 'G')
                &&& -0x4000_0000 <= 2 * off <= 0x4000_0000
                &&& 2 * off == 0x4000_0000 || 2 * off == -0x4000_0000 ==> tenths % 2 == 0
                &&& #[trigger] nearest_double(value, size as nat)
            },
{
    let n = size as nat;
    lemma_step(n);
    let step = significand_step(n);
    law_rounding_is_nearest(n, step);
    let value = double_value(n);
    let tenths = round_half_even(10 * value, 0x4000_0000);
    law_rounding_is_nearest(10 * value, 0x4000_0000);
    lemma_written(tenths, 'G');
    let q = round_half_even(n, step);
    assert(value == q * step);
    assert(nearest_double(value, n)) by {
        assert(is_grid(step, n));
        assert(value == #[trigger] (q * step));
    }
    assert(text@ == written_tenths(tenths, 'G'));
}

/// Whether `step` is the distance between neighbouring values of 53 significant
/// bits around `n`.
pub open spec fn is_grid(step: nat, n: nat) -> bool {
    &&& exists|k: nat| step == #[trigger] vstd::arithmetic::power2::pow2(k)
    &&& step * 0x10_0000_0000_0000 <= n < step * 0x20_0000_0000_0000
}

/// Whether `value` is the value of 53 significant bits nearest to `n`, and of
/// two that are equally near the even multiple.
pub open spec fn nearest_double(value: nat, n: nat) -> bool {
    exists|step: nat, q: nat|
        {
            &&& #[trigger] is_grid(step, n)
            &&& value == #[trigger] (q * step)
            &&& 2 * (n - value) <= step
            &&& 2 * (value - n) <= step
            &&& 2 * (n - value) == step || 2 * (value - n) == step ==> q % 2 == 0
        }
}

proof fn lemma_step(n: nat)
    requires
        n >= 0x10_0000_0000_0000,
    ensures
        is_grid(significand_step(n), n),
    decreases n,
{
    if n < 0x20_0000_0000_0000 {
        vstd::arithmetic::power2::lemma2_to64();
        assert(significand_step(n) == vstd::arithmetic::power2::pow2(0));
    } else {
        lemma_step(n / 2);
        let half = significand_step(n / 2);
        let k = choose|k: nat| half == #[trigger] vstd::arithmetic::power2::pow2(k);
        vstd::arithmetic::power2::lemma_pow2_unfold(k + 1);
        assert(significand_step(n) == vstd::arithmetic::power2::pow2(k + 1));
    }
}

} // verus!
