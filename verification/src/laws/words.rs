//! Laws of numbers and texts.

use vstd::prelude::*;
use vstd::string::*;

#[allow(unused_imports)]
use crate::text::{
    decimal, decimal_text, digit_char, digits_value, has_prefix, has_suffix, join,
    lemma_decimal_value, lemma_join_split, lemma_split_join, lemma_split_no_separator,
    lemma_split_nonempty, pad_left, pad_text_left, parse_i32, split, split_at_char,
    strip_text_prefix, strip_text_suffix, texts,
};

verus! {

/// The ten digits.
pub open spec fn ten_digits() -> Seq<char> {
    seq!['0', '1', '2', '3', '4', '5', '6', '7', '8', '9']
}

/// A number below ten is written as its digit, and a digit behind the digits of
/// a number makes ten times that number and the digit.
pub proof fn law_decimal_digits(n: nat, d: nat)
    requires
        d < 10,
    ensures
        digit_char(d) == ten_digits()[d as int],
        decimal(d) == seq![ten_digits()[d as int]],
        n > 0 ==> decimal(10 * n + d) == decimal(n).push(ten_digits()[d as int]),
{
    assert((10 * n + d) / 10 == n && (10 * n + d) % 10 == d);
    assert(digit_char(d) == ten_digits()[d as int]) by {
        if d == 0 {
        } else if d == 1 {
        } else if d == 2 {
        } else if d == 3 {
        } else if d == 4 {
        } else if d == 5 {
        } else if d == 6 {
        } else if d == 7 {
        } else if d == 8 {
        }
    }
}

/// A digit behind others counts one and they count ten times.
pub proof fn law_value_of_digits(s: Seq<char>, d: nat)
    requires
        d < 10,
    ensures
        digits_value(Seq::empty()) == Some(0nat),
        digits_value(s) matches Some(v) ==> digits_value(s.push(ten_digits()[d as int])) == Some(
            10 * v + d,
        ),
        digits_value(s) is None ==> digits_value(s.push(ten_digits()[d as int])) is None,
{
    let c = ten_digits()[d as int];
    law_decimal_digits(0, d);
    assert(s.push(c).drop_last() =~= s);
    assert(c as nat == '0' as nat + d);
}

/// What is no digit stands for no number.
pub proof fn law_only_digits_have_a_value(s: Seq<char>, i: int)
    requires
        0 <= i < s.len(),
        digits_value(s) is Some,
    ensures
        '0' <= s[i] <= '9',
    decreases s.len(),
{
    if i < s.len() - 1 {
        law_only_digits_have_a_value(s.drop_last(), i);
    }
}

proof fn lemma_no_leading_zero(n: nat)
    ensures
        decimal(n).len() > 0,
        decimal(n)[0] == '0' ==> n == 0,
    decreases n,
{
    if n >= 10 {
        lemma_no_leading_zero(n / 10);
        assert(decimal(n)[0] == decimal(n / 10)[0]);
    } else {
        law_decimal_digits(0, n);
    }
}

/// A number is written with digits that stand for it and without a leading
/// zero.
pub proof fn law_number_is_written_in_digits(n: u64, text: String)
    requires
        call_ensures(decimal_text, (n,), text),
    ensures
        text@.len() > 0,
        digits_value(text@) == Some(n as nat),
        text@[0] == '0' ==> n == 0 && text@ == seq!['0'],
        forall|i: int| 0 <= i < text@.len() ==> '0' <= #[trigger] text@[i] <= '9',
{
    lemma_decimal_value(n as nat);
    lemma_no_leading_zero(n as nat);
    if n == 0 {
        law_decimal_digits(0, 0);
    }
    assert forall|i: int| 0 <= i < text@.len() implies '0' <= #[trigger] text@[i] <= '9' by {
        law_only_digits_have_a_value(text@, i);
    }
}

/// What was written as a number is read as that number, with either sign or
/// none, where it fits.
pub proof fn law_numbers_are_read_back(n: nat, text: &str, r: Option<i32>)
    requires
        call_ensures(parse_i32, (text,), r),
    ensures
        text@ == decimal(n) && n <= i32::MAX ==> r == Some(n as i32),
        text@ == decimal(n) && n > i32::MAX ==> r is None,
        text@ == seq!['+'] + decimal(n) && n <= i32::MAX ==> r == Some(n as i32),
        text@ == seq!['+'] + decimal(n) && n > i32::MAX ==> r is None,
        text@ == seq!['-'] + decimal(n) && -n >= i32::MIN ==> r is Some && r->0 == -n,
        text@ == seq!['-'] + decimal(n) && -n < i32::MIN ==> r is None,
{
    lemma_decimal_value(n);
    lemma_no_leading_zero(n);
    law_only_digits_have_a_value(decimal(n), 0);
    assert((seq!['+'] + decimal(n)).drop_first() =~= decimal(n));
    assert((seq!['-'] + decimal(n)).drop_first() =~= decimal(n));
    assert((seq!['+'] + decimal(n))[0] == '+');
    assert((seq!['-'] + decimal(n))[0] == '-');
}

/// What is read as a number is digits that stand for it, at least one, behind a
/// sign or not; a minus sign stands before what is negative.
pub proof fn law_only_numbers_are_read(text: &str, r: Option<i32>)
    requires
        call_ensures(parse_i32, (text,), r),
        r is Some,
    ensures
        text@.len() > 0,
        text@[0] == '-' ==> {
            &&& text@.len() > 1
            &&& r->0 <= 0 && digits_value(text@.skip(1)) == Some((-r->0) as nat)
        },
        text@[0] == '+' ==> {
            &&& text@.len() > 1
            &&& r->0 >= 0 && digits_value(text@.skip(1)) == Some(r->0 as nat)
        },
        text@[0] != '-' && text@[0] != '+' ==> digits_value(text@) == Some(r->0 as nat) && r->0
            >= 0,
{
    assert(text@.drop_first() =~= text@.skip(1));
}

/// A padded text ends in the text and has nothing but blanks before it; it is
/// as long as asked for, or as the text where that is longer.
pub proof fn law_padding_is_blank(s: &str, width: usize, r: String)
    requires
        call_ensures(pad_text_left, (s, width), r),
    ensures
        s@.len() <= width ==> r@.len() == width,
        s@.len() > width ==> r@ == s@,
        r@.skip(r@.len() - s@.len()) == s@,
        forall|i: int| 0 <= i < r@.len() - s@.len() ==> #[trigger] r@[i] == ' ',
{
    assert(r@.skip(r@.len() - s@.len()) =~= s@);
}

/// The same of the padding that contracts speak of.
pub proof fn law_padded(s: Seq<char>, width: nat)
    ensures
        s.len() <= width ==> pad_left(s, width).len() == width,
        s.len() > width ==> pad_left(s, width) == s,
        pad_left(s, width).skip(pad_left(s, width).len() - s.len()) == s,
        forall|i: int|
            0 <= i < pad_left(s, width).len() - s.len() ==> #[trigger] pad_left(s, width)[i] == ' ',
{
    assert(pad_left(s, width).skip(pad_left(s, width).len() - s.len()) =~= s);
}

/// A text begins with another exactly when it is that one and a rest.
pub proof fn law_beginning(s: Seq<char>, prefix: Seq<char>)
    ensures
        has_prefix(s, prefix) <==> exists|rest: Seq<char>| s == #[trigger] (prefix + rest),
        forall|rest: Seq<char>| has_prefix(#[trigger] (prefix + rest), prefix),
{
    if has_prefix(s, prefix) {
        assert(s =~= prefix + s.skip(prefix.len() as int));
    }
    assert forall|rest: Seq<char>| has_prefix(#[trigger] (prefix + rest), prefix) by {
        assert((prefix + rest).take(prefix.len() as int) =~= prefix);
    }
}

/// A text ends with another exactly when it is a front and that one.
pub proof fn law_ending(s: Seq<char>, suffix: Seq<char>)
    ensures
        has_suffix(s, suffix) <==> exists|front: Seq<char>| s == #[trigger] (front + suffix),
        forall|front: Seq<char>| has_suffix(#[trigger] (front + suffix), suffix),
{
    if has_suffix(s, suffix) {
        assert(s =~= s.take(s.len() - suffix.len()) + suffix);
    }
    assert forall|front: Seq<char>| has_suffix(#[trigger] (front + suffix), suffix) by {
        let whole = front + suffix;
        assert(whole.skip(whole.len() - suffix.len()) =~= suffix);
    }
}

/// Cutting a beginning off leaves exactly the rest behind it; a text that does
/// not begin so is left alone.
pub proof fn law_beginning_is_cut_off(s: &str, prefix: &str, r: Option<String>)
    requires
        call_ensures(strip_text_prefix, (s, prefix), r),
    ensures
        r matches Some(rest) ==> s@ == prefix@ + rest@,
        forall|rest: Seq<char>|
            s@ == #[trigger] (prefix@ + rest) ==> r is Some && r->0@ == rest,
{
    law_beginning(s@, prefix@);
    if let Some(rest) = r {
        assert(s@ =~= prefix@ + rest@);
    }
    assert forall|rest: Seq<char>| s@ == #[trigger] (prefix@ + rest) implies r is Some && r->0@
        == rest by {
        assert((prefix@ + rest).skip(prefix@.len() as int) =~= rest);
    }
}

/// Cutting an ending off leaves exactly the front before it; a text that does
/// not end so is left alone.
pub proof fn law_ending_is_cut_off(s: &str, suffix: &str, r: Option<String>)
    requires
        call_ensures(strip_text_suffix, (s, suffix), r),
    ensures
        r matches Some(front) ==> s@ == front@ + suffix@,
        forall|front: Seq<char>|
            s@ == #[trigger] (front + suffix@) ==> r is Some && r->0@ == front,
{
    law_ending(s@, suffix@);
    if let Some(front) = r {
        assert(s@ =~= front@ + suffix@);
    }
    assert forall|front: Seq<char>| s@ == #[trigger] (front + suffix@) implies r is Some && r->0@
        == front by {
        assert((front + suffix@).take(front.len() as int) =~= front);
    }
}

/// Pieces are joined with one separator between neighbours.
pub proof fn law_joined_pieces(parts: Seq<Seq<char>>, last: Seq<char>, sep: char)
    ensures
        join(Seq::<Seq<char>>::empty(), sep).len() == 0,
        join(seq![last], sep) == last,
        parts.len() > 0 ==> join(parts.push(last), sep) == join(parts, sep) + seq![sep] + last,
{
    assert(parts.push(last).drop_last() =~= parts);
    assert(join(parts, sep).push(sep) =~= join(parts, sep) + seq![sep]);
}

/// A text that is cut at a separator gives pieces without it, at least one, and
/// joining them gives the text back. No other pieces do.
pub proof fn law_cut_text(s: &str, sep: char, parts: Vec<String>, others: Seq<Seq<char>>)
    requires
        call_ensures(split_at_char, (s, sep), parts),
    ensures
        parts@.len() > 0,
        join(texts(parts@), sep) == s@,
        forall|i: int| 0 <= i < parts@.len() ==> !(#[trigger] parts@[i])@.contains(sep),
        others.len() > 0 && join(others, sep) == s@ && (forall|i: int|
            0 <= i < others.len() ==> !(#[trigger] others[i]).contains(sep)) ==> others == texts(
            parts@,
        ),
{
    lemma_split_nonempty(s@, sep);
    lemma_join_split(s@, sep);
    lemma_split_no_separator(s@, sep);
    assert(texts(parts@).len() == parts@.len());
    assert forall|i: int| 0 <= i < parts@.len() implies !(#[trigger] parts@[i])@.contains(sep) by {
        assert(texts(parts@)[i] == parts@[i]@);
        if parts@[i]@.contains(sep) {
            let j = choose|j: int| 0 <= j < parts@[i]@.len() && parts@[i]@[j] == sep;
            assert(split(s@, sep)[i][j] != sep);
        }
    }
    if others.len() > 0 && join(others, sep) == s@ && (forall|i: int|
        0 <= i < others.len() ==> !(#[trigger] others[i]).contains(sep)) {
        lemma_split_join(others, sep);
    }
}

/// The texts of strings are those of each, in their order.
pub proof fn law_texts(v: Seq<String>, i: int)
    ensures
        texts(v).len() == v.len(),
        0 <= i < v.len() ==> texts(v)[i] == v[i]@,
{
}

} // verus!
