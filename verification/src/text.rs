//! Text as a sequence of characters: splitting, joining, decimal numbers.

use vstd::prelude::*;
use vstd::string::*;

verus! {

/// `String::push` appends the given character at the end of the string and
/// changes nothing else.
pub assume_specification[ String::push ](s: &mut String, c: char)
    ensures
        final(s)@ == old(s)@.push(c),
;

/// What `str::to_lowercase` makes of a text.
pub uninterp spec fn lowercase_text(text: Seq<char>) -> Seq<char>;

/// Calls `str::to_lowercase`, which gives the lower case of a text by the rules
/// of Unicode. The result depends on the text alone and is named
/// `lowercase_text`.
#[verifier::external_body]
pub(crate) fn to_lowercase(text: &str) -> (r: String)
    ensures
        r@ == lowercase_text(text@),
{
    text.to_lowercase()
}

/// The character sequences of a sequence of strings.
pub open spec fn texts(v: Seq<String>) -> Seq<Seq<char>> {
    Seq::new(v.len(), |i: int| v[i]@)
}

/// The pieces of `s` between the occurrences of `sep`. There is always one
/// piece more than there are separators.
pub open spec fn split(s: Seq<char>, sep: char) -> Seq<Seq<char>>
    decreases s.len(),
{
    if s.len() == 0 {
        seq![Seq::<char>::empty()]
    } else {
        let front = split(s.drop_last(), sep);
        if s.last() == sep {
            front.push(Seq::<char>::empty())
        } else {
            front.drop_last().push(front.last().push(s.last()))
        }
    }
}

/// The pieces one after the other, with `sep` between neighbours.
pub open spec fn join(parts: Seq<Seq<char>>, sep: char) -> Seq<char>
    decreases parts.len(),
{
    if parts.len() == 0 {
        Seq::empty()
    } else if parts.len() == 1 {
        parts[0]
    } else {
        join(parts.drop_last(), sep).push(sep) + parts.last()
    }
}

/// Whether `prefix` stands at the beginning of `s`.
pub open spec fn has_prefix(s: Seq<char>, prefix: Seq<char>) -> bool {
    prefix.len() <= s.len() && s.take(prefix.len() as int) == prefix
}

/// Whether `suffix` stands at the end of `s`.
pub open spec fn has_suffix(s: Seq<char>, suffix: Seq<char>) -> bool {
    suffix.len() <= s.len() && s.skip(s.len() - suffix.len()) == suffix
}

/// The character of a decimal digit.
pub open spec fn digit_char(d: nat) -> char {
    ('0' as nat + d) as char
}

/// The decimal digits of `n`, without leading zeros.
pub open spec fn decimal(n: nat) -> Seq<char>
    decreases n,
{
    if n < 10 {
        seq![digit_char(n)]
    } else {
        decimal(n / 10).push(digit_char(n % 10))
    }
}

/// The number that the decimal digits stand for; none where another character
/// stands among them. No digits at all stand for zero.
pub open spec fn digits_value(s: Seq<char>) -> Option<nat>
    decreases s.len(),
{
    if s.len() == 0 {
        Some(0)
    } else {
        match digits_value(s.drop_last()) {
            Some(v) if '0' <= s.last() <= '9' => Some(10 * v + (s.last() as nat - '0' as nat) as nat),
            _ => None,
        }
    }
}

/// The integer that the text stands for: at least one decimal digit, behind a
/// sign or not.
pub open spec fn integer_value(s: Seq<char>) -> Option<int> {
    let signed = s.len() > 0 && (s[0] == '-' || s[0] == '+');
    let digits = if signed {
        s.drop_first()
    } else {
        s
    };
    if digits.len() == 0 {
        None
    } else {
        match digits_value(digits) {
            Some(v) => Some(
                if s[0] == '-' {
                    -v
                } else {
                    v as int
                },
            ),
            None => None,
        }
    }
}

/// The integer that the text stands for, where it fits in 32 bits.
pub open spec fn parsed_i32(s: Seq<char>) -> Option<i32> {
    match integer_value(s) {
        Some(v) if i32::MIN <= v <= i32::MAX => Some(v as i32),
        _ => None,
    }
}

proof fn lemma_digits_value_grows(s: Seq<char>, n: int)
    requires
        0 <= n <= s.len(),
    ensures
        digits_value(s) is Some ==> digits_value(s.take(n)) is Some && digits_value(s.take(n))->0
            <= digits_value(s)->0,
    decreases s.len(),
{
    if n == s.len() {
        assert(s.take(n) =~= s);
    } else {
        lemma_digits_value_grows(s.drop_last(), n);
        assert(s.drop_last().take(n) =~= s.take(n));
    }
}

/// The digits of `n` stand for `n`.
pub proof fn lemma_decimal_value(n: nat)
    ensures
        digits_value(decimal(n)) == Some(n),
    decreases n,
{
    let last = digit_char(n % 10);
    if n < 10 {
        let s = seq![digit_char(n)];
        assert(s.drop_last() =~= Seq::<char>::empty());
        assert(s.last() == digit_char(n));
        reveal_with_fuel(digits_value, 2);
    } else {
        lemma_decimal_value(n / 10);
        assert(decimal(n).drop_last() =~= decimal(n / 10));
        assert(decimal(n).last() == last);
    }
}

/// `s` with blanks in front of it, so that it is at least `width` long.
pub open spec fn pad_left(s: Seq<char>, width: nat) -> Seq<char> {
    if s.len() >= width {
        s
    } else {
        Seq::new((width - s.len()) as nat, |i: int| ' ') + s
    }
}

/// There is always at least one part.
pub proof fn lemma_split_nonempty(s: Seq<char>, sep: char)
    ensures
        split(s, sep).len() >= 1,
    decreases s.len(),
{
    if s.len() > 0 {
        lemma_split_nonempty(s.drop_last(), sep);
    }
}

/// Joining the pieces of a text with the separator that it was split at gives
/// the text back.
pub proof fn lemma_join_split(s: Seq<char>, sep: char)
    ensures
        join(split(s, sep), sep) == s,
    decreases s.len(),
{
    if s.len() > 0 {
        let f = s.drop_last();
        lemma_join_split(f, sep);
        lemma_split_nonempty(f, sep);
        let front = split(f, sep);
        if s.last() == sep {
            assert(front.push(Seq::<char>::empty()).drop_last() =~= front);
            assert(join(split(s, sep), sep) =~= s);
        } else {
            let whole = split(s, sep);
            assert(whole.drop_last() =~= front.drop_last());
            assert(join(whole, sep) =~= join(front, sep).push(s.last()));
            assert(f.push(s.last()) =~= s);
        }
    }
}

/// No piece of a split text holds the separator.
pub proof fn lemma_split_no_separator(s: Seq<char>, sep: char)
    ensures
        forall|i: int, j: int|
            0 <= i < split(s, sep).len() && 0 <= j < split(s, sep)[i].len() ==> #[trigger] split(
                s,
                sep,
            )[i][j] != sep,
    decreases s.len(),
{
    if s.len() > 0 {
        lemma_split_no_separator(s.drop_last(), sep);
        lemma_split_nonempty(s.drop_last(), sep);
    }
}

/// A text without the separator is a single piece.
pub proof fn lemma_split_plain(t: Seq<char>, sep: char)
    requires
        !t.contains(sep),
    ensures
        split(t, sep) == seq![t],
    decreases t.len(),
{
    if t.len() > 0 {
        let f = t.drop_last();
        assert(!f.contains(sep)) by {
            if f.contains(sep) {
                let i = choose|i: int| 0 <= i < f.len() && f[i] == sep;
                assert(t[i] == sep);
            }
        }
        lemma_split_plain(f, sep);
        assert(t.last() != sep) by {
            assert(t[t.len() - 1] == t.last());
        }
        assert(f.push(t.last()) =~= t);
        assert(split(t, sep) =~= seq![t]);
    } else {
        assert(t =~= Seq::<char>::empty());
    }
}

/// A separator and a text without one add exactly that text as a last piece.
pub proof fn lemma_split_append(s: Seq<char>, t: Seq<char>, sep: char)
    requires
        !t.contains(sep),
    ensures
        split(s.push(sep) + t, sep) == split(s, sep).push(t),
    decreases t.len(),
{
    let whole = s.push(sep) + t;
    if t.len() == 0 {
        assert(whole =~= s.push(sep));
        assert(whole.drop_last() =~= s);
        assert(t =~= Seq::<char>::empty());
    } else {
        let f = t.drop_last();
        assert(!f.contains(sep)) by {
            if f.contains(sep) {
                let i = choose|i: int| 0 <= i < f.len() && f[i] == sep;
                assert(t[i] == sep);
            }
        }
        lemma_split_append(s, f, sep);
        assert(whole.drop_last() =~= s.push(sep) + f);
        assert(t.last() != sep) by {
            assert(t[t.len() - 1] == t.last());
        }
        assert(f.push(t.last()) =~= t);
        assert(split(s, sep).push(f).drop_last() =~= split(s, sep));
    }
}

/// Pieces that do not hold the separator are what their join splits into.
pub proof fn lemma_split_join(parts: Seq<Seq<char>>, sep: char)
    requires
        parts.len() >= 1,
        forall|i: int| 0 <= i < parts.len() ==> !(#[trigger] parts[i]).contains(sep),
    ensures
        split(join(parts, sep), sep) == parts,
    decreases parts.len(),
{
    if parts.len() == 1 {
        lemma_split_plain(parts[0], sep);
        assert(parts =~= seq![parts[0]]);
    } else {
        lemma_split_join(parts.drop_last(), sep);
        lemma_split_append(join(parts.drop_last(), sep), parts.last(), sep);
        assert(parts.drop_last().push(parts.last()) =~= parts);
    }
}

/// The characters of `s`.
pub fn to_chars(s: &str) -> (v: Vec<char>)
    ensures
        v@ == s@,
{
    let mut v: Vec<char> = Vec::new();
    for c in it: s.chars()
        invariant
            it.seq() == s@,
            v@ == s@.take(it.index() as int),
    {
        v.push(c);
        assert(s@.take(it.index() + 1) =~= s@.take(it.index() as int).push(c));
    }
    assert(s@.take(s@.len() as int) =~= s@);
    v
}

/// The text made of the characters `from..to` of `chars`.
pub fn from_chars(chars: &Vec<char>, from: usize, to: usize) -> (s: String)
    requires
        from <= to <= chars@.len(),
    ensures
        s@ == chars@.subrange(from as int, to as int),
{
    let mut s = String::new();
    let mut i: usize = from;
    while i < to
        invariant
            from <= i <= to <= chars@.len(),
            s@ == chars@.subrange(from as int, i as int),
        decreases to - i,
    {
        s.push(chars[i]);
        assert(chars@.subrange(from as int, i + 1) =~= chars@.subrange(from as int, i as int).push(
            chars@[i as int],
        ));
        i = i + 1;
    }
    s
}

/// Whether the two texts are equal.
pub fn same_text(a: &str, b: &str) -> (r: bool)
    ensures
        r == (a@ == b@),
{
    let left = a.to_owned();
    let right = b.to_owned();
    left == right
}

/// Whether `s` begins with the character `c`.
pub fn begins_with(s: &str, c: char) -> (r: bool)
    ensures
        r == (s@.len() > 0 && s@[0] == c),
{
    let chars = to_chars(s);
    chars.len() > 0 && chars[0] == c
}

/// Splits `s` at every occurrence of `sep`.
pub fn split_at_char(s: &str, sep: char) -> (parts: Vec<String>)
    ensures
        texts(parts@) == split(s@, sep),
{
    let mut parts: Vec<String> = Vec::new();
    let mut current = String::new();
    let chars = to_chars(s);
    let mut i: usize = 0;
    assert(texts(parts@).push(current@) =~= split(s@.take(0), sep));
    while i < chars.len()
        invariant
            i <= chars@.len(),
            chars@ == s@,
            texts(parts@).push(current@) == split(s@.take(i as int), sep),
        decreases chars@.len() - i,
    {
        let c = chars[i];
        let ghost before = texts(parts@).push(current@);
        proof {
            assert(s@.take(i + 1).drop_last() =~= s@.take(i as int));
            assert(before.drop_last() =~= texts(parts@));
        }
        if c == sep {
            parts.push(current);
            current = String::new();
            assert(texts(parts@) =~= before);
        } else {
            current.push(c);
        }
        assert(texts(parts@).push(current@) =~= split(s@.take(i + 1), sep));
        i = i + 1;
    }
    let ghost whole = texts(parts@).push(current@);
    parts.push(current);
    assert(texts(parts@) =~= whole);
    assert(s@.take(s@.len() as int) =~= s@);
    parts
}

/// Joins the first `n` of `parts`, with `sep` between neighbours.
pub fn join_first(parts: &Vec<String>, n: usize, sep: char) -> (s: String)
    requires
        n <= parts@.len(),
    ensures
        s@ == join(texts(parts@).take(n as int), sep),
{
    let mut s = String::new();
    let mut i: usize = 0;
    while i < n
        invariant
            i <= n <= parts@.len(),
            s@ == join(texts(parts@).take(i as int), sep),
        decreases n - i,
    {
        let ghost all = texts(parts@);
        assert(all.take(i + 1).drop_last() =~= all.take(i as int));
        if i > 0 {
            s.push(sep);
        }
        s.append(parts[i].as_str());
        assert(s@ =~= join(all.take(i + 1), sep));
        i = i + 1;
    }
    s
}

/// Whether `s` begins with `prefix`.
pub fn text_has_prefix(s: &str, prefix: &str) -> (r: bool)
    ensures
        r == has_prefix(s@, prefix@),
{
    let a = to_chars(s);
    let b = to_chars(prefix);
    if b.len() > a.len() {
        return false;
    }
    let mut i: usize = 0;
    while i < b.len()
        invariant
            i <= b@.len() <= a@.len(),
            a@ == s@,
            b@ == prefix@,
            a@.take(i as int) == b@.take(i as int),
        decreases b@.len() - i,
    {
        if a[i] != b[i] {
            assert(s@.take(prefix@.len() as int)[i as int] != prefix@[i as int]);
            return false;
        }
        assert(a@.take(i + 1) =~= a@.take(i as int).push(a@[i as int]));
        assert(b@.take(i + 1) =~= b@.take(i as int).push(b@[i as int]));
        i = i + 1;
    }
    assert(b@.take(b@.len() as int) =~= b@);
    true
}

/// The part of `s` behind `prefix`, where `s` begins with it.
pub fn strip_text_prefix(s: &str, prefix: &str) -> (r: Option<String>)
    ensures
        match r {
            Some(rest) => has_prefix(s@, prefix@) && rest@ == s@.skip(prefix@.len() as int),
            None => !has_prefix(s@, prefix@),
        },
{
    if text_has_prefix(s, prefix) {
        let a = to_chars(s);
        let b = to_chars(prefix);
        assert(a@.subrange(b@.len() as int, a@.len() as int) =~= s@.skip(prefix@.len() as int));
        Some(from_chars(&a, b.len(), a.len()))
    } else {
        None
    }
}

/// The part of `s` before `suffix`, where `s` ends with it.
pub fn strip_text_suffix(s: &str, suffix: &str) -> (r: Option<String>)
    ensures
        match r {
            Some(rest) => has_suffix(s@, suffix@) && rest@ == s@.take(s@.len() - suffix@.len()),
            None => !has_suffix(s@, suffix@),
        },
{
    let a = to_chars(s);
    let b = to_chars(suffix);
    if b.len() > a.len() {
        return None;
    }
    let start: usize = a.len() - b.len();
    let tail = from_chars(&a, start, a.len());
    assert(a@.subrange(start as int, a@.len() as int) =~= s@.skip(s@.len() - suffix@.len()));
    if same_text(tail.as_str(), suffix) {
        assert(a@.subrange(0, start as int) =~= s@.take(s@.len() - suffix@.len()));
        Some(from_chars(&a, 0, start))
    } else {
        None
    }
}

/// The character of a decimal digit.
fn digit(d: u64) -> (c: char)
    requires
        d < 10,
    ensures
        c == digit_char(d as nat),
{
    (48u8 + d as u8) as char
}

/// Writes `n` in decimal.
pub fn decimal_text(n: u64) -> (s: String)
    ensures
        s@ == decimal(n as nat),
    decreases n,
{
    let mut s = if n < 10 {
        String::new()
    } else {
        decimal_text(n / 10)
    };
    s.push(digit(n % 10));
    assert(s@ =~= decimal(n as nat));
    s
}

/// Puts blanks in front of `s` until it is `width` characters long.
pub fn pad_text_left(s: &str, width: usize) -> (r: String)
    ensures
        r@ == pad_left(s@, width as nat),
{
    let len: usize = s.unicode_len();
    let mut r = String::new();
    let mut i: usize = len;
    while i < width
        invariant
            len == s@.len(),
            len <= i,
            i <= width || i == len,
            r@ == Seq::new((i - len) as nat, |k: int| ' '),
        decreases width - i,
    {
        r.push(' ');
        i = i + 1;
        assert(r@ =~= Seq::new((i - len) as nat, |k: int| ' '));
    }
    r.append(s);
    assert(r@ =~= pad_left(s@, width as nat));
    r
}

/// Reads a 32-bit integer: decimal digits, behind a sign or not.
pub fn parse_i32(s: &str) -> (r: Option<i32>)
    ensures
        r == parsed_i32(s@),
{
    let chars = to_chars(s);
    let len: usize = chars.len();
    let negative = len > 0 && chars[0] == '-';
    let start: usize = if len > 0 && (chars[0] == '-' || chars[0] == '+') {
        1
    } else {
        0
    };
    if start == len {
        assert(start == 1 ==> s@.drop_first().len() == 0);
        return None;
    }
    let ghost digits = s@.skip(start as int);
    assert(start == 1 ==> s@.drop_first() =~= digits);
    assert(start == 0 ==> s@ =~= digits);
    let mut value: i64 = 0;
    let mut i: usize = start;
    assert(digits.take(0) =~= Seq::<char>::empty());
    while i < len
        invariant
            start <= i <= len,
            len == chars@.len(),
            chars@ == s@,
            start == 0 || start == 1,
            digits == s@.skip(start as int),
            0 <= value <= 0x8000_0000,
            digits_value(digits.take(i - start)) == Some(value as nat),
            digits.len() > 0,
            negative == (s@[0] == '-'),
            integer_value(s@) == (match digits_value(digits) {
                Some(v) => Some(
                    if negative {
                        -v
                    } else {
                        v as int
                    },
                ),
                None => None,
            }),
        decreases len - i,
    {
        let c = chars[i];
        let ghost next = digits.take(i + 1 - start);
        proof {
            assert(next.drop_last() =~= digits.take(i - start));
            assert(next.last() == c);
            lemma_digits_value_grows(digits, i + 1 - start);
        }
        if c < '0' || c > '9' {
            return None;
        }
        value = 10 * value + (c as u32 as i64 - 48);
        if value > 0x8000_0000 {
            return None;
        }
        i = i + 1;
    }
    assert(digits.take(digits.len() as int) =~= digits);
    if negative {
        Some((-value) as i32)
    } else if value == 0x8000_0000 {
        None
    } else {
        Some(value as i32)
    }
}

} // verus!
