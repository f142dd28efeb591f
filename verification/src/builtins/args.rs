//! The arguments of a command. The first one is the name of the command.

use vstd::prelude::*;
use vstd::string::*;

use crate::text::{begins_with, same_text, to_chars};
#[allow(unused_imports)]
use crate::text::texts;

verus! {

/// Whether the argument is a cluster of option letters: a dash and at least
/// one letter. `long_is_operand` says that two dashes begin no cluster.
pub open spec fn is_cluster(arg: Seq<char>, long_is_operand: bool) -> bool {
    arg.len() > 1 && arg[0] == '-' && !(long_is_operand && arg[1] == '-')
}

/// The option letters among the first `n` arguments, in order.
pub open spec fn letters(args: Seq<Seq<char>>, long_is_operand: bool, n: int) -> Seq<char>
    decreases n,
{
    if n <= 1 {
        Seq::empty()
    } else if is_cluster(args[n - 1], long_is_operand) {
        letters(args, long_is_operand, n - 1) + args[n - 1].skip(1)
    } else {
        letters(args, long_is_operand, n - 1)
    }
}

/// The arguments among the first `n` that are no clusters, in order.
pub open spec fn operands(args: Seq<Seq<char>>, long_is_operand: bool, n: int) -> Seq<Seq<char>>
    decreases n,
{
    if n <= 1 {
        Seq::empty()
    } else if is_cluster(args[n - 1], long_is_operand) {
        operands(args, long_is_operand, n - 1)
    } else {
        operands(args, long_is_operand, n - 1).push(args[n - 1])
    }
}

/// The arguments among the first `n` that do not begin with a dash, in order.
pub open spec fn undashed(args: Seq<Seq<char>>, n: int) -> Seq<Seq<char>>
    decreases n,
{
    if n <= 1 {
        Seq::empty()
    } else if args[n - 1].len() > 0 && args[n - 1][0] == '-' {
        undashed(args, n - 1)
    } else {
        undashed(args, n - 1).push(args[n - 1])
    }
}

/// The first letter that is not among the allowed ones.
pub open spec fn first_outside(s: Seq<char>, allowed: Seq<char>) -> Option<char>
    decreases s.len(),
{
    if s.len() == 0 {
        None
    } else if first_outside(s.drop_last(), allowed) is Some {
        first_outside(s.drop_last(), allowed)
    } else if allowed.contains(s.last()) {
        None
    } else {
        Some(s.last())
    }
}

/// What is outside in a text is outside in every longer one.
pub proof fn lemma_first_outside_extends(s: Seq<char>, t: Seq<char>, allowed: Seq<char>)
    ensures
        first_outside(s, allowed) is Some ==> first_outside(s + t, allowed) == first_outside(
            s,
            allowed,
        ),
    decreases t.len(),
{
    if t.len() == 0 {
        assert(s + t =~= s);
    } else {
        lemma_first_outside_extends(s, t.drop_last(), allowed);
        assert((s + t).drop_last() =~= s + t.drop_last());
    }
}

/// The letters of the first arguments are the beginning of those of all.
pub proof fn lemma_letters_prefix(args: Seq<Seq<char>>, long_is_operand: bool, i: int, n: int)
    requires
        i <= n <= args.len(),
    ensures
        letters(args, long_is_operand, i).len() <= letters(args, long_is_operand, n).len(),
        letters(args, long_is_operand, n).take(letters(args, long_is_operand, i).len() as int)
            == letters(args, long_is_operand, i),
    decreases n - i,
{
    let a = letters(args, long_is_operand, i);
    let b = letters(args, long_is_operand, n);
    if i == n || n <= 1 {
        assert(b.take(a.len() as int) =~= a);
    } else {
        lemma_letters_prefix(args, long_is_operand, i, n - 1);
        let c = letters(args, long_is_operand, n - 1);
        assert(b.take(a.len() as int) =~= c.take(a.len() as int));
    }
}

/// Whether the argument is a cluster of option letters.
pub fn arg_is_cluster(arg: &str, long_is_operand: bool) -> (r: bool)
    ensures
        r == is_cluster(arg@, long_is_operand),
{
    let chars = to_chars(arg);
    chars.len() > 1 && chars[0] == '-' && !(long_is_operand && chars[1] == '-')
}

/// A letter that is not allowed in an argument all letters before which are
/// allowed is the first such letter of all.
pub proof fn lemma_unknown_letter(
    args: Seq<Seq<char>>,
    long_is_operand: bool,
    allowed: Seq<char>,
    i: int,
    k: int,
)
    requires
        1 <= i < args.len(),
        is_cluster(args[i], long_is_operand),
        1 <= k < args[i].len(),
        first_outside(letters(args, long_is_operand, i) + args[i].subrange(1, k), allowed) is None,
        !allowed.contains(args[i][k]),
    ensures
        first_outside(letters(args, long_is_operand, args.len() as int), allowed) == Some(
            args[i][k],
        ),
{
    let so_far = letters(args, long_is_operand, i) + args[i].subrange(1, k);
    let here = so_far.push(args[i][k]);
    assert(here.drop_last() =~= so_far);
    assert(first_outside(here, allowed) == Some(args[i][k]));
    let next = letters(args, long_is_operand, i + 1);
    assert(next =~= here + args[i].skip(k + 1));
    lemma_first_outside_extends(here, args[i].skip(k + 1), allowed);
    let n = args.len() as int;
    let all = letters(args, long_is_operand, n);
    lemma_letters_prefix(args, long_is_operand, i + 1, n);
    assert(all =~= next + all.skip(next.len() as int));
    lemma_first_outside_extends(next, all.skip(next.len() as int), allowed);
}

/// What a longer text contains.
pub proof fn lemma_contains_push(s: Seq<char>, c: char)
    ensures
        forall|x: char| #[trigger] s.push(c).contains(x) <==> s.contains(x) || x == c,
{
    assert forall|x: char| #[trigger] s.push(c).contains(x) <==> s.contains(x) || x == c by {
        if s.contains(x) {
            let i = choose|i: int| 0 <= i < s.len() && s[i] == x;
            assert(s.push(c)[i] == x);
        }
        if x == c {
            assert(s.push(c)[s.len() as int] == x);
        }
    }
}

/// The arguments that are no clusters of option letters.
pub fn operand_args(args: &Vec<String>) -> (r: Vec<String>)
    ensures
        texts(r@) == operands(texts(args@), false, args@.len() as int),
{
    let ghost all = texts(args@);
    let mut r: Vec<String> = Vec::new();
    let mut i: usize = 1;
    assert(texts(r@) =~= operands(all, false, 1));
    while i < args.len()
        invariant
            1 <= i,
            i <= args@.len() || i == 1,
            all == texts(args@),
            texts(r@) == operands(all, false, i as int),
        decreases args@.len() - i,
    {
        assert(all[i as int] == args@[i as int]@);
        if !arg_is_cluster(args[i].as_str(), false) {
            let ghost before = r@;
            r.push(args[i].clone());
            assert(texts(r@) =~= texts(before).push(args@[i as int]@));
        }
        i = i + 1;
    }
    r
}

/// The arguments that do not begin with a dash.
pub fn undashed_args(args: &Vec<String>) -> (r: Vec<String>)
    ensures
        texts(r@) == undashed(texts(args@), args@.len() as int),
{
    let ghost all = texts(args@);
    let mut r: Vec<String> = Vec::new();
    let mut i: usize = 1;
    assert(texts(r@) =~= undashed(all, 1));
    while i < args.len()
        invariant
            1 <= i,
            i <= args@.len() || i == 1,
            all == texts(args@),
            texts(r@) == undashed(all, i as int),
        decreases args@.len() - i,
    {
        assert(all[i as int] == args@[i as int]@);
        if !begins_with(args[i].as_str(), '-') {
            let ghost before = r@;
            r.push(args[i].clone());
            assert(texts(r@) =~= texts(before).push(args@[i as int]@));
        }
        i = i + 1;
    }
    r
}

/// Whether one of the arguments behind the name of the command is `a` or `b`.
pub open spec fn has_either(args: Seq<Seq<char>>, a: Seq<char>, b: Seq<char>) -> bool {
    exists|i: int| 1 <= i < args.len() && ((#[trigger] args[i]) == a || args[i] == b)
}

/// Whether one of the arguments behind the name of the command is `a` or `b`.
pub fn args_have_either(args: &Vec<String>, a: &str, b: &str) -> (r: bool)
    ensures
        r == has_either(texts(args@), a@, b@),
{
    let ghost all = texts(args@);
    let mut i: usize = 1;
    while i < args.len()
        invariant
            1 <= i,
            all == texts(args@),
            forall|k: int| 1 <= k < i && k < args@.len() ==> (#[trigger] all[k]) != a@ && all[k] != b@,
        decreases args@.len() - i,
    {
        assert(all[i as int] == args@[i as int]@);
        if same_text(args[i].as_str(), a) || same_text(args[i].as_str(), b) {
            return true;
        }
        i = i + 1;
    }
    false
}

} // verus!
