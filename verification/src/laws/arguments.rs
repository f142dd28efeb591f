//! Laws of how commands read their arguments.

use vstd::prelude::*;
use vstd::string::*;

#[allow(unused_imports)]
use crate::builtins::args::{
    args_have_either, first_outside, is_cluster, letters, operand_args, operands, undashed,
    undashed_args,
};
#[allow(unused_imports)]
use crate::builtins::ls::{ls_arguments, ls_letters, unnamed, LsOptions};
#[allow(unused_imports)]
use crate::builtins::mkdir::{mkdir_arguments, mkdir_unknown};
#[allow(unused_imports)]
use crate::builtins::output::CommandOutput;
#[allow(unused_imports)]
use crate::builtins::rm::{rm_arguments, rm_given, rm_letters};
#[allow(unused_imports)]
use crate::text::texts;

verus! {

/// Whether an argument is no option: it is empty, a single dash, or does not
/// begin with a dash. Where long options count as operands, so does what
/// begins with two dashes.
pub open spec fn plain_argument(long_is_operand: bool) -> spec_fn(Seq<char>) -> bool {
    |a: Seq<char>| a.len() <= 1 || a[0] != '-' || (long_is_operand && a[1] == '-')
}

/// Whether an argument does not begin with a dash.
pub open spec fn without_dash() -> spec_fn(Seq<char>) -> bool {
    |a: Seq<char>| a.len() == 0 || a[0] != '-'
}

/// Whether the letter stands in one of the options among the arguments.
pub open spec fn letter_given(args: Seq<Seq<char>>, long_is_operand: bool, c: char) -> bool {
    exists|i: int, k: int|
        {
            &&& 1 <= i < args.len()
            &&& args[i][0] == '-'
            &&& !(long_is_operand && args[i][1] == '-')
            &&& 1 <= k < args[i].len()
            &&& #[trigger] args[i][k] == c
        }
}

/// The operands are the arguments behind the name of the command that are no
/// options, all of them and in their order.
pub proof fn law_operands(args: Seq<Seq<char>>, long_is_operand: bool, n: int)
    requires
        0 <= n <= args.len(),
    ensures
        n <= 1 ==> operands(args, long_is_operand, n).len() == 0,
        n >= 1 ==> operands(args, long_is_operand, n) == args.subrange(1, n).filter(
            plain_argument(long_is_operand),
        ),
    decreases n,
{
    let p = plain_argument(long_is_operand);
    reveal(Seq::filter);
    if n == 1 {
        assert(args.subrange(1, 1) =~= Seq::<Seq<char>>::empty());
    } else if n > 1 {
        law_operands(args, long_is_operand, n - 1);
        assert(args.subrange(1, n).drop_last() =~= args.subrange(1, n - 1));
        assert(args.subrange(1, n).last() == args[n - 1]);
        assert(p(args[n - 1]) <==> !is_cluster(args[n - 1], long_is_operand));
    }
}

/// The same for commands that count whatever begins with a dash as an option.
pub proof fn law_undashed(args: Seq<Seq<char>>, n: int)
    requires
        0 <= n <= args.len(),
    ensures
        n <= 1 ==> undashed(args, n).len() == 0,
        n >= 1 ==> undashed(args, n) == args.subrange(1, n).filter(without_dash()),
    decreases n,
{
    reveal(Seq::filter);
    if n == 1 {
        assert(args.subrange(1, 1) =~= Seq::<Seq<char>>::empty());
    } else if n > 1 {
        law_undashed(args, n - 1);
        assert(args.subrange(1, n).drop_last() =~= args.subrange(1, n - 1));
        assert(args.subrange(1, n).last() == args[n - 1]);
    }
}

/// The operands that a command is handed are the plain arguments behind its
/// name.
pub proof fn law_operands_found(args: Vec<String>, found: Vec<String>)
    requires
        call_ensures(operand_args, (&args,), found),
    ensures
        args@.len() == 0 ==> found@.len() == 0,
        args@.len() > 0 ==> texts(found@) == texts(args@).skip(1).filter(plain_argument(false)),
{
    law_operands(texts(args@), false, args@.len() as int);
    assert(texts(found@).len() == found@.len());
    if args@.len() > 0 {
        assert(texts(args@).subrange(1, args@.len() as int) =~= texts(args@).skip(1));
    }
}

/// The same for commands that count whatever begins with a dash as an option.
pub proof fn law_undashed_found(args: Vec<String>, found: Vec<String>)
    requires
        call_ensures(undashed_args, (&args,), found),
    ensures
        args@.len() == 0 ==> found@.len() == 0,
        args@.len() > 0 ==> texts(found@) == texts(args@).skip(1).filter(without_dash()),
{
    law_undashed(texts(args@), args@.len() as int);
    assert(texts(found@).len() == found@.len());
    if args@.len() > 0 {
        assert(texts(args@).subrange(1, args@.len() as int) =~= texts(args@).skip(1));
    }
}

/// An option with two names is given exactly when one of them stands behind the
/// name of the command.
pub proof fn law_either_name(args: Vec<String>, a: &str, b: &str, given: bool)
    requires
        call_ensures(args_have_either, (&args, a, b), given),
    ensures
        given <==> exists|i: int|
            1 <= i < args@.len() && ((#[trigger] args@[i])@ == a@ || args@[i]@ == b@),
{
    let all = texts(args@);
    if given {
        let i = choose|i: int| 1 <= i < all.len() && ((#[trigger] all[i]) == a@ || all[i] == b@);
        assert(args@[i]@ == all[i]);
    }
    if exists|i: int| 1 <= i < args@.len() && ((#[trigger] args@[i])@ == a@ || args@[i]@ == b@) {
        let i = choose|i: int|
            1 <= i < args@.len() && ((#[trigger] args@[i])@ == a@ || args@[i]@ == b@);
        assert(all[i] == args@[i]@);
    }
}

proof fn lemma_letter_given(args: Seq<Seq<char>>, long_is_operand: bool, n: int, c: char)
    requires
        0 <= n <= args.len(),
    ensures
        letters(args, long_is_operand, n).contains(c) <==> letter_given(
            args.take(n),
            long_is_operand,
            c,
        ),
    decreases n,
{
    let all = letters(args, long_is_operand, n);
    if n > 1 {
        lemma_letter_given(args, long_is_operand, n - 1, c);
        let before = letters(args, long_is_operand, n - 1);
        let arg = args[n - 1];
        let front = args.take(n - 1);
        let now = args.take(n);
        if all.contains(c) {
            let j = choose|j: int| 0 <= j < all.len() && all[j] == c;
            if j < before.len() {
                assert(before[j] == c);
                assert(before.contains(c));
                let (i, k) = choose|i: int, k: int|
                    {
                        &&& 1 <= i < front.len()
                        &&& front[i][0] == '-'
                        &&& !(long_is_operand && front[i][1] == '-')
                        &&& 1 <= k < front[i].len()
                        &&& #[trigger] front[i][k] == c
                    };
                assert(now[i][k] == c);
            } else {
                let k = j - before.len() + 1;
                assert(arg[k] == c);
                assert(now[n - 1][k] == c);
            }
        }
        if letter_given(now, long_is_operand, c) {
            let (i, k) = choose|i: int, k: int|
                {
                    &&& 1 <= i < now.len()
                    &&& now[i][0] == '-'
                    &&& !(long_is_operand && now[i][1] == '-')
                    &&& 1 <= k < now[i].len()
                    &&& #[trigger] now[i][k] == c
                };
            if i < n - 1 {
                assert(front[i][k] == c);
                let j = choose|j: int| 0 <= j < before.len() && before[j] == c;
                assert(all[j] == c);
            } else {
                assert(is_cluster(arg, long_is_operand));
                assert(all[before.len() + k - 1] == c);
            }
        }
    }
}

/// A letter is among the letters of the options exactly when it stands in one of
/// them, behind its dash.
pub proof fn law_letters(args: Seq<Seq<char>>, long_is_operand: bool, c: char)
    ensures
        letters(args, long_is_operand, args.len() as int).contains(c) <==> letter_given(
            args,
            long_is_operand,
            c,
        ),
{
    lemma_letter_given(args, long_is_operand, args.len() as int, c);
    assert(args.take(args.len() as int) =~= args);
}

/// One more option adds its letters behind those of the others; one more
/// operand adds none.
pub proof fn law_one_more_argument(args: Seq<Seq<char>>, long_is_operand: bool, n: int)
    requires
        1 <= n < args.len(),
    ensures
        plain_argument(long_is_operand)(args[n]) ==> letters(args, long_is_operand, n + 1)
            == letters(args, long_is_operand, n),
        !plain_argument(long_is_operand)(args[n]) ==> letters(args, long_is_operand, n + 1)
            == letters(args, long_is_operand, n) + args[n].skip(1),
{
}

/// The first letter outside the allowed ones is one that stands behind allowed
/// ones only. There is none exactly when all are allowed.
pub proof fn law_first_outside(s: Seq<char>, allowed: Seq<char>)
    ensures
        first_outside(s, allowed) is None <==> forall|k: int|
            0 <= k < s.len() ==> allowed.contains(#[trigger] s[k]),
        first_outside(s, allowed) matches Some(c) ==> !allowed.contains(c) && exists|k: int|
            {
                &&& 0 <= k < s.len()
                &&& #[trigger] s[k] == c
                &&& forall|j: int| 0 <= j < k ==> allowed.contains(#[trigger] s[j])
            },
    decreases s.len(),
{
    if s.len() > 0 {
        let f = s.drop_last();
        law_first_outside(f, allowed);
        if first_outside(f, allowed) is Some {
            let c = first_outside(f, allowed)->0;
            let k = choose|k: int|
                {
                    &&& 0 <= k < f.len()
                    &&& #[trigger] f[k] == c
                    &&& forall|j: int| 0 <= j < k ==> allowed.contains(#[trigger] f[j])
                };
            assert(s[k] == c);
            assert forall|j: int| 0 <= j < k implies allowed.contains(#[trigger] s[j]) by {
                assert(allowed.contains(f[j]));
            }
        } else {
            assert forall|j: int| 0 <= j < s.len() - 1 implies allowed.contains(
                #[trigger] s[j],
            ) by {
                assert(allowed.contains(f[j]));
            }
            assert(s[s.len() - 1] == s.last());
        }
    }
}

/// The letters `l`, `a`, `1` and `h` set the four options of `ls` and no other
/// letter does anything but stop it.
pub proof fn law_ls_options(
    args: Vec<String>,
    r: Result<(LsOptions, Vec<String>), char>,
)
    requires
        call_ensures(ls_arguments, (&args,), r),
    ensures
        r matches Ok((o, paths)) ==> {
            &&& o.long_format <==> letter_given(texts(args@), true, 'l')
            &&& o.show_hidden <==> letter_given(texts(args@), true, 'a')
            &&& o.one_per_line <==> letter_given(texts(args@), true, '1')
            &&& o.human_sizes <==> letter_given(texts(args@), true, 'h')
            &&& forall|c: char| #[trigger] letter_given(texts(args@), true, c) ==> c == 'l' || c
                == 'a' || c == '1' || c == 'h'
        },
        r matches Err(c) ==> {
            &&& letter_given(texts(args@), true, c)
            &&& c != 'l' && c != 'a' && c != '1' && c != 'h'
        },
{
    let all = texts(args@);
    let given = letters(all, true, all.len() as int);
    law_letters(all, true, 'l');
    law_letters(all, true, 'a');
    law_letters(all, true, '1');
    law_letters(all, true, 'h');
    law_first_outside(given, ls_letters());
    assert(ls_letters()[0] == 'l' && ls_letters()[1] == 'a' && ls_letters()[2] == '1'
        && ls_letters()[3] == 'h');
    match r {
        Ok((o, paths)) => {
            assert forall|c: char| #[trigger] letter_given(all, true, c) implies c == 'l' || c
                == 'a' || c == '1' || c == 'h' by {
                law_letters(all, true, c);
                let k = choose|k: int| 0 <= k < given.len() && given[k] == c;
                assert(ls_letters().contains(given[k]));
            }
        },
        Err(c) => {
            assert(given.contains(c));
            law_letters(all, true, c);
        },
    }
}

proof fn lemma_unnamed(ops: Seq<Seq<char>>, n: int) -> (k: int)
    requires
        0 <= n <= ops.len(),
    ensures
        0 <= k <= n,
        forall|j: int| 0 <= j < k ==> #[trigger] ops[j] == "ls"@,
        k < n ==> ops[k] != "ls"@,
        unnamed(ops, n) == ops.subrange(k, n),
    decreases n,
{
    if n == 0 {
        assert(ops.subrange(0, 0) =~= Seq::<Seq<char>>::empty());
        0
    } else {
        let k = lemma_unnamed(ops, n - 1);
        if k == n - 1 && ops[n - 1] == "ls"@ {
            assert(ops.subrange(n, n) =~= Seq::<Seq<char>>::empty());
            n
        } else {
            assert(ops.subrange(k, n) =~= ops.subrange(k, n - 1).push(ops[n - 1]));
            k
        }
    }
}

/// `ls` lists its operands from the first one on that is not `ls`, or the
/// current directory where there is none.
pub proof fn law_ls_paths(args: Vec<String>, o: LsOptions, paths: Vec<String>)
    requires
        call_ensures(ls_arguments, (&args,), Ok((o, paths))),
        args@.len() > 0,
    ensures
        ({
            let ops = texts(args@).skip(1).filter(plain_argument(true));
            exists|k: int|
                {
                    &&& 0 <= k <= ops.len()
                    &&& forall|j: int| 0 <= j < k ==> #[trigger] ops[j] == "ls"@
                    &&& k < ops.len() ==> ops[k] != "ls"@
                    &&& k < ops.len() ==> texts(paths@) == #[trigger] ops.skip(k)
                    &&& k == ops.len() ==> texts(paths@) == seq!["."@]
                }
        }),
{
    let all = texts(args@);
    let n = all.len() as int;
    law_operands(all, true, n);
    assert(all.subrange(1, n) =~= all.skip(1));
    let ops = operands(all, true, n);
    let k = lemma_unnamed(ops, ops.len() as int);
    assert(ops.subrange(k, ops.len() as int) =~= ops.skip(k));
}

/// `rm` goes on exactly when it knows every letter and has a file; `f` makes it
/// forgiving, and its files are its operands.
pub proof fn law_rm_arguments(
    args: Vec<String>,
    r: Result<(bool, Vec<String>), CommandOutput>,
)
    requires
        call_ensures(rm_arguments, (&args,), r),
        args@.len() > 0,
    ensures
        ({
            let all = texts(args@);
            let ops = all.skip(1).filter(plain_argument(false));
            let known = forall|c: char| #[trigger]
                letter_given(all, false, c) ==> c == 'f' || c == 'r' || c == 'R';
            &&& r is Ok <==> known && ops.len() > 0
            &&& r matches Ok((force, files)) ==> {
                &&& force <==> letter_given(all, false, 'f')
                &&& texts(files@) == ops
            }
            &&& r matches Err(out) ==> {
                &&& out.stdout@.len() == 0
                &&& known && letter_given(all, false, 'f') ==> out.exit_code == 0
                    && out.stderr@.len() == 0
                &&& known && !letter_given(all, false, 'f') ==> out.exit_code == 1
                    && out.stderr@ == "rm: missing operand\n"@
                &&& !known ==> out.exit_code == 1 && exists|c: char|
                    {
                        &&& #[trigger] letter_given(all, false, c)
                        &&& c != 'f' && c != 'r' && c != 'R'
                        &&& out.stderr@ == "rm: invalid option -- '"@ + seq![c] + "'\n"@
                    }
            }
        }),
{
    let all = texts(args@);
    let n = all.len() as int;
    law_operands(all, false, n);
    assert(all.subrange(1, n) =~= all.skip(1));
    let given = rm_given(all);
    law_letters(all, false, 'f');
    law_first_outside(given, rm_letters());
    assert(rm_letters()[0] == 'f' && rm_letters()[1] == 'r' && rm_letters()[2] == 'R');
    let known = forall|c: char| #[trigger]
        letter_given(all, false, c) ==> c == 'f' || c == 'r' || c == 'R';
    match first_outside(given, rm_letters()) {
        Some(c) => {
            assert(given.contains(c));
            law_letters(all, false, c);
            assert(!known);
            assert("rm: invalid option -- '"@.push(c) + "'\n"@ =~= "rm: invalid option -- '"@
                + seq![c] + "'\n"@);
        },
        None => {
            assert forall|c: char| #[trigger] letter_given(all, false, c) implies c == 'f' || c
                == 'r' || c == 'R' by {
                law_letters(all, false, c);
                let k = choose|k: int| 0 <= k < given.len() && given[k] == c;
                assert(rm_letters().contains(given[k]));
            }
        },
    }
}

/// `mkdir` goes on exactly when every option is `-p` or `--parents` and there is
/// a directory to make; its directories are the arguments without a dash. Of the
/// options that it does not know it names the first.
pub proof fn law_mkdir_arguments(
    args: Vec<String>,
    r: Result<(bool, Vec<String>), CommandOutput>,
)
    requires
        call_ensures(mkdir_arguments, (&args,), r),
        args@.len() > 0,
    ensures
        ({
            let all = texts(args@);
            let dirs = all.skip(1).filter(without_dash());
            let known = forall|i: int|
                1 <= i < all.len() && (#[trigger] all[i]).len() > 0 && all[i][0] == '-' ==> all[i]
                    == "-p"@ || all[i] == "--parents"@;
            &&& r is Ok <==> known && dirs.len() > 0
            &&& r matches Ok((parents, found)) ==> {
                &&& parents <==> exists|i: int|
                    1 <= i < all.len() && ((#[trigger] all[i]) == "-p"@ || all[i] == "--parents"@)
                &&& texts(found@) == dirs
            }
            &&& r matches Err(out) ==> {
                &&& out.stdout@.len() == 0
                &&& out.exit_code == 1
                &&& known ==> out.stderr@ == "mkdir: missing operand\n"@
                &&& !known ==> exists|i: int|
                    {
                        &&& 1 <= i < all.len()
                        &&& (#[trigger] all[i]).len() > 0 && all[i][0] == '-'
                        &&& all[i] != "-p"@ && all[i] != "--parents"@
                        &&& out.stderr@ == "mkdir: unrecognized option '"@ + all[i] + "'\n"@
                        &&& forall|k: int|
                            1 <= k < i && (#[trigger] all[k]).len() > 0 && all[k][0] == '-'
                                ==> all[k] == "-p"@ || all[k] == "--parents"@
                    }
            }
        }),
{
    let all = texts(args@);
    let n = all.len() as int;
    law_undashed(all, n);
    assert(all.subrange(1, n) =~= all.skip(1));
    assert forall|i: int| 1 <= i < all.len() implies (mkdir_unknown(#[trigger] all[i]) <==> (
    all[i].len() > 0 && all[i][0] == '-' && all[i] != "-p"@ && all[i] != "--parents"@)) by {}
}

} // verus!
