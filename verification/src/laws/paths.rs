//! Laws of paths and of the commands that take them apart.

use vstd::prelude::*;
use vstd::string::*;

#[allow(unused_imports)]
use crate::builtins::names::{
    base_name, directory_lines, directory_name, without_suffix, BasenameBuiltin, DirnameBuiltin,
};
#[allow(unused_imports)]
use crate::builtins::output::CommandOutput;
#[allow(unused_imports)]
use crate::path::{
    file_name, file_name_of, is_absolute, join_paths, joined, last_significant,
    lemma_names_of_joined, lemma_parent_and_last_name, names, names_of, normalized, parent,
    parent_of, plain_name, resolved, same_path, significant_parts,
};
#[allow(unused_imports)]
use crate::text::{
    has_suffix, join, lemma_split_append, lemma_split_join, lemma_split_nonempty, lemma_split_plain,
    split, texts,
};

verus! {

/// A path starts at the root exactly when it begins with a slash.
pub proof fn law_absolute(rest: Seq<char>)
    ensures
        is_absolute(seq!['/'] + rest),
        !is_absolute(Seq::empty()),
        rest.len() > 0 && rest[0] != '/' ==> !is_absolute(rest),
{
}

proof fn lemma_plain_parts(parts: Seq<Seq<char>>, from: int, n: int)
    requires
        0 <= from <= n <= parts.len(),
        forall|i: int| 0 <= i < from ==> (#[trigger] parts[i]).len() == 0,
        forall|i: int| from <= i < n ==> plain_name(#[trigger] parts[i]),
    ensures
        significant_parts(parts, n) == parts.subrange(from, n),
    decreases n,
{
    if n == 0 {
        assert(parts.subrange(0, 0) =~= Seq::<Seq<char>>::empty());
    } else if n == from {
        lemma_plain_parts(parts, from - 1, n - 1);
        assert(parts.subrange(n - 1, n - 1) =~= parts.subrange(n, n));
    } else {
        lemma_plain_parts(parts, from, n - 1);
        assert(parts.subrange(from, n) =~= parts.subrange(from, n - 1).push(parts[n - 1]));
    }
}

/// A path that is written as names with a slash between neighbours goes through
/// those names, from the root where a slash stands before them.
pub proof fn law_names_of_a_written_path(parts: Seq<Seq<char>>)
    requires
        parts.len() > 0,
        forall|i: int| 0 <= i < parts.len() ==> plain_name(#[trigger] parts[i]),
    ensures
        names(join(parts, '/')) == parts,
        names(seq!['/'] + join(parts, '/')) == parts,
{
    lemma_split_join(parts, '/');
    lemma_plain_parts(parts, 0, parts.len() as int);
    assert(parts.subrange(0, parts.len() as int) =~= parts);
    let rooted = seq![Seq::<char>::empty()] + parts;
    lemma_join_rooted(parts);
    assert forall|i: int| 0 <= i < rooted.len() implies !(#[trigger] rooted[i]).contains('/') by {
        if i > 0 {
            assert(rooted[i] == parts[i - 1]);
        }
    }
    lemma_split_join(rooted, '/');
    assert forall|i: int| 1 <= i < rooted.len() implies plain_name(#[trigger] rooted[i]) by {
        assert(rooted[i] == parts[i - 1]);
    }
    lemma_plain_parts(rooted, 1, rooted.len() as int);
    assert(rooted.subrange(1, rooted.len() as int) =~= parts);
}

proof fn lemma_join_rooted(parts: Seq<Seq<char>>)
    requires
        parts.len() > 0,
    ensures
        join(seq![Seq::<char>::empty()] + parts, '/') == seq!['/'] + join(parts, '/'),
    decreases parts.len(),
{
    let rooted = seq![Seq::<char>::empty()] + parts;
    let front = parts.drop_last();
    if parts.len() == 1 {
        assert(rooted.drop_last() =~= seq![Seq::<char>::empty()]);
        assert(join(rooted, '/') =~= seq!['/'] + parts[0]) by {
            assert(join(rooted.drop_last(), '/') == Seq::<char>::empty());
        }
    } else {
        lemma_join_rooted(front);
        assert(rooted.drop_last() =~= seq![Seq::<char>::empty()] + front);
        assert(join(rooted, '/') =~= seq!['/'] + join(parts, '/'));
    }
}

/// A slash at the end means nothing, and neither does a dot behind it.
pub proof fn law_nothing_is_added(path: Seq<char>)
    ensures
        names(path.push('/')) == names(path),
        names(path + seq!['/', '.']) == names(path),
{
    let parts = split(path, '/');
    lemma_split_nonempty(path, '/');
    let none = Seq::<char>::empty();
    let dot = seq!['.'];
    assert(path.push('/') + none =~= path.push('/'));
    assert(path.push('/') + dot =~= path + seq!['/', '.']);
    lemma_split_append(path, none, '/');
    assert(!dot.contains('/')) by {
        assert(dot[0] == '.');
    }
    lemma_split_append(path, dot, '/');
    lemma_front(parts, parts.push(none), parts.len() as int);
    lemma_front(parts, parts.push(dot), parts.len() as int);
}

proof fn lemma_front(a: Seq<Seq<char>>, b: Seq<Seq<char>>, n: int)
    requires
        n <= a.len(),
        n <= b.len(),
        forall|i: int| 0 <= i < n ==> a[i] == b[i],
    ensures
        significant_parts(a, n) == significant_parts(b, n),
        last_significant(a, n) == last_significant(b, n),
    decreases n,
{
    if n > 0 {
        lemma_front(a, b, n - 1);
    }
}

/// The path of a name in a directory is the directory, a slash unless it ends in
/// one or is empty, and the name. What starts at the root is not put into the
/// directory.
pub proof fn law_put_together(base: Seq<char>, path: Seq<char>)
    ensures
        path.len() > 0 && path[0] == '/' ==> joined(base, path) == path,
        (path.len() == 0 || path[0] != '/') && base.len() == 0 ==> joined(base, path) == path,
        (path.len() == 0 || path[0] != '/') && base.len() > 0 && base.last() == '/' ==> joined(
            base,
            path,
        ) == base + path,
        (path.len() == 0 || path[0] != '/') && base.len() > 0 && base.last() != '/' ==> joined(
            base,
            path,
        ) == base + seq!['/'] + path,
{
    assert(base.len() == 0 ==> base + path =~= path);
    assert(base.push('/') =~= base + seq!['/']);
}

/// The last name of the path of a name in a directory is that name, and what
/// the path lies in is that directory.
pub proof fn law_taken_apart(base: Seq<char>, name: Seq<char>)
    requires
        plain_name(name),
    ensures
        file_name(joined(base, name)) == Some(name),
        parent(joined(base, name)) is Some,
        same_path(parent(joined(base, name))->0, base),
{
    lemma_last_part(base, name);
    lemma_names_of_joined(base, name);
    let path = joined(base, name);
    lemma_parent_and_last_name(path);
    assert(names(base).push(name).drop_last() =~= names(base));
}

/// A path that ends in two dots has no last name of its own.
pub proof fn law_dots_are_no_name(base: Seq<char>)
    ensures
        file_name(joined(base, seq!['.', '.'])) is None,
{
    let dots = seq!['.', '.'];
    assert(!dots.contains('/')) by {
        assert(dots[0] == '.' && dots[1] == '.');
    }
    lemma_last_part(base, dots);
}

proof fn lemma_last_part(base: Seq<char>, name: Seq<char>)
    requires
        name.len() > 0,
        !name.contains('/'),
        name != seq!['.'],
    ensures
        ({
            let parts = split(joined(base, name), '/');
            &&& parts.len() > 0
            &&& parts.last() == name
            &&& last_significant(parts, parts.len() as int) == parts.len() - 1
        }),
{
    assert(name.contains(name[0]));
    let whole = joined(base, name);
    if base.len() == 0 {
        assert(whole =~= name);
        lemma_split_plain(name, '/');
        let parts = split(whole, '/');
        assert(parts[0] == name);
        reveal_with_fuel(last_significant, 2);
    } else {
        let b = if base.last() == '/' {
            base.drop_last()
        } else {
            base
        };
        assert(whole =~= b.push('/') + name);
        lemma_split_append(b, name, '/');
    }
}

/// A plain name stays, a dot does nothing, and two dots take the name before
/// away, if there is one.
pub proof fn law_going_through_names(before: Seq<Seq<char>>, name: Seq<char>)
    ensures
        resolved(Seq::<Seq<char>>::empty()).len() == 0,
        plain_name(name) ==> resolved(before.push(name)) == resolved(before).push(name),
        resolved(before.push(seq!['.'])) == resolved(before),
        resolved(before).len() == 0 ==> resolved(before.push(seq!['.', '.'])).len() == 0,
        resolved(before).len() > 0 ==> resolved(before.push(seq!['.', '.'])) == resolved(
            before,
        ).drop_last(),
        plain_name(name) ==> resolved(before.push(name).push(seq!['.', '.'])) == resolved(before),
{
    assert(before.push(name).drop_last() =~= before);
    assert(before.push(seq!['.']).drop_last() =~= before);
    assert(before.push(seq!['.', '.']).drop_last() =~= before);
    assert(before.push(name).push(seq!['.', '.']).drop_last() =~= before.push(name));
    assert(seq!['.', '.'] != seq!['.']) by {
        assert(seq!['.', '.'].len() != seq!['.'].len());
    }
    assert(resolved(before).push(name).drop_last() =~= resolved(before));
    assert(before.push(name).last() == name);
    assert(before.push(name).push(seq!['.', '.']).last() == seq!['.', '.']);
    if plain_name(name) {
        assert(resolved(before.push(name)) == resolved(before).push(name));
    }
}

/// A normalized path is written with the names that are left, one slash between
/// neighbours: behind a slash if it starts at the root, and as a dot if it does
/// not and no name is left.
pub proof fn law_normalized_form(path: Seq<char>)
    ensures
        ({
            let left = resolved(names(path));
            &&& is_absolute(path) ==> normalized(path) == seq!['/'] + join(left, '/')
            &&& !is_absolute(path) && left.len() > 0 ==> normalized(path) == join(left, '/')
            &&& !is_absolute(path) && left.len() == 0 ==> normalized(path) == seq!['.']
        }),
{
}

/// An ending is taken off a name exactly when the name is more than the ending.
pub proof fn law_ending_taken_off(front: Seq<char>, suffix: Seq<char>, name: Seq<char>)
    ensures
        front.len() > 0 ==> without_suffix(front + suffix, suffix) == front,
        without_suffix(suffix, suffix) == suffix,
        (forall|f: Seq<char>| name != #[trigger] (f + suffix)) ==> without_suffix(name, suffix)
            == name,
        without_suffix(name, Seq::empty()) == name,
{
    let whole = front + suffix;
    if suffix.len() > 0 {
        assert(whole.skip(whole.len() - suffix.len()) =~= suffix);
        assert(whole.take(whole.len() - suffix.len()) =~= front);
        if front.len() > 0 {
            assert(whole.len() != suffix.len());
        }
    } else {
        assert(whole =~= front);
    }
    if has_suffix(name, suffix) {
        assert(name =~= name.take(name.len() - suffix.len()) + suffix);
    }
}

/// `basename` of a name in a directory writes that name, without the ending that
/// it is given.
pub proof fn law_basename(
    args: Vec<String>,
    out: CommandOutput,
    dir: Seq<char>,
    name: Seq<char>,
)
    requires
        call_ensures(BasenameBuiltin::execute, (&args,), out),
        args@.len() >= 2,
        plain_name(name),
        args@[1]@ == joined(dir, name),
    ensures
        out.exit_code == 0,
        out.stderr@.len() == 0,
        args@.len() == 2 ==> out.stdout@ == name + "\n"@,
        forall|front: Seq<char>|
            args@.len() > 2 && front.len() > 0 && name == #[trigger] (front + args@[2]@)
                ==> out.stdout@ == front + "\n"@,
        args@.len() > 2 && name == args@[2]@ ==> out.stdout@ == name + "\n"@,
        args@.len() > 2 && (forall|front: Seq<char>| name != #[trigger] (front + args@[2]@))
            ==> out.stdout@ == name + "\n"@,
{
    law_taken_apart(dir, name);
    if args@.len() == 2 {
        law_ending_taken_off(name, Seq::empty(), name);
    } else {
        let suffix = args@[2]@;
        law_ending_taken_off(name, suffix, name);
        assert forall|front: Seq<char>| front.len() > 0 && name == #[trigger] (front
            + suffix) implies out.stdout@ == front + "\n"@ by {
            law_ending_taken_off(front, suffix, name);
        }
    }
}

/// `dirname` writes one line for each path: what the path lies in, and a dot for
/// a name that lies in no directory.
pub proof fn law_directory_name(dir: Seq<char>, name: Seq<char>)
    requires
        plain_name(name),
    ensures
        names(dir).len() > 0 || is_absolute(dir) ==> same_path(
            directory_name(joined(dir, name)),
            dir,
        ),
        dir.len() == 0 ==> directory_name(joined(dir, name)) == "."@,
{
    law_taken_apart(dir, name);
    let found = parent(joined(dir, name))->0;
    if found.len() == 0 {
        assert(found =~= Seq::<char>::empty());
        lemma_split_plain(found, '/');
        assert(split(found, '/') =~= seq![found]);
        reveal_with_fuel(significant_parts, 2);
        assert(names(found).len() == 0);
    }
    if dir.len() == 0 {
        let path = joined(dir, name);
        assert(path =~= name);
        lemma_split_plain(name, '/');
        let parts = split(name, '/');
        assert(parts =~= seq![name]);
        assert(parts[0] == name);
        assert(name.contains(name[0]));
        reveal_with_fuel(last_significant, 2);
    }
}

/// One path more adds its line behind those of the others.
pub proof fn law_dirname(args: Vec<String>, out: CommandOutput, n: int)
    requires
        call_ensures(DirnameBuiltin::execute, (&args,), out),
    ensures
        args@.len() == 2 ==> out.stdout@ == directory_name(args@[1]@) + "\n"@,
        args@.len() >= 2 ==> out.stdout@ == directory_lines(texts(args@), args@.len() as int)
            && out.stderr@.len() == 0 && out.exit_code == 0,
        args@.len() < 2 ==> out.stdout@.len() == 0 && out.stderr@ == "dirname: missing operand\n"@
            && out.exit_code == 1,
        1 <= n < args@.len() ==> directory_lines(texts(args@), n + 1) == directory_lines(
            texts(args@),
            n,
        ) + directory_name(args@[n]@) + "\n"@,
        directory_lines(texts(args@), 1).len() == 0,
{
    let all = texts(args@);
    if args@.len() == 2 {
        assert(all[1] == args@[1]@);
        reveal_with_fuel(directory_lines, 3);
        assert(Seq::<char>::empty() + directory_name(all[1]) =~= directory_name(all[1]));
    }
    if 1 <= n < args@.len() {
        assert(all[n] == args@[n]@);
    }
}

/// `basename` of the root is the root, and of any other path without a last
/// name it is empty. What such a path lies in, if it has no name at all, is
/// written as a dot.
pub proof fn law_nameless(path: Seq<char>)
    requires
        file_name(path) is None,
    ensures
        path == "/"@ ==> base_name(path) == "/"@,
        path != "/"@ ==> base_name(path).len() == 0,
        names(path).len() == 0 ==> directory_name(path) == "."@,
{
    if parent(path) is Some {
        lemma_parent_and_last_name(path);
    }
}

/// `basename` without a path fails.
pub proof fn law_basename_needs_a_path(args: Vec<String>, out: CommandOutput)
    requires
        call_ensures(BasenameBuiltin::execute, (&args,), out),
        args@.len() < 2,
    ensures
        out.stdout@.len() == 0,
        out.stderr@ == "basename: missing operand\n"@,
        out.exit_code == 1,
{
}

/// What is computed of a path is its directory, its last name and its names.
pub proof fn law_computed_of_a_path(
    dir: &str,
    name: &str,
    path: String,
    last: Option<String>,
    place: Option<String>,
    through: Vec<String>,
)
    requires
        plain_name(name@),
        call_ensures(join_paths, (dir, name), path),
        exists|p: &str|
            p@ == path@ && #[trigger] call_ensures(file_name_of, (p,), last) && call_ensures(
                parent_of,
                (p,),
                place,
            ) && call_ensures(names_of, (p,), through),
    ensures
        last is Some && last->0@ == name@,
        place is Some && same_path(place->0@, dir@),
        texts(through@) == names(dir@).push(name@),
{
    law_taken_apart(dir@, name@);
    lemma_names_of_joined(dir@, name@);
}

} // verus!
