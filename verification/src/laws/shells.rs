//! Laws of the directory and the home of the shell.

use vstd::prelude::*;
use vstd::string::*;

#[allow(unused_imports)]
use crate::error::ShellError;
#[allow(unused_imports)]
use crate::path::normalized;
#[allow(unused_imports)]
use crate::shell::{entered, Shell};
#[allow(unused_imports)]
use crate::text::has_prefix;

verus! {

/// A directory is entered exactly when neither `PWD` nor `OLDPWD` is protected.
/// The working directory is the normalized path then, `PWD` holds it and
/// `OLDPWD` the directory before.
pub proof fn law_entering_a_directory<F>(
    before: Shell<F>,
    path: Seq<char>,
    after: Shell<F>,
    result: Result<(), ShellError>,
)
    requires
        entered(before, path, after, result),
    ensures
        result is Ok <==> !before.env.is_readonly("PWD"@) && !before.env.is_readonly("OLDPWD"@),
        result is Ok ==> {
            &&& after.working_dir@ == normalized(path)
            &&& after.env.value("PWD"@) == Some(normalized(path))
            &&& after.env.value("OLDPWD"@) == Some(before.working_dir@)
            &&& !after.env.is_readonly("PWD"@) && !after.env.is_readonly("OLDPWD"@)
        },
{
}

/// A protected `PWD` keeps everything as it was and is what the error names. A
/// protected `OLDPWD` keeps its value and is what the error names; the
/// directory is entered all the same.
pub proof fn law_protected_directories<F>(
    before: Shell<F>,
    path: Seq<char>,
    after: Shell<F>,
    result: Result<(), ShellError>,
)
    requires
        entered(before, path, after, result),
    ensures
        before.env.is_readonly("PWD"@) ==> {
            &&& after == before
            &&& result is Err && result->Err_0 is ReadonlyVariable
            &&& result->Err_0->ReadonlyVariable_0@ == "PWD"@
        },
        !before.env.is_readonly("PWD"@) && before.env.is_readonly("OLDPWD"@) ==> {
            &&& after.working_dir@ == normalized(path)
            &&& after.env.value("PWD"@) == Some(normalized(path))
            &&& after.env.variable("OLDPWD"@) == before.env.variable("OLDPWD"@)
            &&& result is Err && result->Err_0 is ReadonlyVariable
            &&& result->Err_0->ReadonlyVariable_0@ == "OLDPWD"@
        },
{
}

/// Entering a directory changes no other variable, forgets no executable and
/// closes no file.
pub proof fn law_entering_leaves_the_rest<F>(
    before: Shell<F>,
    path: Seq<char>,
    after: Shell<F>,
    result: Result<(), ShellError>,
    name: Seq<char>,
)
    requires
        entered(before, path, after, result),
    ensures
        name != "PWD"@ && name != "OLDPWD"@ ==> after.env.variable(name) == before.env.variable(
            name,
        ),
        after.program_location_cache == before.program_location_cache,
        after.open_files == before.open_files,
{
}

/// The home directory is the value of `HOME` if that is set, else that of the
/// user.
pub proof fn law_home<F>(shell: Shell<F>, user_home: Option<Seq<char>>)
    ensures
        shell.env.value("HOME"@) is Some ==> shell.home(user_home) == shell.env.value("HOME"@),
        shell.env.value("HOME"@) is None ==> shell.home(user_home) == user_home,
{
}

/// A text that is the home directory and a rest is a tilde and the rest. Any
/// other text stays as it is.
pub proof fn law_tilde<F>(
    shell: &Shell<F>,
    s: String,
    user_home: Option<String>,
    r: String,
    home: Seq<char>,
)
    requires
        call_ensures(Shell::<F>::tilde_shorten, (shell, s, user_home), r),
    ensures
        ({
            let found = if shell.env.value("HOME"@) is Some {
                shell.env.value("HOME"@)
            } else if user_home is Some {
                Some(user_home->0@)
            } else {
                None
            };
            &&& found is None ==> r@ == s@
            &&& found == Some(home) ==> forall|rest: Seq<char>|
                s@ == #[trigger] (home + rest) ==> r@ == seq!['~'] + rest
            &&& found == Some(home) && (forall|rest: Seq<char>| s@ != #[trigger] (home + rest))
                ==> r@ == s@
        }),
{
    crate::laws::words::law_beginning(s@, home);
    assert forall|rest: Seq<char>| s@ == #[trigger] (home + rest) implies s@.skip(
        home.len() as int,
    ) == rest by {
        assert((home + rest).skip(home.len() as int) =~= rest);
    }
    if has_prefix(s@, home) {
        assert(s@ =~= home + s@.skip(home.len() as int));
    }
}

} // verus!
