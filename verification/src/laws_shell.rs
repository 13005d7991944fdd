//! Laws of the shell's natives and of substitution in text.

use crate::builtins_file::{cd_result_of, cd_vars_of, noted};
use crate::environment::{law_variable_set, var_value, EnvModel, VarModel};
use crate::error::Failure;
use crate::scan::Part;
use crate::substitute::{piece_text, woven};
use crate::text::trimmed_end;
use crate::types::Form;
use vstd::prelude::*;

verus! {

/// A change of directory that the host refuses gives nil, and the variable
/// `PWD` is what it was, whether the directory of before was noted or not.
pub proof fn law_refused_cd_leaves_pwd(
    vars: Seq<VarModel>,
    before: Option<Seq<char>>,
    reason: Seq<char>,
    now: Result<Seq<char>, Seq<char>>,
)
    ensures
        cd_result_of(Err(reason), now) == Ok::<Form, Failure>(Form::Nil),
        var_value(cd_vars_of(noted(vars, before), Err(reason), now), "PWD"@) == var_value(
            vars,
            "PWD"@,
        ),
{
    reveal_strlit("PWD");
    reveal_strlit("OLDPWD");
    assert("PWD"@.len() != "OLDPWD"@.len());
    if before is Some {
        law_variable_set(vars, "OLDPWD"@, before->0);
    }
}

/// Whether `parts` are the characters `before`, one command, and the
/// characters `after`, in this order.
pub open spec fn around_command(
    parts: Seq<Part>,
    before: Seq<char>,
    command: Seq<char>,
    after: Seq<char>,
) -> bool {
    &&& parts.len() == before.len() + 1 + after.len()
    &&& forall|i: int| 0 <= i < before.len() ==> #[trigger] parts[i] == Part::Char(before[i])
    &&& parts[before.len() as int] == Part::Command(command)
    &&& forall|i: int|
        0 <= i < after.len() ==> #[trigger] parts[before.len() + 1 + i] == Part::Char(after[i])
}

/// What is woven of the first `n` parts of such a text.
proof fn lemma_woven_around(
    parts: Seq<Part>,
    before: Seq<char>,
    command: Seq<char>,
    after: Seq<char>,
    env: EnvModel,
    puts: Seq<Seq<char>>,
    n: int,
)
    requires
        around_command(parts, before, command, after),
        0 <= n <= parts.len(),
        puts.len() == parts.len(),
    ensures
        woven(parts, env, puts, n) == if n <= before.len() {
            before.take(n)
        } else {
            before + trimmed_end(puts[before.len() as int]) + after.take(n - before.len() - 1)
        },
    decreases n,
{
    if n > 0 {
        lemma_woven_around(parts, before, command, after, env, puts, n - 1);
        let piece = piece_text(parts, env, n - 1, puts[n - 1]);
        if n <= before.len() {
            assert(parts[n - 1] == Part::Char(before[n - 1]));
            assert(before.take(n - 1) + piece =~= before.take(n));
        } else if n == before.len() + 1 {
            assert(before.take(n - 1) =~= before);
            assert(after.take(0) =~= Seq::<char>::empty());
            assert(before + piece =~= before + piece + after.take(0));
        } else {
            let k = n - before.len() - 1;
            assert(parts[before.len() + 1 + (k - 1)] == Part::Char(after[k - 1]));
            let head = before + trimmed_end(puts[before.len() as int]);
            assert(head + after.take(k - 1) + piece =~= head + after.take(k));
        }
    } else {
        assert(before.take(0) =~= Seq::<char>::empty());
    }
}

/// In a text with one command in it, the characters before the command and
/// after it stand as they are, and in the place of the command stands its
/// output `puts[before.len()]` without the white space at its end: the white
/// space at its beginning is kept.
pub proof fn law_output_is_spliced_in_place(
    parts: Seq<Part>,
    before: Seq<char>,
    command: Seq<char>,
    after: Seq<char>,
    env: EnvModel,
    puts: Seq<Seq<char>>,
)
    requires
        around_command(parts, before, command, after),
        puts.len() == parts.len(),
    ensures
        woven(parts, env, puts, parts.len() as int) == before + trimmed_end(
            puts[before.len() as int],
        ) + after,
{
    lemma_woven_around(parts, before, command, after, env, puts, parts.len() as int);
    assert(after.take(after.len() as int) =~= after);
}

} // verus!
