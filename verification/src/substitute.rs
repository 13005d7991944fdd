//! Substitution in literal text: variables of the environment and the output of
//! commands are put in the place of their references.

use crate::environment::{carried, intern, EnvModel, EnvState, Environment, IOState};
use crate::error::{Fault, FaultModel, LispError};
use crate::eval::eval;
use crate::host::Host;
use crate::process::{agrees_text, as_string, sem_as_string};
use crate::scan::{holds_char, parts_of, scan, scanned, Part, Piece};
use crate::semantics::{
    agrees, expanded, failed, has_command, part_text, sem_eval, sem_text, Outcome,
};
use crate::text::{chars_of, string_of, trim_end_len, trimmed_end};
use crate::types::{Expression, Form};
use vstd::prelude::*;

verus! {

/// Appends the output of a command to `out`, without the white space at the
/// output's end.
pub fn splice(out: &mut Vec<char>, captured: &String)
    ensures
        final(out)@ == old(out)@ + trimmed_end(captured@),
{
    let chars = chars_of(captured.as_str());
    let n = trim_end_len(&chars);
    let mut i: usize = 0;
    while i < n
        invariant
            i <= n <= chars.len(),
            out@ == old(out)@ + chars@.take(i as int),
        decreases n - i,
    {
        out.push(chars[i]);
        i += 1;
        assert(out@ =~= old(out)@ + chars@.take(i as int));
    }
}

/// The environment in which a command inside a text is evaluated: output is
/// captured, symbols are loose, there is no data to read, and the evaluation is
/// not part of a pipeline.
pub open spec fn capturing(env: EnvModel) -> EnvModel {
    EnvModel {
        loose_symbols: true,
        in_pipe: false,
        data_in: None,
        state: EnvState {
            stdout_status: Some(IOState::Pipe),
            stderr_status: Some(IOState::Pipe),
            pipe_pgid: None,
            ..env.state
        },
        ..env
    }
}

/// The environment `now` after a command inside a text: the redirections, the
/// data to read and the pipeline state are those of `before`, and symbols are
/// not loose.
pub open spec fn released(now: EnvModel, before: EnvModel) -> EnvModel {
    EnvModel {
        loose_symbols: false,
        in_pipe: before.in_pipe,
        data_in: before.data_in,
        state: EnvState {
            stdout_status: before.state.stdout_status,
            stderr_status: before.state.stderr_status,
            pipe_pgid: before.state.pipe_pgid,
            ..now.state
        },
        ..now
    }
}

/// The output of the command `form` inside a text: `form` is evaluated in the
/// capturing environment, and the text of its value is the output. Whether it
/// fails or not, the environment is released afterwards.
pub open spec fn sem_captured(env: EnvModel, form: Form) -> Option<Outcome<Seq<char>>> {
    match sem_eval(capturing(env), form) {
        Some(out) => match out.result {
            Ok(v) => sem_as_string(released(out.env, env), v),
            Err(failure) => failed(released(out.env, env), failure),
        },
        None => None,
    }
}

/// Runs the command `form`, which was read out of a text, and returns its
/// output. While it runs, output is captured, symbols are loose, and the
/// evaluation is not part of a pipeline; afterwards the redirections and the
/// pipeline state are what they were, whether the command failed or not.
fn capture<H: Host>(env: &mut Environment, host: &mut H, form: &Expression) -> (r: Result<
    String,
    LispError,
>)
    ensures
        carried(old(env)@, final(env)@),
        final(env).state.pipe_pgid == old(env).state.pipe_pgid,
        agrees_text(sem_captured(old(env)@, form@), r, final(env)@),
    decreases old(env).steps_left, 120nat,
{
    env.loose_symbols = true;
    let old_out = env.state.stdout_status.take();
    let old_err = env.state.stderr_status.take();
    env.state.stdout_status = Some(IOState::Pipe);
    env.state.stderr_status = Some(IOState::Pipe);
    let data_in = env.data_in.take();
    let in_pipe = env.in_pipe;
    env.in_pipe = false;
    let pipe_pgid = env.state.pipe_pgid;
    env.state.pipe_pgid = None;
    assert(env@ == capturing(old(env)@));
    let value = eval(env, host, form);
    let ghost evaluated = env@;
    env.state.stdout_status = old_out;
    env.state.stderr_status = old_err;
    env.data_in = data_in;
    env.in_pipe = in_pipe;
    env.state.pipe_pgid = pipe_pgid;
    env.loose_symbols = false;
    assert(env@ == released(evaluated, old(env)@));
    match value {
        Ok(v) => as_string(host, &v),
        Err(e) => Err(e),
    }
}

/// What stands in the place of the part at `at`: a character stands for
/// itself; a variable for its value, which is that of `env` as long as no
/// command has run before it; a command for its output `put`, without the white
/// space at the output's end. Of a variable after a command, `put` is the value
/// it had when its turn came.
pub open spec fn piece_text(parts: Seq<Part>, env: EnvModel, at: int, put: Seq<char>) -> Seq<
    char,
> {
    match parts[at] {
        Part::Char(c) => seq![c],
        Part::Var(_) => if has_command(parts, at) {
            put
        } else {
            part_text(parts[at], env)
        },
        Part::Command(_) => trimmed_end(put),
    }
}

/// The text of the first `n` parts, in order, when `puts[k]` is what the
/// evaluation supplied for part `k`.
pub open spec fn woven(parts: Seq<Part>, env: EnvModel, puts: Seq<Seq<char>>, n: int) -> Seq<char>
    decreases n,
{
    if n <= 0 || n > parts.len() || n > puts.len() {
        Seq::empty()
    } else {
        woven(parts, env, puts, n - 1) + piece_text(parts, env, n - 1, puts[n - 1])
    }
}

/// What was woven does not change when one more part is supplied.
pub proof fn lemma_woven_push(
    parts: Seq<Part>,
    env: EnvModel,
    puts: Seq<Seq<char>>,
    put: Seq<char>,
    n: int,
)
    requires
        n <= puts.len(),
    ensures
        woven(parts, env, puts.push(put), n) == woven(parts, env, puts, n),
    decreases n,
{
    if n > 0 && n <= parts.len() {
        lemma_woven_push(parts, env, puts, put, n - 1);
        assert(puts.push(put)[n - 1] == puts[n - 1]);
    }
}

/// What `str_process` returns for a text that has substitutions in it and was
/// scanned into `parts`: on success the parts in order, each replaced by what
/// stands in its place; a failure only where a command is among them.
pub open spec fn substitution_of(
    parts: Seq<Part>,
    env: EnvModel,
    r: Result<Expression, LispError>,
) -> bool {
    match r {
        Ok(v) => exists|puts: Seq<Seq<char>>|
            puts.len() == parts.len() && v@ == Form::Text(
                #[trigger] woven(parts, env, puts, parts.len() as int),
                false,
            ),
        Err(_) => has_command(parts, parts.len() as int),
    }
}

/// Substitutes in `text` and returns the result as a string that has not been
/// substituted in.
pub fn str_process<H: Host>(
    env: &mut Environment,
    host: &mut H,
    text: &String,
    expand: bool,
) -> (r: Result<Expression, LispError>)
    ensures
        carried(old(env)@, final(env)@),
        agrees(sem_text(old(env)@, text@, expand), r, final(env)@),
        r matches Ok(v) ==> v@ is Text,
        final(env).state.pipe_pgid == old(env).state.pipe_pgid,
        expand && !old(env).str_ignore_expand && text@.contains('$') ==> (scanned(text@) matches Ok(
            parts,
        ) ==> substitution_of(parts, old(env)@, r)),
    decreases old(env).steps_left, 130nat,
{
    proof {
        reveal(sem_text);
    }
    if !expand || env.str_ignore_expand {
        return Ok(intern(env, text.clone()));
    }
    let chars = chars_of(text.as_str());
    if !holds_char(&chars, '$') {
        return Ok(intern(env, text.clone()));
    }
    let pieces = match scan(&chars) {
        Ok(value) => value,
        Err(err) => {
            return Err(err);
        },
    };
    let ghost parts = parts_of(pieces@);
    let mut out: Vec<char> = Vec::new();
    let ghost mut puts: Seq<Seq<char>> = Seq::empty();
    let mut i: usize = 0;
    while i < pieces.len()
        invariant
            i <= pieces.len(),
            puts.len() == i,
            out@ == woven(parts, old(env)@, puts, i as int),
            env.state.pipe_pgid == old(env).state.pipe_pgid,
            parts == parts_of(pieces@),
            scanned(text@) == Ok::<Seq<Part>, FaultModel>(parts),
            expand && !old(env).str_ignore_expand && text@.contains('$'),
            carried(old(env)@, env@),
            !has_command(parts, i as int) ==> env@ == old(env)@ && out@ == expanded(
                parts,
                old(env)@,
                i as int,
            ),
        decreases pieces.len() - i,
    {
        let ghost before = out@;
        let ghost mut put: Seq<char> = Seq::empty();
        match &pieces[i] {
            Piece::Char(c) => {
                out.push(*c);
            },
            Piece::Var(name) => {
                match env.get_var(name) {
                    Some(value) => {
                        let mut value_chars = chars_of(value.as_str());
                        proof {
                            put = value_chars@;
                        }
                        out.append(&mut value_chars);
                    },
                    None => {},
                }
            },
            Piece::Command(command) => {
                proof {
                    reveal(sem_text);
                }
                assert(parts[i as int] is Command);
                assert(has_command(parts, parts.len() as int));
                let form = match host.read_form(command.as_str()) {
                    Ok(form) => form,
                    Err(reason) => {
                        return Err(LispError::new(Fault::Unreadable(reason)));
                    },
                };
                let captured = match capture(env, host, &form) {
                    Ok(captured) => captured,
                    Err(err) => {
                        return Err(err);
                    },
                };
                proof {
                    put = captured@;
                }
                splice(&mut out, &captured);
            },
        }
        proof {
            assert(parts[i as int] == pieces@[i as int]@);
            lemma_woven_push(parts, old(env)@, puts, put, i as int);
            assert(out@ =~= before + piece_text(parts, old(env)@, i as int, put));
            puts = puts.push(put);
            if !has_command(parts, i + 1) {
                assert(!has_command(parts, i as int));
                assert(!(parts[i as int] is Command));
                assert(out@ =~= before + part_text(parts[i as int], old(env)@));
            }
        }
        i += 1;
    }
    let result = string_of(&out, 0, out.len());
    assert(out@.subrange(0, out.len() as int) == out@);
    let r = Ok(intern(env, result));
    assert(substitution_of(parts, old(env)@, r)) by {
        assert(puts.len() == parts.len());
        assert(result@ == woven(parts, old(env)@, puts, parts.len() as int));
    }
    r
}

} // verus!
