//! Commands and processes: how a command line is run through the host, how a
//! value is read as text, and how a process is interrupted.

use crate::environment::{carried, EnvModel, Environment, IOState};
use crate::error::{fresh, Failure, Fault, FaultModel, LispError};
use crate::eval::eval;
use crate::host::Host;
use crate::text::{decimal, decimal_string, string_of};
use crate::semantics::{done, failed, sem_eval, Outcome};
use crate::types::{forms_of, texts, ExpEnum, Expression, Form, ProcessState};
use vstd::prelude::*;
use vstd::string::*;

verus! {

/// The words in which `nix` describes the error number `code`.
pub uninterp spec fn errno_words(code: int) -> Seq<char>;

/// `nix::sys::signal::kill` with `SIGINT`, for a process id above zero: one
/// process is signalled, never a process group. Where the operating system
/// refuses, the error comes back as its number. Nothing is promised of the
/// outcome, which the operating system decides.
#[verifier::external_body]
fn send_sigint(pid: i32) -> (r: Result<(), i32>)
    requires
        pid > 0,
{
    match nix::sys::signal::kill(nix::unistd::Pid::from_raw(pid), nix::sys::signal::Signal::SIGINT) {
        Ok(()) => Ok(()),
        Err(errno) => Err(errno as i32),
    }
}

/// The text that `nix::errno::Errno` displays for the error number `code`: the
/// error's name, a colon and its description, out of a fixed table.
#[verifier::external_body]
fn errno_text(code: i32) -> (r: String)
    ensures
        r@ == errno_words(code as int),
{
    nix::errno::Errno::from_raw(code).to_string()
}

/// Whether `pid` can be signalled as one process: it is above zero and fits the
/// operating system's type for process ids.
pub open spec fn is_single_process(pid: u32) -> bool {
    0 < pid <= i32::MAX
}

/// What is said of an id that names no single process.
pub open spec fn not_a_process() -> Seq<char> {
    "not the id of a process"@
}

/// What `interrupt` returns when the signal had the outcome `outcome`: nothing
/// where it was sent, the words for the error number where it was refused.
pub open spec fn refusal_of(outcome: Result<(), i32>) -> Option<Seq<char>> {
    match outcome {
        Ok(()) => None,
        Err(code) => Some(errno_words(code as int)),
    }
}

/// Whether `r` says what `said` does.
pub open spec fn says(r: Option<String>, said: Option<Seq<char>>) -> bool {
    match said {
        Some(words) => r matches Some(s) && s@ == words,
        None => r is None,
    }
}

/// The report of a signal that had the outcome `outcome`.
pub fn refusal(outcome: Result<(), i32>) -> (r: Option<String>)
    ensures
        says(r, refusal_of(outcome)),
{
    match outcome {
        Ok(()) => None,
        Err(code) => Some(errno_text(code)),
    }
}

/// Sends an interrupt to the process `pid`, and returns what went wrong, if
/// anything did. An id that does not name a single process is not signalled,
/// and that is what is returned of it. Of any other id the operating system
/// decides: the result is the report of one of the signal's outcomes.
pub fn interrupt(pid: u32) -> (r: Option<String>)
    ensures
        !is_single_process(pid) ==> says(r, Some(not_a_process())),
        is_single_process(pid) ==> exists|outcome: Result<(), i32>|
            says(r, #[trigger] refusal_of(outcome)),
{
    if pid == 0 || pid > 0x7fff_ffff {
        return Some(String::from_str("not the id of a process"));
    }
    let outcome = send_sigint(pid as i32);
    let r = refusal(outcome);
    assert(says(r, refusal_of(outcome)));
    r
}

/// The text of a value, for the values that have one of their own.
pub open spec fn plain_text(v: Form) -> Option<Seq<char>> {
    match v {
        Form::Text(s, _) => Some(s),
        Form::Symbol(s, _) => Some(s),
        Form::Char(s) => Some(s),
        Form::CodePoint(c) => Some(seq![c]),
        Form::Int(n) => Some(decimal(n as int)),
        Form::Nil => Some("nil"@),
        Form::True => Some("true"@),
        _ => None,
    }
}

/// The text of `v`: its own, or, of a process, the output that was captured.
pub fn as_string<H: Host>(host: &mut H, v: &Expression) -> (r: Result<String, LispError>)
    ensures
        match plain_text(v@) {
            Some(text) => r matches Ok(s) && s@ == text,
            None => v@ is Process || (r matches Err(err) && err@ == fresh(FaultModel::NoText)),
        },
{
    match v.get() {
        ExpEnum::String(s, _) => Ok(s.clone()),
        ExpEnum::Symbol(s, _) => Ok(s.clone()),
        ExpEnum::Char(s) => Ok(s.clone()),
        ExpEnum::CodePoint(c) => {
            let mut chars: Vec<char> = Vec::new();
            chars.push(*c);
            let s = string_of(&chars, 0, 1);
            assert(chars@.subrange(0, 1) == seq![*c]);
            Ok(s)
        },
        ExpEnum::Int(n) => Ok(decimal_string(*n)),
        ExpEnum::Nil => Ok(String::from_str("nil")),
        ExpEnum::True => Ok(String::from_str("true")),
        ExpEnum::Process(state) => {
            let pid = match state {
                ProcessState::Running(pid) => *pid,
                ProcessState::Over(pid, _) => *pid,
            };
            match host.output_of(pid) {
                Ok(s) => Ok(s),
                Err(reason) => Err(LispError::new(Fault::Host(reason))),
            }
        },
        _ => Err(LispError::new(Fault::NoText)),
    }
}

/// What is known of the text of the value `v` before the host is asked: a value
/// with a text of its own has that text, the output of a process is the host's
/// to give, and nothing else has a text.
pub open spec fn sem_as_string(env: EnvModel, v: Form) -> Option<Outcome<Seq<char>>> {
    match plain_text(v) {
        Some(text) => done(env, text),
        None => if v is Process {
            None
        } else {
            failed(env, fresh(FaultModel::NoText))
        },
    }
}

/// The environment `env` with symbols loose or not, as `loose` says.
pub open spec fn with_loose(env: EnvModel, loose: bool) -> EnvModel {
    EnvModel { loose_symbols: loose, ..env }
}

/// One argument of a command: `part` is evaluated with loose symbols, so that a
/// bare word stands for itself, and the text of its value is the argument.
/// Afterwards symbols are loose or not as they were before.
pub open spec fn sem_word(env: EnvModel, part: Form) -> Option<Outcome<Seq<char>>> {
    match sem_eval(with_loose(env, true), part) {
        Some(out) => match out.result {
            Ok(v) => sem_as_string(with_loose(out.env, env.loose_symbols), v),
            Err(failure) => failed(with_loose(out.env, env.loose_symbols), failure),
        },
        None => None,
    }
}

/// The arguments of a command from the parts `from` onwards, after `got`, each
/// evaluated in the environment that the one before it left. The first part
/// that fails ends it.
pub open spec fn sem_words(env: EnvModel, parts: Seq<Form>, from: int, got: Seq<Seq<char>>) -> Option<
    Outcome<Seq<Seq<char>>>,
>
    decreases parts.len() - from,
{
    if 0 <= from < parts.len() {
        match sem_word(env, parts[from]) {
            Some(out) => match out.result {
                Ok(word) => sem_words(out.env, parts, from + 1, got.push(word)),
                Err(failure) => failed(out.env, failure),
            },
            None => None,
        }
    } else {
        done(env, got)
    }
}

/// The arguments that a command made of `parts` is run with.
pub open spec fn sem_args(env: EnvModel, parts: Seq<Form>) -> Option<Outcome<Seq<Seq<char>>>> {
    sem_words(env, parts, 0, Seq::empty())
}

/// Whether the words `r` and the environment `after` are what `sem` says, where
/// it says anything.
pub open spec fn agrees_words(
    sem: Option<Outcome<Seq<Seq<char>>>>,
    r: Result<Vec<String>, LispError>,
    after: EnvModel,
) -> bool {
    sem matches Some(out) ==> after == out.env && match out.result {
        Ok(words) => r matches Ok(args) && texts(args@) == words,
        Err(failure) => r matches Err(err) && err@ == failure,
    }
}

/// Whether the text `r` and the environment `after` are what `sem` says, where
/// it says anything.
pub open spec fn agrees_text(
    sem: Option<Outcome<Seq<char>>>,
    r: Result<String, LispError>,
    after: EnvModel,
) -> bool {
    sem matches Some(out) ==> after == out.env && match out.result {
        Ok(text) => r matches Ok(s) && s@ == text,
        Err(failure) => r matches Err(err) && err@ == failure,
    }
}

/// Evaluates one part of a command to the argument it stands for.
pub fn command_word<H: Host>(env: &mut Environment, host: &mut H, part: &Expression) -> (r: Result<
    String,
    LispError,
>)
    ensures
        carried(old(env)@, final(env)@),
        final(env).loose_symbols == old(env).loose_symbols,
        agrees_text(sem_word(old(env)@, part@), r, final(env)@),
    decreases old(env).steps_left, 100nat,
{
    let old_loose = env.loose_symbols;
    env.loose_symbols = true;
    assert(env@ == with_loose(old(env)@, true));
    let value = eval(env, host, part);
    let ghost evaluated = env@;
    env.loose_symbols = old_loose;
    assert(env@ == with_loose(evaluated, old(env)@.loose_symbols));
    match value {
        Ok(value) => as_string(host, &value),
        Err(err) => Err(err),
    }
}

/// Evaluates the parts of a command to its arguments.
pub fn command_args<H: Host>(env: &mut Environment, host: &mut H, parts: &Vec<Expression>) -> (r:
    Result<Vec<String>, LispError>)
    ensures
        carried(old(env)@, final(env)@),
        final(env).loose_symbols == old(env).loose_symbols,
        agrees_words(sem_args(old(env)@, forms_of(parts@)), r, final(env)@),
    decreases old(env).steps_left, 105nat,
{
    let ghost whole = sem_args(old(env)@, forms_of(parts@));
    let mut args: Vec<String> = Vec::new();
    let mut i: usize = 0;
    assert(texts(args@) =~= Seq::empty());
    while i < parts.len()
        invariant
            i <= parts.len(),
            carried(old(env)@, env@),
            env.loose_symbols == old(env).loose_symbols,
            whole == sem_args(old(env)@, forms_of(parts@)),
            whole is Some ==> whole == sem_words(env@, forms_of(parts@), i as int, texts(args@)),
        decreases parts.len() - i,
    {
        let ghost got = texts(args@);
        assert(forms_of(parts@)[i as int] == parts[i as int]@);
        let word = match command_word(env, host, &parts[i]) {
            Ok(word) => word,
            Err(err) => {
                return Err(err);
            },
        };
        args.push(word);
        assert(texts(args@) =~= got.push(word@));
        i += 1;
    }
    Ok(args)
}

/// What comes of a command that the host answered with `outcome`: the process
/// it started, or the reason why it could not.
pub open spec fn started_of(outcome: Result<ProcessState, Seq<char>>) -> Result<Form, Failure> {
    match outcome {
        Ok(state) => Ok(Form::Process(state)),
        Err(reason) => Err(fresh(FaultModel::Host(reason))),
    }
}

/// The value of a command that the host answered with `outcome`.
pub fn started(outcome: Result<ProcessState, String>) -> (r: Result<Expression, LispError>)
    ensures
        match outcome {
            Ok(state) => r matches Ok(v) && started_of(Ok(state)) == Ok::<Form, Failure>(v@),
            Err(reason) => r matches Err(err) && started_of(Err(reason@)) == Err::<Form, Failure>(
                err@,
            ),
        },
{
    match outcome {
        Ok(state) => Ok(Expression::alloc_data(ExpEnum::Process(state))),
        Err(reason) => Err(LispError::new(Fault::Host(reason))),
    }
}

/// Whether the output of a command that is run in `env` is kept for the
/// interpreter: it is where the standard output is a pipe.
pub open spec fn keeps_output(env: EnvModel) -> bool {
    env.state.stdout_status == Some(IOState::Pipe)
}

/// Whether a command that is run in `env` is not waited for: inside a
/// pipeline, and where commands run in the background.
pub open spec fn is_detached(env: EnvModel) -> bool {
    env.in_pipe || env.run_background
}

/// Decides whether the output of a command is kept.
pub fn capture_flag(env: &Environment) -> (r: bool)
    ensures
        r == keeps_output(env@),
{
    match &env.state.stdout_status {
        Some(IOState::Pipe) => true,
        _ => false,
    }
}

/// Decides whether a command is run without waiting for it.
pub fn background_flag(env: &Environment) -> (r: bool)
    ensures
        r == is_detached(env@),
{
    env.in_pipe || env.run_background
}

/// Runs the program `command`. The `parts` are evaluated with loose symbols, so
/// that a bare word stands for itself, and their texts are the arguments. Where
/// a part fails, that failure is the result and the host is not asked. Else the
/// host runs the program with the flags that `capture_flag` and
/// `background_flag` give for the environment that the arguments left: the
/// result is the process it started, or its reason for starting none.
pub fn do_command<H: Host>(
    env: &mut Environment,
    host: &mut H,
    command: &String,
    parts: &Vec<Expression>,
) -> (r: Result<Expression, LispError>)
    ensures
        carried(old(env)@, final(env)@),
        final(env).loose_symbols == old(env).loose_symbols,
        sem_args(old(env)@, forms_of(parts@)) matches Some(out) ==> final(env)@ == out.env && match out.result {
            Ok(_) => exists|outcome: Result<ProcessState, Seq<char>>|
                match #[trigger] started_of(outcome) {
                    Ok(value) => r matches Ok(v) && v@ == value,
                    Err(failure) => r matches Err(err) && err@ == failure,
                },
            Err(failure) => r matches Err(err) && err@ == failure,
        },
        r matches Ok(v) ==> v@ is Process,
    decreases old(env).steps_left, 110nat,
{
    let args = match command_args(env, host, parts) {
        Ok(args) => args,
        Err(err) => {
            return Err(err);
        },
    };
    let capture = capture_flag(env);
    let background = background_flag(env);
    let outcome = host.run_command(command.as_str(), &args, capture, background);
    let ghost answer: Result<ProcessState, Seq<char>> = match &outcome {
        Ok(state) => Ok(*state),
        Err(reason) => Err(reason@),
    };
    let r = started(outcome);
    assert(match started_of(answer) {
        Ok(value) => r matches Ok(v) && v@ == value,
        Err(failure) => r matches Err(err) && err@ == failure,
    });
    r
}

} // verus!
