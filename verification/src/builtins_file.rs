//! The natives of the shell: changing directory, tests on paths, pipelines,
//! waiting on processes and expanding globs.

use crate::builtins_values::{binds_native, make_function};
use crate::environment::{
    carried, law_variable_set, lemma_inserted, var_value, with_var, EnvModel, EnvState,
    Environment, Job, JobStatus, Namespace, VarModel,
};
use crate::error::{fresh, Failure, Fault, FaultModel, LispError};
use crate::eval::eval;
use crate::host::Host;
use crate::process::{agrees_text, as_string, interrupt, sem_as_string};
use crate::semantics::{
    agrees, call_parts, done, failed, pid_value, sem_eval, sem_function, sem_path_test, sem_pid,
    sem_wait, wait_plan_of, Outcome, WaitPlan,
};
use crate::text::{chars_of, same_text, string_of};
use crate::types::{
    forms_of, lemma_forms_push, Callable, ExpEnum, Expression, FileState, Form, ProcessState,
};
use vstd::prelude::*;
use vstd::string::*;

verus! {

/// What `glob` reports of a pattern that it cannot read. It is carried from
/// the call to the function that turns it into text.
#[verifier::external_type_specification]
#[verifier::external_body]
pub struct ExPatternError(glob::PatternError);

/// What `glob` reports of a path that it could not look at while it walked
/// the file system.
#[verifier::external_type_specification]
#[verifier::external_body]
pub struct ExGlobError(glob::GlobError);

/// `glob::glob`, with the paths it yields collected: each entry is a path that
/// matched, as text where it has a reading as text, or the error of a directory
/// that could not be read. What matches depends on the file system, so nothing
/// is promised of the result.
#[verifier::external_body]
fn glob_paths(pattern: &str) -> (r: Result<
    Vec<Result<Option<String>, glob::GlobError>>,
    glob::PatternError,
>) {
    glob::glob(pattern).map(
        |paths| paths.map(|entry| entry.map(|path| path.to_str().map(String::from))).collect(),
    )
}

/// The text of a pattern error, as its `Display` gives it.
#[verifier::external_body]
fn pattern_error_text(err: &glob::PatternError) -> (r: String) {
    err.to_string()
}

/// The text of a glob error, as its `Display` gives it.
#[verifier::external_body]
fn glob_error_text(err: &glob::GlobError) -> (r: String) {
    err.to_string()
}

/// `Path::exists`: whether the path points at something that exists. The answer
/// is the file system's.
#[verifier::external_body]
fn path_exists(path: &str) -> (r: bool) {
    std::path::Path::new(path).exists()
}

/// `Path::is_file`: whether the path points at a regular file. The answer is the
/// file system's.
#[verifier::external_body]
fn path_is_file(path: &str) -> (r: bool) {
    std::path::Path::new(path).is_file()
}

/// `Path::is_dir`: whether the path points at a directory. The answer is the
/// file system's.
#[verifier::external_body]
fn path_is_dir(path: &str) -> (r: bool) {
    std::path::Path::new(path).is_dir()
}

/// Whether `text` is three or more dots and nothing else.
pub open spec fn all_dots(text: Seq<char>) -> bool {
    text.len() > 2 && forall|i: int| 0 <= i < text.len() ==> text[i] == '.'
}

/// `../` written `n` times.
pub open spec fn ups(n: nat) -> Seq<char>
    decreases n,
{
    if n == 0 {
        Seq::empty()
    } else {
        ups((n - 1) as nat) + seq!['.', '.', '/']
    }
}

/// A directory of three or more dots means one level up for each dot after the
/// first; any other directory is itself.
pub open spec fn dots_expanded(cd: Seq<char>) -> Seq<char> {
    if all_dots(cd) {
        ups((cd.len() - 1) as nat)
    } else {
        cd
    }
}

/// Expands a directory that is written as dots.
pub fn cd_expand_all_dots(cd: String) -> (r: String)
    ensures
        r@ == dots_expanded(cd@),
{
    let chars = chars_of(cd.as_str());
    let mut i: usize = 0;
    while i < chars.len()
        invariant
            i <= chars.len(),
            chars@ == cd@,
            forall|j: int| 0 <= j < i ==> chars@[j] == '.',
        decreases chars.len() - i,
    {
        if chars[i] != '.' {
            return cd;
        }
        i += 1;
    }
    if chars.len() <= 2 {
        return cd;
    }
    let mut out: Vec<char> = Vec::new();
    let mut n: usize = 0;
    while n < chars.len() - 1
        invariant
            n <= chars.len() - 1,
            out@ == ups(n as nat),
        decreases chars.len() - 1 - n,
    {
        out.push('.');
        out.push('.');
        out.push('/');
        n += 1;
        assert(out@ =~= ups((n - 1) as nat) + seq!['.', '.', '/']);
    }
    let r = string_of(&out, 0, out.len());
    assert(out@.subrange(0, out.len() as int) == out@);
    r
}

/// A path that begins with `~`, alone or before a `/`, with the home directory
/// in the place of the `~`; `None` for any other path.
pub open spec fn tilde_expanded(path: Seq<char>, home: Seq<char>) -> Option<Seq<char>> {
    if path.len() > 0 && path[0] == '~' && (path.len() == 1 || path[1] == '/') {
        Some(home + path.skip(1))
    } else {
        None
    }
}

/// Expands a leading `~` of `path` to `home`.
pub fn expand_tilde(path: &String, home: &String) -> (r: Option<String>)
    ensures
        match tilde_expanded(path@, home@) {
            Some(text) => r matches Some(s) && s@ == text,
            None => r is None,
        },
{
    let chars = chars_of(path.as_str());
    if chars.len() > 0 && chars[0] == '~' && (chars.len() == 1 || chars[1] == '/') {
        let mut out = chars_of(home.as_str());
        let mut i: usize = 1;
        while i < chars.len()
            invariant
                1 <= i <= chars.len(),
                out@ == home@ + chars@.subrange(1, i as int),
            decreases chars.len() - i,
        {
            out.push(chars[i]);
            i += 1;
            assert(out@ =~= home@ + chars@.subrange(1, i as int));
        }
        assert(chars@.subrange(1, chars.len() as int) == path@.skip(1));
        let r = string_of(&out, 0, out.len());
        assert(out@.subrange(0, out.len() as int) == out@);
        Some(r)
    } else {
        None
    }
}

/// The home directory: the variable `HOME`, or the root where it is not set.
pub open spec fn home_of(env: EnvModel) -> Seq<char> {
    match var_value(env.vars, "HOME"@) {
        Some(home) => home,
        None => "/"@,
    }
}

fn home_dir(env: &Environment) -> (r: String)
    ensures
        r@ == home_of(env@),
{
    match env.get_var(&String::from_str("HOME")) {
        Some(home) => home,
        None => String::from_str("/"),
    }
}

/// `path` with a leading `~` expanded to the home directory.
pub open spec fn at_home(env: EnvModel, path: Seq<char>) -> Seq<char> {
    match tilde_expanded(path, home_of(env)) {
        Some(text) => text,
        None => path,
    }
}

fn from_home(env: &Environment, path: String) -> (r: String)
    ensures
        r@ == at_home(env@, path@),
{
    let home = home_dir(env);
    match expand_tilde(&path, &home) {
        Some(text) => text,
        None => path,
    }
}

/// The directory that `cd` changes to: the home directory without an argument,
/// the previous directory for `-`, else the argument; a directory of dots is
/// expanded.
pub open spec fn cd_target_of(home: Seq<char>, old_dir: Seq<char>, arg: Option<Seq<char>>) -> Seq<
    char,
> {
    let chosen = match arg {
        Some(dir) => dir,
        None => home,
    };
    dots_expanded(
        if chosen == "-"@ {
            old_dir
        } else {
            chosen
        },
    )
}

/// The directory that `cd` changes to.
pub fn cd_target(home: String, old_dir: String, arg: Option<String>) -> (r: String)
    ensures
        r@ == cd_target_of(
            home@,
            old_dir@,
            match arg {
                Some(dir) => Some(dir@),
                None => None,
            },
        ),
{
    let chosen = match arg {
        Some(dir) => dir,
        None => home,
    };
    if same_text(&chosen, "-") {
        cd_expand_all_dots(old_dir)
    } else {
        cd_expand_all_dots(chosen)
    }
}

/// Whether `v` is callable: a native, a lambda or a macro.
fn is_callable(v: &Expression) -> (r: bool)
    ensures
        r == (v@ is Function || v@ is Lambda || v@ is Macro),
{
    match v.get() {
        ExpEnum::Function(_) => true,
        ExpEnum::Lambda(_) => true,
        ExpEnum::Macro(_) => true,
        _ => false,
    }
}

/// The form that `cd` evaluates for its argument `part`: a symbol that names
/// something callable is the name of a directory, and stands as text.
pub open spec fn cd_form(env: EnvModel, part: Form) -> Form {
    match part {
        Form::Symbol(name, _) => match env.lookup(name) {
            Some(bound) => if bound is Function || bound is Lambda || bound is Macro {
                Form::Text(name, false)
            } else {
                part
            },
            None => part,
        },
        _ => part,
    }
}

/// The directory that `(cd parts..)` asks the host for: more than one part is a
/// usage fault; without a part it is the home directory; else the part is
/// evaluated, and the text of its value, with a leading `~` expanded, is the
/// argument. A part that fails, or has no text, ends it with that failure.
pub open spec fn sem_cd_dir(env: EnvModel, parts: Seq<Form>) -> Option<Outcome<Seq<char>>> {
    let old_dir = match var_value(env.vars, "OLDPWD"@) {
        Some(dir) => dir,
        None => home_of(env),
    };
    if parts.len() > 1 {
        failed(env, fresh(FaultModel::Usage(Callable::Cd)))
    } else if parts.len() == 0 {
        done(env, cd_target_of(home_of(env), old_dir, None))
    } else {
        match sem_eval(env, cd_form(env, parts[0])) {
            Some(out) => match out.result {
                Ok(v) => match sem_as_string(out.env, v) {
                    Some(said) => match said.result {
                        Ok(text) => done(
                            out.env,
                            cd_target_of(home_of(env), old_dir, Some(at_home(out.env, text))),
                        ),
                        Err(failure) => failed(out.env, failure),
                    },
                    None => None,
                },
                Err(failure) => failed(out.env, failure),
            },
            None => None,
        }
    }
}

/// Works out the directory that `(cd parts..)` changes to.
pub fn cd_directory<H: Host>(env: &mut Environment, host: &mut H, parts: &Vec<Expression>) -> (r:
    Result<String, LispError>)
    ensures
        carried(old(env)@, final(env)@),
        agrees_text(sem_cd_dir(old(env)@, forms_of(parts@)), r, final(env)@),
    decreases old(env).steps_left, 135nat,
{
    if parts.len() > 1 {
        return Err(LispError::new(Fault::Usage(Callable::Cd)));
    }
    let home = home_dir(env);
    let old_dir = match env.get_var(&String::from_str("OLDPWD")) {
        Some(dir) => dir,
        None => home.clone(),
    };
    let arg = if parts.len() == 1 {
        let as_name = match parts[0].get() {
            ExpEnum::Symbol(name, _) => match env.get_expression(name) {
                Some(bound) => if is_callable(&bound) {
                    Some(Expression::make_string(name.clone()))
                } else {
                    None
                },
                None => None,
            },
            _ => None,
        };
        let form = match as_name {
            Some(text) => text,
            None => parts[0].dup(),
        };
        assert(form@ == cd_form(old(env)@, forms_of(parts@)[0]));
        let value = match eval(env, host, &form) {
            Ok(value) => value,
            Err(err) => {
                return Err(err);
            },
        };
        let text = match as_string(host, &value) {
            Ok(value) => value,
            Err(err) => {
                return Err(err);
            },
        };
        Some(from_home(env, text))
    } else {
        None
    };
    Ok(cd_target(home, old_dir, arg))
}

/// The host's answer to a change of directory, as plain text.
pub open spec fn changed_of(changed: Result<(), String>) -> Result<(), Seq<char>> {
    match changed {
        Ok(()) => Ok(()),
        Err(reason) => Err(reason@),
    }
}

/// The host's answer to the question where the process is, as plain text.
pub open spec fn place_of(now: Result<String, String>) -> Result<Seq<char>, Seq<char>> {
    match now {
        Ok(dir) => Ok(dir@),
        Err(reason) => Err(reason@),
    }
}

/// What `cd` returns when the host answered the change with `changed` and then
/// gave the working directory as `now`: nil for a change that was refused, true
/// for one that was made, and the host's reason where it was made and the
/// directory is not known afterwards.
pub open spec fn cd_result_of(
    changed: Result<(), Seq<char>>,
    now: Result<Seq<char>, Seq<char>>,
) -> Result<Form, Failure> {
    match changed {
        Err(_) => Ok(Form::Nil),
        Ok(()) => match now {
            Ok(_) => Ok(Form::True),
            Err(reason) => Err(fresh(FaultModel::Host(reason))),
        },
    }
}

/// The variables after such a `cd`: `PWD` is the new directory where the change
/// was made and the directory is known, and nothing is changed otherwise.
pub open spec fn cd_vars_of(
    vars: Seq<VarModel>,
    changed: Result<(), Seq<char>>,
    now: Result<Seq<char>, Seq<char>>,
) -> Seq<VarModel> {
    match (changed, now) {
        (Ok(()), Ok(dir)) => with_var(vars, "PWD"@, dir),
        _ => vars,
    }
}

/// Whether `r` is the result `want`.
pub open spec fn is_result(r: Result<Expression, LispError>, want: Result<Form, Failure>) -> bool {
    match want {
        Ok(value) => r matches Ok(v) && v@ == value,
        Err(failure) => r matches Err(err) && err@ == failure,
    }
}

/// Ends a `cd` that the host answered with `changed` and `now`: sets `PWD` and
/// gives the result.
pub fn cd_outcome(
    env: &mut Environment,
    changed: Result<(), String>,
    now: Result<String, String>,
) -> (r: Result<Expression, LispError>)
    ensures
        final(env)@ == (EnvModel {
            vars: cd_vars_of(old(env)@.vars, changed_of(changed), place_of(now)),
            ..old(env)@
        }),
        is_result(r, cd_result_of(changed_of(changed), place_of(now))),
        r matches Ok(v) && v@ is True ==> var_value(final(env)@.vars, "PWD"@) is Some,
{
    match changed {
        Err(_) => {
            assert(env@ == (EnvModel { vars: env@.vars, ..env@ }));
            Ok(Expression::make_nil())
        },
        Ok(()) => match now {
            Ok(dir) => {
                proof {
                    law_variable_set(env@.vars, "PWD"@, dir@);
                }
                env.set_var(String::from_str("PWD"), dir);
                Ok(Expression::make_true())
            },
            Err(reason) => {
                assert(env@ == (EnvModel { vars: env@.vars, ..env@ }));
                Err(LispError::new(Fault::Host(reason)))
            },
        },
    }
}

/// The variables after the working directory of before the change was noted.
pub open spec fn noted(vars: Seq<VarModel>, before: Option<Seq<char>>) -> Seq<VarModel> {
    match before {
        Some(dir) => with_var(vars, "OLDPWD"@, dir),
        None => vars,
    }
}

/// Whether `r` and `after` are what comes of a `cd` from the environment `env`
/// when the host gave the working directory as `before`, answered the change
/// with `changed` and then gave the working directory as `now`.
pub open spec fn cd_settled(
    env: EnvModel,
    before: Option<Seq<char>>,
    changed: Result<(), Seq<char>>,
    now: Result<Seq<char>, Seq<char>>,
    r: Result<Expression, LispError>,
    after: EnvModel,
) -> bool {
    &&& after == (EnvModel { vars: cd_vars_of(noted(env.vars, before), changed, now), ..env })
    &&& is_result(r, cd_result_of(changed, now))
}

/// `(cd dir)`: changes the working directory, to the home directory without an
/// argument. A symbol that names something callable is taken as the name of a
/// directory. Where the argument fails, that failure is the result and the host
/// is not asked. Else the working directory is noted in `OLDPWD`, where the
/// host knows it, and the host is asked for the change. A change that is
/// refused is reported and gives nil, and `PWD` stays; one that is made gives
/// true and sets `PWD`.
pub fn builtin_cd<H: Host>(env: &mut Environment, host: &mut H, parts: &Vec<Expression>) -> (r:
    Result<Expression, LispError>)
    ensures
        carried(old(env)@, final(env)@),
        agrees(sem_function(old(env)@, Callable::Cd, forms_of(parts@)), r, final(env)@),
        r matches Ok(v) ==> v@ is Nil || v@ is True,
        r matches Ok(v) && v@ is True ==> var_value(final(env)@.vars, "PWD"@) is Some,
        sem_cd_dir(old(env)@, forms_of(parts@)) matches Some(out) ==> match out.result {
            Ok(_) => exists|
                before: Option<Seq<char>>,
                changed: Result<(), Seq<char>>,
                now: Result<Seq<char>, Seq<char>>,
            | #[trigger] cd_settled(out.env, before, changed, now, r, final(env)@),
            Err(failure) => final(env)@ == out.env && is_result(r, Err(failure)),
        },
    decreases old(env).steps_left, 140nat,
{
    proof {
        reveal(sem_function);
    }
    let new_dir = match cd_directory(env, host, parts) {
        Ok(dir) => dir,
        Err(err) => {
            return Err(err);
        },
    };
    let ghost found = env@;
    let ghost before: Option<Seq<char>>;
    match host.current_dir() {
        Ok(dir) => {
            proof {
                before = Some(dir@);
            }
            env.set_var(String::from_str("OLDPWD"), dir);
        },
        Err(_) => {
            proof {
                before = None;
            }
        },
    }
    let changed = host.change_dir(new_dir.as_str());
    let now = match &changed {
        Ok(()) => host.current_dir(),
        Err(reason) => {
            let mut message = String::from_str("Error changing to ");
            message.append(new_dir.as_str());
            message.append(", ");
            message.append(reason.as_str());
            host.report(message.as_str());
            Err(reason.clone())
        },
    };
    let ghost answer = changed_of(changed);
    let ghost place = place_of(now);
    let r = cd_outcome(env, changed, now);
    assert(env@.vars == cd_vars_of(noted(found.vars, before), answer, place));
    assert(env@ == (EnvModel { vars: env@.vars, ..found }));
    assert(cd_settled(found, before, answer, place, r, env@));
    r
}

/// True for `true`, nil for `false`.
pub open spec fn truth_of(b: bool) -> Form {
    if b {
        Form::True
    } else {
        Form::Nil
    }
}

/// The answer of a test as a value.
pub fn truth_value(b: bool) -> (r: Expression)
    ensures
        r@ == truth_of(b),
{
    if b {
        Expression::make_true()
    } else {
        Expression::make_nil()
    }
}

/// Whether `test` is one of the tests that are made on a path.
pub open spec fn is_path_test(test: Callable) -> bool {
    test is PathExists || test is IsFile || test is IsDir
}

/// Asks the file system whether `test` holds of `path`: whether it exists, is a
/// regular file, or is a directory. The answer to a path test is the file
/// system's; of a callable that is no path test the answer is no.
fn probe(test: &Callable, path: &String) -> (r: bool)
    ensures
        !is_path_test(*test) ==> !r,
{
    match test {
        Callable::PathExists => path_exists(path.as_str()),
        Callable::IsFile => path_is_file(path.as_str()),
        Callable::IsDir => path_is_dir(path.as_str()),
        _ => false,
    }
}

/// The path that a test is made on, when its one argument evaluated to `v`: the
/// text of `v`, which has to be a string, with a leading `~` expanded.
pub open spec fn tested_path(env: EnvModel, test: Callable, v: Form) -> Result<
    Seq<char>,
    FaultModel,
> {
    match v {
        Form::Text(text, _) => Ok(at_home(env, text)),
        _ => Err(FaultModel::Operand(test)),
    }
}

fn path_to_test(env: &Environment, test: &Callable, v: &Expression) -> (r: Result<
    String,
    LispError,
>)
    ensures
        match tested_path(env@, *test, v@) {
            Ok(text) => r matches Ok(s) && s@ == text,
            Err(fault) => r matches Err(err) && err@ == fresh(fault),
        },
{
    match v.get() {
        ExpEnum::String(text, _) => Ok(from_home(env, text.clone())),
        _ => Err(LispError::new(Fault::Operand(copy_callable(test)))),
    }
}

/// A copy of `callable`.
pub fn copy_callable(callable: &Callable) -> (r: Callable)
    ensures
        r == *callable,
{
    match callable {
        Callable::Values => Callable::Values,
        Callable::ValuesNth => Callable::ValuesNth,
        Callable::ValuesLength => Callable::ValuesLength,
        Callable::Cd => Callable::Cd,
        Callable::PathExists => Callable::PathExists,
        Callable::IsFile => Callable::IsFile,
        Callable::IsDir => Callable::IsDir,
        Callable::Pipe => Callable::Pipe,
        Callable::Wait => Callable::Wait,
        Callable::Pid => Callable::Pid,
        Callable::Glob => Callable::Glob,
        Callable::If => Callable::If,
        Callable::Recur => Callable::Recur,
        Callable::Native(id) => Callable::Native(*id),
    }
}

/// The environment after a path test whose one form evaluates to text: the
/// test is then made, and the file system cannot refuse an answer. `None` where
/// the form does not evaluate to text, or where the host decides what it
/// evaluates to.
pub open spec fn tested_env(env: EnvModel, parts: Seq<Form>) -> Option<EnvModel> {
    if parts.len() == 1 {
        match sem_eval(env, parts[0]) {
            Some(out) => match out.result {
                Ok(v) => if v is Text {
                    Some(out.env)
                } else {
                    None
                },
                Err(_) => None,
            },
            None => None,
        }
    } else {
        None
    }
}

/// Makes the test `test` on the path that the one form of `parts` evaluates to:
/// true where the file system says yes, nil where it says no.
fn file_test<H: Host>(
    env: &mut Environment,
    host: &mut H,
    parts: &Vec<Expression>,
    test: &Callable,
) -> (r: Result<Expression, LispError>)
    ensures
        carried(old(env)@, final(env)@),
        agrees(sem_path_test(old(env)@, *test, forms_of(parts@)), r, final(env)@),
        r matches Ok(v) ==> v@ is Nil || v@ is True,
        tested_env(old(env)@, forms_of(parts@)) matches Some(after) ==> r is Ok && final(env)@ == after,
    decreases old(env).steps_left, 130nat,
{
    proof {
        reveal(sem_path_test);
    }
    if parts.len() != 1 {
        return Err(LispError::new(Fault::Usage(copy_callable(test))));
    }
    let value = match eval(env, host, &parts[0]) {
        Ok(value) => value,
        Err(err) => {
            return Err(err);
        },
    };
    let path = match path_to_test(env, test, &value) {
        Ok(value) => value,
        Err(err) => {
            return Err(err);
        },
    };
    Ok(truth_value(probe(test, &path)))
}

/// `(fs-exists? path)`: whether the path exists.
pub fn builtin_path_exists<H: Host>(
    env: &mut Environment,
    host: &mut H,
    parts: &Vec<Expression>,
) -> (r: Result<Expression, LispError>)
    ensures
        carried(old(env)@, final(env)@),
        agrees(sem_function(old(env)@, Callable::PathExists, forms_of(parts@)), r, final(env)@),
        r matches Ok(v) ==> v@ is Nil || v@ is True,
        tested_env(old(env)@, forms_of(parts@)) matches Some(after) ==> r is Ok && final(env)@ == after,
    decreases old(env).steps_left, 140nat,
{
    proof {
        reveal(sem_function);
        reveal(sem_path_test);
    }
    file_test(env, host, parts, &Callable::PathExists)
}

/// `(fs-file? path)`: whether the path is a regular file.
pub fn builtin_is_file<H: Host>(env: &mut Environment, host: &mut H, parts: &Vec<Expression>) -> (r:
    Result<Expression, LispError>)
    ensures
        carried(old(env)@, final(env)@),
        agrees(sem_function(old(env)@, Callable::IsFile, forms_of(parts@)), r, final(env)@),
        r matches Ok(v) ==> v@ is Nil || v@ is True,
        tested_env(old(env)@, forms_of(parts@)) matches Some(after) ==> r is Ok && final(env)@ == after,
    decreases old(env).steps_left, 140nat,
{
    proof {
        reveal(sem_function);
        reveal(sem_path_test);
    }
    file_test(env, host, parts, &Callable::IsFile)
}

/// `(fs-dir? path)`: whether the path is a directory.
pub fn builtin_is_dir<H: Host>(env: &mut Environment, host: &mut H, parts: &Vec<Expression>) -> (r:
    Result<Expression, LispError>)
    ensures
        carried(old(env)@, final(env)@),
        agrees(sem_function(old(env)@, Callable::IsDir, forms_of(parts@)), r, final(env)@),
        r matches Ok(v) ==> v@ is Nil || v@ is True,
        tested_env(old(env)@, forms_of(parts@)) matches Some(after) ==> r is Ok && final(env)@ == after,
    decreases old(env).steps_left, 140nat,
{
    proof {
        reveal(sem_function);
        reveal(sem_path_test);
    }
    file_test(env, host, parts, &Callable::IsDir)
}

/// What a pipeline does with the bytes that are left in its last pipe.
pub enum Drain {
    /// Nothing: the last stage was no file.
    Nothing,
    /// They are written into this sink.
    Into(FileState),
    /// The last stage was a file that cannot be written to.
    NotWritable,
}

/// What the result of the last stage asks for: the standard output, the
/// standard error and a file open for writing take what is left in the pipe; any
/// other file is a fault; any other value takes nothing.
pub open spec fn drain_of(result: Form) -> Drain {
    match result {
        Form::File(FileState::Stdout) => Drain::Into(FileState::Stdout),
        Form::File(FileState::Stderr) => Drain::Into(FileState::Stderr),
        Form::File(FileState::Write(file)) => Drain::Into(FileState::Write(file)),
        Form::File(_) => Drain::NotWritable,
        _ => Drain::Nothing,
    }
}

/// Decides where the rest of a pipeline's data goes.
pub fn sink_of(result: &Expression) -> (r: Drain)
    ensures
        r == drain_of(result@),
{
    match result.get() {
        ExpEnum::File(FileState::Stdout) => Drain::Into(FileState::Stdout),
        ExpEnum::File(FileState::Stderr) => Drain::Into(FileState::Stderr),
        ExpEnum::File(FileState::Write(file)) => Drain::Into(FileState::Write(*file)),
        ExpEnum::File(_) => Drain::NotWritable,
        _ => Drain::Nothing,
    }
}

/// The process to interrupt when a pipeline is over: the one that was started
/// last, where the last stage failed; none where it did not fail, or where no
/// process was started.
pub open spec fn feeder_to_interrupt(failed: bool, last_pid: Option<u32>) -> Option<u32> {
    if failed {
        last_pid
    } else {
        None
    }
}

/// Decides which process to interrupt when a pipeline is over.
pub fn to_interrupt(failed: bool, last_pid: Option<u32>) -> (r: Option<u32>)
    ensures
        r == feeder_to_interrupt(failed, last_pid),
{
    if failed {
        last_pid
    } else {
        None
    }
}

/// The name under which a stage is listed in its job: the text of its operator
/// where that is a symbol or a string, else nothing.
pub open spec fn stage_name_of(stage: Form) -> Seq<char> {
    match call_parts(stage) {
        Some((head, _)) => match head {
            Form::Symbol(name, _) => name,
            Form::Text(name, _) => name,
            _ => Seq::empty(),
        },
        None => Seq::empty(),
    }
}

fn stage_name(stage: &Expression) -> (r: String)
    ensures
        r@ == stage_name_of(stage@),
{
    let head = match stage.get() {
        ExpEnum::Vector(items) => {
            if items.len() > 0 {
                Some(items[0].dup())
            } else {
                None
            }
        },
        ExpEnum::Pair(head, _) => Some(head.dup()),
        _ => None,
    };
    match head {
        Some(h) => match h.get() {
            ExpEnum::Symbol(name, _) => name.clone(),
            ExpEnum::String(name, _) => name.clone(),
            _ => String::new(),
        },
        None => String::new(),
    }
}

/// How many processes a pipeline of `stages` stages has started when it is
/// over: one for each stage but the last.
pub open spec fn feeders(stages: nat) -> nat {
    if stages == 0 {
        0
    } else {
        (stages - 1) as nat
    }
}

/// Whether the stage `index` of `count` stages is started as a process of its
/// own: every stage is, but the last.
pub open spec fn is_feeder(index: nat, count: nat) -> bool {
    index + 1 < count
}

/// Decides whether a stage is started as a process or evaluated in place.
pub fn feeds(index: usize, count: usize) -> (r: bool)
    ensures
        r == is_feeder(index as nat, count as nat),
{
    index < count && index + 1 < count
}

/// How far a pipeline has come: the pipe that the next stage reads, the process
/// that was started last, and the process group of the pipeline.
pub struct Link {
    pub pipe_in: Option<i32>,
    pub last_pid: Option<u32>,
    pub group: Option<u32>,
}

/// The group of a pipeline whose processes so far are `pids`: the group that
/// was set before, else the first process.
pub open spec fn group_of(before: Option<u32>, pids: Seq<u32>) -> Option<u32> {
    if before is Some {
        before
    } else if pids.len() > 0 {
        Some(pids[0])
    } else {
        None
    }
}

/// The link after the host made a pipe with the read end `read_end` and started
/// a stage as the process `pid`: the next stage reads that pipe, `pid` was
/// started last, and it is the group where there was none.
pub open spec fn linked(link: Link, read_end: i32, pid: u32) -> Link {
    Link {
        pipe_in: Some(read_end),
        last_pid: Some(pid),
        group: if link.group is Some {
            link.group
        } else {
            Some(pid)
        },
    }
}

/// Takes the host's answer for one stage into the link.
pub fn link_stage(link: Link, read_end: i32, pid: u32) -> (r: Link)
    ensures
        r == linked(link, read_end, pid),
{
    Link {
        pipe_in: Some(read_end),
        last_pid: Some(pid),
        group: if link.group.is_some() {
            link.group
        } else {
            Some(pid)
        },
    }
}

/// The result of a pipeline whose last stage came to `value`, when the host
/// answered the writing of what was left in the pipe with `drained` and the
/// return to the former standard input with `restored`. A standard input that
/// cannot be had back is the host's fault; else a stage that failed is the
/// failure; else a value that is no file is the result, a file that can be
/// written to is the result where the writing went well, and any other file is
/// a fault.
pub open spec fn pipe_result_of(
    value: Result<Form, Failure>,
    drained: Result<(), Seq<char>>,
    restored: Result<(), Seq<char>>,
) -> Result<Form, Failure> {
    match restored {
        Err(reason) => Err(fresh(FaultModel::Host(reason))),
        Ok(()) => match value {
            Err(failure) => Err(failure),
            Ok(v) => match drain_of(v) {
                Drain::Nothing => Ok(v),
                Drain::NotWritable => Err(fresh(FaultModel::PipeEndNotWritable)),
                Drain::Into(_) => match drained {
                    Ok(()) => Ok(v),
                    Err(reason) => Err(fresh(FaultModel::Host(reason))),
                },
            },
        },
    }
}

/// What evaluating a form came to, as plain values.
pub open spec fn came_to(value: Result<Expression, LispError>) -> Result<Form, Failure> {
    match value {
        Ok(v) => Ok(v@),
        Err(err) => Err(err@),
    }
}

/// The result of a pipeline from what its last stage came to and what the host
/// answered. An answer that was not asked for is handed in as `Ok`.
pub fn pipe_outcome(
    value: Result<Expression, LispError>,
    drained: Result<(), String>,
    restored: Result<(), String>,
) -> (r: Result<Expression, LispError>)
    ensures
        is_result(r, pipe_result_of(came_to(value), changed_of(drained), changed_of(restored))),
{
    match restored {
        Err(reason) => Err(LispError::new(Fault::Host(reason))),
        Ok(()) => match value {
            Err(err) => Err(err),
            Ok(v) => match sink_of(&v) {
                Drain::Nothing => Ok(v),
                Drain::NotWritable => Err(LispError::new(Fault::PipeEndNotWritable)),
                Drain::Into(_) => match drained {
                    Ok(()) => Ok(v),
                    Err(reason) => Err(LispError::new(Fault::Host(reason))),
                },
            },
        },
    }
}

/// The environment `env` while the stages of a pipeline with the job `job` are
/// started: the job is the last of the table, the output of processes is not
/// grabbed, and the group is that of the pipeline.
pub open spec fn staging(env: EnvModel, job: Job) -> EnvModel {
    EnvModel {
        jobs: env.jobs.push(job),
        grab_proc_output: false,
        state: EnvState { pipe_pgid: group_of(env.state.pipe_pgid, job.pids@), ..env.state },
        ..env
    }
}

/// The environment in which the last stage of that pipeline is evaluated: the
/// output of processes is grabbed or not as it was before the pipeline.
pub open spec fn last_stage_env(env: EnvModel, job: Job) -> EnvModel {
    EnvModel { grab_proc_output: env.grab_proc_output, ..staging(env, job) }
}

/// The environment `now` when the pipeline that was entered in `before` is
/// over: there is no group, and the output of processes is grabbed or not as it
/// was.
pub open spec fn piped(now: EnvModel, before: EnvModel) -> EnvModel {
    EnvModel {
        grab_proc_output: before.grab_proc_output,
        state: EnvState { pipe_pgid: None, ..now.state },
        ..now
    }
}

/// What holds of the job of a pipeline over `parts`: it is running, it lists
/// one name for each process, the names are those of the stages in order, and
/// there are no more processes than stages before the last.
pub open spec fn job_of_pipeline(job: Job, parts: Seq<Form>) -> bool {
    &&& job.status is Running
    &&& job.names@.len() == job.pids@.len()
    &&& job.pids@.len() <= feeders(parts.len())
    &&& forall|k: int|
        0 <= k < job.names@.len() ==> (#[trigger] job.names@[k])@ == stage_name_of(parts[k])
}

/// Starts every stage of `parts` but the last as a process of its own, in
/// order: the host makes a pipe, starts the stage with the pipe before it as
/// input and the new pipe as output, and the process is entered in the job at
/// `job_at`. The first refusal of the host ends it.
fn start_feeders<H: Host>(
    env: &mut Environment,
    host: &mut H,
    parts: &Vec<Expression>,
    job_at: usize,
    Ghost(found): Ghost<EnvModel>,
) -> (r: Result<Link, LispError>)
    requires
        job_at == found.jobs.len(),
        job_at < old(env)@.jobs.len(),
        old(env)@ == staging(found, old(env)@.jobs[job_at as int]),
        old(env)@.jobs[job_at as int].pids@.len() == 0,
        old(env)@.jobs[job_at as int].names@.len() == 0,
        old(env)@.jobs[job_at as int].status is Running,
    ensures
        job_at < final(env)@.jobs.len(),
        final(env)@ == staging(found, final(env)@.jobs[job_at as int]),
        job_of_pipeline(final(env)@.jobs[job_at as int], forms_of(parts@)),
        match r {
            Ok(link) => {
                &&& final(env)@.jobs[job_at as int].pids@.len() == feeders(parts@.len())
                &&& link.pipe_in is Some <==> parts@.len() >= 2
                &&& link.last_pid == if parts@.len() >= 2 {
                    Some(final(env)@.jobs[job_at as int].pids@.last())
                } else {
                    None::<u32>
                }
            },
            Err(err) => {
                &&& final(env)@.jobs[job_at as int].pids@.len() < feeders(parts@.len())
                &&& err@.fault is Host
                &&& err@.trace is None
            },
        },
{
    let mut link = Link { pipe_in: None, last_pid: None, group: env.state.pipe_pgid };
    let mut i: usize = 0;
    while feeds(i, parts.len())
        invariant
            i <= feeders(parts@.len()),
            job_at == found.jobs.len(),
            job_at < env@.jobs.len(),
            env@ == staging(found, env@.jobs[job_at as int]),
            env@.jobs[job_at as int].status is Running,
            env@.jobs[job_at as int].pids@.len() == i,
            env@.jobs[job_at as int].names@.len() == i,
            forall|k: int|
                0 <= k < i ==> (#[trigger] env@.jobs[job_at as int].names@[k])@ == stage_name_of(
                    parts@[k]@,
                ),
            link.group == env.state.pipe_pgid,
            link.pipe_in is Some <==> i > 0,
            link.last_pid == if i > 0 {
                Some(env@.jobs[job_at as int].pids@.last())
            } else {
                None::<u32>
            },
        decreases parts.len() - i,
    {
        let (read_end, write_end) = match host.create_pipe() {
            Ok(ends) => ends,
            Err(reason) => {
                assert(forms_of(parts@).len() == parts@.len());
                assert forall|k: int| 0 <= k < i implies forms_of(parts@)[k] == parts@[k]@ by {}
                return Err(LispError::new(Fault::Host(reason)));
            },
        };
        let pid = match host.spawn(&parts[i], link.pipe_in, Some(write_end)) {
            Ok(pid) => pid,
            Err(reason) => {
                assert(forms_of(parts@).len() == parts@.len());
                assert forall|k: int| 0 <= k < i implies forms_of(parts@)[k] == parts@[k]@ by {}
                return Err(LispError::new(Fault::Host(reason)));
            },
        };
        let ghost before = env@;
        let ghost job_before = env@.jobs[job_at as int];
        link = link_stage(link, read_end, pid);
        let name = stage_name(&parts[i]);
        env.jobs[job_at].pids.push(pid);
        env.jobs[job_at].names.push(name);
        env.state.pipe_pgid = link.group;
        proof {
            let job = env@.jobs[job_at as int];
            assert(job.pids@ == job_before.pids@.push(pid));
            assert(job.names@ == job_before.names@.push(name));
            assert(env@.jobs =~= found.jobs.push(job));
            assert(group_of(found.state.pipe_pgid, job.pids@) == link.group);
            assert(env@.state == (EnvState {
                pipe_pgid: group_of(found.state.pipe_pgid, job.pids@),
                ..found.state
            }));
            assert(env@ == staging(found, job));
        }
        i += 1;
    }
    proof {
        assert(forms_of(parts@).len() == parts@.len());
        assert forall|k: int| 0 <= k < i implies forms_of(parts@)[k] == parts@[k]@ by {}
    }
    Ok(link)
}

/// What a last stage that came to `value` settles without the host: a failure,
/// a value that is no file, or the fault of a file that cannot be written to.
/// What is left in a pipe is the host's to write.
pub open spec fn settled_alone(value: Result<Form, Failure>) -> Option<Result<Form, Failure>> {
    match value {
        Err(failure) => Some(Err(failure)),
        Ok(v) => match drain_of(v) {
            Drain::Nothing => Some(Ok(v)),
            Drain::NotWritable => Some(Err(fresh(FaultModel::PipeEndNotWritable))),
            Drain::Into(_) => None,
        },
    }
}

/// Whether `r` and `after` are what comes of the last stage, of which the
/// evaluation in `env` has the outcome `out`, when the host answered the change
/// of standard input with `replaced`, the writing of what was left with
/// `drained` and the return of the standard input with `restored`. Where the
/// host refuses the change, nothing is evaluated.
pub open spec fn last_settled(
    env: EnvModel,
    out: Outcome<Form>,
    replaced: Result<(), Seq<char>>,
    drained: Result<(), Seq<char>>,
    restored: Result<(), Seq<char>>,
    r: Result<Expression, LispError>,
    after: EnvModel,
) -> bool {
    match replaced {
        Err(reason) => after == env && is_result(r, Err(fresh(FaultModel::Host(reason)))),
        Ok(()) => after == out.env && is_result(r, pipe_result_of(out.result, drained, restored)),
    }
}

/// Evaluates the last stage of a pipeline in place, with the pipe `pipe_in`,
/// where there is one, as standard input; what is left in it afterwards is
/// written to the file that the stage came to, and the standard input is given
/// back.
pub fn last_stage<H: Host>(
    env: &mut Environment,
    host: &mut H,
    stage: &Expression,
    pipe_in: Option<i32>,
) -> (r: Result<Expression, LispError>)
    ensures
        carried(old(env)@, final(env)@),
        sem_eval(old(env)@, stage@) matches Some(out) ==> exists|
            replaced: Result<(), Seq<char>>,
            drained: Result<(), Seq<char>>,
            restored: Result<(), Seq<char>>,
        | #[trigger]
            last_settled(old(env)@, out, replaced, drained, restored, r, final(env)@),
        pipe_in is None ==> (sem_eval(old(env)@, stage@) matches Some(out) ==> final(env)@
            == out.env && (settled_alone(out.result) matches Some(want) ==> is_result(r, want))),
    decreases old(env).steps_left, 130nat,
{
    let ghost model = sem_eval(old(env)@, stage@);
    let old_stdin = match pipe_in {
        Some(fd) => match host.replace_stdin(fd) {
            Ok(saved) => Some(saved),
            Err(reason) => {
                let r = Err(LispError::new(Fault::Host(reason)));
                assert(model matches Some(out) ==> last_settled(
                    old(env)@,
                    out,
                    Err(reason@),
                    Ok(()),
                    Ok(()),
                    r,
                    env@,
                ));
                return r;
            },
        },
        None => None,
    };
    let value = eval(env, host, stage);
    let drained = match &value {
        Ok(v) => match sink_of(v) {
            Drain::Into(sink) => host.drain_stdin(&sink),
            _ => Ok(()),
        },
        Err(_) => Ok(()),
    };
    let restored = match old_stdin {
        Some(saved) => host.restore_stdin(saved),
        None => Ok(()),
    };
    let ghost came = came_to(value);
    let ghost wrote = changed_of(drained);
    let ghost back = changed_of(restored);
    let r = pipe_outcome(value, drained, restored);
    assert(model matches Some(out) ==> out.result == came && last_settled(
        old(env)@,
        out,
        Ok(()),
        wrote,
        back,
        r,
        env@,
    ));
    r
}

/// Whether `r` and `after` are what comes of a pipeline over `parts`, where
/// `job` is its job when it is over and `before` the environment it was entered
/// in.
///
/// A pipeline without stages is nil. Where the host refused a pipe or a
/// process, fewer processes are listed than there are stages before the last,
/// and the result is the host's fault. Else the last stage is evaluated where
/// the stages before it left off, and the result is what comes of it and of the
/// host's answers. A pipeline of one stage asks the host for nothing until that
/// stage has come to a file that can be written to.
#[verifier::opaque]
pub open spec fn pipeline_settled(
    before: EnvModel,
    parts: Seq<Form>,
    job: Job,
    r: Result<Expression, LispError>,
    after: EnvModel,
) -> bool {
    let entered = last_stage_env(before, job);
    if parts.len() == 0 {
        after == piped(entered, before) && is_result(r, Ok(Form::Nil))
    } else if job.pids@.len() < feeders(parts.len()) {
        after == piped(entered, before) && (r matches Err(err) && err@.fault is Host
            && err@.trace is None)
    } else {
        sem_eval(entered, parts.last()) matches Some(out) ==> {
            &&& exists|
                replaced: Result<(), Seq<char>>,
                drained: Result<(), Seq<char>>,
                restored: Result<(), Seq<char>>,
            | #[trigger]
                last_settled(
                    piped(entered, before),
                    Outcome { result: out.result, env: piped(out.env, before) },
                    replaced,
                    drained,
                    restored,
                    r,
                    after,
                )
            &&& parts.len() == 1 ==> after == piped(out.env, before) && (settled_alone(
                out.result,
            ) matches Some(want) ==> is_result(r, want))
        }
    }
}

/// Enters the job of a pipeline, with no process yet, as the last of the job
/// table, and stops the grabbing of output. Returns where the job stands.
fn enter_job(env: &mut Environment) -> (job_at: usize)
    ensures
        job_at == old(env)@.jobs.len(),
        job_at < final(env)@.jobs.len(),
        final(env)@ == staging(old(env)@, final(env)@.jobs[job_at as int]),
        final(env)@.jobs[job_at as int].pids@.len() == 0,
        final(env)@.jobs[job_at as int].names@.len() == 0,
        final(env)@.jobs[job_at as int].status is Running,
{
    let job_at = env.jobs.len();
    env.jobs.push(Job { pids: Vec::new(), names: Vec::new(), status: JobStatus::Running });
    env.grab_proc_output = false;
    assert(env@.jobs =~= old(env)@.jobs.push(env@.jobs[job_at as int]));
    job_at
}

/// Sets whether the output of processes is grabbed.
fn grab_output(env: &mut Environment, grab: bool)
    ensures
        final(env)@ == (EnvModel { grab_proc_output: grab, ..old(env)@ }),
{
    env.grab_proc_output = grab;
}

/// Ends a pipeline: there is no group any more, and the output of processes is
/// grabbed as `grab` says.
fn leave_pipeline(env: &mut Environment, grab: bool)
    ensures
        final(env)@ == (EnvModel {
            grab_proc_output: grab,
            state: EnvState { pipe_pgid: None, ..old(env)@.state },
            ..old(env)@
        }),
{
    env.grab_proc_output = grab;
    env.state.pipe_pgid = None;
}

/// A pipeline that ran as its parts say is settled.
proof fn lemma_pipeline_settled(
    before: EnvModel,
    parts: Seq<Form>,
    job: Job,
    entered: EnvModel,
    evaluated: EnvModel,
    after: EnvModel,
    r: Result<Expression, LispError>,
    fed: bool,
)
    requires
        entered == last_stage_env(before, job),
        after == piped(evaluated, before),
        fed ==> job.pids@.len() == feeders(parts.len()),
        !fed ==> evaluated == entered && job.pids@.len() < feeders(parts.len()) && (r matches Err(
            err,
        ) && err@.fault is Host && err@.trace is None),
        fed && parts.len() == 0 ==> evaluated == entered && is_result(r, Ok(Form::Nil)),
        fed && parts.len() > 0 ==> (sem_eval(entered, parts.last()) matches Some(out) ==> exists|
            replaced: Result<(), Seq<char>>,
            drained: Result<(), Seq<char>>,
            restored: Result<(), Seq<char>>,
        | #[trigger]
            last_settled(entered, out, replaced, drained, restored, r, evaluated)),
        fed && parts.len() == 1 ==> (sem_eval(entered, parts.last()) matches Some(out)
            ==> evaluated == out.env && (settled_alone(out.result) matches Some(want)
            ==> is_result(r, want))),
    ensures
        pipeline_settled(before, parts, job, r, after),
{
    reveal(pipeline_settled);
    if fed && parts.len() > 0 && sem_eval(entered, parts.last()) is Some {
        let out = sem_eval(entered, parts.last())->0;
        let (a, b, c) = choose|
            a: Result<(), Seq<char>>,
            b: Result<(), Seq<char>>,
            c: Result<(), Seq<char>>,
        | #[trigger] last_settled(entered, out, a, b, c, r, evaluated);
        assert(last_settled(
            piped(entered, before),
            Outcome { result: out.result, env: piped(out.env, before) },
            a,
            b,
            c,
            r,
            after,
        ));
    }
}

/// `(pipe stage*)`: runs the stages as a pipeline.
///
/// A job is entered in the job table before anything is started. Every stage but
/// the last is started by the host as a process of its own, in order, its input
/// the read end of the pipe before it and its output the write end of a new
/// pipe, and its id is added to the job. The last stage is evaluated here, with
/// the last pipe as standard input; where it evaluates to a writable file, what
/// is left in the pipe is written there. Where the last stage fails, the process
/// started last is interrupted, so that it does not wait on a pipe that nobody
/// reads. While the stages before the last are started the output of processes
/// is not grabbed; afterwards it is grabbed or not as it was before, and the
/// pipeline's group is cleared, however the pipeline ended.
#[verifier::rlimit(80)]
#[verifier::spinoff_prover]
pub fn builtin_pipe<H: Host>(env: &mut Environment, host: &mut H, parts: &Vec<Expression>) -> (r:
    Result<Expression, LispError>)
    ensures
        carried(old(env)@, final(env)@),
        final(env).grab_proc_output == old(env).grab_proc_output,
        final(env).state.pipe_pgid is None,
        final(env)@.jobs.len() > old(env)@.jobs.len(),
        job_of_pipeline(final(env)@.jobs[old(env)@.jobs.len() as int], forms_of(parts@)),
        r is Ok ==> final(env)@.jobs[old(env)@.jobs.len() as int].pids@.len() == feeders(
            parts@.len(),
        ),
        pipeline_settled(
            old(env)@,
            forms_of(parts@),
            final(env)@.jobs[old(env)@.jobs.len() as int],
            r,
            final(env)@,
        ),
    decreases old(env).steps_left, 140nat,
{
    let grab = env.grab_proc_output;
    let job_at = enter_job(env);
    let fed = start_feeders(env, host, parts, job_at, Ghost(old(env)@));
    let ghost job = env@.jobs[job_at as int];
    grab_output(env, grab);
    let ghost entered = env@;
    let (res, last_pid) = match fed {
        Err(err) => (Err(err), None),
        Ok(link) => if parts.len() == 0 {
            (Ok(Expression::make_nil()), None)
        } else {
            assert(forms_of(parts@).last() == parts@[parts@.len() - 1]@);
            (last_stage(env, host, &parts[parts.len() - 1], link.pipe_in), link.last_pid)
        },
    };
    let ghost evaluated = env@;
    assert(evaluated.jobs[job_at as int] == job);
    leave_pipeline(env, grab);
    proof {
        lemma_pipeline_settled(
            old(env)@,
            forms_of(parts@),
            job,
            entered,
            evaluated,
            env@,
            res,
            fed is Ok,
        );
    }
    match to_interrupt(res.is_err(), last_pid) {
        Some(pid) => match interrupt(pid) {
            Some(reason) => {
                let mut message = String::from_str("ERROR, sending SIGINT to pid ");
                message.append(crate::text::decimal_string(pid as i64).as_str());
                message.append(": ");
                message.append(reason.as_str());
                host.report(message.as_str());
            },
            None => {},
        },
        None => {},
    }
    res
}

/// Decides what `wait` does for `v`.
pub fn wait_plan(v: &Expression) -> (r: WaitPlan)
    ensures
        r == wait_plan_of(v@),
{
    match v.get() {
        ExpEnum::Process(ProcessState::Running(pid)) => WaitPlan::Block(*pid),
        ExpEnum::Process(ProcessState::Over(_, status)) => WaitPlan::Cached(*status),
        ExpEnum::Int(pid) => {
            if 0 <= *pid && *pid <= 0xffff_ffff {
                WaitPlan::Block(*pid as u32)
            } else {
                WaitPlan::NotPid
            }
        },
        _ => WaitPlan::NotPid,
    }
}

/// What `wait` returns when the wait came back with `status`: the status as a
/// number, or nil where there is none.
pub open spec fn waited_value(status: Option<i32>) -> Form {
    match status {
        Some(code) => Form::Int(code as i64),
        None => Form::Nil,
    }
}

/// The value of a wait that came back with `status`.
pub fn wait_value(status: Option<i32>) -> (r: Expression)
    ensures
        r@ == waited_value(status),
{
    match status {
        Some(code) => Expression::make_int(code as i64),
        None => Expression::make_nil(),
    }
}

/// `(wait form)`: the exit status of the process that `form` evaluates to. A
/// process that is over answers with the status it ended with, without waiting;
/// a running one, and a process id, are waited for, and the answer is the
/// status, or nil where the wait gave none.
pub fn builtin_wait<H: Host>(env: &mut Environment, host: &mut H, parts: &Vec<Expression>) -> (r:
    Result<Expression, LispError>)
    ensures
        carried(old(env)@, final(env)@),
        agrees(sem_wait(old(env)@, forms_of(parts@)), r, final(env)@),
        r matches Ok(v) ==> v@ is Nil || v@ is Int,
    decreases old(env).steps_left, 140nat,
{
    proof {
        reveal(sem_wait);
    }
    if parts.len() != 1 {
        return Err(LispError::new(Fault::Usage(Callable::Wait)));
    }
    let value = match eval(env, host, &parts[0]) {
        Ok(value) => value,
        Err(err) => {
            return Err(err);
        },
    };
    match wait_plan(&value) {
        WaitPlan::Cached(status) => Ok(wait_value(Some(status))),
        WaitPlan::Block(pid) => Ok(wait_value(host.wait(pid))),
        WaitPlan::NotPid => Err(LispError::new(Fault::Operand(Callable::Wait))),
    }
}

/// The id of the process `v`.
pub fn pid_of(v: &Expression) -> (r: Result<Expression, LispError>)
    ensures
        match pid_value(v@) {
            Ok(pid) => r matches Ok(x) && x@ == pid,
            Err(fault) => r matches Err(err) && err@ == fresh(fault),
        },
{
    match v.get() {
        ExpEnum::Process(ProcessState::Running(pid)) => Ok(Expression::make_int(*pid as i64)),
        ExpEnum::Process(ProcessState::Over(pid, _)) => Ok(Expression::make_int(*pid as i64)),
        _ => Err(LispError::new(Fault::Operand(Callable::Pid))),
    }
}

/// `(pid form)`: the id of the process that `form` evaluates to.
pub fn builtin_pid<H: Host>(env: &mut Environment, host: &mut H, parts: &Vec<Expression>) -> (r:
    Result<Expression, LispError>)
    ensures
        carried(old(env)@, final(env)@),
        agrees(sem_pid(old(env)@, forms_of(parts@)), r, final(env)@),
    decreases old(env).steps_left, 140nat,
{
    proof {
        reveal(sem_pid);
    }
    if parts.len() != 1 {
        return Err(LispError::new(Fault::Usage(Callable::Pid)));
    }
    let value = match eval(env, host, &parts[0]) {
        Ok(value) => value,
        Err(err) => {
            return Err(err);
        },
    };
    pid_of(&value)
}

/// How many entries come before the first at or after `from` that is an
/// error: the number of all entries where none is.
pub open spec fn walked(entries: Seq<Result<Option<String>, glob::GlobError>>, from: int) -> int
    decreases entries.len() - from,
{
    if from < 0 || from >= entries.len() {
        entries.len() as int
    } else if entries[from] is Err {
        from
    } else {
        walked(entries, from + 1)
    }
}

/// The paths among the first `n` entries that have a reading as text, as
/// strings that have not been substituted in, in order.
pub open spec fn listed(entries: Seq<Result<Option<String>, glob::GlobError>>, n: int) -> Seq<
    Form,
>
    decreases n,
{
    if n <= 0 || n > entries.len() {
        Seq::empty()
    } else {
        match entries[n - 1] {
            Ok(Some(path)) => listed(entries, n - 1).push(Form::Text(path@, false)),
            _ => listed(entries, n - 1),
        }
    }
}

/// Adds the paths of `entries` to `files`, as strings, up to the first entry
/// that is an error: a path without a reading as text is left out, and an error
/// ends the listing with a fault that names `pattern`.
pub fn gather(
    pattern: &String,
    entries: Vec<Result<Option<String>, glob::GlobError>>,
    files: &mut Vec<Expression>,
) -> (r: Result<(), LispError>)
    ensures
        forms_of(final(files)@) == forms_of(old(files)@) + listed(
            entries@,
            walked(entries@, 0),
        ),
        final(files)@.len() >= old(files)@.len(),
        final(files)@.take(old(files)@.len() as int) == old(files)@,
        forall|i: int|
            old(files)@.len() <= i < final(files)@.len() ==> #[trigger] final(files)@[i]@ is Text,
        (r is Ok) == (walked(entries@, 0) == entries@.len()),
        r matches Err(err) ==> err.backtrace is None && (err.fault matches Fault::GlobWalk(p, _)
            && p == *pattern),
{
    let mut i: usize = 0;
    assert(forms_of(files@) + Seq::<Form>::empty() =~= forms_of(files@));
    while i < entries.len()
        invariant
            i <= entries.len(),
            files@.len() >= old(files)@.len(),
            files@.take(old(files)@.len() as int) == old(files)@,
            forall|j: int| old(files)@.len() <= j < files@.len() ==> #[trigger] files@[j]@ is Text,
            walked(entries@, 0) == walked(entries@, i as int),
            forms_of(files@) == forms_of(old(files)@) + listed(entries@, i as int),
        decreases entries.len() - i,
    {
        let ghost before = files@;
        match &entries[i] {
            Ok(Some(path)) => {
                let file = Expression::make_string(path.clone());
                proof {
                    lemma_forms_push(before, file);
                }
                files.push(file);
                assert(forms_of(files@) =~= forms_of(old(files)@) + listed(entries@, i + 1));
            },
            Ok(None) => {},
            Err(err) => {
                return Err(
                    LispError::new(Fault::GlobWalk(pattern.clone(), glob_error_text(err))),
                );
            },
        }
        i += 1;
    }
    Ok(())
}

/// The pattern that the form `part` stands for: the form is evaluated, its
/// value has to be a string, and a leading `~` of it is expanded.
pub open spec fn sem_pattern(env: EnvModel, part: Form) -> Option<Outcome<Seq<char>>> {
    match sem_eval(env, part) {
        Some(out) => match out.result {
            Ok(v) => match v {
                Form::Text(text, _) => done(out.env, at_home(out.env, text)),
                _ => failed(out.env, fresh(FaultModel::Operand(Callable::Glob))),
            },
            Err(failure) => failed(out.env, failure),
        },
        None => None,
    }
}

/// The patterns of the parts `from` onwards, after `got`, each evaluated in the
/// environment that the one before it left. The first part that fails ends it.
pub open spec fn sem_patterns(
    env: EnvModel,
    parts: Seq<Form>,
    from: int,
    got: Seq<Seq<char>>,
) -> Option<Outcome<Seq<Seq<char>>>>
    decreases parts.len() - from,
{
    if 0 <= from < parts.len() {
        match sem_pattern(env, parts[from]) {
            Some(out) => match out.result {
                Ok(pattern) => sem_patterns(out.env, parts, from + 1, got.push(pattern)),
                Err(failure) => failed(out.env, failure),
            },
            None => None,
        }
    } else {
        done(env, got)
    }
}

/// Whether a pattern was given, as far as `sem` says.
pub open spec fn first_given(sem: Option<Outcome<Seq<char>>>) -> bool {
    sem matches Some(out) ==> out.result is Ok
}

/// Evaluates one part of a `glob` to the pattern it stands for.
pub fn glob_pattern<H: Host>(env: &mut Environment, host: &mut H, part: &Expression) -> (r: Result<
    String,
    LispError,
>)
    ensures
        carried(old(env)@, final(env)@),
        agrees_text(sem_pattern(old(env)@, part@), r, final(env)@),
    decreases old(env).steps_left, 130nat,
{
    let value = match eval(env, host, part) {
        Ok(value) => value,
        Err(err) => {
            return Err(err);
        },
    };
    match value.get() {
        ExpEnum::String(text, _) => Ok(from_home(env, text.clone())),
        _ => Err(LispError::new(Fault::Operand(Callable::Glob))),
    }
}

/// Whether `r` and `after` are what comes of a `glob` whose patterns have the
/// outcome `out`. Where a part fails, the listing fails: with that failure, or
/// before it with a fault of the pattern or the walk that came earlier. Where
/// every part gives its pattern, a listing that succeeds leaves the environment
/// that the parts left, and one that fails does so with a fault of a pattern or
/// of the walk.
pub open spec fn globbed(
    out: Outcome<Seq<Seq<char>>>,
    r: Result<Expression, LispError>,
    after: EnvModel,
) -> bool {
    match r {
        Ok(_) => out.result is Ok && after == out.env,
        Err(err) => err@.fault is GlobPattern || err@.fault is GlobWalk || (out.result matches Err(
            failure,
        ) && err@ == failure && after == out.env),
    }
}

/// `(glob pattern*)`: the list of the paths that match the patterns, pattern by
/// pattern. Each pattern has to evaluate to a string; a leading `~` is expanded.
/// A pattern is evaluated when the one before it has been listed. The first
/// form that fails, or does not give a string, is the result, and nothing is
/// listed after it.
pub fn builtin_glob<H: Host>(env: &mut Environment, host: &mut H, parts: &Vec<Expression>) -> (r:
    Result<Expression, LispError>)
    ensures
        carried(old(env)@, final(env)@),
        agrees(sem_function(old(env)@, Callable::Glob, forms_of(parts@)), r, final(env)@),
        r matches Ok(v) ==> v@ matches Form::Vector(files) && forall|i: int|
            0 <= i < files.len() ==> #[trigger] files[i] is Text,
        sem_patterns(old(env)@, forms_of(parts@), 0, Seq::empty()) matches Some(out) ==> globbed(
            out,
            r,
            final(env)@,
        ),
        parts@.len() > 0 ==> (sem_pattern(old(env)@, parts@[0]@) matches Some(out) ==> (
        out.result matches Err(failure) ==> final(env)@ == out.env && is_result(r, Err(failure)))),
    decreases old(env).steps_left, 140nat,
{
    proof {
        reveal(sem_function);
    }
    let ghost whole = sem_patterns(old(env)@, forms_of(parts@), 0, Seq::empty());
    let ghost mut got: Seq<Seq<char>> = Seq::empty();
    let mut files: Vec<Expression> = Vec::new();
    if parts.len() == 0 {
        assert(forms_of(files@) =~= Seq::<Form>::empty());
        return Ok(Expression::with_list(files));
    }
    let mut i: usize = 0;
    while i < parts.len()
        invariant
            i <= parts.len(),
            carried(old(env)@, env@),
            sem_function(old(env)@, Callable::Glob, forms_of(parts@)) is None,
            forall|j: int| 0 <= j < files@.len() ==> #[trigger] files@[j]@ is Text,
            whole == sem_patterns(old(env)@, forms_of(parts@), 0, Seq::empty()),
            whole is Some ==> whole == sem_patterns(env@, forms_of(parts@), i as int, got),
            i == 0 ==> env@ == old(env)@,
            i > 0 ==> first_given(sem_pattern(old(env)@, parts@[0]@)),
        decreases parts.len() - i,
    {
        assert(forms_of(parts@)[i as int] == parts[i as int]@);
        let pattern = match glob_pattern(env, host, &parts[i]) {
            Ok(pattern) => pattern,
            Err(err) => {
                return Err(err);
            },
        };
        proof {
            got = got.push(pattern@);
            assert(first_given(sem_pattern(old(env)@, parts@[0]@)));
        }
        match glob_paths(pattern.as_str()) {
            Ok(entries) => {
                let ghost before = files@;
                let listed = gather(&pattern, entries, &mut files);
                assert forall|j: int| 0 <= j < files@.len() implies #[trigger] files@[j]@ is Text by {
                    if j < before.len() {
                        assert(files@.take(before.len() as int)[j] == before[j]);
                    }
                }
                match listed {
                    Ok(()) => {},
                    Err(err) => {
                        return Err(err);
                    },
                }
            },
            Err(err) => {
                return Err(
                    LispError::new(Fault::GlobPattern(pattern, pattern_error_text(&err))),
                );
            },
        }
        i += 1;
    }
    proof {
        assert forall|j: int| 0 <= j < forms_of(files@).len() implies #[trigger] forms_of(
            files@,
        )[j] is Text by {
            assert(files@[j]@ is Text);
        }
    }
    Ok(Expression::with_list(files))
}

/// Whether `name` is the name of one of the shell's natives.
pub open spec fn names_file_builtin(name: Seq<char>) -> bool {
    name == "cd"@ || name == "fs-exists?"@ || name == "fs-file?"@ || name == "fs-dir?"@ || name
        == "pipe"@ || name == "wait"@ || name == "pid"@ || name == "glob"@
}

/// Binds the natives of the shell in `data`: `cd`, `fs-exists?`, `fs-file?`,
/// `fs-dir?`, `pipe`, `wait`, `pid` and `glob`, each with its documentation. No
/// other name of `data` is touched.
pub fn add_file_builtins(data: &mut Namespace)
    ensures
        final(data)@.name == old(data)@.name,
        binds_native(final(data)@, "cd"@, Callable::Cd),
        binds_native(final(data)@, "fs-exists?"@, Callable::PathExists),
        binds_native(final(data)@, "fs-file?"@, Callable::IsFile),
        binds_native(final(data)@, "fs-dir?"@, Callable::IsDir),
        binds_native(final(data)@, "pipe"@, Callable::Pipe),
        binds_native(final(data)@, "wait"@, Callable::Wait),
        binds_native(final(data)@, "pid"@, Callable::Pid),
        binds_native(final(data)@, "glob"@, Callable::Glob),
        forall|other: Seq<char>|
            !names_file_builtin(other) ==> final(data)@.value_of(other) == old(data)@.value_of(
                other,
            ) && final(data)@.doc_of(other) == old(data)@.doc_of(other),
{
    proof {
        reveal_strlit("cd");
        reveal_strlit("fs-exists?");
        reveal_strlit("fs-file?");
        reveal_strlit("fs-dir?");
        reveal_strlit("pipe");
        reveal_strlit("wait");
        reveal_strlit("pid");
        reveal_strlit("glob");
        assert("cd"@.len() == 2 && "fs-exists?"@.len() == 10 && "fs-file?"@.len() == 8);
        assert("fs-dir?"@.len() == 7 && "pid"@.len() == 3);
        assert("pipe"@.len() == 4 && "pipe"@[0] == 'p');
        assert("wait"@.len() == 4 && "wait"@[0] == 'w');
        assert("glob"@.len() == 4 && "glob"@[0] == 'g');
    }
    let ghost scope1 = data@;
    let doc1 = String::from_str(
        "Usage: (cd dir-to-change-to)

Change directory.

Section: shell

Example:
(mkdir \"/tmp/tst-fs-cd\")
(touch \"/tmp/tst-fs-cd/fs-cd-marker\")
(test::assert-false (fs-exists? \"fs-cd-marker\"))
(pushd \"/tmp/tst-fs-cd\")
(root::cd \"/tmp\")
(root::cd \"/tmp/tst-fs-cd\")
(test::assert-true (fs-exists? \"fs-cd-marker\"))
(rm \"/tmp/tst-fs-cd/fs-cd-marker\")
(popd)
(rmdir \"/tmp/tst-fs-cd\")
",
    );
    let ghost text1 = doc1@;
    data.insert(String::from_str("cd"), make_function(Callable::Cd), doc1);
    proof {
        lemma_inserted(scope1, "cd"@, Form::Function(Callable::Cd), text1);
    }
    let ghost scope2 = data@;
    let doc2 = String::from_str(
        "Usage: (fs-exists? path-to-test)

Does the given path exist?

Section: shell

Example:
(mkdir \"/tmp/tst-fs-exists\")
(touch \"/tmp/tst-fs-exists/fs-exists\")
(test::assert-true (fs-exists? \"/tmp/tst-fs-exists/fs-exists\"))
(test::assert-true (fs-exists? \"/tmp/tst-fs-exists\"))
(test::assert-false (fs-exists? \"/tmp/tst-fs-exists/fs-exists-nope\"))
(rm \"/tmp/tst-fs-exists/fs-exists\")
(rmdir \"/tmp/tst-fs-exists\")
",
    );
    let ghost text2 = doc2@;
    data.insert(String::from_str("fs-exists?"), make_function(Callable::PathExists), doc2);
    proof {
        lemma_inserted(scope2, "fs-exists?"@, Form::Function(Callable::PathExists), text2);
    }
    let ghost scope3 = data@;
    let doc3 = String::from_str(
        "Usage: (fs-file? path-to-test)

Is the given path a file?

Section: shell

Example:
(mkdir \"/tmp/tst-fs-file\")
(touch \"/tmp/tst-fs-file/fs-file\")
(test::assert-true (fs-file? \"/tmp/tst-fs-file/fs-file\"))
(test::assert-false (fs-file? \"/tmp/tst-fs-file\"))
(test::assert-false (fs-file? \"/tmp/tst-fs-file/fs-file-nope\"))
(rm \"/tmp/tst-fs-file/fs-file\")
(rmdir \"/tmp/tst-fs-file\")
",
    );
    let ghost text3 = doc3@;
    data.insert(String::from_str("fs-file?"), make_function(Callable::IsFile), doc3);
    proof {
        lemma_inserted(scope3, "fs-file?"@, Form::Function(Callable::IsFile), text3);
    }
    let ghost scope4 = data@;
    let doc4 = String::from_str(
        "Usage: (fs-dir? path-to-test)

Is the given path a directory?

Section: shell

Example:
(mkdir \"/tmp/tst-fs-dir\")
(touch \"/tmp/tst-fs-dir/fs-dir-file\")
(test::assert-false (fs-dir? \"/tmp/tst-fs-dir/fs-dir-file\"))
(test::assert-true (fs-dir? \"/tmp/tst-fs-dir\"))
(test::assert-false (fs-dir? \"/tmp/tst-fs-dir/fs-dir-nope\"))
(rm \"/tmp/tst-fs-dir/fs-dir-file\")
(rmdir \"/tmp/tst-fs-dir\")
",
    );
    let ghost text4 = doc4@;
    data.insert(String::from_str("fs-dir?"), make_function(Callable::IsDir), doc4);
    proof {
        lemma_inserted(scope4, "fs-dir?"@, Form::Function(Callable::IsDir), text4);
    }
    let ghost scope5 = data@;
    let doc5 = String::from_str(
        "Usage: (pipe (proc-whose-stdout) (is-inpup-here))

Setup a pipe between processes.

Section: shell

Example:
(def pipe-test (str (pipe (echo \"one\ntwo\nthree\")(grep two))))
(test::assert-equal \"two\n\" pipe-test)
",
    );
    let ghost text5 = doc5@;
    data.insert(String::from_str("pipe"), make_function(Callable::Pipe), doc5);
    proof {
        lemma_inserted(scope5, "pipe"@, Form::Function(Callable::Pipe), text5);
    }
    let ghost scope6 = data@;
    let doc6 = String::from_str(
        "Usage: (wait proc-to-wait-for)

Wait for a process to end and return it's exit status.

Section: shell

Example:
(def wait-test (wait (err>null (ls /does/not/exist/123))))
(test::assert-true (> wait-test 0))
",
    );
    let ghost text6 = doc6@;
    data.insert(String::from_str("wait"), make_function(Callable::Wait), doc6);
    proof {
        lemma_inserted(scope6, "wait"@, Form::Function(Callable::Wait), text6);
    }
    let ghost scope7 = data@;
    let doc7 = String::from_str(
        "Usage: (pid proc)

Return the pid of a process.

Section: shell

Example:
(def pid-test (echo -n))
(test::assert-true (int? (pid pid-test)))
(test::assert-error (pid 1))
",
    );
    let ghost text7 = doc7@;
    data.insert(String::from_str("pid"), make_function(Callable::Pid), doc7);
    proof {
        lemma_inserted(scope7, "pid"@, Form::Function(Callable::Pid), text7);
    }
    let ghost scope8 = data@;
    let doc8 = String::from_str(
        "Usage: (glob /path/with/*)

Takes a list/varargs of globs and return the list of them expanded.

Section: shell

Example:
(mkdir \"/tmp/tst-fs-glob\")
(touch \"/tmp/tst-fs-glob/g1\")
(touch \"/tmp/tst-fs-glob/g2\")
(touch \"/tmp/tst-fs-glob/g3\")
(test::assert-equal '(\"/tmp/tst-fs-glob/g1\" \"/tmp/tst-fs-glob/g2\" \"/tmp/tst-fs-glob/g3\") (glob \"/tmp/tst-fs-glob/*\"))
(rm \"/tmp/tst-fs-glob/g1\")
(rm \"/tmp/tst-fs-glob/g2\")
(rm \"/tmp/tst-fs-glob/g3\")
(rmdir \"/tmp/tst-fs-glob\")
",
    );
    let ghost text8 = doc8@;
    data.insert(String::from_str("glob"), make_function(Callable::Glob), doc8);
    proof {
        lemma_inserted(scope8, "glob"@, Form::Function(Callable::Glob), text8);
    }
}

} // verus!
