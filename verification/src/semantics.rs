//! What evaluation means: for every expression and every state, what comes of
//! evaluating the one in the other, as far as the interpreter alone decides it.
//!
//! Each function here says what the function of the same name in the evaluator
//! does. The answer is `None` where a collaborator decides: a command is run, a
//! native of the host is called, text is read as a form, the file system is
//! asked. Everything else has an answer: the result, and the state afterwards.

use crate::binding::{binding, bound_forms};
use crate::environment::{first_named, var_value, EVAL_DEPTH_LIMIT, EnvModel, EnvState, FormType};
use crate::error::{fresh, Failure, FaultModel, LispError};
use crate::frames::with_frame;
use crate::scan::{scanned, Part};
use crate::types::{
    forms_of, Callable, CaptureModel, Expression, Form, LambdaModel, ProcessState, SymLoc,
    SymbolsModel,
};
use vstd::prelude::*;

verus! {

/// What came of an evaluation: the result, and the state it left.
pub struct Outcome<T> {
    pub result: Result<T, Failure>,
    pub env: EnvModel,
}

/// The evaluation came to `value` and left the state `env`.
pub open spec fn done<T>(env: EnvModel, value: T) -> Option<Outcome<T>> {
    Some(Outcome { result: Ok(value), env })
}

/// The evaluation failed with `fault` and left the state `env`.
pub open spec fn fail<T>(env: EnvModel, fault: FaultModel) -> Option<Outcome<T>> {
    Some(Outcome { result: Err(fresh(fault)), env })
}

/// A failure that an evaluation hands on as it is, with the state it left.
pub open spec fn failed<T>(env: EnvModel, failure: Failure) -> Option<Outcome<T>> {
    Some(Outcome { result: Err(failure), env })
}

/// The evaluation came to `r` and left the state `env`.
pub open spec fn lift(env: EnvModel, r: Result<Form, FaultModel>) -> Option<Outcome<Form>> {
    match r {
        Ok(v) => done(env, v),
        Err(f) => fail(env, f),
    }
}

/// `sem`, where it leaves no more steps than `limit`. No evaluation ever leaves
/// more steps than it found, so this is `sem` itself for every evaluation; it
/// is what makes the definitions below well founded.
pub open spec fn bounded<T>(limit: u64, sem: Option<Outcome<T>>) -> Option<Outcome<T>> {
    match sem {
        Some(out) => if out.env.steps_left <= limit {
            Some(out)
        } else {
            None
        },
        None => None,
    }
}

/// The failure `f` after the evaluation of `e` has added `e` to its trace.
pub open spec fn traced(f: Failure, e: Form) -> Failure {
    Failure {
        fault: f.fault,
        trace: Some(
            match f.trace {
                Some(t) => t.push(e),
                None => seq![e],
            },
        ),
    }
}

/// The lambda that `f` holds, if it is a lambda or a macro.
pub open spec fn lambda_in(f: Form) -> Option<LambdaModel> {
    match f {
        Form::Lambda(l) => Some(l),
        Form::Macro(l) => Some(l),
        _ => None,
    }
}

/// Whether the policy lets a call resolve to an external command.
pub open spec fn commands_allowed(form_type: FormType) -> bool {
    form_type == FormType::ExternalOnly || form_type == FormType::Any
}

/// Whether the policy lets a call resolve to a form of the language.
pub open spec fn forms_allowed(form_type: FormType) -> bool {
    form_type == FormType::FormOnly || form_type == FormType::Any
}

/// Whether the form that a symbol names is applied as a form: a callable of the
/// language where forms are allowed, or text where commands are.
pub open spec fn applies_as_form(form: Form, forms: bool, commands: bool) -> bool {
    match form {
        Form::Lambda(_) => forms,
        Form::Macro(_) => forms,
        Form::Function(_) => forms,
        Form::DeclareDef => forms,
        Form::DeclareVar => forms,
        Form::Quote => forms,
        Form::BackQuote => forms,
        Form::Text(_, _) => commands,
        _ => false,
    }
}

/// Whether `name` stands for a form that the policy lets a call apply.
pub open spec fn names_form(env: EnvModel, name: Seq<char>) -> bool {
    match env.lookup(name) {
        Some(form) => applies_as_form(
            form,
            forms_allowed(env.form_type),
            commands_allowed(env.form_type),
        ),
        None => false,
    }
}

/// The items of a list: those of a vector, or the heads along a chain of pairs.
pub open spec fn list_items(e: Form) -> Seq<Form>
    decreases e,
{
    match e {
        Form::Vector(items) => items,
        Form::Pair(head, tail) => seq![*head] + list_items(*tail),
        _ => Seq::empty(),
    }
}

/// The operator and the arguments of a call form.
pub open spec fn call_parts(e: Form) -> Option<(Form, Seq<Form>)> {
    match e {
        Form::Vector(items) => if items.len() > 0 {
            Some((items[0], items.skip(1)))
        } else {
            None
        },
        Form::Pair(head, tail) => Some((*head, list_items(*tail))),
        _ => None,
    }
}

/// What a piece puts into the text: a character itself, a variable its value or
/// nothing where it is not set. A command puts in what running it gives, which
/// is not known here.
pub open spec fn part_text(part: Part, env: EnvModel) -> Seq<char> {
    match part {
        Part::Char(c) => seq![c],
        Part::Var(name) => match var_value(env.vars, name) {
            Some(value) => value,
            None => Seq::empty(),
        },
        Part::Command(_) => Seq::empty(),
    }
}

/// The text that the first `n` of `parts` make.
pub open spec fn expanded(parts: Seq<Part>, env: EnvModel, n: int) -> Seq<char>
    decreases n,
{
    if n <= 0 || n > parts.len() {
        Seq::empty()
    } else {
        expanded(parts, env, n - 1) + part_text(parts[n - 1], env)
    }
}

/// Whether one of the first `n` of `parts` is a command.
pub open spec fn has_command(parts: Seq<Part>, n: int) -> bool {
    exists|i: int| 0 <= i < n && i < parts.len() && parts[i] is Command
}

/// What substitution makes of `text`, where no command has to be run for it,
/// and `None` where one has to.
///
/// Text is left as it is unless it is to be expanded, expansion is not switched
/// off, and it holds a `$`. Else it is scanned, and each variable gives way to
/// its value.
pub open spec fn substituted(env: EnvModel, text: Seq<char>, expand: bool) -> Option<
    Result<Seq<char>, FaultModel>,
> {
    if !expand || env.str_ignore_expand || !text.contains('$') {
        Some(Ok(text))
    } else {
        match scanned(text) {
            Err(fault) => Some(Err(fault)),
            Ok(parts) => if has_command(parts, parts.len() as int) {
                None
            } else {
                Some(Ok(expanded(parts, env, parts.len() as int)))
            },
        }
    }
}

/// What `str_process` does: the text after substitution, as a string that has
/// not been substituted in.
#[verifier::opaque]
pub open spec fn sem_text(env: EnvModel, text: Seq<char>, expand: bool) -> Option<Outcome<Form>> {
    match substituted(env, text, expand) {
        Some(Ok(out)) => done(env, Form::Text(out, false)),
        Some(Err(fault)) => fail(env, fault),
        None => None,
    }
}

/// What a symbol evaluates to.
///
/// A resolved symbol reads its place: the global cell unless a dynamic binding
/// of the name overrides it, the slot of its scope, or the slot of the innermost
/// frame. An unresolved one that begins with `$` is the environment variable of
/// the rest of its name, nil where that is not set; one that begins with `:` is
/// itself; any other is what the name stands for, a symbol found there coming
/// back unresolved. A name that stands for nothing is its own text where loose
/// symbols are allowed, and a fault where they are not.
pub open spec fn symbol_value(env: EnvModel, name: Seq<char>, loc: SymLoc) -> Result<
    Form,
    FaultModel,
> {
    match loc {
        SymLoc::Ref(cell) => {
            if env.dynamic_value(name) is Some {
                Ok(env.dynamic_value(name)->0)
            } else if cell < env.cells.len() {
                Ok(env.cells[cell as int])
            } else {
                Err(FaultModel::IllegalState)
            }
        },
        SymLoc::Namespace(scope, idx) => {
            if scope < env.namespaces.len() {
                if idx < env.namespaces[scope as int].entries.len() {
                    Ok(env.namespaces[scope as int].entries[idx as int].value)
                } else {
                    Err(FaultModel::SymbolNotInNamespace(name, env.namespaces[scope as int].name))
                }
            } else {
                Err(FaultModel::IllegalState)
            }
        },
        SymLoc::Stack(idx) => {
            match env.stack_value(idx) {
                Some(v) => Ok(v),
                None => Err(FaultModel::IllegalState),
            }
        },
        SymLoc::Unresolved => {
            if name.len() > 0 && name[0] == '$' {
                match var_value(env.vars, name.skip(1)) {
                    Some(text) => Ok(Form::Text(text, false)),
                    None => Ok(Form::Nil),
                }
            } else if name.len() > 0 && name[0] == ':' {
                Ok(Form::Symbol(name, SymLoc::Unresolved))
            } else {
                match env.lookup(name) {
                    Some(v) => match v {
                        Form::Symbol(found, _) => Ok(Form::Symbol(found, SymLoc::Unresolved)),
                        _ => Ok(v),
                    },
                    None => if env.loose_symbols {
                        Ok(Form::Text(name, false))
                    } else {
                        Err(FaultModel::SymbolNotFound(name))
                    },
                }
            }
        },
    }
}

/// A capture after it has been taken anew: where the slot has a name that stands
/// for something in `env`, that value; else the value it had.
pub open spec fn recaptured(env: EnvModel, names: Seq<Seq<char>>, c: CaptureModel) -> CaptureModel {
    if c.slot < names.len() && env.lookup(names[c.slot as int]) is Some {
        CaptureModel { slot: c.slot, value: env.lookup(names[c.slot as int])->0 }
    } else {
        c
    }
}

/// The lambda that the template `tpl` becomes in `env`: the template's
/// parameters, body and names, its captures taken anew from `env`, and the
/// current scope as the owning one.
pub open spec fn specialized(env: EnvModel, tpl: LambdaModel) -> LambdaModel {
    LambdaModel {
        params: tpl.params,
        body: tpl.body,
        syms: SymbolsModel {
            namespace: tpl.syms.namespace,
            names: tpl.syms.names,
            captures: Seq::new(
                tpl.syms.captures.len(),
                |i: int| recaptured(env, tpl.syms.names, tpl.syms.captures[i]),
            ),
        },
        namespace: env.namespace,
    }
}

/// What the call loop does with the value of a lambda's body.
pub enum StepModel {
    /// The value is the result of the call.
    Return,
    /// Evaluate the body once more in the frame as it is.
    Again,
    /// The call fails.
    Fail(FaultModel),
    /// Make the frame anew with these arguments and run the same lambda again.
    Recur(Seq<Form>),
    /// Make the frame anew for this lambda with these arguments, and go on with it.
    Hop(Form, Seq<Form>),
}

/// The step that follows when the body of a lambda came back with `result`,
/// `recur` is what `recur` has signalled, and `exiting` says that the program
/// asked to exit.
///
/// A signal of `recur` wants the list of its arguments as the result: with as
/// many arguments as it signalled the lambda runs again on them, with another
/// number the call fails because the list is not the one `recur` handed over,
/// and with anything but a list the body is evaluated again. Without a signal a
/// deferred call of a lambda is taken over by the loop. Everything else, and
/// everything while the program exits, is the result.
pub open spec fn next_step(result: Form, recur: Option<usize>, exiting: bool) -> StepModel {
    if exiting {
        StepModel::Return
    } else if recur is Some {
        match result {
            Form::Vector(args) => if recur->0 != args.len() {
                StepModel::Fail(FaultModel::NonTailRecur)
            } else {
                StepModel::Recur(args)
            },
            _ => StepModel::Again,
        }
    } else {
        match result {
            Form::LazyFn(target, parts) => if *target is Lambda {
                StepModel::Hop(*target, parts)
            } else {
                StepModel::Return
            },
            _ => StepModel::Return,
        }
    }
}

/// The value of a multi-value result where one value is asked for: its first
/// value, or nil if it has none. Any other value stands for itself.
pub open spec fn scalar_of(v: Form) -> Form {
    match v {
        Form::Values(items) => if items.len() == 0 {
            Form::Nil
        } else {
            items[0]
        },
        _ => v,
    }
}

/// The value at `idx` of the multi-value result `vals`: both have to be what
/// they are called, and the index one that the result has.
pub open spec fn nth_value(idx: Form, vals: Form) -> Result<Form, FaultModel> {
    match (idx, vals) {
        (Form::Int(n), Form::Values(items)) => if n < 0 || n >= items.len() {
            Err(FaultModel::ValuesRange { index: n, len: items.len() as usize })
        } else {
            Ok(items[n as int])
        },
        _ => Err(FaultModel::Usage(Callable::ValuesNth)),
    }
}

/// How many values a multi-value result has, as a number of the language.
pub open spec fn length_value(vals: Form) -> Result<Form, FaultModel> {
    match vals {
        Form::Values(items) => Ok(
            Form::Int(
                if items.len() <= i64::MAX {
                    items.len() as i64
                } else {
                    i64::MAX
                },
            ),
        ),
        _ => Err(FaultModel::Usage(Callable::ValuesLength)),
    }
}

/// The id of the process that `v` is, running or over.
pub open spec fn pid_value(v: Form) -> Result<Form, FaultModel> {
    match v {
        Form::Process(ProcessState::Running(pid)) => Ok(Form::Int(pid as i64)),
        Form::Process(ProcessState::Over(pid, _)) => Ok(Form::Int(pid as i64)),
        _ => Err(FaultModel::Operand(Callable::Pid)),
    }
}

/// What `wait` does for a value.
pub enum WaitPlan {
    /// The process is over: this is its exit status.
    Cached(i32),
    /// Block until the process with this id is over.
    Block(u32),
    /// The value names no process.
    NotPid,
}

/// What `wait` does for `v`: a process that is over has its status at hand; a
/// running process, and a number that can be a process id, are waited for.
pub open spec fn wait_plan_of(v: Form) -> WaitPlan {
    match v {
        Form::Process(ProcessState::Running(pid)) => WaitPlan::Block(pid),
        Form::Process(ProcessState::Over(_, status)) => WaitPlan::Cached(status),
        Form::Int(pid) => if 0 <= pid <= u32::MAX {
            WaitPlan::Block(pid as u32)
        } else {
            WaitPlan::NotPid
        },
        _ => WaitPlan::NotPid,
    }
}

/// The name that a binding form binds: that of the symbol which is the first of
/// its two parts.
pub open spec fn bound_name(parts: Seq<Form>) -> Option<Seq<char>> {
    if parts.len() == 2 {
        match parts[0] {
            Form::Symbol(name, _) => Some(name),
            _ => None,
        }
    } else {
        None
    }
}

/// What an item of a back-quoted list asks for.
pub enum Unquote {
    /// The item stands for itself.
    Keep,
    /// The item after this one is evaluated, and its value takes their place.
    Value,
    /// The item after this one is evaluated, and the items of its value take
    /// their place.
    Splice,
}

/// What `item` asks for: the symbol `,` a value, the symbol `,@` a splice.
pub open spec fn unquote_of(item: Form) -> Unquote {
    match item {
        Form::Symbol(name, _) => if name == ","@ {
            Unquote::Value
        } else if name == ",@"@ {
            Unquote::Splice
        } else {
            Unquote::Keep
        },
        _ => Unquote::Keep,
    }
}

/// The first `n` of `s`, or all of `s` where it has fewer.
pub open spec fn clipped<T>(s: Seq<T>, n: nat) -> Seq<T> {
    if n <= s.len() {
        s.take(n as int)
    } else {
        s
    }
}

/// What a call finds and leaves as it found it: the loose-symbol flag, the
/// heights of the stack and of the list of frames, the base of the innermost
/// frame, and the current scope.
pub struct Saved {
    pub loose_symbols: bool,
    pub stack_len: nat,
    pub frames_len: nat,
    pub base: usize,
    pub namespace: usize,
}

/// What a call that begins in `env` finds.
pub open spec fn saved_of(env: EnvModel) -> Saved {
    Saved {
        loose_symbols: env.loose_symbols,
        stack_len: env.stack.len(),
        frames_len: env.stack_frames.len(),
        base: env.stack_frame_base,
        namespace: env.namespace,
    }
}

/// The state with the stack and the frames cut back to what a call found.
pub open spec fn rewound(env: EnvModel, saved: Saved) -> EnvModel {
    EnvModel {
        stack: clipped(env.stack, saved.stack_len),
        stack_frames: clipped(env.stack_frames, saved.frames_len),
        stack_frame_base: saved.base,
        ..env
    }
}

/// The state after a call: the scope, the loose-symbol flag, the height of the
/// stack, the number of frames and the base of the innermost frame are what the
/// call found.
pub open spec fn restored(env: EnvModel, saved: Saved) -> EnvModel {
    EnvModel {
        loose_symbols: saved.loose_symbols,
        namespace: saved.namespace,
        ..rewound(env, saved)
    }
}

/// The state in which a call runs: in the scope of the lambda, with loose
/// symbols switched off.
pub open spec fn in_call(env: EnvModel, namespace: usize) -> EnvModel {
    EnvModel { namespace, loose_symbols: false, ..env }
}

/// The state with one step less.
pub open spec fn stepped(env: EnvModel) -> EnvModel {
    EnvModel { steps_left: (env.steps_left - 1) as u64, ..env }
}

/// The state without a pending `recur`.
pub open spec fn signal_dropped(env: EnvModel) -> EnvModel {
    EnvModel { state: EnvState { recur_num_args: None, ..env.state }, ..env }
}

/// The state in which an evaluation step works: one step less, one level deeper.
pub open spec fn entered(env: EnvModel) -> EnvModel {
    EnvModel {
        steps_left: (env.steps_left - 1) as u64,
        state: EnvState { eval_level: (env.state.eval_level + 1) as u32, ..env.state },
        ..env
    }
}

/// What an evaluation step hands back when its work came to `out`: at the
/// outermost level a return that is still pending is a fault; a failure gets
/// the expression added to its trace; and the nesting is what it was.
pub open spec fn left(out: Outcome<Form>, e: Form) -> Outcome<Form> {
    let returned = out.env.state.eval_level == 1 && out.env.return_val is Some;
    let env = if returned {
        EnvModel { return_val: None, ..out.env }
    } else {
        out.env
    };
    let result = if returned {
        Err(fresh(FaultModel::ReturnWithoutBlock))
    } else {
        out.result
    };
    Outcome {
        result: match result {
            Ok(v) => Ok(v),
            Err(f) => Err(traced(f, e)),
        },
        env: EnvModel {
            state: EnvState { eval_level: (env.state.eval_level - 1) as u32, ..env.state },
            ..env
        },
    }
}

/// What `eval_nr` does: one evaluation of `e`, a deferred call that comes of it
/// left as it is.
///
/// With evaluation suppressed the expression is its own value; with a return
/// pending the value is nil; nested deeper than the limit, or with no steps
/// left, the evaluation fails at once. Otherwise it takes one step from the
/// allowance and evaluates one level deeper.
#[verifier::opaque]
pub open spec fn sem_eval_nr(env: EnvModel, e: Form) -> Option<Outcome<Form>>
    decreases env.steps_left, 0nat,
{
    if env.supress_eval {
        done(env, e)
    } else if env.return_val is Some {
        done(env, Form::Nil)
    } else if env.state.eval_level > EVAL_DEPTH_LIMIT {
        fail(env, FaultModel::TooDeep)
    } else if env.steps_left == 0 {
        fail(env, FaultModel::OutOfSteps)
    } else {
        match sem_internal(entered(env), e) {
            Some(out) => Some(left(out, e)),
            None => None,
        }
    }
}

/// What `resolve` does: a deferred call is forced, and what that yields, until
/// a value is left that is not a deferred call. Each forcing takes a step.
#[verifier::opaque]
pub open spec fn sem_resolve(env: EnvModel, v: Form) -> Option<Outcome<Form>>
    decreases env.steps_left, 10nat,
{
    match v {
        Form::LazyFn(target, parts) => if env.steps_left == 0 {
            fail(env, FaultModel::OutOfSteps)
        } else {
            match bounded(
                stepped(env).steps_left,
                sem_call_lambda(stepped(env), *target, parts, false),
            ) {
                Some(out) => match out.result {
                    Ok(next) => sem_resolve(out.env, next),
                    Err(f) => failed(out.env, f),
                },
                None => None,
            }
        },
        _ => done(env, v),
    }
}

/// What `eval` does: one evaluation, and the forcing of what comes of it.
#[verifier::opaque]
pub open spec fn sem_eval(env: EnvModel, e: Form) -> Option<Outcome<Form>>
    decreases env.steps_left, 20nat,
{
    match bounded(env.steps_left, sem_eval_nr(env, e)) {
        Some(out) => match out.result {
            Ok(v) => sem_resolve(out.env, v),
            Err(f) => failed(out.env, f),
        },
        None => None,
    }
}

/// What `eval_no_values` does: an evaluation to one value.
#[verifier::opaque]
pub open spec fn sem_eval_no_values(env: EnvModel, e: Form) -> Option<Outcome<Form>> {
    match sem_eval(env, e) {
        Some(out) => match out.result {
            Ok(v) => done(out.env, scalar_of(v)),
            Err(f) => failed(out.env, f),
        },
        None => None,
    }
}

/// What evaluating `forms[from..]` in turn does: the values in order, or the
/// first failure.
#[verifier::opaque]
pub open spec fn sem_eval_all(env: EnvModel, forms: Seq<Form>, from: int) -> Option<
    Outcome<Seq<Form>>,
>
    decreases env.steps_left, 40nat, forms.len() - from,
{
    if from < 0 || from >= forms.len() {
        done(env, Seq::empty())
    } else {
        match bounded(env.steps_left, sem_eval(env, forms[from])) {
            Some(out) => match out.result {
                Ok(v) => match sem_eval_all(out.env, forms, from + 1) {
                    Some(rest) => match rest.result {
                        Ok(vs) => done(rest.env, seq![v] + vs),
                        Err(f) => failed(rest.env, f),
                    },
                    None => None,
                },
                Err(f) => failed(out.env, f),
            },
            None => None,
        }
    }
}

/// What forcing each of `args[from..upto]` in turn does.
#[verifier::opaque]
pub open spec fn sem_resolve_all(env: EnvModel, args: Seq<Form>, from: int, upto: int) -> Option<
    Outcome<Seq<Form>>,
>
    decreases env.steps_left, 50nat, upto - from,
{
    if from < 0 || from >= upto || from >= args.len() {
        done(env, Seq::empty())
    } else {
        match bounded(env.steps_left, sem_resolve(env, args[from])) {
            Some(out) => match out.result {
                Ok(v) => match sem_resolve_all(out.env, args, from + 1, upto) {
                    Some(rest) => match rest.result {
                        Ok(vs) => done(rest.env, seq![v] + vs),
                        Err(f) => failed(rest.env, f),
                    },
                    None => None,
                },
                Err(f) => failed(out.env, f),
            },
            None => None,
        }
    }
}

/// What `setup_args` does: the values for the slots of the parameters `names`
/// when the call has the arguments `args`. Arguments that do not fit fail
/// before anything else happens; the argument of each fixed parameter is forced
/// if it is a deferred call.
#[verifier::opaque]
pub open spec fn sem_bind(env: EnvModel, names: Seq<Seq<char>>, args: Seq<Form>) -> Option<
    Outcome<Seq<Form>>,
>
    decreases env.steps_left, 51nat,
{
    match binding(names, args.len()) {
        Err(fault) => fail(env, fault),
        Ok(plan) => match sem_resolve_all(env, args, 0, plan.fixed as int) {
            Some(out) => match out.result {
                Ok(fixed) => done(out.env, bound_forms(plan, fixed, args)),
                Err(f) => failed(out.env, f),
            },
            None => None,
        },
    }
}

/// What `prep_stack` does: the frame for a call of `lambda` on `args`.
#[verifier::opaque]
pub open spec fn sem_prep(env: EnvModel, args: Seq<Form>, lambda: LambdaModel, f: Form) -> Option<
    Outcome<()>,
>
    decreases env.steps_left, 60nat,
{
    match sem_bind(env, lambda.params, args) {
        Some(out) => match out.result {
            Ok(bound) => done(with_frame(out.env, bound, lambda, f), ()),
            Err(failure) => failed(out.env, failure),
        },
        None => None,
    }
}

/// What one round of the call loop comes to.
pub enum RoundModel {
    /// The call is over, with this outcome.
    Finished(Outcome<Form>),
    /// Another round follows, in this state, with this lambda.
    Again(EnvModel, Form),
}

/// The frame is made anew for a call of `lambda` on `args`, for another round.
#[verifier::opaque]
pub open spec fn sem_reframe(env: EnvModel, args: Seq<Form>, lambda: LambdaModel, f: Form) -> Option<
    RoundModel,
>
    decreases env.steps_left, 61nat,
{
    match sem_prep(env, args, lambda, f) {
        None => None,
        Some(framed) => match framed.result {
            Ok(_) => Some(RoundModel::Again(framed.env, f)),
            Err(failure) => Some(
                RoundModel::Finished(Outcome { result: Err(failure), env: framed.env }),
            ),
        },
    }
}

/// What the call loop does with the value `v` of the body of `lambda`, which
/// `current` holds: as the result, which is forced; as the arguments of a
/// `recur`, with which the frame is made anew for the same lambda; or as a
/// deferred call, for whose lambda the frame is made anew in its own scope.
#[verifier::opaque]
pub open spec fn sem_step(
    saved: Saved,
    env: EnvModel,
    lambda: LambdaModel,
    current: Form,
    v: Form,
) -> Option<RoundModel>
    decreases env.steps_left, 62nat,
{
    match next_step(v, env.state.recur_num_args, env.exit_code is Some) {
        StepModel::Return => match sem_resolve(env, v) {
            Some(out) => Some(RoundModel::Finished(out)),
            None => None,
        },
        StepModel::Again => Some(RoundModel::Again(signal_dropped(env), current)),
        StepModel::Fail(fault) => Some(
            RoundModel::Finished(
                Outcome { result: Err(fresh(fault)), env: signal_dropped(env) },
            ),
        ),
        StepModel::Recur(args) => sem_reframe(
            rewound(signal_dropped(env), saved),
            args,
            lambda,
            current,
        ),
        StepModel::Hop(target, parts) => match lambda_in(target) {
            None => Some(
                RoundModel::Finished(
                    Outcome { result: Err(fresh(FaultModel::LambdaRequired)), env },
                ),
            ),
            Some(next) => sem_reframe(
                rewound(EnvModel { namespace: next.syms.namespace, ..env }, saved),
                parts,
                next,
                target,
            ),
        },
    }
}

/// What one round of the call loop does: it looks at the interrupt flag, which
/// it clears and fails on, takes a step, evaluates the body of the lambda that
/// `current` holds, and takes the value as `sem_step` says. A failure of the
/// body ends the call.
#[verifier::opaque]
pub open spec fn sem_round(saved: Saved, env: EnvModel, current: Form) -> Option<RoundModel>
    decreases env.steps_left, 65nat,
{
    if env.sig_int {
        Some(
            RoundModel::Finished(
                Outcome {
                    result: Err(fresh(FaultModel::Interrupted { in_lambda: true })),
                    env: EnvModel { sig_int: false, ..env },
                },
            ),
        )
    } else if env.steps_left == 0 {
        Some(RoundModel::Finished(Outcome { result: Err(fresh(FaultModel::OutOfSteps)), env }))
    } else {
        match lambda_in(current) {
            None => Some(
                RoundModel::Finished(
                    Outcome { result: Err(fresh(FaultModel::LambdaRequired)), env: stepped(env) },
                ),
            ),
            Some(lambda) => match bounded(
                stepped(env).steps_left,
                sem_eval_nr(stepped(env), *lambda.body),
            ) {
                None => None,
                Some(out) => match out.result {
                    Err(f) => Some(
                        RoundModel::Finished(Outcome { result: Err(f), env: out.env }),
                    ),
                    Ok(v) => sem_step(saved, out.env, lambda, current, v),
                },
            },
        }
    }
}

/// What the call loop does from the state `env` on, when `current` is the
/// lambda that runs: round after round, until one finishes the call.
#[verifier::opaque]
pub open spec fn sem_loop(saved: Saved, env: EnvModel, current: Form) -> Option<Outcome<Form>>
    decreases env.steps_left, 70nat,
{
    match sem_round(saved, env, current) {
        None => None,
        Some(RoundModel::Finished(out)) => Some(out),
        Some(RoundModel::Again(next, lambda)) => if next.steps_left < env.steps_left {
            sem_loop(saved, next, lambda)
        } else {
            None
        },
    }
}

/// What `call_lambda_int` does: the arguments are evaluated where they are to
/// be, the frame is made, and the loop runs.
#[verifier::opaque]
pub open spec fn sem_call_int(env: EnvModel, f: Form, args: Seq<Form>, eval_args: bool) -> Option<
    Outcome<Form>,
>
    decreases env.steps_left, 80nat,
{
    match lambda_in(f) {
        None => fail(env, FaultModel::LambdaRequired),
        Some(lambda) => match bounded(
            env.steps_left,
            sem_begin(env, f, lambda, args, eval_args),
        ) {
            None => None,
            Some(framed) => match framed.result {
                Err(failure) => failed(framed.env, failure),
                Ok(_) => sem_loop(saved_of(env), framed.env, f),
            },
        },
    }
}

/// How a call begins: the arguments are evaluated where they are to be, and
/// the frame is made.
#[verifier::opaque]
pub open spec fn sem_begin(
    env: EnvModel,
    f: Form,
    lambda: LambdaModel,
    args: Seq<Form>,
    eval_args: bool,
) -> Option<Outcome<()>>
    decreases env.steps_left, 75nat,
{
    if eval_args {
        match bounded(env.steps_left, sem_eval_all(env, args, 0)) {
            None => None,
            Some(out) => match out.result {
                Err(failure) => failed(out.env, failure),
                Ok(values) => bounded(env.steps_left, sem_prep(out.env, values, lambda, f)),
            },
        }
    } else {
        bounded(env.steps_left, sem_prep(env, args, lambda, f))
    }
}

/// What `call_lambda` does: the call of the lambda or macro `f` on `args`.
///
/// Anything else fails without touching the state. The call runs in the scope
/// of the lambda, with loose symbols switched off; whatever comes of it, the
/// scope, the flag and the bounds of the stack are afterwards what they were.
#[verifier::opaque]
pub open spec fn sem_call_lambda(env: EnvModel, f: Form, args: Seq<Form>, eval_args: bool) -> Option<
    Outcome<Form>,
>
    decreases env.steps_left, 90nat,
{
    match lambda_in(f) {
        None => fail(env, FaultModel::LambdaRequired),
        Some(lambda) => match sem_call_int(
            in_call(env, lambda.syms.namespace),
            f,
            args,
            eval_args,
        ) {
            Some(out) => Some(Outcome { result: out.result, env: restored(out.env, saved_of(env)) }),
            None => None,
        },
    }
}

/// What `exec_macro` does: the macro is called on the unevaluated `parts` and
/// the expansion is evaluated. Where a frame is active the expansion is first
/// resolved against its names, which a collaborator does.
#[verifier::opaque]
pub open spec fn sem_macro(env: EnvModel, lambda: LambdaModel, parts: Seq<Form>) -> Option<
    Outcome<Form>,
>
    decreases env.steps_left, 100nat,
{
    match bounded(env.steps_left, sem_call_lambda(env, Form::Lambda(lambda), parts, false)) {
        None => None,
        Some(out) => match out.result {
            Err(f) => failed(out.env, f),
            Ok(expansion) => match bounded(env.steps_left, sem_resolve(out.env, expansion)) {
                None => None,
                Some(forced) => match forced.result {
                    Err(f) => failed(forced.env, f),
                    Ok(form) => if forced.env.stack_frames.len() > 0 {
                        None
                    } else {
                        sem_eval(forced.env, form)
                    },
                },
            },
        },
    }
}

/// What `make_lazy` does: a deferred call of `lambda` on the values of `parts`.
#[verifier::opaque]
pub open spec fn sem_make_lazy(env: EnvModel, lambda: Form, parts: Seq<Form>) -> Option<
    Outcome<Form>,
>
    decreases env.steps_left, 100nat,
{
    match sem_eval_all(env, parts, 0) {
        None => None,
        Some(out) => match out.result {
            Err(f) => failed(out.env, f),
            Ok(values) => done(out.env, Form::LazyFn(Box::new(lambda), values)),
        },
    }
}

/// `(values form*)`: a multi-value result of the values of the forms, in order.
#[verifier::opaque]
pub open spec fn sem_values(env: EnvModel, parts: Seq<Form>) -> Option<Outcome<Form>>
    decreases env.steps_left, 140nat,
{
    match sem_eval_all(env, parts, 0) {
        None => None,
        Some(out) => match out.result {
            Err(f) => failed(out.env, f),
            Ok(values) => done(out.env, Form::Values(values)),
        },
    }
}

/// `(values-nth idx form)`: the value at `idx` of the multi-value result that
/// `form` evaluates to. The index is evaluated first, and where it is not a
/// number the form is not evaluated at all.
#[verifier::opaque]
pub open spec fn sem_values_nth(env: EnvModel, parts: Seq<Form>) -> Option<Outcome<Form>>
    decreases env.steps_left, 140nat,
{
    if parts.len() != 2 {
        fail(env, FaultModel::Usage(Callable::ValuesNth))
    } else {
        match bounded(env.steps_left, sem_eval(env, parts[0])) {
            None => None,
            Some(out) => match out.result {
                Err(f) => failed(out.env, f),
                Ok(idx) => if !(idx is Int) {
                    fail(out.env, FaultModel::Usage(Callable::ValuesNth))
                } else {
                    match sem_eval(out.env, parts[1]) {
                        None => None,
                        Some(last) => match last.result {
                            Err(f) => failed(last.env, f),
                            Ok(vals) => lift(last.env, nth_value(idx, vals)),
                        },
                    }
                },
            },
        }
    }
}

/// `(values-length form)`: the number of values of the multi-value result that
/// `form` evaluates to.
#[verifier::opaque]
pub open spec fn sem_values_length(env: EnvModel, parts: Seq<Form>) -> Option<Outcome<Form>>
    decreases env.steps_left, 140nat,
{
    if parts.len() != 1 {
        fail(env, FaultModel::Usage(Callable::ValuesLength))
    } else {
        match sem_eval(env, parts[0]) {
            None => None,
            Some(out) => match out.result {
                Err(f) => failed(out.env, f),
                Ok(vals) => lift(out.env, length_value(vals)),
            },
        }
    }
}

/// `(if test then else)`, the last part optional: the value of `then` where the
/// value of `test` is not nil, else that of `else`, or nil without one. The
/// branch is evaluated in tail position: a deferred call comes back as it is.
#[verifier::opaque]
pub open spec fn sem_if(env: EnvModel, parts: Seq<Form>) -> Option<Outcome<Form>>
    decreases env.steps_left, 140nat,
{
    if parts.len() < 2 || parts.len() > 3 {
        fail(env, FaultModel::Usage(Callable::If))
    } else {
        match bounded(env.steps_left, sem_eval(env, parts[0])) {
            None => None,
            Some(out) => match out.result {
                Err(f) => failed(out.env, f),
                Ok(test) => if !(test is Nil) {
                    sem_eval_nr(out.env, parts[1])
                } else if parts.len() == 3 {
                    sem_eval_nr(out.env, parts[2])
                } else {
                    done(out.env, Form::Nil)
                },
            },
        }
    }
}

/// `(recur form*)`: signals the call loop to run the lambda again on the values
/// of the forms, which come back as a list.
#[verifier::opaque]
pub open spec fn sem_recur(env: EnvModel, parts: Seq<Form>) -> Option<Outcome<Form>>
    decreases env.steps_left, 140nat,
{
    match sem_eval_all(env, parts, 0) {
        None => None,
        Some(out) => match out.result {
            Err(f) => failed(out.env, f),
            Ok(values) => done(
                EnvModel {
                    state: EnvState {
                        recur_num_args: Some(values.len() as usize),
                        ..out.env.state
                    },
                    ..out.env
                },
                Form::Vector(values),
            ),
        },
    }
}

/// `(pid form)`: the id of the process that `form` evaluates to.
#[verifier::opaque]
pub open spec fn sem_pid(env: EnvModel, parts: Seq<Form>) -> Option<Outcome<Form>>
    decreases env.steps_left, 140nat,
{
    if parts.len() != 1 {
        fail(env, FaultModel::Usage(Callable::Pid))
    } else {
        match sem_eval(env, parts[0]) {
            None => None,
            Some(out) => match out.result {
                Err(f) => failed(out.env, f),
                Ok(v) => lift(out.env, pid_value(v)),
            },
        }
    }
}

/// `(wait form)`: the exit status of the process that `form` evaluates to. A
/// process that is over answers with the status it ended with, without
/// waiting; how a wait for a running process or a process id ends is the
/// operating system's to say.
#[verifier::opaque]
pub open spec fn sem_wait(env: EnvModel, parts: Seq<Form>) -> Option<Outcome<Form>>
    decreases env.steps_left, 140nat,
{
    if parts.len() != 1 {
        fail(env, FaultModel::Usage(Callable::Wait))
    } else {
        match sem_eval(env, parts[0]) {
            None => None,
            Some(out) => match out.result {
                Err(f) => failed(out.env, f),
                Ok(v) => match wait_plan_of(v) {
                    WaitPlan::Cached(status) => done(out.env, Form::Int(status as i64)),
                    WaitPlan::NotPid => fail(out.env, FaultModel::Operand(Callable::Wait)),
                    WaitPlan::Block(_) => None,
                },
            },
        }
    }
}

/// A test on a path: whether the answer is yes is the file system's to say, but
/// not that there has to be one form, which evaluates to a string.
#[verifier::opaque]
pub open spec fn sem_path_test(env: EnvModel, test: Callable, parts: Seq<Form>) -> Option<
    Outcome<Form>,
>
    decreases env.steps_left, 140nat,
{
    if parts.len() != 1 {
        fail(env, FaultModel::Usage(test))
    } else {
        match sem_eval(env, parts[0]) {
            None => None,
            Some(out) => match out.result {
                Err(f) => failed(out.env, f),
                Ok(v) => if v is Text {
                    None
                } else {
                    fail(out.env, FaultModel::Operand(test))
                },
            },
        }
    }
}

/// `(quote form)`: the form, unevaluated.
#[verifier::opaque]
pub open spec fn sem_quote(env: EnvModel, parts: Seq<Form>) -> Option<Outcome<Form>> {
    if parts.len() == 1 {
        done(env, parts[0])
    } else {
        fail(env, FaultModel::BadForm)
    }
}

/// `(def name form)`: binds `name` in the current scope to the value of `form`,
/// and returns that value.
#[verifier::opaque]
pub open spec fn sem_def(env: EnvModel, parts: Seq<Form>) -> Option<Outcome<Form>>
    decreases env.steps_left, 140nat,
{
    match bound_name(parts) {
        None => fail(env, FaultModel::BadForm),
        Some(name) => match sem_eval(env, parts[1]) {
            None => None,
            Some(out) => match out.result {
                Err(f) => failed(out.env, f),
                Ok(v) => if out.env.namespace < out.env.namespaces.len() {
                    done(
                        EnvModel {
                            namespaces: out.env.namespaces.update(
                                out.env.namespace as int,
                                out.env.namespaces[out.env.namespace as int].inserted(
                                    name,
                                    v,
                                    Seq::empty(),
                                ),
                            ),
                            ..out.env
                        },
                        v,
                    )
                } else {
                    fail(out.env, FaultModel::IllegalState)
                },
            },
        },
    }
}

/// `(var name form)`: puts the value of `form` into the slot that the innermost
/// frame has for `name`, and returns that value. A name without a slot there is
/// not found.
#[verifier::opaque]
pub open spec fn sem_var(env: EnvModel, parts: Seq<Form>) -> Option<Outcome<Form>>
    decreases env.steps_left, 140nat,
{
    match bound_name(parts) {
        None => fail(env, FaultModel::BadForm),
        Some(name) => match sem_eval(env, parts[1]) {
            None => None,
            Some(out) => match out.result {
                Err(f) => failed(out.env, f),
                Ok(v) => if out.env.stack_frames.len() == 0 {
                    fail(out.env, FaultModel::SymbolNotFound(name))
                } else {
                    let frame = out.env.stack_frames.last();
                    let slot = first_named(frame.symbols.names, name, 0);
                    if slot < frame.symbols.names.len() && frame.index + slot
                        < out.env.stack.len() {
                        done(
                            EnvModel {
                                stack: out.env.stack.update(frame.index + slot, v),
                                ..out.env
                            },
                            v,
                        )
                    } else {
                        fail(out.env, FaultModel::SymbolNotFound(name))
                    }
                },
            },
        },
    }
}

/// What a back-quoted template comes to: a vector is rebuilt item by item,
/// vectors within it in the same way, and anything else is itself.
#[verifier::opaque]
pub open spec fn sem_quasi(env: EnvModel, template: Form) -> Option<Outcome<Form>>
    decreases env.steps_left, 120nat, template, 0nat,
{
    match template {
        Form::Vector(items) => match sem_quasi_items(env, items, 0) {
            None => None,
            Some(out) => match out.result {
                Err(f) => failed(out.env, f),
                Ok(made) => done(out.env, Form::Vector(made)),
            },
        },
        _ => done(env, template),
    }
}

/// What the item `items[from]` of a back-quoted list puts into the list that is
/// made, and where the next item begins: the item after a `,` is replaced by
/// its value, the item after a `,@` by the items of its value, which has to be
/// a list, and every other item by what it comes to as a template.
#[verifier::opaque]
pub open spec fn sem_quasi_item(env: EnvModel, items: Seq<Form>, from: int) -> Option<
    Outcome<(Seq<Form>, int)>,
>
    decreases env.steps_left, 120nat, items, 2 * (items.len() - from),
{
    if from < 0 || from >= items.len() {
        None
    } else {
        match unquote_of(items[from]) {
            Unquote::Keep => match sem_quasi(env, items[from]) {
                None => None,
                Some(out) => match out.result {
                    Err(f) => failed(out.env, f),
                    Ok(v) => done(out.env, (seq![v], from + 1)),
                },
            },
            Unquote::Value => if from + 1 < items.len() {
                match sem_eval(env, items[from + 1]) {
                    None => None,
                    Some(out) => match out.result {
                        Err(f) => failed(out.env, f),
                        Ok(v) => done(out.env, (seq![v], from + 2)),
                    },
                }
            } else {
                fail(env, FaultModel::BadForm)
            },
            Unquote::Splice => if from + 1 < items.len() {
                match sem_eval(env, items[from + 1]) {
                    None => None,
                    Some(out) => match out.result {
                        Err(f) => failed(out.env, f),
                        Ok(v) => match v {
                            Form::Vector(spliced) => done(out.env, (spliced, from + 2)),
                            _ => fail(out.env, FaultModel::BadForm),
                        },
                    },
                }
            } else {
                fail(env, FaultModel::BadForm)
            },
        }
    }
}

/// What the items `items[from..]` of a back-quoted list come to, item by item.
#[verifier::opaque]
pub open spec fn sem_quasi_items(env: EnvModel, items: Seq<Form>, from: int) -> Option<
    Outcome<Seq<Form>>,
>
    decreases env.steps_left, 120nat, items, 2 * (items.len() - from) + 1,
{
    if from < 0 || from >= items.len() {
        done(env, Seq::empty())
    } else {
        match bounded(env.steps_left, sem_quasi_item(env, items, from)) {
            None => None,
            Some(out) => match out.result {
                Err(f) => failed(out.env, f),
                Ok((made, next)) => if from < next <= items.len() {
                    match sem_quasi_items(out.env, items, next) {
                        None => None,
                        Some(rest) => match rest.result {
                            Err(f) => failed(rest.env, f),
                            Ok(more) => done(rest.env, made + more),
                        },
                    }
                } else {
                    None
                },
            },
        }
    }
}

/// `(bquote template)`: the template, with the item after each `,` replaced by
/// its value and the item after each `,@` by the items of its value.
#[verifier::opaque]
pub open spec fn sem_bquote(env: EnvModel, parts: Seq<Form>) -> Option<Outcome<Form>>
    decreases env.steps_left, 140nat,
{
    if parts.len() != 1 {
        fail(env, FaultModel::BadForm)
    } else {
        sem_quasi(env, parts[0])
    }
}

/// What `call_function` does: the call of a native on the unevaluated `parts`.
/// The natives that change directory, start pipelines, expand globs, or belong
/// to the host have their outcome from a collaborator.
#[verifier::opaque]
pub open spec fn sem_function(env: EnvModel, callable: Callable, parts: Seq<Form>) -> Option<
    Outcome<Form>,
>
    decreases env.steps_left, 150nat,
{
    match callable {
        Callable::Values => sem_values(env, parts),
        Callable::ValuesNth => sem_values_nth(env, parts),
        Callable::ValuesLength => sem_values_length(env, parts),
        Callable::If => sem_if(env, parts),
        Callable::Recur => sem_recur(env, parts),
        Callable::Pid => sem_pid(env, parts),
        Callable::Wait => sem_wait(env, parts),
        Callable::PathExists => sem_path_test(env, callable, parts),
        Callable::IsFile => sem_path_test(env, callable, parts),
        Callable::IsDir => sem_path_test(env, callable, parts),
        Callable::Cd => if parts.len() > 1 {
            fail(env, FaultModel::Usage(Callable::Cd))
        } else {
            None
        },
        Callable::Glob => if parts.len() == 0 {
            done(env, Form::Vector(Seq::empty()))
        } else {
            None
        },
        Callable::Pipe => None,
        Callable::Native(_) => None,
    }
}

/// What `eval_command` does: the value `com` is applied to `parts`. A lambda is
/// called, or its call is deferred where the context allows that; a macro is
/// expanded; a native and a special form get the unevaluated parts; text is a
/// command for the host where commands are allowed; nothing else can be called.
#[verifier::opaque]
pub open spec fn sem_command(env: EnvModel, com: Form, parts: Seq<Form>) -> Option<Outcome<Form>>
    decreases env.steps_left, 160nat,
{
    match com {
        Form::Lambda(_) => if env.allow_lazy_fn {
            sem_make_lazy(env, com, parts)
        } else {
            sem_call_lambda(env, com, parts, true)
        },
        Form::Macro(lambda) => sem_macro(env, lambda, parts),
        Form::Function(callable) => sem_function(env, callable, parts),
        Form::DeclareDef => sem_def(env, parts),
        Form::DeclareVar => sem_var(env, parts),
        Form::Quote => sem_quote(env, parts),
        Form::BackQuote => sem_bquote(env, parts),
        Form::Text(_, _) => if commands_allowed(env.form_type) {
            None
        } else {
            fail(env, FaultModel::InvalidCommand)
        },
        _ => fail(env, FaultModel::InvalidCommand),
    }
}

/// What a call comes to once its operator is the value `command`: a symbol
/// stands for the form it names, where that may be applied, and else for a
/// command, which is not found where commands are not allowed; a list and a
/// closure template are evaluated to what is applied; any other value is
/// applied as it is.
#[verifier::opaque]
pub open spec fn sem_apply(env: EnvModel, command: Form, parts: Seq<Form>) -> Option<Outcome<Form>>
    decreases env.steps_left, 170nat,
{
    match command {
        Form::Symbol(name, _) => if name.len() == 0 {
            done(env, Form::Nil)
        } else if names_form(env, name) {
            sem_command(env, env.lookup(name)->0, parts)
        } else if commands_allowed(env.form_type) {
            None
        } else {
            fail(env, FaultModel::FormNotFound(name))
        },
        Form::Vector(_) => sem_apply_evaluated(env, command, parts),
        Form::Pair(_, _) => sem_apply_evaluated(env, command, parts),
        Form::Wrapper(_) => sem_apply_evaluated(env, command, parts),
        _ => sem_command(env, command, parts),
    }
}

/// The operator is evaluated, and its value applied.
#[verifier::opaque]
pub open spec fn sem_apply_evaluated(env: EnvModel, command: Form, parts: Seq<Form>) -> Option<
    Outcome<Form>,
>
    decreases env.steps_left, 165nat,
{
    match bounded(env.steps_left, sem_eval(env, command)) {
        None => None,
        Some(out) => match out.result {
            Err(f) => failed(out.env, f),
            Ok(com) => sem_command(out.env, com, parts),
        },
    }
}

/// What `fn_eval_lazy` does: the evaluation of a call form, a vector or a pair
/// whose first item is the operator. Nil is nil, an empty vector has no
/// command, and anything but a list cannot be called.
#[verifier::opaque]
pub open spec fn sem_call_form(env: EnvModel, e: Form) -> Option<Outcome<Form>>
    decreases env.steps_left, 180nat,
{
    match call_parts(e) {
        None => if e is Nil {
            done(env, Form::Nil)
        } else if e is Vector {
            fail(env, FaultModel::NoCommand)
        } else {
            fail(env, FaultModel::NotCallable)
        },
        Some((head, parts)) => match bounded(env.steps_left, sem_resolve(env, head)) {
            None => None,
            Some(out) => match out.result {
                Err(f) => failed(out.env, f),
                Ok(command) => sem_apply(out.env, command, parts),
            },
        },
    }
}

/// What an expression evaluates to, by its variant.
///
/// Nil, true, numbers, characters, maps, lambdas, macros, processes and text
/// that has been substituted in are themselves. Other text is what substitution
/// makes of it. A symbol is what it stands for. A list is a call. A multi-value
/// result is what its first value evaluates to, or nil without one. Natives,
/// the markers of the special forms and files are nil. A deferred call is
/// forced, and what comes of it evaluated. A closure template becomes a lambda
/// with its captures taken anew, and one that holds no lambda is what it holds.
/// The markers that the symbol pass has to have replaced, and the value of an
/// unbound slot, are a fault.
#[verifier::opaque]
pub open spec fn sem_form(env: EnvModel, e: Form) -> Option<Outcome<Form>>
    decreases env.steps_left, 190nat, e,
{
    match e {
        Form::Nil => done(env, e),
        Form::True => done(env, e),
        Form::Int(_) => done(env, e),
        Form::Char(_) => done(env, e),
        Form::CodePoint(_) => done(env, e),
        Form::HashMap(_) => done(env, e),
        Form::Lambda(_) => done(env, e),
        Form::Macro(_) => done(env, e),
        Form::Process(_) => done(env, e),
        Form::Text(text, substituted) => if substituted {
            done(env, e)
        } else {
            sem_text(env, text, true)
        },
        Form::Symbol(name, loc) => lift(env, symbol_value(env, name, loc)),
        Form::Vector(_) => sem_call_form(env, e),
        Form::Pair(_, _) => sem_call_form(env, e),
        Form::Values(items) => if items.len() == 0 {
            done(env, Form::Nil)
        } else {
            sem_form(env, items[0])
        },
        Form::Function(_) => done(env, Form::Nil),
        Form::Quote => done(env, Form::Nil),
        Form::BackQuote => done(env, Form::Nil),
        Form::File(_) => done(env, Form::Nil),
        Form::LazyFn(_, _) => match bounded(env.steps_left, sem_resolve(env, e)) {
            None => None,
            Some(out) => match out.result {
                Err(f) => failed(out.env, f),
                Ok(v) => sem_eval(out.env, v),
            },
        },
        Form::Wrapper(inner) => match *inner {
            Form::Lambda(tpl) => done(env, Form::Lambda(specialized(env, tpl))),
            Form::Macro(tpl) => done(env, Form::Macro(specialized(env, tpl))),
            other => done(env, other),
        },
        Form::DeclareDef => fail(env, FaultModel::IllegalState),
        Form::DeclareVar => fail(env, FaultModel::IllegalState),
        Form::DeclareFn => fail(env, FaultModel::IllegalState),
        Form::DeclareMacro => fail(env, FaultModel::IllegalState),
        Form::Undefined => fail(env, FaultModel::IllegalState),
    }
}

/// What `internal_eval` does: one evaluation step. A set interrupt flag is
/// cleared and fails the step; a pending exit makes it nil; a pending `recur`
/// is dropped and fails it, for it was not in tail position; and else the
/// expression decides.
#[verifier::opaque]
pub open spec fn sem_internal(env: EnvModel, e: Form) -> Option<Outcome<Form>>
    decreases env.steps_left, 200nat,
{
    if env.sig_int {
        fail(EnvModel { sig_int: false, ..env }, FaultModel::Interrupted { in_lambda: false })
    } else if env.exit_code is Some {
        done(env, Form::Nil)
    } else if env.state.recur_num_args is Some {
        fail(signal_dropped(env), FaultModel::NonTailRecur)
    } else {
        sem_form(env, e)
    }
}

/// `r` and `after` are what `sem` says: the result and the state, where `sem`
/// has an answer.
pub open spec fn agrees(
    sem: Option<Outcome<Form>>,
    r: Result<Expression, LispError>,
    after: EnvModel,
) -> bool {
    sem matches Some(out) ==> after == out.env && match out.result {
        Ok(v) => r matches Ok(x) && x@ == v,
        Err(f) => r matches Err(err) && err@ == f,
    }
}

/// `r` and `after` are what `sem` says, where `sem` has an answer.
pub open spec fn agrees_all(
    sem: Option<Outcome<Seq<Form>>>,
    r: Result<Vec<Expression>, LispError>,
    after: EnvModel,
) -> bool {
    sem matches Some(out) ==> after == out.env && match out.result {
        Ok(vs) => r matches Ok(xs) && forms_of(xs@) == vs,
        Err(f) => r matches Err(err) && err@ == f,
    }
}

/// `prefix` in front of the values that `sem` comes to.
pub open spec fn after_values(prefix: Seq<Form>, sem: Option<Outcome<Seq<Form>>>) -> Option<
    Outcome<Seq<Form>>,
> {
    match sem {
        Some(out) => Some(
            Outcome {
                result: match out.result {
                    Ok(vs) => Ok(prefix + vs),
                    Err(f) => Err(f),
                },
                env: out.env,
            },
        ),
        None => None,
    }
}

} // verus!
