//! Laws that hold of the interpreter, each stated over the functions that say
//! what the interpreter does, and proved.

use crate::binding::{binding, bound_forms, lemma_declared_all, rest_marker, BindPlan};
use crate::environment::{lemma_first_named, var_value, EVAL_DEPTH_LIMIT, EnvModel};
use crate::error::{fresh, FaultModel};
use crate::scan::{before, scan_from, scan_step, scanned, Mode, Part};
use crate::semantics::{
    commands_allowed, done, expanded, fail, failed, has_command, in_call, next_step, nth_value,
    restored, saved_of, scalar_of, sem_apply, sem_begin, sem_bind, sem_call_int, sem_call_lambda,
    sem_eval, sem_eval_nr, sem_form, sem_internal, sem_prep, sem_resolve, sem_wait, signal_dropped,
    stepped, substituted, traced, StepModel,
};
use crate::text::is_space;
use crate::types::{Form, LambdaModel, ProcessState, SymLoc};
use vstd::prelude::*;

verus! {

/// A call with fewer arguments than the parameters of a list that has no rest
/// parameter does not fit, and the fault reports the number of parameters as
/// expected and the number of arguments as given.
pub proof fn law_too_few_arguments(names: Seq<Seq<char>>, nargs: nat)
    requires
        forall|i: int| 0 <= i < names.len() ==> names[i] != rest_marker(),
        nargs < names.len(),
        names.len() <= usize::MAX,
    ensures
        binding(names, nargs) == Err::<BindPlan, FaultModel>(
            FaultModel::WrongParamCount {
                expected: names.len() as usize,
                got: nargs as usize,
                at_least: false,
            },
        ),
{
    lemma_first_named(names, rest_marker(), 0);
    lemma_declared_all(names, names.len() as int);
}

/// A call with fewer arguments than the names before the rest marker does not
/// fit, and the fault reports the least number of arguments that is accepted,
/// which is the number of those names, and the number of arguments as given.
pub proof fn law_too_few_arguments_before_rest(names: Seq<Seq<char>>, at: int, nargs: nat)
    requires
        0 <= at < names.len(),
        names[at] == rest_marker(),
        forall|i: int| 0 <= i < at ==> names[i] != rest_marker(),
        nargs < at,
        names.len() <= usize::MAX,
    ensures
        binding(names, nargs) == Err::<BindPlan, FaultModel>(
            FaultModel::WrongParamCount {
                expected: at as usize,
                got: nargs as usize,
                at_least: true,
            },
        ),
{
    lemma_first_named(names, rest_marker(), 0);
}

/// The call of a lambda that has no rest parameter, on fewer arguments than it
/// has parameters, fails with that fault and leaves the state as it was. The
/// arguments are as they are handed over, not evaluated first.
pub proof fn law_call_with_too_few_arguments(env: EnvModel, lambda: LambdaModel, args: Seq<Form>)
    requires
        forall|i: int| 0 <= i < lambda.params.len() ==> lambda.params[i] != rest_marker(),
        args.len() < lambda.params.len(),
        lambda.params.len() <= usize::MAX,
    ensures
        sem_call_lambda(env, Form::Lambda(lambda), args, false) == fail::<Form>(
            env,
            FaultModel::WrongParamCount {
                expected: lambda.params.len() as usize,
                got: args.len() as usize,
                at_least: false,
            },
        ),
{
    law_too_few_arguments(lambda.params, args.len());
    reveal(sem_call_lambda);
    reveal(sem_call_int);
    reveal(sem_begin);
    reveal(sem_prep);
    reveal(sem_bind);
    let inner = in_call(env, lambda.syms.namespace);
    let after = restored(inner, saved_of(env));
    assert(after.stack =~= env.stack);
    assert(after.stack_frames =~= env.stack_frames);
    assert(after == env);
}

/// Where a list ends in the marker and one name, the arguments of a call with
/// at least as many arguments as the parameters before the marker fit: those
/// parameters are bound to their arguments, and the last to nil when no
/// argument remains, else to exactly the remaining arguments in call order.
pub proof fn law_rest_binds_remaining(names: Seq<Seq<char>>, args: Seq<Form>)
    requires
        names.len() >= 2,
        names.len() <= usize::MAX,
        forall|i: int| 0 <= i < names.len() && i != names.len() - 2 ==> names[i] != rest_marker(),
        names[names.len() - 2] == rest_marker(),
        args.len() >= names.len() - 2,
    ensures
        binding(names, args.len()) == Ok::<BindPlan, FaultModel>(
            BindPlan { fixed: (names.len() - 2) as usize, rest: true },
        ),
        bound_forms(
            BindPlan { fixed: (names.len() - 2) as usize, rest: true },
            args.take(names.len() - 2),
            args,
        ) == args.take(names.len() - 2).push(
            if args.len() == names.len() - 2 {
                Form::Nil
            } else {
                Form::Vector(args.skip(names.len() - 2))
            },
        ),
{
    lemma_first_named(names, rest_marker(), 0);
}

/// An evaluation that can begin at all: evaluation is not suppressed, no return
/// is pending, the nesting is within the limit, and a step is left.
pub open spec fn can_begin(env: EnvModel) -> bool {
    &&& !env.supress_eval
    &&& env.return_val is None
    &&& env.state.eval_level <= EVAL_DEPTH_LIMIT
    &&& env.steps_left > 0
}

/// While a `recur` waits to be taken up by the call loop, whatever is evaluated
/// next fails, whatever it is and however many arguments the `recur` has: so a
/// `recur` in a position where something is evaluated after it is rejected. The
/// signal is dropped with the failure.
pub proof fn law_recur_outside_tail_position(env: EnvModel, e: Form)
    requires
        can_begin(env),
        !env.sig_int,
        env.exit_code is None,
        env.state.recur_num_args is Some,
    ensures
        sem_eval_nr(env, e) == failed::<Form>(
            signal_dropped(stepped(env)),
            traced(fresh(FaultModel::NonTailRecur), e),
        ),
{
    reveal(sem_eval_nr);
    reveal(sem_internal);
}

/// A `recur` in tail position hands its arguments to the call loop, which makes
/// the frame anew with them; where their number is not that of the parameters
/// of a lambda without a rest parameter, binding them fails as any call with
/// that number of arguments does, with the expected number and the number given.
pub proof fn law_recur_with_wrong_count(names: Seq<Seq<char>>, args: Seq<Form>)
    requires
        forall|i: int| 0 <= i < names.len() ==> names[i] != rest_marker(),
        names.len() <= usize::MAX,
        args.len() <= usize::MAX,
        args.len() != names.len(),
    ensures
        next_step(Form::Vector(args), Some(args.len() as usize), false) == StepModel::Recur(args),
        binding(names, args.len()) == Err::<BindPlan, FaultModel>(
            FaultModel::WrongParamCount {
                expected: names.len() as usize,
                got: args.len() as usize,
                at_least: false,
            },
        ),
{
    lemma_first_named(names, rest_marker(), 0);
    lemma_declared_all(names, names.len() as int);
}

/// An index that a multi-value result does not have is a fault that names the
/// index and the number of values.
pub proof fn law_values_index_out_of_range(index: i64, items: Seq<Form>)
    requires
        index < 0 || index >= items.len(),
    ensures
        nth_value(Form::Int(index), Form::Values(items)) == Err::<Form, FaultModel>(
            FaultModel::ValuesRange { index, len: items.len() as usize },
        ),
{
}

/// A multi-value result that is evaluated is what its first value evaluates to,
/// and nil where it has no value.
pub proof fn law_values_evaluate_to_first(env: EnvModel, items: Seq<Form>)
    ensures
        items.len() == 0 ==> sem_form(env, Form::Values(items)) == done(env, Form::Nil),
        items.len() > 0 ==> sem_form(env, Form::Values(items)) == sem_form(env, items[0]),
{
    reveal(sem_form);
}

/// Where one value is asked for, a multi-value result gives its first value, and
/// nil where it has none.
pub proof fn law_scalar_of_values(items: Seq<Form>)
    ensures
        scalar_of(Form::Values(items)) == if items.len() == 0 {
            Form::Nil
        } else {
            items[0]
        },
{
}

/// Nothing asks an evaluation to stop before it looks at the expression: no
/// interrupt, no exit, and no `recur` that waits to be taken up.
pub open spec fn calm(env: EnvModel) -> bool {
    !env.sig_int && env.exit_code is None && env.state.recur_num_args is None
}

/// A wait on a process that is over answers with the exit status that the
/// handle holds, and all it costs is the step of evaluating the handle.
pub proof fn law_wait_on_finished_process(env: EnvModel, pid: u32, status: i32)
    requires
        can_begin(env),
        calm(env),
    ensures
        sem_wait(env, seq![Form::Process(ProcessState::Over(pid, status))]) == done(
            stepped(env),
            Form::Int(status as i64),
        ),
{
    reveal(sem_wait);
    reveal(sem_eval);
    reveal(sem_eval_nr);
    reveal(sem_internal);
    reveal(sem_form);
    reveal(sem_resolve);
}

/// An evaluation that finds the interrupt flag set fails, and clears the flag.
pub proof fn law_interrupt_stops_evaluation(env: EnvModel, e: Form)
    requires
        can_begin(env),
        env.sig_int,
    ensures
        sem_eval_nr(env, e) == failed::<Form>(
            EnvModel { sig_int: false, ..stepped(env) },
            traced(fresh(FaultModel::Interrupted { in_lambda: false }), e),
        ),
{
    reveal(sem_eval_nr);
    reveal(sem_internal);
}

/// An evaluation that is nested deeper than the limit fails at once, and
/// changes nothing.
pub proof fn law_depth_is_limited(env: EnvModel, e: Form)
    requires
        !env.supress_eval,
        env.return_val is None,
        env.state.eval_level > EVAL_DEPTH_LIMIT,
    ensures
        sem_eval_nr(env, e) == fail::<Form>(env, FaultModel::TooDeep),
{
    reveal(sem_eval_nr);
}

/// A call whose operator is a symbol that names nothing is not found where
/// commands are not allowed, and the fault names the symbol.
pub proof fn law_unbound_operator_is_not_found(
    env: EnvModel,
    name: Seq<char>,
    loc: SymLoc,
    parts: Seq<Form>,
)
    requires
        name.len() > 0,
        env.lookup(name) is None,
        !commands_allowed(env.form_type),
    ensures
        sem_apply(env, Form::Symbol(name, loc), parts) == fail::<Form>(
            env,
            FaultModel::FormNotFound(name),
        ),
{
    reveal(sem_apply);
}

/// Whatever comes of a call, the current scope, the loose-symbol flag and the
/// base of the innermost frame are afterwards what they were, and the stack and
/// the list of frames are no higher than they were.
pub proof fn law_call_restores(env: EnvModel, f: Form, args: Seq<Form>, eval_args: bool)
    ensures
        sem_call_lambda(env, f, args, eval_args) matches Some(out) ==> {
            &&& out.env.namespace == env.namespace
            &&& out.env.loose_symbols == env.loose_symbols
            &&& out.env.stack_frame_base == env.stack_frame_base
            &&& out.env.stack.len() <= env.stack.len()
            &&& out.env.stack_frames.len() <= env.stack_frames.len()
        },
{
    reveal(sem_call_lambda);
}

/// Whether `c` can stand in the name of a variable without ending it.
pub open spec fn is_name_char(c: char) -> bool {
    !is_space(c) && c != '"' && c != ':' && c != '$'
}

/// A name that a `$` can stand before as a reference to a variable: it is made
/// of characters that do not end a name, and does not begin with a parenthesis.
pub open spec fn is_name(name: Seq<char>) -> bool {
    &&& forall|i: int| 0 <= i < name.len() ==> is_name_char(#[trigger] name[i])
    &&& name.len() > 0 ==> name[0] != '('
}

proof fn lemma_scan_name(text: Seq<char>, i: int)
    requires
        1 <= i <= text.len(),
        text[0] == '$',
        forall|j: int| 1 <= j < text.len() ==> is_name_char(#[trigger] text[j]),
        text.len() > 1 ==> text[1] != '(',
    ensures
        scan_from(text, i, Mode::Var { start: 0 }) == Ok::<Seq<Part>, FaultModel>(
            seq![Part::Var(text.subrange(1, text.len() as int))],
        ),
    decreases text.len() - i,
{
    if i < text.len() {
        assert(is_name_char(text[i]));
        let step = scan_step(text, i, Mode::Var { start: 0 });
        assert(step.0 == Mode::Var { start: 0 });
        assert(step.1 == Seq::<Part>::empty());
        lemma_scan_name(text, i + 1);
        assert(Seq::<Part>::empty() + seq![Part::Var(text.subrange(1, text.len() as int))]
            =~= seq![Part::Var(text.subrange(1, text.len() as int))]);
    }
}

/// Text that is a `$` and a name is replaced by the value of the variable of
/// that name, and by nothing where the variable is not set.
pub proof fn law_variable_reference(env: EnvModel, name: Seq<char>)
    requires
        is_name(name),
        !env.str_ignore_expand,
    ensures
        substituted(env, seq!['$'] + name, true) == Some(
            Ok::<Seq<char>, FaultModel>(
                match var_value(env.vars, name) {
                    Some(value) => value,
                    None => Seq::empty(),
                },
            ),
        ),
{
    let text = seq!['$'] + name;
    assert(text[0] == '$');
    assert(text.contains('$'));
    assert forall|j: int| 1 <= j < text.len() implies is_name_char(#[trigger] text[j]) by {
        assert(text[j] == name[j - 1]);
    }
    if text.len() > 1 {
        assert(text[1] == name[0]);
    }
    let step = scan_step(text, 0, Mode::Plain);
    assert(step.0 == Mode::Var { start: 0 });
    assert(step.1 == Seq::<Part>::empty());
    lemma_scan_name(text, 1);
    let parts = seq![Part::Var(text.subrange(1, text.len() as int))];
    assert(Seq::<Part>::empty() + parts =~= parts);
    assert(scanned(text) == Ok::<Seq<Part>, FaultModel>(parts));
    assert(text.subrange(1, text.len() as int) =~= name);
    assert(!has_command(parts, 1));
    assert(expanded(parts, env, 0) == Seq::<char>::empty());
    assert(expanded(parts, env, 1) =~= match var_value(env.vars, name) {
        Some(value) => value,
        None => Seq::empty(),
    });
}

proof fn lemma_scan_open_command(text: Seq<char>, i: int, start: usize, depth: usize)
    requires
        0 <= i <= text.len(),
        depth >= 1,
        depth + (text.len() - i) <= usize::MAX,
        forall|j: int| i <= j < text.len() ==> text[j] != ')',
    ensures
        scan_from(text, i, Mode::Command { start, depth }) == Err::<Seq<Part>, FaultModel>(
            FaultModel::UnterminatedCommand,
        ),
    decreases text.len() - i,
{
    if i < text.len() {
        let step = scan_step(text, i, Mode::Command { start, depth });
        if text[i] == '(' && before(text, i) != '\\' {
            assert(step.0 == Mode::Command { start, depth: (depth + 1) as usize });
            lemma_scan_open_command(text, i + 1, start, (depth + 1) as usize);
        } else {
            assert(step.0 == Mode::Command { start, depth });
            lemma_scan_open_command(text, i + 1, start, depth);
        }
    }
}

/// Text that opens a command with `$(` and holds no closing parenthesis after
/// it is malformed.
pub proof fn law_unterminated_command(env: EnvModel, rest: Seq<char>)
    requires
        !env.str_ignore_expand,
        rest.len() + 3 <= usize::MAX,
        forall|j: int| 0 <= j < rest.len() ==> rest[j] != ')',
    ensures
        substituted(env, seq!['$', '('] + rest, true) == Some(
            Err::<Seq<char>, FaultModel>(FaultModel::UnterminatedCommand),
        ),
{
    let text = seq!['$', '('] + rest;
    assert(text[0] == '$' && text[1] == '(');
    assert(text.contains('$'));
    let first = scan_step(text, 0, Mode::Plain);
    assert(first.0 == Mode::Var { start: 0 });
    let second = scan_step(text, 1, Mode::Var { start: 0 });
    assert(second.0 == Mode::Command { start: 0, depth: 1 });
    assert forall|j: int| 2 <= j < text.len() implies text[j] != ')' by {
        assert(text[j] == rest[j - 2]);
    }
    lemma_scan_open_command(text, 2, 0, 1);
    assert(scan_from(text, 1, Mode::Var { start: 0 }) == Err::<Seq<Part>, FaultModel>(
        FaultModel::UnterminatedCommand,
    ));
}

/// A marker that stands where a form is evaluated is a fault of the
/// interpreter itself, whichever of the five it is: the form is never a value.
pub proof fn law_markers_are_an_internal_fault(env: EnvModel, e: Form)
    requires
        e is DeclareDef || e is DeclareVar || e is DeclareFn || e is DeclareMacro || e is Undefined,
    ensures
        sem_form(env, e) == fail::<Form>(env, FaultModel::IllegalState),
{
    reveal(sem_form);
}

} // verus!
