//! Laws of calls: what a call comes to for lambdas whose body reads a slot of
//! the frame.

use crate::binding::{binding, bound_forms, BindPlan};
use crate::environment::{EVAL_DEPTH_LIMIT, EnvModel};
use crate::error::FaultModel;
use crate::frames::{extra_slots, with_frame};
use crate::semantics::{
    bounded, done, entered, in_call, left, next_step, restored, saved_of, sem_begin, sem_bind,
    sem_call_int, sem_call_lambda, sem_eval_nr, sem_form, sem_internal, sem_loop, sem_prep,
    sem_resolve, sem_resolve_all, sem_round, sem_step, stepped, symbol_value, Outcome, RoundModel,
    Saved, StepModel,
};
use crate::types::{Form, LambdaModel, SymLoc};
use vstd::prelude::*;

verus! {

/// None of `args[from..upto]` is a deferred call.
pub open spec fn plain(args: Seq<Form>, from: int, upto: int) -> bool {
    forall|i: int| from <= i < upto && 0 <= i < args.len() ==> !(#[trigger] args[i] is LazyFn)
}

/// Forcing arguments of which none is a deferred call gives the arguments and
/// changes nothing.
pub proof fn lemma_resolve_all_plain(env: EnvModel, args: Seq<Form>, from: int, upto: int)
    requires
        0 <= from <= upto <= args.len(),
        plain(args, from, upto),
    ensures
        sem_resolve_all(env, args, from, upto) == done(env, args.subrange(from, upto)),
    decreases upto - from,
{
    reveal(sem_resolve_all);
    reveal(sem_resolve);
    if from < upto {
        assert(!(args[from] is LazyFn));
        assert(sem_resolve(env, args[from]) == done(env, args[from]));
        assert(bounded(env.steps_left, sem_resolve(env, args[from])) == done(env, args[from]));
        lemma_resolve_all_plain(env, args, from + 1, upto);
        assert(sem_resolve_all(env, args, from + 1, upto) == done(
            env,
            args.subrange(from + 1, upto),
        ));
        assert(seq![args[from]] + args.subrange(from + 1, upto) =~= args.subrange(from, upto));
        assert(sem_resolve_all(env, args, from, upto) == done(
            env,
            seq![args[from]] + args.subrange(from + 1, upto),
        ));
    } else {
        assert(args.subrange(from, upto) =~= Seq::<Form>::empty());
    }
}

/// What a call binds when its arguments fit and none of those for the fixed
/// parameters is a deferred call: the arguments of the fixed parameters as they
/// are, then the rest value.
pub open spec fn bound_plainly(plan: BindPlan, args: Seq<Form>) -> Seq<Form> {
    bound_forms(plan, args.take(plan.fixed as int), args)
}

/// The frame of a call whose arguments fit, none of them a deferred call.
pub proof fn lemma_prep_plain(env: EnvModel, args: Seq<Form>, lambda: LambdaModel, f: Form)
    requires
        binding(lambda.params, args.len()) is Ok,
        binding(lambda.params, args.len())->Ok_0.fixed <= args.len(),
        plain(args, 0, binding(lambda.params, args.len())->Ok_0.fixed as int),
    ensures
        sem_prep(env, args, lambda, f) == done(
            with_frame(
                env,
                bound_plainly(binding(lambda.params, args.len())->Ok_0, args),
                lambda,
                f,
            ),
            (),
        ),
{
    let plan = binding(lambda.params, args.len())->Ok_0;
    lemma_resolve_all_plain(env, args, 0, plan.fixed as int);
    assert(args.subrange(0, plan.fixed as int) =~= args.take(plan.fixed as int));
    reveal(sem_prep);
    reveal(sem_bind);
    reveal(sem_resolve_all);
}

/// In the frame of a lambda without captures, the slot of each bound value
/// holds that value.
pub proof fn lemma_slot_holds_bound_value(
    env: EnvModel,
    bound: Seq<Form>,
    lambda: LambdaModel,
    f: Form,
    k: usize,
)
    requires
        lambda.syms.captures.len() == 0,
        k < bound.len(),
        env.stack.len() + bound.len() + 1 + extra_slots(bound.len(), lambda.syms) <= usize::MAX,
    ensures
        with_frame(env, bound, lambda, f).stack_value(k) == Some(bound[k as int]),
{
}

/// A state in which a call can run its body undisturbed: nothing asks it to
/// stop, evaluation is not suppressed, no return is pending, the nesting is
/// within the limit, and two steps are left, one for the round of the call loop
/// and one for the evaluation of the body.
pub open spec fn undisturbed(env: EnvModel) -> bool {
    &&& !env.sig_int
    &&& env.exit_code is None
    &&& env.state.recur_num_args is None
    &&& !env.supress_eval
    &&& env.return_val is None
    &&& env.state.eval_level <= EVAL_DEPTH_LIMIT
    &&& env.steps_left >= 2
}

/// The state with two steps less.
pub open spec fn two_steps_on(env: EnvModel) -> EnvModel {
    EnvModel { steps_left: (env.steps_left - 2) as u64, ..env }
}

/// A round of the call loop for a lambda whose body is a slot of the frame
/// finishes the call with the value in that slot.
pub proof fn lemma_round_reads_slot(
    saved: Saved,
    env: EnvModel,
    lambda: LambdaModel,
    name: Seq<char>,
    k: usize,
    v: Form,
)
    requires
        undisturbed(env),
        *lambda.body == Form::Symbol(name, SymLoc::Stack(k)),
        env.stack_value(k) == Some(v),
        !(v is LazyFn),
    ensures
        sem_round(saved, env, Form::Lambda(lambda)) == Some(
            RoundModel::Finished(Outcome { result: Ok(v), env: two_steps_on(env) }),
        ),
{
    reveal(sem_round);
    reveal(sem_eval_nr);
    reveal(sem_internal);
    reveal(sem_form);
    reveal(sem_step);
    reveal(sem_resolve);
    let body = Form::Symbol(name, SymLoc::Stack(k));
    let inner = entered(stepped(env));
    assert(symbol_value(inner, name, SymLoc::Stack(k)) == Ok::<Form, FaultModel>(v));
    assert(sem_form(inner, body) == done(inner, v));
    assert(sem_internal(inner, body) == done(inner, v));
    let out = left(Outcome { result: Ok(v), env: inner }, body);
    assert(out.env == two_steps_on(env));
    assert(sem_eval_nr(stepped(env), body) == Some(out));
    assert(next_step(v, None, false) == StepModel::Return);
    assert(sem_resolve(two_steps_on(env), v) == done(two_steps_on(env), v));
    assert(sem_step(saved, two_steps_on(env), lambda, Form::Lambda(lambda), v) == Some(
        RoundModel::Finished(Outcome { result: Ok(v), env: two_steps_on(env) }),
    ));
}

/// The call of a lambda whose body is a slot of its frame comes to what the
/// call bound to that slot, and leaves the state as it was but for the two steps
/// it took. The lambda has no captures; the arguments are as they are handed
/// over, fit the parameters, and none of them is a deferred call.
pub proof fn law_call_returns_bound_value(
    env: EnvModel,
    lambda: LambdaModel,
    args: Seq<Form>,
    name: Seq<char>,
    k: usize,
)
    requires
        undisturbed(env),
        *lambda.body == Form::Symbol(name, SymLoc::Stack(k)),
        lambda.syms.captures.len() == 0,
        binding(lambda.params, args.len()) is Ok,
        binding(lambda.params, args.len())->Ok_0.fixed <= args.len(),
        forall|i: int| 0 <= i < args.len() ==> !(#[trigger] args[i] is LazyFn),
        k < bound_plainly(binding(lambda.params, args.len())->Ok_0, args).len(),
        env.stack.len() + args.len() + 2 + lambda.syms.names.len() <= usize::MAX,
    ensures
        sem_call_lambda(env, Form::Lambda(lambda), args, false) == done(
            two_steps_on(env),
            bound_plainly(binding(lambda.params, args.len())->Ok_0, args)[k as int],
        ),
{
    let plan = binding(lambda.params, args.len())->Ok_0;
    let bound = bound_plainly(plan, args);
    let f = Form::Lambda(lambda);
    let inner = in_call(env, lambda.syms.namespace);
    let framed = with_frame(inner, bound, lambda, f);
    let v = bound[k as int];
    lemma_prep_plain(inner, args, lambda, f);
    lemma_slot_holds_bound_value(inner, bound, lambda, f, k);
    assert(!(v is LazyFn)) by {
        if k < plan.fixed {
            assert(v == args[k as int]);
        }
    }
    let saved = saved_of(inner);
    lemma_round_reads_slot(saved, framed, lambda, name, k, v);
    reveal(sem_begin);
    reveal(sem_prep);
    reveal(sem_loop);
    reveal(sem_round);
    reveal(sem_call_int);
    assert(sem_prep(inner, args, lambda, f) == done(framed, ()));
    assert(sem_begin(inner, f, lambda, args, false) == done(framed, ()));
    assert(sem_round(saved, framed, f) == Some(
        RoundModel::Finished(Outcome { result: Ok(v), env: two_steps_on(framed) }),
    ));
    assert(sem_loop(saved, framed, f) == done(two_steps_on(framed), v));
    assert(sem_call_int(inner, f, args, false) == done(two_steps_on(framed), v));
    let after = restored(two_steps_on(framed), saved_of(env));
    assert(after == two_steps_on(env)) by {
        crate::frames::lemma_with_frame(inner, bound, lambda, f);
        assert(framed.stack.take(env.stack.len() as int) =~= env.stack);
        assert(after.stack =~= env.stack);
        assert(after.stack_frames =~= env.stack_frames);
    }
    reveal(sem_call_lambda);
}

/// The call of a lambda whose parameters end in the marker and one name, and
/// whose body is the slot of that last parameter, comes to nil when no argument
/// remains for it, and else to the list of exactly the arguments that remain, in
/// call order.
pub proof fn law_call_returns_rest(
    env: EnvModel,
    lambda: LambdaModel,
    args: Seq<Form>,
    name: Seq<char>,
)
    requires
        undisturbed(env),
        lambda.params.len() >= 2,
        forall|i: int|
            0 <= i < lambda.params.len() && i != lambda.params.len() - 2 ==> lambda.params[i]
                != crate::binding::rest_marker(),
        lambda.params[lambda.params.len() - 2] == crate::binding::rest_marker(),
        *lambda.body == Form::Symbol(name, SymLoc::Stack((lambda.params.len() - 2) as usize)),
        lambda.syms.captures.len() == 0,
        args.len() >= lambda.params.len() - 2,
        forall|i: int| 0 <= i < args.len() ==> !(#[trigger] args[i] is LazyFn),
        env.stack.len() + args.len() + 2 + lambda.syms.names.len() <= usize::MAX,
        lambda.params.len() <= usize::MAX,
    ensures
        sem_call_lambda(env, Form::Lambda(lambda), args, false) == done(
            two_steps_on(env),
            if args.len() == lambda.params.len() - 2 {
                Form::Nil
            } else {
                Form::Vector(args.skip(lambda.params.len() - 2))
            },
        ),
{
    crate::laws::law_rest_binds_remaining(lambda.params, args);
    law_call_returns_bound_value(env, lambda, args, name, (lambda.params.len() - 2) as usize);
}

} // verus!
