//! The arguments of a call: how they are evaluated, bound and put into a frame.

use crate::binding::{bind_plan, rest_value};
use crate::environment::{
    carried, floor, same_slots, within, EnvModel, Environment, FrameModel,
};
use crate::error::LispError;
use crate::eval::eval;
use crate::frames::{lemma_with_frame, push_frame, with_frame};
use crate::host::Host;
use crate::lazy::resolve_all;
use crate::semantics::{
    after_values, agrees_all, sem_bind, sem_eval, sem_eval_all, sem_prep, sem_resolve_all, Outcome,
};
use crate::types::{forms_of, lemma_forms_push, texts, Expression, Form, Lambda};
use vstd::prelude::*;

verus! {

/// Evaluates each of `forms` in turn.
pub fn eval_all<H: Host>(env: &mut Environment, host: &mut H, forms: &Vec<Expression>) -> (r:
    Result<Vec<Expression>, LispError>)
    ensures
        carried(old(env)@, final(env)@),
        r matches Ok(values) ==> values@.len() == forms@.len() && forall|i: int|
            0 <= i < values@.len() ==> !(#[trigger] values@[i]@ is LazyFn),
        agrees_all(sem_eval_all(old(env)@, forms_of(forms@), 0), r, final(env)@),
    decreases old(env).steps_left, 40nat,
{
    proof {
        reveal(sem_eval_all);
    }
    let mut values: Vec<Expression> = Vec::new();
    let mut i: usize = 0;
    let ghost all = sem_eval_all(old(env)@, forms_of(forms@), 0);
    assert(forms_of(values@) + Seq::<Form>::empty() =~= forms_of(values@));
    while i < forms.len()
        invariant
            i <= forms.len(),
            values@.len() == i,
            carried(old(env)@, env@),
            forall|j: int| 0 <= j < values@.len() ==> !(#[trigger] values@[j]@ is LazyFn),
            all == sem_eval_all(old(env)@, forms_of(forms@), 0),
            all is Some ==> all == after_values(
                forms_of(values@),
                sem_eval_all(env@, forms_of(forms@), i as int),
            ),
        decreases forms.len() - i,
    {
        proof {
            reveal(sem_eval_all);
            reveal(sem_eval);
        }
        let ghost before = env@;
        let ghost prefix = forms_of(values@);
        let v = match eval(env, host, &forms[i]) {
            Ok(v) => v,
            Err(err) => {
                return Err(err);
            },
        };
        proof {
            lemma_forms_push(values@, v);
            let rest = sem_eval_all(env@, forms_of(forms@), i + 1);
            if all is Some {
                assert(sem_eval(before, forms_of(forms@)[i as int]) is Some);
                if rest is Some && rest->0.result is Ok {
                    assert(prefix + (seq![v@] + rest->0.result->Ok_0) =~= prefix.push(v@)
                        + rest->0.result->Ok_0);
                }
            }
        }
        values.push(v);
        i += 1;
    }
    proof {
        assert(forms_of(values@) + Seq::<Form>::empty() =~= forms_of(values@));
    }
    Ok(values)
}

/// What a call binds: the values for the slots of the parameters `names`, when
/// the call has the arguments `args`. The argument of each fixed parameter is
/// forced if it is a deferred call.
pub(crate) fn setup_args<H: Host>(
    env: &mut Environment,
    host: &mut H,
    names: &Vec<String>,
    args: &Vec<Expression>,
) -> (r: Result<Vec<Expression>, LispError>)
    ensures
        carried(old(env)@, final(env)@),
        agrees_all(sem_bind(old(env)@, texts(names@), forms_of(args@)), r, final(env)@),
        final(env)@.stack == old(env)@.stack,
    decreases old(env).steps_left, 51nat,
{
    proof {
        reveal(sem_bind);
        reveal(sem_resolve_all);
    }
    let plan = match bind_plan(names, args.len()) {
        Ok(plan) => plan,
        Err(err) => {
            return Err(err);
        },
    };
    let mut bound = match resolve_all(env, host, args, plan.fixed) {
        Ok(bound) => bound,
        Err(err) => {
            return Err(err);
        },
    };
    if plan.rest {
        let ghost fixed = bound@;
        let rest = rest_value(args, plan.fixed);
        proof {
            lemma_forms_push(fixed, rest);
        }
        bound.push(rest);
    }
    Ok(bound)
}

/// `r` and `after` are what `sem` says of the making of a frame.
pub open spec fn agrees_unit(sem: Option<Outcome<()>>, r: Result<(), LispError>, after: EnvModel) -> bool {
    sem matches Some(out) ==> after == out.env && match out.result {
        Ok(_) => r is Ok,
        Err(f) => r matches Err(err) && err@ == f,
    }
}

/// Makes the frame for a call of `lambda` on `args`.
pub(crate) fn prep_stack<H: Host>(
    env: &mut Environment,
    host: &mut H,
    args: &Vec<Expression>,
    lambda: &Lambda,
    lambda_exp: Expression,
) -> (r: Result<(), LispError>)
    ensures
        within(old(env)@, final(env)@),
        r is Ok ==> final(env)@.stack.len() > old(env)@.stack.len() && final(env)@.stack_frames.len() > old(env)@.stack_frames.len(),
        r is Err ==> carried(old(env)@, final(env)@),
        r is Ok ==> floor(final(env)@) == old(env)@.stack.len(),
        same_slots(old(env)@, final(env)@, old(env)@.stack.len() as int),
        agrees_unit(
            sem_prep(old(env)@, forms_of(args@), lambda@, lambda_exp@),
            r,
            final(env)@,
        ),
    decreases old(env).steps_left, 60nat,
{
    proof {
        reveal(sem_prep);
        reveal(sem_bind);
    }
    let bound = match setup_args(env, host, &lambda.params, args) {
        Ok(value) => value,
        Err(err) => {
            return Err(err);
        },
    };
    let ghost mid = env@;
    let height = env.stack.len();
    assert(mid.stack.len() == height);
    let ghost slots = forms_of(bound@);
    let ghost handle = lambda_exp@;
    proof {
        lemma_with_frame(mid, slots, lambda@, handle);
    }
    push_frame(env, bound, lambda, lambda_exp);
    proof {
        let after = env@;
        assert(after == with_frame(mid, slots, lambda@, handle));
        assert(after.stack_frames == mid.stack_frames.push(
            FrameModel { index: mid.stack.len() as usize, symbols: lambda@.syms },
        ));
        assert(after.stack_frames.last().index == mid.stack.len());
        assert(floor(after) == mid.stack.len());
        assert(floor(mid) <= mid.stack.len());
        assert forall|i: int| 0 <= i < mid.stack_frames.len() implies #[trigger] after.stack_frames[i]
            == mid.stack_frames[i] by {}
        assert(within(mid, after));
    }
    Ok(())
}

} // verus!
