//! Calling lambdas: the loop that runs a lambda without nesting calls in tail
//! position, and the call that restores what it found.

use crate::args::{agrees_unit, eval_all, prep_stack};
use crate::environment::{floor, held, same_slots, within, Environment};
use crate::error::{Fault, LispError};
use crate::host::Host;
use crate::rounds::{below_call, in_rounds, lemma_floor_rewound, round, Round};
use crate::semantics::{
    agrees, lambda_in, rewound, sem_begin, sem_call_int, sem_eval_all, sem_loop, sem_prep,
    sem_round,
};
use crate::steps::{keep, lambda_of, Kept};
use crate::types::{forms_of, Expression, Lambda};
use vstd::prelude::*;

verus! {

/// The call loop: round after round, until one finishes the call.
fn call_loop<H: Host>(
    env: &mut Environment,
    host: &mut H,
    kept: &Kept,
    first: Expression,
    Ghost(low): Ghost<int>,
) -> (r: Result<Expression, LispError>)
    requires
        lambda_in(first@) is Some,
        in_rounds(low, kept@, old(env)@),
        floor(old(env)@) >= kept.stack_len,
    ensures
        held(old(env)@, final(env)@),
        in_rounds(low, kept@, final(env)@),
        below_call(low, kept@, old(env)@, final(env)@),
        same_slots(old(env)@, final(env)@, kept.stack_len as int),
        r matches Ok(v) ==> !(v@ is LazyFn),
        agrees(sem_loop(kept@, old(env)@, first@), r, final(env)@),
    decreases old(env).steps_left, 70nat,
{
    let ghost all = sem_loop(kept@, old(env)@, first@);
    let mut current = first;
    loop
        invariant
            held(old(env)@, env@),
            in_rounds(low, kept@, env@),
            below_call(low, kept@, old(env)@, env@),
            same_slots(old(env)@, env@, kept.stack_len as int),
            floor(env@) >= kept.stack_len,
            lambda_in(current@) is Some,
            all == sem_loop(kept@, old(env)@, first@),
            all is Some ==> all == sem_loop(kept@, env@, current@),
        decreases env.steps_left,
    {
        proof {
            reveal(sem_loop);
            reveal(sem_round);
        }
        match round(env, host, kept, current, Ghost(low)) {
            Ok(Round::Finished(v)) => {
                return Ok(v);
            },
            Ok(Round::Again(next)) => {
                current = next;
            },
            Err(err) => {
                return Err(err);
            },
        }
    }
}

/// How a call begins: the arguments are evaluated where they are to be, and
/// the frame is made.
fn begin<H: Host>(
    env: &mut Environment,
    host: &mut H,
    lambda_exp: &Expression,
    lambda: &Lambda,
    args: &Vec<Expression>,
    eval_args: bool,
) -> (r: Result<(), LispError>)
    ensures
        within(old(env)@, final(env)@),
        r is Ok ==> floor(final(env)@) == old(env)@.stack.len(),
        !eval_args ==> same_slots(old(env)@, final(env)@, old(env)@.stack.len() as int),
        agrees_unit(
            sem_begin(old(env)@, lambda_exp@, lambda@, forms_of(args@), eval_args),
            r,
            final(env)@,
        ),
    decreases old(env).steps_left, 75nat,
{
    proof {
        reveal(sem_begin);
        reveal(sem_eval_all);
        reveal(sem_prep);
    }
    if eval_args {
        let values = match eval_all(env, host, args) {
            Ok(values) => values,
            Err(err) => {
                return Err(err);
            },
        };
        prep_stack(env, host, &values, lambda, lambda_exp.dup())
    } else {
        prep_stack(env, host, args, lambda, lambda_exp.dup())
    }
}

/// Runs a lambda: binds the arguments, then evaluates the body again and again
/// for as long as it comes back with a `recur` or with a deferred call of a
/// lambda, each of which is taken up here instead of nesting another call.
pub(crate) fn call_lambda_int<H: Host>(
    env: &mut Environment,
    host: &mut H,
    lambda_exp: &Expression,
    args: &Vec<Expression>,
    eval_args: bool,
) -> (r: Result<Expression, LispError>)
    ensures
        within(old(env)@, final(env)@),
        !eval_args ==> same_slots(old(env)@, final(env)@, old(env)@.stack.len() as int),
        r matches Ok(v) ==> !(v@ is LazyFn),
        agrees(
            sem_call_int(old(env)@, lambda_exp@, forms_of(args@), eval_args),
            r,
            final(env)@,
        ),
    decreases old(env).steps_left, 80nat,
{
    proof {
        reveal(sem_call_int);
        reveal(sem_begin);
        reveal(sem_loop);
    }
    let kept = keep(env);
    let ghost low = floor(old(env)@);
    match lambda_of(lambda_exp) {
        Some(lambda) => {
            match begin(env, host, lambda_exp, lambda, args, eval_args) {
                Ok(()) => {
                    proof {
                        lemma_floor_rewound(kept@, old(env)@, env@);
                        assert(rewound(old(env)@, kept@).stack =~= old(env)@.stack);
                        assert(rewound(old(env)@, kept@).stack_frames =~= old(env)@.stack_frames);
                    }
                },
                Err(err) => {
                    return Err(err);
                },
            }
        },
        None => {
            return Err(LispError::new(Fault::LambdaRequired));
        },
    }
    call_loop(env, host, &kept, lambda_exp.dup(), Ghost(low))
}

} // verus!
