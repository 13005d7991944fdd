//! Making the frame of a call anew for another round.

use crate::args::prep_stack;
use crate::environment::{floor, same_slots, within, Environment};
use crate::error::{Fault, LispError};
use crate::host::Host;
use crate::rounds::{agrees_round, Round};
use crate::semantics::{lambda_in, sem_prep, sem_reframe};
use crate::steps::lambda_of;
use crate::types::{forms_of, Expression};
use vstd::prelude::*;

verus! {

/// Makes the frame anew for another round with the lambda `lambda_exp`.
pub(crate) fn reframe<H: Host>(
    env: &mut Environment,
    host: &mut H,
    args: &Vec<Expression>,
    lambda_exp: Expression,
) -> (r: Result<Round, LispError>)
    requires
        lambda_in(lambda_exp@) is Some,
    ensures
        within(old(env)@, final(env)@),
        same_slots(old(env)@, final(env)@, old(env)@.stack.len() as int),
        r is Ok ==> floor(final(env)@) == old(env)@.stack.len(),
        r matches Ok(round) ==> round matches Round::Again(l) && l@ == lambda_exp@,
        agrees_round(
            sem_reframe(old(env)@, forms_of(args@), lambda_in(lambda_exp@)->0, lambda_exp@),
            r,
            final(env)@,
        ),
    decreases old(env).steps_left, 61nat,
{
    proof {
        reveal(sem_reframe);
        reveal(sem_prep);
    }
    match lambda_of(&lambda_exp) {
        Some(lambda) => {
            match prep_stack(env, host, args, lambda, lambda_exp.dup()) {
                Ok(()) => {},
                Err(err) => {
                    return Err(err);
                },
            }
        },
        None => {
            return Err(LispError::new(Fault::LambdaRequired));
        },
    }
    Ok(Round::Again(lambda_exp))
}

} // verus!
