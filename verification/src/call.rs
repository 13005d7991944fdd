//! The call of a lambda or a macro, which leaves what it found as it found it.

use crate::environment::{carried, floor, same_slots, Environment};
use crate::error::{Fault, LispError};
use crate::host::Host;
use crate::invoke::call_lambda_int;
use crate::semantics::{agrees, sem_call_lambda};
use crate::steps::{keep, lambda_of, restore};
use crate::types::{forms_of, Expression};
use vstd::prelude::*;

verus! {

/// Calls the lambda or macro `lambda_exp` on `args`, which are evaluated first
/// where `eval_args` says so.
///
/// Whatever comes of the call, the current scope, the loose-symbol flag, the
/// height of the stack, the frames and the base of the innermost frame are
/// afterwards what they were before, and so is every slot below the frame of
/// the caller. The slots of the caller's own frame can be written to by the
/// arguments, where they are evaluated: where they are not, the whole stack is
/// what it was.
pub fn call_lambda<H: Host>(
    env: &mut Environment,
    host: &mut H,
    lambda_exp: &Expression,
    args: &Vec<Expression>,
    eval_args: bool,
) -> (r: Result<Expression, LispError>)
    ensures
        carried(old(env)@, final(env)@),
        final(env).loose_symbols == old(env).loose_symbols,
        final(env)@.stack.len() == old(env)@.stack.len(),
        final(env)@.stack_frames == old(env)@.stack_frames,
        same_slots(old(env)@, final(env)@, floor(old(env)@)),
        !eval_args ==> final(env)@.stack == old(env)@.stack,
        r matches Ok(v) ==> !(v@ is LazyFn),
        agrees(
            sem_call_lambda(old(env)@, lambda_exp@, forms_of(args@), eval_args),
            r,
            final(env)@,
        ),
    decreases old(env).steps_left, 90nat,
{
    proof {
        reveal(sem_call_lambda);
    }
    let namespace = match lambda_of(lambda_exp) {
        Some(lambda) => lambda.syms.namespace,
        None => {
            return Err(LispError::new(Fault::LambdaRequired));
        },
    };
    let kept = keep(env);
    env.enter_call(namespace);
    let ret = call_lambda_int(env, host, lambda_exp, args, eval_args);
    restore(env, &kept);
    proof {
        assert(env@.stack_frames =~= old(env)@.stack_frames);
        if !eval_args {
            assert(env@.stack =~= old(env)@.stack);
        }
    }
    ret
}

} // verus!
