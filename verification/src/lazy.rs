//! Deferred calls: how they are forced.

use crate::call::call_lambda;
use crate::environment::{carried, Environment};
use crate::error::{Fault, LispError};
use crate::host::Host;
use crate::semantics::{
    after_values, agrees, agrees_all, left, sem_call_lambda, sem_resolve, sem_resolve_all,
};
use crate::types::{forms_of, lemma_forms_push, ExpEnum, Expression, Form};
use vstd::prelude::*;

verus! {

/// Forces a deferred call, and what that yields, until a value is left that is
/// not a deferred call. Anything else comes back as it is.
pub fn resolve<H: Host>(env: &mut Environment, host: &mut H, e: Expression) -> (r: Result<
    Expression,
    LispError,
>)
    ensures
        carried(old(env)@, final(env)@),
        r matches Ok(v) ==> !(v@ is LazyFn),
        agrees(sem_resolve(old(env)@, e@), r, final(env)@),
        final(env)@.stack == old(env)@.stack,
    decreases old(env).steps_left, 10nat,
{
    proof {
        reveal(sem_resolve);
        reveal(sem_call_lambda);
    }
    let next = match e.get() {
        ExpEnum::LazyFn(target, parts) => {
            if env.steps_left == 0 {
                return Err(LispError::new(Fault::OutOfSteps));
            }
            env.take_step();
            match call_lambda(env, host, target, parts, false) {
                Ok(next) => next,
                Err(err) => {
                    return Err(err);
                },
            }
        },
        _ => {
            return Ok(e);
        },
    };
    resolve(env, host, next)
}

/// Forces each of the first `upto` of `args` in turn.
pub(crate) fn resolve_all<H: Host>(
    env: &mut Environment,
    host: &mut H,
    args: &Vec<Expression>,
    upto: usize,
) -> (r: Result<Vec<Expression>, LispError>)
    requires
        upto <= args.len(),
    ensures
        carried(old(env)@, final(env)@),
        r matches Ok(values) ==> values@.len() == upto,
        agrees_all(sem_resolve_all(old(env)@, forms_of(args@), 0, upto as int), r, final(env)@),
        final(env)@.stack == old(env)@.stack,
    decreases old(env).steps_left, 50nat,
{
    let ghost all = sem_resolve_all(old(env)@, forms_of(args@), 0, upto as int);
    let mut bound: Vec<Expression> = Vec::new();
    let mut i: usize = 0;
    assert(forms_of(bound@) + Seq::<Form>::empty() =~= forms_of(bound@));
    proof {
        reveal(sem_resolve_all);
    }
    while i < upto
        invariant
            i <= upto <= args.len(),
            bound@.len() == i,
            carried(old(env)@, env@),
            env@.stack == old(env)@.stack,
            all == sem_resolve_all(old(env)@, forms_of(args@), 0, upto as int),
            all is Some ==> all == after_values(
                forms_of(bound@),
                sem_resolve_all(env@, forms_of(args@), i as int, upto as int),
            ),
        decreases upto - i,
    {
        proof {
            reveal(sem_resolve_all);
            reveal(sem_resolve);
        }
        let ghost before = env@;
        let ghost prefix = forms_of(bound@);
        let v = match resolve(env, host, args[i].dup()) {
            Ok(v) => v,
            Err(err) => {
                return Err(err);
            },
        };
        proof {
            lemma_forms_push(bound@, v);
            let rest = sem_resolve_all(env@, forms_of(args@), i + 1, upto as int);
            if all is Some {
                assert(sem_resolve(before, forms_of(args@)[i as int]) is Some);
                if rest is Some && rest->0.result is Ok {
                    assert(prefix + (seq![v@] + rest->0.result->Ok_0) =~= prefix.push(v@)
                        + rest->0.result->Ok_0);
                }
            }
        }
        bound.push(v);
        i += 1;
    }
    proof {
        assert(forms_of(bound@) + Seq::<Form>::empty() =~= forms_of(bound@));
    }
    Ok(bound)
}

} // verus!
