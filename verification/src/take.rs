//! What the call loop does with the value of a lambda's body.

use crate::environment::{floor, Environment};
use crate::error::{Fault, LispError};
use crate::host::Host;
use crate::lazy::resolve;
use crate::reframe::reframe;
use crate::rounds::{agrees_round, in_rounds, lemma_floor_rewound, round_kept, Round};
use crate::semantics::{lambda_in, sem_step};
use crate::steps::{lambda_of, rewind, trampoline_step, Kept, Step};
use crate::types::Expression;
use vstd::prelude::*;

verus! {

/// Takes the value `last_eval` of the body of the lambda `current` as the call
/// loop does.
#[verifier::rlimit(80)]
#[verifier::spinoff_prover]
pub(crate) fn take_step<H: Host>(
    env: &mut Environment,
    host: &mut H,
    kept: &Kept,
    current: Expression,
    last_eval: Expression,
    Ghost(low): Ghost<int>,
) -> (r: Result<Round, LispError>)
    requires
        lambda_in(current@) is Some,
        in_rounds(low, kept@, old(env)@),
        floor(old(env)@) >= kept.stack_len,
    ensures
        round_kept(low, old(env)@, kept@, r, final(env)@),
        agrees_round(
            sem_step(kept@, old(env)@, lambda_in(current@)->0, current@, last_eval@),
            r,
            final(env)@,
        ),
    decreases old(env).steps_left, 62nat,
{
    proof {
        reveal(sem_step);
    }
    let step = trampoline_step(&last_eval, env.state.recur_num_args, env.exit_code.is_some());
    match step {
        Step::Return => {
            let r = match resolve(env, host, last_eval) {
                Ok(v) => Ok(Round::Finished(v)),
                Err(err) => Err(err),
            };
            proof {
                lemma_floor_rewound(kept@, old(env)@, env@);
            }
            r
        },
        Step::Again => {
            env.drop_signal();
            proof {
                lemma_floor_rewound(kept@, old(env)@, env@);
            }
            Ok(Round::Again(current))
        },
        Step::Fail(fault) => {
            env.drop_signal();
            proof {
                lemma_floor_rewound(kept@, old(env)@, env@);
            }
            Err(LispError::new(fault))
        },
        Step::Recur(new_args) => {
            env.drop_signal();
            proof {
                lemma_floor_rewound(kept@, old(env)@, env@);
            }
            rewind(env, kept);
            let ghost cut = env@;
            let r = reframe(env, host, &new_args, current);
            proof {
                lemma_floor_rewound(kept@, cut, env@);
            }
            r
        },
        Step::Hop(target, parts) => {
            match lambda_of(&target) {
                Some(lambda) => {
                    env.set_scope(lambda.syms.namespace);
                },
                None => {
                    return Err(LispError::new(Fault::LambdaRequired));
                },
            }
            proof {
                lemma_floor_rewound(kept@, old(env)@, env@);
            }
            rewind(env, kept);
            let ghost cut = env@;
            let r = reframe(env, host, &parts, target);
            proof {
                lemma_floor_rewound(kept@, cut, env@);
            }
            r
        },
    }
}

} // verus!
