//! The rounds of the call loop.

use crate::environment::{floor, held, same_slots, EnvModel, Environment};
use crate::error::{Fault, LispError};
use crate::eval::eval_nr;
use crate::host::Host;
use crate::semantics::{lambda_in, rewound, sem_round, RoundModel, Saved};
use crate::steps::{lambda_of, Kept};
use crate::take::take_step;
use crate::types::Expression;
use vstd::prelude::*;

verus! {

/// What a round of the call loop came to.
pub enum Round {
    /// The call is over, with this value.
    Finished(Expression),
    /// Another round follows, with this lambda.
    Again(Expression),
}

/// `r` and `after` are what `sem` says of a round.
pub open spec fn agrees_round(
    sem: Option<RoundModel>,
    r: Result<Round, LispError>,
    after: EnvModel,
) -> bool {
    match sem {
        Some(RoundModel::Finished(out)) => after == out.env && match out.result {
            Ok(v) => r matches Ok(Round::Finished(x)) && x@ == v,
            Err(f) => r matches Err(err) && err@ == f,
        },
        Some(RoundModel::Again(env, lambda)) => after == env && (r matches Ok(Round::Again(x))
            && x@ == lambda),
        None => true,
    }
}

/// Where a call stands between two rounds, when `low` is the floor it was
/// entered at and `saved` what it found: the stack and the frames are no lower
/// than it found them, and the floor is no lower than `low`, now and when the
/// stack is cut back.
pub open spec fn in_rounds(low: int, saved: Saved, env: EnvModel) -> bool {
    &&& env.stack.len() >= saved.stack_len
    &&& env.stack_frames.len() >= saved.frames_len
    &&& low <= saved.stack_len
    &&& floor(env) >= low
    &&& floor(rewound(env, saved)) >= low
}

/// What the rounds of a call leave of what lies below it: the slots below
/// `low` and the frames that the call found.
pub open spec fn below_call(low: int, saved: Saved, a: EnvModel, b: EnvModel) -> bool {
    &&& forall|i: int| 0 <= i < low ==> #[trigger] b.stack[i] == a.stack[i]
    &&& forall|i: int|
        0 <= i < saved.frames_len ==> #[trigger] b.stack_frames[i] == a.stack_frames[i]
}

/// The floor of a stack that is cut back depends on the frames that the call
/// found and on nothing above them.
pub proof fn lemma_floor_rewound(saved: Saved, a: EnvModel, b: EnvModel)
    requires
        a.stack.len() >= saved.stack_len,
        b.stack.len() >= saved.stack_len,
        a.stack_frames.len() >= saved.frames_len,
        b.stack_frames.len() >= saved.frames_len,
        forall|i: int|
            0 <= i < saved.frames_len ==> #[trigger] b.stack_frames[i] == a.stack_frames[i],
    ensures
        floor(rewound(b, saved)) == floor(rewound(a, saved)),
{
    let ra = rewound(a, saved);
    let rb = rewound(b, saved);
    assert(ra.stack.len() == saved.stack_len);
    assert(rb.stack.len() == saved.stack_len);
    assert(ra.stack_frames.len() == saved.frames_len);
    assert(rb.stack_frames.len() == saved.frames_len);
    if saved.frames_len > 0 {
        assert(rb.stack_frames.last() == b.stack_frames[saved.frames_len - 1]);
        assert(ra.stack_frames.last() == a.stack_frames[saved.frames_len - 1]);
    }
}

/// What a round leaves: what nothing changes, the stack and the frames no
/// lower than the call found them, what lies below the call as it was, slot
/// for slot, and a value that is no deferred call, or a lambda for the next
/// round, whose frame then begins where the call found the stack's end.
pub open spec fn round_kept(
    low: int,
    before: EnvModel,
    saved: Saved,
    r: Result<Round, LispError>,
    after: EnvModel,
) -> bool {
    &&& held(before, after)
    &&& in_rounds(low, saved, after)
    &&& below_call(low, saved, before, after)
    &&& same_slots(before, after, saved.stack_len as int)
    &&& r matches Ok(Round::Again(_)) ==> floor(after) >= saved.stack_len
    &&& r matches Ok(Round::Finished(v)) ==> !(v@ is LazyFn)
    &&& r matches Ok(Round::Again(l)) ==> lambda_in(l@) is Some
}

/// One round of the call loop with the lambda `current`.
#[verifier::rlimit(80)]
#[verifier::spinoff_prover]
pub(crate) fn round<H: Host>(
    env: &mut Environment,
    host: &mut H,
    kept: &Kept,
    current: Expression,
    Ghost(low): Ghost<int>,
) -> (r: Result<Round, LispError>)
    requires
        lambda_in(current@) is Some,
        in_rounds(low, kept@, old(env)@),
        floor(old(env)@) >= kept.stack_len,
    ensures
        round_kept(low, old(env)@, kept@, r, final(env)@),
        r matches Ok(Round::Again(_)) ==> final(env).steps_left < old(env).steps_left,
        agrees_round(sem_round(kept@, old(env)@, current@), r, final(env)@),
    decreases old(env).steps_left, 65nat,
{
    proof {
        reveal(sem_round);
    }
    if env.sig_int {
        env.clear_interrupt();
        proof {
            lemma_floor_rewound(kept@, old(env)@, env@);
        }
        return Err(LispError::new(Fault::Interrupted { in_lambda: true }));
    }
    if env.steps_left == 0 {
        return Err(LispError::new(Fault::OutOfSteps));
    }
    env.take_step();
    proof {
        lemma_floor_rewound(kept@, old(env)@, env@);
    }
    let last_eval = match lambda_of(&current) {
        Some(lambda) => match eval_nr(env, host, &lambda.body) {
            Ok(v) => v,
            Err(err) => {
                proof {
                    lemma_floor_rewound(kept@, old(env)@, env@);
                }
                return Err(err);
            },
        },
        None => {
            return Err(LispError::new(Fault::LambdaRequired));
        },
    };
    proof {
        lemma_floor_rewound(kept@, old(env)@, env@);
    }
    take_step(env, host, kept, current, last_eval, Ghost(low))
}

} // verus!
