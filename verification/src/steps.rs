//! The steps of the call loop: what a value that the body of a lambda came back
//! with asks for, and what a call has to keep to cut the stack back.

use crate::environment::Environment;
use crate::error::Fault;
use crate::semantics::{lambda_in, next_step, restored, rewound, saved_of, Saved, StepModel};
use crate::types::{box_slice_it, forms_of, lemma_forms_subrange, ExpEnum, Expression, Form, Lambda};
use vstd::prelude::*;

verus! {

/// The lambda that `e` holds, if it is a lambda or a macro.
pub fn lambda_of(e: &Expression) -> (r: Option<&Lambda>)
    ensures
        match r {
            Some(l) => lambda_in(e@) == Some(l@),
            None => lambda_in(e@) is None,
        },
{
    match e.get() {
        ExpEnum::Lambda(l) => Some(l),
        ExpEnum::Macro(l) => Some(l),
        _ => None,
    }
}

/// What the call loop does with the value of a lambda's body.
pub enum Step {
    /// The value is the result of the call.
    Return,
    /// Evaluate the body once more in the frame as it is.
    Again,
    /// The call fails.
    Fail(Fault),
    /// Make the frame anew with these arguments and run the same lambda again.
    Recur(Vec<Expression>),
    /// Make the frame anew for this lambda with these arguments, and go on with it.
    Hop(Expression, Vec<Expression>),
}

impl View for Step {
    type V = StepModel;

    open spec fn view(&self) -> StepModel {
        match *self {
            Step::Return => StepModel::Return,
            Step::Again => StepModel::Again,
            Step::Fail(f) => StepModel::Fail(f@),
            Step::Recur(args) => StepModel::Recur(forms_of(args@)),
            Step::Hop(target, args) => StepModel::Hop(target@, forms_of(args@)),
        }
    }
}

/// Decides the step of the call loop that follows `result`.
pub fn trampoline_step(result: &Expression, recur: Option<usize>, exiting: bool) -> (s: Step)
    ensures
        s@ == next_step(result@, recur, exiting),
{
    if exiting {
        return Step::Return;
    }
    match recur {
        Some(n) => match result.get() {
            ExpEnum::Vector(args) => {
                if n != args.len() {
                    Step::Fail(Fault::NonTailRecur)
                } else {
                    Step::Recur(box_slice_it(args))
                }
            },
            _ => Step::Again,
        },
        None => match result.get() {
            ExpEnum::LazyFn(target, parts) => {
                assert(result@ == Form::LazyFn(Box::new(target@), forms_of(parts@)));
                match target.get() {
                    ExpEnum::Lambda(_) => Step::Hop(target.dup(), box_slice_it(parts)),
                    _ => Step::Return,
                }
            },
            _ => Step::Return,
        },
    }
}

/// What a call found, to cut back to and to restore.
pub struct Kept {
    pub loose_symbols: bool,
    pub stack_len: usize,
    pub frames_len: usize,
    pub base: usize,
    pub namespace: usize,
}

impl View for Kept {
    type V = Saved;

    open spec fn view(&self) -> Saved {
        Saved {
            loose_symbols: self.loose_symbols,
            stack_len: self.stack_len as nat,
            frames_len: self.frames_len as nat,
            base: self.base,
            namespace: self.namespace,
        }
    }
}

/// Notes what a call finds.
pub(crate) fn keep(env: &Environment) -> (kept: Kept)
    ensures
        kept@ == saved_of(env@),
{
    Kept {
        loose_symbols: env.loose_symbols,
        stack_len: env.stack.len(),
        frames_len: env.stack_frames.len(),
        base: env.stack_frame_base,
        namespace: env.namespace,
    }
}

/// Cuts the stack and the list of frames back to what a call found.
pub(crate) fn rewind(env: &mut Environment, kept: &Kept)
    ensures
        final(env)@ == rewound(old(env)@, kept@),
{
    proof {
        if kept.stack_len <= env.stack@.len() {
            lemma_forms_subrange(env.stack@, 0, kept.stack_len as int);
        }
    }
    env.stack.truncate(kept.stack_len);
    env.stack_frames.truncate(kept.frames_len);
    env.stack_frame_base = kept.base;
    proof {
        let want = rewound(old(env)@, kept@);
        assert(env@.stack =~= want.stack);
        assert(env@.stack_frames =~= want.stack_frames);
    }
}

/// Puts back what a call found.
pub(crate) fn restore(env: &mut Environment, kept: &Kept)
    ensures
        final(env)@ == restored(old(env)@, kept@),
{
    rewind(env, kept);
    env.enter_call(kept.namespace);
    env.loose_symbols = kept.loose_symbols;
}

} // verus!
