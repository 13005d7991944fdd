//! Call frames: how the slots of a call are laid out on the value stack.

use crate::environment::{EnvModel, Environment, FrameModel, StackFrame};
use crate::types::{
    forms_of, lemma_forms_push, lemma_forms_update, CaptureModel, ExpEnum, Expression, Form, Lambda,
    LambdaModel, SymbolsModel,
};
use vstd::prelude::*;

verus! {

/// `stack` with the first `n` of `captures` written into their slots of the
/// frame that begins at `index`. A capture whose slot lies beyond the stack is
/// left out.
pub open spec fn with_captures(
    stack: Seq<Form>,
    index: int,
    captures: Seq<CaptureModel>,
    n: int,
) -> Seq<Form>
    decreases n,
{
    if n <= 0 || n > captures.len() {
        stack
    } else {
        let before = with_captures(stack, index, captures, n - 1);
        let at = index + captures[n - 1].slot;
        if 0 <= at < before.len() {
            before.update(at, captures[n - 1].value)
        } else {
            before
        }
    }
}

/// Writing captures into their slots leaves the height of the stack as it is.
pub proof fn lemma_with_captures_len(
    stack: Seq<Form>,
    index: int,
    captures: Seq<CaptureModel>,
    n: int,
)
    ensures
        with_captures(stack, index, captures, n).len() == stack.len(),
    decreases n,
{
    if !(n <= 0 || n > captures.len()) {
        lemma_with_captures_len(stack, index, captures, n - 1);
    }
}

/// Writing captures into the slots of a frame leaves the slots below the
/// frame as they are.
pub proof fn lemma_with_captures_below(
    stack: Seq<Form>,
    index: int,
    captures: Seq<CaptureModel>,
    n: int,
    i: int,
)
    requires
        0 <= i < index,
        i < stack.len(),
    ensures
        with_captures(stack, index, captures, n)[i] == stack[i],
    decreases n,
{
    if !(n <= 0 || n > captures.len()) {
        lemma_with_captures_below(stack, index, captures, n - 1, i);
        lemma_with_captures_len(stack, index, captures, n - 1);
    }
}

/// How many slots a frame has beyond the bound arguments and the lambda itself.
pub open spec fn extra_slots(bound: nat, syms: SymbolsModel) -> nat {
    if syms.names.len() > bound + 1 {
        (syms.names.len() - (bound + 1)) as nat
    } else {
        0
    }
}

/// The stack with the slots of a new frame on top: the bound arguments, the
/// lambda itself, as many unbound slots as the symbol table names beyond those,
/// and the captured values written over their slots.
pub open spec fn frame_slots(
    below: Seq<Form>,
    bound: Seq<Form>,
    lambda_form: Form,
    syms: SymbolsModel,
) -> Seq<Form> {
    with_captures(
        below + bound + seq![lambda_form] + Seq::new(
            extra_slots(bound.len(), syms),
            |i: int| Form::Undefined,
        ),
        below.len() as int,
        syms.captures,
        syms.captures.len() as int,
    )
}

/// The state with a frame for a call of `lambda` on top, its first slots holding
/// `bound`: the slots are on the stack, the frame is the innermost one, and its
/// base is where the stack ended.
pub open spec fn with_frame(
    env: EnvModel,
    bound: Seq<Form>,
    lambda: LambdaModel,
    lambda_form: Form,
) -> EnvModel {
    EnvModel {
        stack: frame_slots(env.stack, bound, lambda_form, lambda.syms),
        stack_frames: env.stack_frames.push(
            FrameModel { index: env.stack.len() as usize, symbols: lambda.syms },
        ),
        stack_frame_base: env.stack.len() as usize,
        ..env
    }
}

/// A frame makes the stack higher by its bound arguments and the lambda at
/// least, and the list of frames longer by one.
pub proof fn lemma_with_frame(
    env: EnvModel,
    bound: Seq<Form>,
    lambda: LambdaModel,
    lambda_form: Form,
)
    ensures
        with_frame(env, bound, lambda, lambda_form).stack.len() == env.stack.len() + bound.len() + 1
            + extra_slots(bound.len(), lambda.syms),
        with_frame(env, bound, lambda, lambda_form).stack_frames.len() == env.stack_frames.len()
            + 1,
        forall|i: int|
            0 <= i < env.stack.len() ==> #[trigger] with_frame(
                env,
                bound,
                lambda,
                lambda_form,
            ).stack[i] == env.stack[i],
{
    let slots = env.stack + bound + seq![lambda_form] + Seq::new(
        extra_slots(bound.len(), lambda.syms),
        |i: int| Form::Undefined,
    );
    assert forall|i: int| 0 <= i < env.stack.len() implies #[trigger] with_frame(
        env,
        bound,
        lambda,
        lambda_form,
    ).stack[i] == env.stack[i] by {
        lemma_with_captures_below(
            slots,
            env.stack.len() as int,
            lambda.syms.captures,
            lambda.syms.captures.len() as int,
            i,
        );
    }
    lemma_with_captures_len(
        env.stack + bound + seq![lambda_form] + Seq::new(
            extra_slots(bound.len(), lambda.syms),
            |i: int| Form::Undefined,
        ),
        env.stack.len() as int,
        lambda.syms.captures,
        lambda.syms.captures.len() as int,
    );
}

/// Pushes the frame of a call of `lambda`, whose handle is `lambda_exp`, with
/// `bound` in its first slots.
pub fn push_frame(
    env: &mut Environment,
    bound: Vec<Expression>,
    lambda: &Lambda,
    lambda_exp: Expression,
)
    ensures
        final(env)@ == with_frame(old(env)@, forms_of(bound@), lambda@, lambda_exp@),
{
    let index = env.stack.len();
    let ghost below = env@.stack;
    let mut bound = bound;
    let ghost bound_forms = forms_of(bound@);
    env.stack.append(&mut bound);
    env.stack.push(lambda_exp);
    let used = env.stack.len() - index;
    let symbols = lambda.syms.dup();
    let mut extra: usize = if symbols.len() > used {
        symbols.len() - used
    } else {
        0
    };
    let ghost filled = below + bound_forms + seq![lambda_exp@];
    let ghost want = extra;
    assert(env@.stack =~= filled);
    assert(env@.stack =~= filled + Seq::new(0nat, |i: int| Form::Undefined));
    assert(want == extra_slots(bound_forms.len(), lambda@.syms));
    while extra > 0
        invariant
            extra <= want,
            env@.stack == filled + Seq::new((want - extra) as nat, |i: int| Form::Undefined),
            env@ == (EnvModel { stack: env@.stack, ..old(env)@ }),
        decreases extra,
    {
        let ghost stack_before = env.stack@;
        env.stack.push(Expression::alloc_data(ExpEnum::Undefined));
        extra -= 1;
        proof {
            lemma_forms_push(stack_before, env.stack@.last());
        }
        assert(env@.stack =~= filled + Seq::new(
            (want - extra) as nat,
            |i: int| Form::Undefined,
        ));
    }
    let ghost padded = env@.stack;
    let mut i: usize = 0;
    while i < symbols.captures.len()
        invariant
            i <= symbols.captures.len(),
            symbols@ == lambda@.syms,
            index == below.len(),
            env@.stack.len() == padded.len(),
            env.stack@.len() == padded.len(),
            env@.stack == with_captures(padded, index as int, symbols@.captures, i as int),
            env@ == (EnvModel { stack: env@.stack, ..old(env)@ }),
        decreases symbols.captures.len() - i,
    {
        let slot = symbols.captures[i].slot;
        let ghost before = env@.stack;
        assert(symbols@.captures[i as int] == symbols.captures@[i as int]@);
        if slot < env.stack.len() && index < env.stack.len() - slot {
            let value = symbols.captures[i].value.dup();
            let ghost stack_before = env.stack@;
            env.stack[index + slot] = value;
            proof {
                lemma_forms_update(stack_before, index + slot, value);
            }
            assert(env@.stack =~= before.update(index + slot, value@));
        }
        i += 1;
    }
    let ghost frames_before = env@.stack_frames;
    env.stack_frames.push(StackFrame { index, symbols });
    env.stack_frame_base = index;
    assert(env@.stack_frames =~= frames_before.push(
        FrameModel { index, symbols: lambda@.syms },
    ));
}

} // verus!
