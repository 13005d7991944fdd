//! The special forms: quoting, binding, the conditional and `recur`.

use crate::args::eval_all;
use crate::environment::{carried, find_name, Environment};
use crate::error::{Fault, LispError};
use crate::eval::{eval, eval_nr};
use crate::host::Host;
use crate::quasi::quasi;
use crate::semantics::{
    agrees, bound_name, sem_bquote, sem_def, sem_if, sem_quasi, sem_quote, sem_recur, sem_var,
    unquote_of, Unquote,
};
use crate::text::same_text;
use crate::types::{forms_of, lemma_forms_update, Callable, ExpEnum, Expression};
use vstd::prelude::*;

verus! {

/// `(quote form)`: the form, unevaluated.
pub fn builtin_quote(env: &Environment, parts: &Vec<Expression>) -> (r: Result<
    Expression,
    LispError,
>)
    ensures
        agrees(sem_quote(env@, forms_of(parts@)), r, env@),
{
    proof {
        reveal(sem_quote);
    }
    if parts.len() == 1 {
        Ok(parts[0].dup())
    } else {
        Err(LispError::new(Fault::BadForm))
    }
}

fn name_to_bind(parts: &Vec<Expression>) -> (r: Option<String>)
    ensures
        match r {
            Some(name) => bound_name(forms_of(parts@)) == Some(name@),
            None => bound_name(forms_of(parts@)) is None,
        },
{
    if parts.len() != 2 {
        return None;
    }
    match parts[0].get() {
        ExpEnum::Symbol(name, _) => Some(name.clone()),
        _ => None,
    }
}

/// `(def name form)`: binds `name` in the current scope to the value of `form`,
/// and returns that value.
pub fn builtin_def<H: Host>(env: &mut Environment, host: &mut H, parts: &Vec<Expression>) -> (r:
    Result<Expression, LispError>)
    ensures
        carried(old(env)@, final(env)@),
        agrees(sem_def(old(env)@, forms_of(parts@)), r, final(env)@),
    decreases old(env).steps_left, 140nat,
{
    proof {
        reveal(sem_def);
    }
    let name = match name_to_bind(parts) {
        Some(name) => name,
        None => {
            return Err(LispError::new(Fault::BadForm));
        },
    };
    let value = match eval(env, host, &parts[1]) {
        Ok(value) => value,
        Err(err) => {
            return Err(err);
        },
    };
    let scope = env.namespace;
    if scope < env.namespaces.len() {
        let ghost before = env@;
        env.namespaces[scope].insert(name, value.dup(), String::new());
        proof {
            assert(env@.namespaces =~= before.namespaces.update(
                scope as int,
                before.namespaces[scope as int].inserted(name@, value@, Seq::empty()),
            ));
        }
        Ok(value)
    } else {
        Err(LispError::new(Fault::IllegalState))
    }
}

/// `(var name form)`: puts the value of `form` into the slot that the innermost
/// frame has for `name`, and returns that value. A name without a slot there is
/// not found.
pub fn builtin_var<H: Host>(env: &mut Environment, host: &mut H, parts: &Vec<Expression>) -> (r:
    Result<Expression, LispError>)
    ensures
        carried(old(env)@, final(env)@),
        agrees(sem_var(old(env)@, forms_of(parts@)), r, final(env)@),
    decreases old(env).steps_left, 140nat,
{
    proof {
        reveal(sem_var);
    }
    let name = match name_to_bind(parts) {
        Some(name) => name,
        None => {
            return Err(LispError::new(Fault::BadForm));
        },
    };
    let value = match eval(env, host, &parts[1]) {
        Ok(value) => value,
        Err(err) => {
            return Err(err);
        },
    };
    if env.stack_frames.len() == 0 {
        return Err(LispError::new(Fault::SymbolNotFound(name)));
    }
    let frame = &env.stack_frames[env.stack_frames.len() - 1];
    assert(env@.stack_frames.last() == frame@);
    let index = frame.index;
    match find_name(&frame.symbols.names, &name) {
        Some(slot) => {
            if slot < env.stack.len() && index < env.stack.len() - slot {
                let ghost stack_before = env.stack@;
                env.stack[index + slot] = value.dup();
                proof {
                    lemma_forms_update(stack_before, index + slot, value);
                }
                Ok(value)
            } else {
                Err(LispError::new(Fault::SymbolNotFound(name)))
            }
        },
        None => Err(LispError::new(Fault::SymbolNotFound(name))),
    }
}

/// `(if test then else)`, the last part optional: the value of `then` where the
/// value of `test` is not nil, else that of `else`, or nil without one. The
/// branch is evaluated in tail position: a deferred call comes back as it is.
pub fn builtin_if<H: Host>(env: &mut Environment, host: &mut H, parts: &Vec<Expression>) -> (r:
    Result<Expression, LispError>)
    ensures
        carried(old(env)@, final(env)@),
        agrees(sem_if(old(env)@, forms_of(parts@)), r, final(env)@),
    decreases old(env).steps_left, 140nat,
{
    proof {
        reveal(sem_if);
    }
    if parts.len() < 2 || parts.len() > 3 {
        return Err(LispError::new(Fault::Usage(Callable::If)));
    }
    let test = match eval(env, host, &parts[0]) {
        Ok(value) => value,
        Err(err) => {
            return Err(err);
        },
    };
    let holds = match test.get() {
        ExpEnum::Nil => false,
        _ => true,
    };
    if holds {
        eval_nr(env, host, &parts[1])
    } else if parts.len() == 3 {
        eval_nr(env, host, &parts[2])
    } else {
        Ok(Expression::make_nil())
    }
}

/// `(recur form*)`: signals the call loop to run the lambda again on the values
/// of the forms, which come back as a list.
pub fn builtin_recur<H: Host>(env: &mut Environment, host: &mut H, parts: &Vec<Expression>) -> (r:
    Result<Expression, LispError>)
    ensures
        carried(old(env)@, final(env)@),
        agrees(sem_recur(old(env)@, forms_of(parts@)), r, final(env)@),
    decreases old(env).steps_left, 140nat,
{
    proof {
        reveal(sem_recur);
    }
    let args = match eval_all(env, host, parts) {
        Ok(value) => value,
        Err(err) => {
            return Err(err);
        },
    };
    env.state.recur_num_args = Some(args.len());
    Ok(Expression::with_list(args))
}

/// What `item` asks for in a back-quoted list.
pub fn unquote(item: &Expression) -> (r: Unquote)
    ensures
        r == unquote_of(item@),
{
    match item.get() {
        ExpEnum::Symbol(name, _) => {
            if same_text(name, ",") {
                Unquote::Value
            } else if same_text(name, ",@") {
                Unquote::Splice
            } else {
                Unquote::Keep
            }
        },
        _ => Unquote::Keep,
    }
}

/// `(bquote template)`: the template, with the item after each `,` replaced by
/// its value and the item after each `,@` by the items of its value.
pub fn builtin_bquote<H: Host>(env: &mut Environment, host: &mut H, parts: &Vec<Expression>) -> (r:
    Result<Expression, LispError>)
    ensures
        carried(old(env)@, final(env)@),
        agrees(sem_bquote(old(env)@, forms_of(parts@)), r, final(env)@),
    decreases old(env).steps_left, 140nat,
{
    proof {
        reveal(sem_bquote);
    }
    if parts.len() != 1 {
        return Err(LispError::new(Fault::BadForm));
    }
    quasi(env, host, &parts[0])
}

} // verus!
