//! The evaluator: what an expression evaluates to.
//!
//! What each function does is written down in `semantics`, and each function
//! here is proved to do it.

pub use crate::call::call_lambda;
pub use crate::types::box_slice_it;

use crate::apply::fn_eval_lazy;
use crate::environment::{carried, intern, EVAL_DEPTH_LIMIT, Environment};
use crate::error::{Fault, LispError};
use crate::host::Host;
use crate::lazy::resolve;
use crate::semantics::{
    agrees, entered, recaptured, scalar_of, sem_call_form, sem_eval, sem_eval_no_values,
    sem_eval_nr, sem_form, sem_internal, sem_resolve, specialized, symbol_value, traced,
};
use crate::substitute::str_process;
use crate::text::{chars_of, string_of};
use crate::types::{
    form_of, forms_of, lemma_forms_push, Capture, ExpEnum, Expression, Form, Lambda, SymLoc,
    Symbols,
};
use vstd::prelude::*;

verus! {

/// The one value that `v` stands for.
pub fn scalar(v: Expression) -> (r: Expression)
    ensures
        r@ == scalar_of(v@),
{
    let first = match v.get() {
        ExpEnum::Values(items) => {
            assert(v@ == Form::Values(forms_of(items@)));
            if items.len() == 0 {
                Some(Expression::make_nil())
            } else {
                assert(forms_of(items@)[0] == items@[0]@);
                Some(items[0].dup())
            }
        },
        _ => None,
    };
    match first {
        Some(f) => f,
        None => v,
    }
}

/// Takes the captures of `tpl` anew from `env`.
fn specialize(env: &Environment, tpl: &Lambda) -> (made: Lambda)
    ensures
        made@ == specialized(env@, tpl@),
{
    let mut captures: Vec<Capture> = Vec::new();
    let mut i: usize = 0;
    while i < tpl.syms.captures.len()
        invariant
            i <= tpl.syms.captures.len(),
            captures@.len() == i,
            forall|j: int|
                0 <= j < i ==> (#[trigger] captures@[j])@ == recaptured(
                    env@,
                    tpl@.syms.names,
                    tpl@.syms.captures[j],
                ),
        decreases tpl.syms.captures.len() - i,
    {
        let slot = tpl.syms.captures[i].slot;
        let found = if slot < tpl.syms.names.len() {
            env.get_expression(&tpl.syms.names[slot])
        } else {
            None
        };
        let value = match found {
            Some(v) => v,
            None => tpl.syms.captures[i].value.dup(),
        };
        captures.push(Capture { slot, value });
        i += 1;
    }
    let copy = tpl.dup();
    let made = Lambda {
        params: copy.params,
        body: copy.body,
        syms: Symbols { namespace: copy.syms.namespace, names: copy.syms.names, captures },
        namespace: env.namespace,
    };
    proof {
        assert(made@.syms.captures =~= specialized(env@, tpl@).syms.captures);
        assert(made@.params == copy@.params);
        assert(made@.syms.names == copy@.syms.names);
    }
    made
}

/// The value of the symbol `name`, placed at `loc`, whose node is `e`.
fn eval_symbol(env: &Environment, e: &Expression, name: &String, loc: &SymLoc) -> (r: Result<
    Expression,
    LispError,
>)
    requires
        e@ == Form::Symbol(name@, *loc),
    ensures
        match symbol_value(env@, name@, *loc) {
            Ok(v) => r matches Ok(x) && x@ == v,
            Err(fault) => r matches Err(err) && err@ == crate::error::fresh(fault),
        },
{
    match loc {
        SymLoc::Ref(cell) => {
            match env.get_dynamic(name) {
                Some(v) => Ok(v),
                None => {
                    if *cell < env.cells.len() {
                        Ok(env.cells[*cell].dup())
                    } else {
                        Err(LispError::new(Fault::IllegalState))
                    }
                },
            }
        },
        SymLoc::Namespace(scope, idx) => {
            if *scope < env.namespaces.len() {
                match env.namespaces[*scope].get_idx(*idx) {
                    Some(v) => Ok(v),
                    None => Err(
                        LispError::new(
                            Fault::SymbolNotInNamespace(
                                name.clone(),
                                env.namespaces[*scope].name.clone(),
                            ),
                        ),
                    ),
                }
            } else {
                Err(LispError::new(Fault::IllegalState))
            }
        },
        SymLoc::Stack(idx) => {
            match env.get_expression_stack(*idx) {
                Some(v) => Ok(v),
                None => Err(LispError::new(Fault::IllegalState)),
            }
        },
        SymLoc::Unresolved => {
            let chars = chars_of(name.as_str());
            if chars.len() > 0 && chars[0] == '$' {
                let var = string_of(&chars, 1, chars.len());
                assert(chars@.subrange(1, chars.len() as int) == name@.skip(1));
                match env.get_var(&var) {
                    Some(val) => Ok(intern(env, val)),
                    None => Ok(Expression::make_nil()),
                }
            } else if chars.len() > 0 && chars[0] == ':' {
                Ok(e.dup())
            } else {
                match env.get_expression(name) {
                    Some(v) => {
                        let renamed = match v.get() {
                            ExpEnum::Symbol(found, _) => Some(
                                Expression::alloc_data(
                                    ExpEnum::Symbol(found.clone(), SymLoc::Unresolved),
                                ),
                            ),
                            _ => None,
                        };
                        match renamed {
                            Some(s) => Ok(s),
                            None => Ok(v),
                        }
                    },
                    None => {
                        if env.loose_symbols {
                            Ok(intern(env, name.clone()))
                        } else {
                            Err(LispError::new(Fault::SymbolNotFound(name.clone())))
                        }
                    },
                }
            }
        },
    }
}

/// How many multi-value results are nested at the front of `e`.
pub open spec fn values_depth(e: Expression) -> nat
    decreases e,
{
    match *e.node {
        ExpEnum::Values(items) => if items@.len() == 0 {
            0
        } else {
            1 + values_depth(items@[0])
        },
        _ => 0,
    }
}

/// One evaluation step on `expression_in`: the stop conditions first, then the
/// expression by its variant.
#[verifier::rlimit(80)]
#[verifier::spinoff_prover]
fn internal_eval<H: Host>(env: &mut Environment, host: &mut H, expression_in: &Expression) -> (r:
    Result<Expression, LispError>)
    ensures
        carried(old(env)@, final(env)@),
        agrees(sem_internal(old(env)@, expression_in@), r, final(env)@),
    decreases old(env).steps_left, 200nat,
{
    proof {
        reveal(sem_internal);
        reveal(sem_form);
        reveal(sem_call_form);
        reveal(sem_resolve);
        reveal(sem_eval);
        reveal(crate::semantics::sem_text);
    }
    if env.sig_int {
        env.sig_int = false;
        return Err(LispError::new(Fault::Interrupted { in_lambda: false }));
    }
    if env.exit_code.is_some() {
        return Ok(Expression::make_nil());
    }
    if env.state.recur_num_args.is_some() {
        env.state.recur_num_args = None;
        return Err(LispError::new(Fault::NonTailRecur));
    }
    let mut expression = expression_in.dup();
    loop
        invariant
            *env == *old(env),
            sem_internal(old(env)@, expression_in@) == sem_form(env@, expression@),
        ensures
            !(expression@ is Values),
        decreases values_depth(expression),
    {
        proof {
            reveal(sem_form);
        }
        let next = match expression.get() {
            ExpEnum::Values(items) => {
                if items.len() == 0 {
                    return Ok(Expression::make_nil());
                }
                items[0].dup()
            },
            _ => {
                break ;
            },
        };
        expression = next;
    }
    match expression.get() {
        ExpEnum::Vector(_) => fn_eval_lazy(env, host, &expression),
        ExpEnum::Pair(_, _) => fn_eval_lazy(env, host, &expression),
        ExpEnum::Values(_) => Ok(Expression::make_nil()),
        ExpEnum::Nil => Ok(expression.dup()),
        ExpEnum::Symbol(name, loc) => eval_symbol(env, &expression, name, loc),
        ExpEnum::HashMap(_) => Ok(expression.dup()),
        ExpEnum::String(text, done) => {
            if *done {
                Ok(expression.dup())
            } else {
                str_process(env, host, text, true)
            }
        },
        ExpEnum::True => Ok(expression.dup()),
        ExpEnum::Int(_) => Ok(expression.dup()),
        ExpEnum::Char(_) => Ok(expression.dup()),
        ExpEnum::CodePoint(_) => Ok(expression.dup()),
        ExpEnum::Lambda(_) => Ok(expression.dup()),
        ExpEnum::Macro(_) => Ok(expression.dup()),
        ExpEnum::Function(_) => Ok(Expression::make_nil()),
        ExpEnum::Quote => Ok(Expression::make_nil()),
        ExpEnum::BackQuote => Ok(Expression::make_nil()),
        ExpEnum::Process(_) => Ok(expression.dup()),
        ExpEnum::File(_) => Ok(Expression::make_nil()),
        ExpEnum::LazyFn(_, _) => {
            let int_exp = match resolve(env, host, expression.dup()) {
                Ok(value) => value,
                Err(err) => {
                    return Err(err);
                },
            };
            eval(env, host, &int_exp)
        },
        ExpEnum::Wrapper(inner) => {
            match inner.get() {
                ExpEnum::Lambda(l) => Ok(Expression::alloc_data(ExpEnum::Lambda(specialize(env, l)))),
                ExpEnum::Macro(l) => Ok(Expression::alloc_data(ExpEnum::Macro(specialize(env, l)))),
                _ => Ok(inner.dup()),
            }
        },
        ExpEnum::DeclareDef => Err(LispError::new(Fault::IllegalState)),
        ExpEnum::DeclareVar => Err(LispError::new(Fault::IllegalState)),
        ExpEnum::DeclareFn => Err(LispError::new(Fault::IllegalState)),
        ExpEnum::DeclareMacro => Err(LispError::new(Fault::IllegalState)),
        ExpEnum::Undefined => Err(LispError::new(Fault::IllegalState)),
    }
}

/// The error `err` with `expression` added to its backtrace.
fn trace(err: LispError, expression: &Expression) -> (out: LispError)
    ensures
        out@ == traced(err@, expression@),
{
    let mut backtrace = match err.backtrace {
        Some(b) => b,
        None => Vec::new(),
    };
    let ghost before = backtrace@;
    backtrace.push(expression.dup());
    proof {
        lemma_forms_push(before, *expression);
        assert(forms_of(Seq::<Expression>::empty()).push(expression@) =~= seq![expression@]);
    }
    LispError { fault: err.fault, backtrace: Some(backtrace) }
}

/// Evaluates `expression` and leaves a deferred call that comes of it as it is.
///
/// The form is evaluated as it stands: each symbol is looked up by the location
/// it carries. Resolving the symbols of a form against the names of a frame is
/// the work of the symbol pass, and the caller's to have done before the call,
/// with `analyze_form`, for a form that has not been through it. The expansion
/// of a macro, which is made here, is handed to the pass here.
pub fn eval_nr<H: Host>(env: &mut Environment, host: &mut H, expression: &Expression) -> (r: Result<
    Expression,
    LispError,
>)
    ensures
        carried(old(env)@, final(env)@),
        agrees(sem_eval_nr(old(env)@, expression@), r, final(env)@),
    decreases old(env).steps_left, 0nat,
{
    proof {
        reveal(sem_eval_nr);
        reveal(sem_internal);
    }
    if env.supress_eval {
        return Ok(expression.dup());
    }
    if env.return_val.is_some() {
        return Ok(Expression::make_nil());
    }
    if env.state.eval_level > EVAL_DEPTH_LIMIT {
        return Err(LispError::new(Fault::TooDeep));
    }
    if env.steps_left == 0 {
        return Err(LispError::new(Fault::OutOfSteps));
    }
    env.steps_left = env.steps_left - 1;
    env.state.eval_level = env.state.eval_level + 1;
    assert(env@ == entered(old(env)@));
    let tres = internal_eval(env, host, expression);
    let ghost inner = env@;
    let result = if env.state.eval_level == 1 && env.return_val.is_some() {
        env.return_val = None;
        Err(LispError::new(Fault::ReturnWithoutBlock))
    } else {
        tres
    };
    let result = match result {
        Ok(v) => Ok(v),
        Err(err) => Err(trace(err, expression)),
    };
    env.state.eval_level = env.state.eval_level - 1;
    result
}

/// Evaluates `expression` to a value: a deferred call that comes of it is forced.
pub fn eval<H: Host>(env: &mut Environment, host: &mut H, expression: &Expression) -> (r: Result<
    Expression,
    LispError,
>)
    ensures
        carried(old(env)@, final(env)@),
        r matches Ok(v) ==> !(v@ is LazyFn),
        agrees(sem_eval(old(env)@, expression@), r, final(env)@),
    decreases old(env).steps_left, 20nat,
{
    proof {
        reveal(sem_eval);
        reveal(sem_eval_nr);
        reveal(sem_resolve);
    }
    let v = match eval_nr(env, host, expression) {
        Ok(value) => value,
        Err(err) => {
            return Err(err);
        },
    };
    resolve(env, host, v)
}

/// Evaluates the node `data`.
pub fn eval_data<H: Host>(env: &mut Environment, host: &mut H, data: ExpEnum) -> (r: Result<
    Expression,
    LispError,
>)
    ensures
        carried(old(env)@, final(env)@),
        r matches Ok(v) ==> !(v@ is LazyFn),
        agrees(sem_eval(old(env)@, form_of(data)), r, final(env)@),
    decreases old(env).steps_left, 30nat,
{
    proof {
        reveal(sem_eval);
    }
    let expression = Expression::alloc_data(data);
    eval(env, host, &expression)
}

/// Evaluates `expression` to one value: of a multi-value result the first value,
/// or nil if it has none.
pub fn eval_no_values<H: Host>(env: &mut Environment, host: &mut H, expression: &Expression) -> (r:
    Result<Expression, LispError>)
    ensures
        carried(old(env)@, final(env)@),
        agrees(sem_eval_no_values(old(env)@, expression@), r, final(env)@),
    decreases old(env).steps_left, 30nat,
{
    proof {
        reveal(sem_eval_no_values);
    }
    let exp = match eval(env, host, expression) {
        Ok(value) => value,
        Err(err) => {
            return Err(err);
        },
    };
    Ok(scalar(exp))
}

} // verus!
