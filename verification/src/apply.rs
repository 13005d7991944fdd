//! Call forms: how the operator of a call is found and applied.

use crate::args::eval_all;
use crate::builtins::call_function;
use crate::call::call_lambda;
use crate::environment::{carried, EnvModel, Environment, FormType};
use crate::error::{fresh, Fault, FaultModel, LispError};
use crate::eval::eval;
use crate::forms::{builtin_bquote, builtin_def, builtin_quote, builtin_var};
use crate::host::Host;
use crate::lazy::resolve;
use crate::process::do_command;
use crate::semantics::{
    agrees, applies_as_form, bounded, commands_allowed, failed, forms_allowed, list_items, sem_apply,
    sem_apply_evaluated, sem_call_form, sem_call_lambda, sem_command, sem_eval, sem_macro,
    sem_make_lazy, sem_resolve, Outcome,
};
use crate::substitute::str_process;
use crate::text::{chars_of, trim};
use crate::types::{
    forms_of, lemma_forms_push, lemma_forms_subrange, ExpEnum, Expression, Form, Lambda,
    LambdaModel,
};
use vstd::prelude::*;

verus! {

/// The expansion of the macro `lambda` on `parts`: the macro is called on the
/// parts as they stand, and what comes of the call is forced where it is a
/// deferred call.
pub open spec fn sem_expansion(env: EnvModel, lambda: LambdaModel, parts: Seq<Form>) -> Option<
    Outcome<Form>,
> {
    match bounded(env.steps_left, sem_call_lambda(env, Form::Lambda(lambda), parts, false)) {
        Some(out) => match out.result {
            Ok(expansion) => bounded(env.steps_left, sem_resolve(out.env, expansion)),
            Err(failure) => failed(out.env, failure),
        },
        None => None,
    }
}

/// Runs the symbol pass on `form`: with a call active, the host resolves the
/// symbols of the form against the names of the innermost frame; without one
/// there is nothing to resolve against, and the form stands as it is.
pub fn analyze_form<H: Host>(env: &Environment, host: &mut H, form: Expression) -> (r: Result<
    Expression,
    String,
>)
    ensures
        env@.stack_frames.len() == 0 ==> r == Ok::<Expression, String>(form),
{
    if env.stack_frames.len() > 0 {
        let frame = &env.stack_frames[env.stack_frames.len() - 1];
        host.analyze(&form, &frame.symbols)
    } else {
        Ok(form)
    }
}

/// The symbol pass's answer for an expansion, as plain values.
pub open spec fn answer_of(analyzed: Result<Expression, String>) -> Result<Form, Seq<char>> {
    match analyzed {
        Ok(form) => Ok(form@),
        Err(reason) => Err(reason@),
    }
}

/// Whether `r` and `after` are what comes of an expansion in `env` that the
/// symbol pass answered with `analyzed`: where it refused, its reason is the
/// fault and nothing is evaluated; else the form it gave is evaluated.
pub open spec fn expanded_to(
    env: EnvModel,
    analyzed: Result<Form, Seq<char>>,
    r: Result<Expression, LispError>,
    after: EnvModel,
) -> bool {
    match analyzed {
        Ok(form) => agrees(sem_eval(env, form), r, after),
        Err(reason) => after == env && (r matches Err(err) && err@ == fresh(
            FaultModel::Analysis(reason),
        )),
    }
}

/// Evaluates an expansion that the symbol pass answered with `analyzed`.
pub fn eval_analyzed<H: Host>(
    env: &mut Environment,
    host: &mut H,
    analyzed: Result<Expression, String>,
) -> (r: Result<Expression, LispError>)
    ensures
        carried(old(env)@, final(env)@),
        expanded_to(old(env)@, answer_of(analyzed), r, final(env)@),
    decreases old(env).steps_left, 95nat,
{
    match analyzed {
        Ok(form) => eval(env, host, &form),
        Err(reason) => Err(LispError::new(Fault::Analysis(reason))),
    }
}

/// Expands a macro and evaluates the expansion: the macro is called on the
/// unevaluated `args`, the result is resolved against the names of the calling
/// frame, where there is one, and then evaluated once. The heights of the stack
/// and of the frames are afterwards what they were.
fn exec_macro<H: Host>(
    env: &mut Environment,
    host: &mut H,
    sh_macro: &Lambda,
    args: &Vec<Expression>,
) -> (r: Result<Expression, LispError>)
    ensures
        carried(old(env)@, final(env)@),
        agrees(sem_macro(old(env)@, sh_macro@, forms_of(args@)), r, final(env)@),
        sem_expansion(old(env)@, sh_macro@, forms_of(args@)) matches Some(out) ==> match out.result {
            Ok(form) => exists|analyzed: Result<Form, Seq<char>>| #[trigger]
                expanded_to(out.env, analyzed, r, final(env)@) && (out.env.stack_frames.len() == 0
                    ==> analyzed == Ok::<Form, Seq<char>>(form)),
            Err(failure) => final(env)@ == out.env && (r matches Err(err) && err@ == failure),
        },
    decreases old(env).steps_left, 100nat,
{
    proof {
        reveal(sem_macro);
        reveal(sem_call_lambda);
        reveal(sem_resolve);
        reveal(sem_eval);
    }
    let as_lambda = Expression::alloc_data(ExpEnum::Lambda(sh_macro.dup()));
    let expansion = match call_lambda(env, host, &as_lambda, args, false) {
        Ok(value) => value,
        Err(err) => {
            return Err(err);
        },
    };
    let expansion = match resolve(env, host, expansion) {
        Ok(value) => value,
        Err(err) => {
            return Err(err);
        },
    };
    let ghost found = env@;
    let ghost form = expansion@;
    let analyzed = analyze_form(env, host, expansion);
    let ghost answer = answer_of(analyzed);
    let r = eval_analyzed(env, host, analyzed);
    assert(expanded_to(found, answer, r, env@) && (found.stack_frames.len() == 0 ==> answer == Ok::<
        Form,
        Seq<char>,
    >(form)));
    r
}

/// A deferred call of `lambda` on the values of `args`.
fn make_lazy<H: Host>(
    env: &mut Environment,
    host: &mut H,
    lambda: &Expression,
    args: &Vec<Expression>,
) -> (r: Result<Expression, LispError>)
    ensures
        carried(old(env)@, final(env)@),
        agrees(sem_make_lazy(old(env)@, lambda@, forms_of(args@)), r, final(env)@),
    decreases old(env).steps_left, 100nat,
{
    proof {
        reveal(sem_make_lazy);
    }
    let parms = match eval_all(env, host, args) {
        Ok(value) => value,
        Err(err) => {
            return Err(err);
        },
    };
    Ok(Expression::alloc_data(ExpEnum::LazyFn(lambda.dup(), parms)))
}

fn allow_sys_com(env: &Environment) -> (r: bool)
    ensures
        r == commands_allowed(env.form_type),
{
    match env.form_type {
        FormType::ExternalOnly => true,
        FormType::Any => true,
        FormType::FormOnly => false,
    }
}

fn allow_form(env: &Environment) -> (r: bool)
    ensures
        r == forms_allowed(env.form_type),
{
    match env.form_type {
        FormType::FormOnly => true,
        FormType::Any => true,
        FormType::ExternalOnly => false,
    }
}

/// Applies the value `com_exp` to `parts`: a lambda is called, or its call is
/// deferred where the context allows that; a macro is expanded; a native and a
/// special form get the unevaluated `parts`; text is run as a command.
#[verifier::rlimit(60)]
#[verifier::spinoff_prover]
fn eval_command<H: Host>(
    env: &mut Environment,
    host: &mut H,
    com_exp: &Expression,
    parts: &Vec<Expression>,
) -> (r: Result<Expression, LispError>)
    ensures
        carried(old(env)@, final(env)@),
        agrees(sem_command(old(env)@, com_exp@, forms_of(parts@)), r, final(env)@),
    decreases old(env).steps_left, 160nat,
{
    proof {
        reveal(sem_command);
        reveal(sem_make_lazy);
        reveal(sem_call_lambda);
        reveal(sem_macro);
        reveal(crate::semantics::sem_function);
        reveal(crate::semantics::sem_def);
        reveal(crate::semantics::sem_var);
        reveal(crate::semantics::sem_quote);
        reveal(crate::semantics::sem_bquote);
    }
    match com_exp.get() {
        ExpEnum::Lambda(_) => {
            if env.allow_lazy_fn {
                make_lazy(env, host, com_exp, parts)
            } else {
                call_lambda(env, host, com_exp, parts, true)
            }
        },
        ExpEnum::Macro(m) => exec_macro(env, host, m, parts),
        ExpEnum::Function(c) => call_function(env, host, c, parts),
        ExpEnum::DeclareDef => builtin_def(env, host, parts),
        ExpEnum::DeclareVar => builtin_var(env, host, parts),
        ExpEnum::Quote => builtin_quote(env, parts),
        ExpEnum::BackQuote => builtin_bquote(env, host, parts),
        ExpEnum::String(s, _) => {
            if allow_sys_com(env) {
                let command = trim(s);
                do_command(env, host, &command, parts)
            } else {
                Err(LispError::new(Fault::InvalidCommand))
            }
        },
        _ => Err(LispError::new(Fault::InvalidCommand)),
    }
}

/// How many pairs are chained from `e` on.
pub open spec fn chain_len(e: Expression) -> nat
    decreases e,
{
    match *e.node {
        ExpEnum::Pair(_, tail) => 1 + chain_len(tail),
        _ => 0,
    }
}

/// The items of the list `e`.
pub fn items_of(e: &Expression) -> (r: Vec<Expression>)
    ensures
        forms_of(r@) == list_items(e@),
{
    let mut out: Vec<Expression> = Vec::new();
    let mut cur = e.dup();
    assert(forms_of(out@) + list_items(cur@) =~= list_items(e@));
    loop
        invariant
            forms_of(out@) + list_items(cur@) == list_items(e@),
        decreases chain_len(cur),
    {
        let next = match cur.get() {
            ExpEnum::Pair(head, tail) => {
                let ghost before = out@;
                out.push(head.dup());
                proof {
                    lemma_forms_push(before, *head);
                    assert(forms_of(out@) + list_items(tail@) =~= forms_of(before) + list_items(
                        cur@,
                    ));
                }
                tail.dup()
            },
            ExpEnum::Vector(items) => {
                let mut i: usize = 0;
                let ghost before = out@;
                assert(items@.take(0) =~= Seq::<Expression>::empty());
                while i < items.len()
                    invariant
                        i <= items.len(),
                        out@ == before + items@.take(i as int),
                    decreases items.len() - i,
                {
                    out.push(items[i].dup());
                    i += 1;
                    assert(out@ =~= before + items@.take(i as int));
                }
                proof {
                    assert(items@.take(items.len() as int) == items@);
                    crate::types::lemma_forms_add(before, items@);
                }
                return out;
            },
            _ => {
                assert(forms_of(out@) + list_items(cur@) =~= forms_of(out@));
                return out;
            },
        };
        cur = next;
    }
}

/// Runs the command that the symbol `name` stands for when it names no form: the
/// name itself, or, where it begins with `$`, what substitution makes of it.
/// Where commands are not allowed the name is not found.
fn symbol_command<H: Host>(
    env: &mut Environment,
    host: &mut H,
    name: &String,
    parts: &Vec<Expression>,
) -> (r: Result<Expression, LispError>)
    ensures
        carried(old(env)@, final(env)@),
        !commands_allowed(old(env).form_type) ==> final(env)@ == old(env)@ && (r matches Err(
            err,
        ) && err@ == crate::error::fresh(FaultModel::FormNotFound(name@))),
    decreases old(env).steps_left, 160nat,
{
    if !allow_sys_com(env) {
        return Err(LispError::new(Fault::FormNotFound(name.clone())));
    }
    let chars = chars_of(name.as_str());
    if chars.len() > 0 && chars[0] == '$' {
        let text = match str_process(env, host, name, true) {
            Ok(value) => value,
            Err(err) => {
                return Err(err);
            },
        };
        match text.get() {
            ExpEnum::String(command, _) => do_command(env, host, command, parts),
            _ => Err(LispError::new(Fault::FormNotFound(name.clone()))),
        }
    } else {
        do_command(env, host, name, parts)
    }
}

fn is_form(form: &Expression, forms: bool, commands: bool) -> (r: bool)
    ensures
        r == applies_as_form(form@, forms, commands),
{
    match form.get() {
        ExpEnum::Lambda(_) => forms,
        ExpEnum::Macro(_) => forms,
        ExpEnum::Function(_) => forms,
        ExpEnum::DeclareDef => forms,
        ExpEnum::DeclareVar => forms,
        ExpEnum::Quote => forms,
        ExpEnum::BackQuote => forms,
        ExpEnum::String(_, _) => commands,
        _ => false,
    }
}

/// Applies the operator `command`, which is a value by now, to `parts`.
fn apply<H: Host>(
    env: &mut Environment,
    host: &mut H,
    command: &Expression,
    parts: &Vec<Expression>,
) -> (r: Result<Expression, LispError>)
    ensures
        carried(old(env)@, final(env)@),
        agrees(sem_apply(old(env)@, command@, forms_of(parts@)), r, final(env)@),
    decreases old(env).steps_left, 170nat,
{
    proof {
        reveal(sem_apply);
        reveal(sem_command);
        reveal(sem_apply_evaluated);
    }
    match command.get() {
        ExpEnum::Symbol(name, _) => {
            if name.as_str().unicode_len() == 0 {
                return Ok(Expression::make_nil());
            }
            match env.get_expression(name) {
                Some(form) => {
                    if is_form(&form, allow_form(env), allow_sys_com(env)) {
                        eval_command(env, host, &form, parts)
                    } else {
                        symbol_command(env, host, name, parts)
                    }
                },
                None => symbol_command(env, host, name, parts),
            }
        },
        ExpEnum::Vector(_) => apply_evaluated(env, host, command, parts),
        ExpEnum::Pair(_, _) => apply_evaluated(env, host, command, parts),
        ExpEnum::Wrapper(_) => apply_evaluated(env, host, command, parts),
        _ => eval_command(env, host, command, parts),
    }
}

/// Evaluates the operator `command` and applies its value to `parts`.
fn apply_evaluated<H: Host>(
    env: &mut Environment,
    host: &mut H,
    command: &Expression,
    parts: &Vec<Expression>,
) -> (r: Result<Expression, LispError>)
    ensures
        carried(old(env)@, final(env)@),
        agrees(sem_apply_evaluated(old(env)@, command@, forms_of(parts@)), r, final(env)@),
    decreases old(env).steps_left, 165nat,
{
    proof {
        reveal(sem_apply_evaluated);
        reveal(sem_eval);
        reveal(sem_command);
    }
    let com_exp = match eval(env, host, command) {
        Ok(value) => value,
        Err(err) => {
            return Err(err);
        },
    };
    eval_command(env, host, &com_exp, parts)
}

/// Evaluates a call form: a vector or a pair whose first item is the operator.
pub fn fn_eval_lazy<H: Host>(env: &mut Environment, host: &mut H, expression: &Expression) -> (r:
    Result<Expression, LispError>)
    ensures
        carried(old(env)@, final(env)@),
        agrees(sem_call_form(old(env)@, expression@), r, final(env)@),
    decreases old(env).steps_left, 180nat,
{
    proof {
        reveal(sem_call_form);
        reveal(sem_resolve);
        reveal(sem_apply);
    }
    let (command, parts) = match expression.get() {
        ExpEnum::Vector(items) => {
            if items.len() == 0 {
                return Err(LispError::new(Fault::NoCommand));
            }
            let mut parts: Vec<Expression> = Vec::new();
            let mut i: usize = 1;
            assert(items@.subrange(1, 1) =~= Seq::<Expression>::empty());
            while i < items.len()
                invariant
                    1 <= i <= items.len(),
                    parts@ == items@.subrange(1, i as int),
                decreases items.len() - i,
            {
                parts.push(items[i].dup());
                i += 1;
                assert(parts@ =~= items@.subrange(1, i as int));
            }
            proof {
                lemma_forms_subrange(items@, 1, items@.len() as int);
                assert(forms_of(items@).subrange(1, items@.len() as int) =~= forms_of(
                    items@,
                ).skip(1));
            }
            (items[0].dup(), parts)
        },
        ExpEnum::Pair(head, tail) => (head.dup(), items_of(tail)),
        ExpEnum::Nil => {
            return Ok(Expression::make_nil());
        },
        _ => {
            return Err(LispError::new(Fault::NotCallable));
        },
    };
    let command = match resolve(env, host, command) {
        Ok(value) => value,
        Err(err) => {
            return Err(err);
        },
    };
    apply(env, host, &command, &parts)
}

} // verus!
