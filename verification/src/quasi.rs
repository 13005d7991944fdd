//! Back-quoted templates.

use crate::environment::{carried, Environment};
use crate::error::LispError;
use crate::host::Host;
use crate::quasi_items::quasi_items;
use crate::semantics::{agrees, sem_quasi};
use crate::types::{ExpEnum, Expression};
use vstd::prelude::*;

verus! {

/// The template with its unquoted items evaluated: a vector is rebuilt item by
/// item, vectors within it in the same way, and anything else is itself.
pub(crate) fn quasi<H: Host>(env: &mut Environment, host: &mut H, template: &Expression) -> (r:
    Result<Expression, LispError>)
    ensures
        carried(old(env)@, final(env)@),
        agrees(sem_quasi(old(env)@, template@), r, final(env)@),
    decreases old(env).steps_left, 120nat, *template, 0nat,
{
    proof {
        reveal(sem_quasi);
    }
    match template.get() {
        ExpEnum::Vector(items) => {
            match quasi_items(env, host, items) {
                Ok(made) => Ok(Expression::with_list(made)),
                Err(err) => Err(err),
            }
        },
        _ => Ok(template.dup()),
    }
}

} // verus!
