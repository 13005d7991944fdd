//! The natives: how a call of one is dispatched.

use crate::args::eval_all;
use crate::builtins_file::{
    builtin_cd, builtin_glob, builtin_is_dir, builtin_is_file, builtin_path_exists, builtin_pid,
    builtin_pipe, builtin_wait,
};
use crate::builtins_values::{builtin_values, builtin_values_length, builtin_values_nth};
use crate::environment::{carried, Environment};
use crate::error::{Fault, LispError};
use crate::forms::{builtin_if, builtin_recur};
use crate::host::Host;
use crate::semantics::{agrees, sem_function};
use crate::types::{forms_of, Callable, Expression};
use vstd::prelude::*;

verus! {

/// Calls the native `callable` on the unevaluated `parts`. A native of the host
/// gets the values of the parts.
pub fn call_function<H: Host>(
    env: &mut Environment,
    host: &mut H,
    callable: &Callable,
    parts: &Vec<Expression>,
) -> (r: Result<Expression, LispError>)
    ensures
        carried(old(env)@, final(env)@),
        agrees(sem_function(old(env)@, *callable, forms_of(parts@)), r, final(env)@),
    decreases old(env).steps_left, 150nat,
{
    proof {
        reveal(sem_function);
    }
    match callable {
        Callable::Values => builtin_values(env, host, parts),
        Callable::ValuesNth => builtin_values_nth(env, host, parts),
        Callable::ValuesLength => builtin_values_length(env, host, parts),
        Callable::Cd => builtin_cd(env, host, parts),
        Callable::PathExists => builtin_path_exists(env, host, parts),
        Callable::IsFile => builtin_is_file(env, host, parts),
        Callable::IsDir => builtin_is_dir(env, host, parts),
        Callable::Pipe => builtin_pipe(env, host, parts),
        Callable::Wait => builtin_wait(env, host, parts),
        Callable::Pid => builtin_pid(env, host, parts),
        Callable::Glob => builtin_glob(env, host, parts),
        Callable::If => builtin_if(env, host, parts),
        Callable::Recur => builtin_recur(env, host, parts),
        Callable::Native(id) => {
            let args = match eval_all(env, host, parts) {
                Ok(value) => value,
                Err(err) => {
                    return Err(err);
                },
            };
            match host.call_native(*id, &args) {
                Ok(v) => Ok(v),
                Err(reason) => Err(LispError::new(Fault::Host(reason))),
            }
        },
    }
}

} // verus!
