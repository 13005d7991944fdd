//! One item of a back-quoted list.

use crate::environment::{carried, EnvModel, Environment};
use crate::error::{Fault, LispError};
use crate::eval::eval;
use crate::forms::unquote;
use crate::host::Host;
use crate::quasi::quasi;
use crate::semantics::{sem_quasi_item, Outcome, Unquote};
use crate::types::{box_slice_it, forms_of, ExpEnum, Expression, Form};
use vstd::prelude::*;

verus! {

/// `r` and `after` are what `sem` says of an item: what it puts into the list,
/// and where the next item begins.
pub open spec fn agrees_item(
    sem: Option<Outcome<(Seq<Form>, int)>>,
    r: Result<(Vec<Expression>, usize), LispError>,
    after: EnvModel,
) -> bool {
    sem matches Some(out) ==> after == out.env && match out.result {
        Ok(made) => r matches Ok(got) && forms_of(got.0@) == made.0 && got.1 == made.1,
        Err(f) => r matches Err(err) && err@ == f,
    }
}

/// What the item `items[from]` of a back-quoted list puts into the list that is
/// made, and where the next item begins.
pub(crate) fn quasi_item<H: Host>(
    env: &mut Environment,
    host: &mut H,
    items: &Vec<Expression>,
    from: usize,
) -> (r: Result<(Vec<Expression>, usize), LispError>)
    requires
        from < items.len(),
    ensures
        carried(old(env)@, final(env)@),
        r matches Ok(got) ==> from < got.1 <= items.len(),
        agrees_item(sem_quasi_item(old(env)@, forms_of(items@), from as int), r, final(env)@),
    decreases old(env).steps_left, 120nat, *items, 2 * (items.len() - from),
{
    proof {
        reveal(sem_quasi_item);
    }
    let mut made: Vec<Expression> = Vec::new();
    match unquote(&items[from]) {
        Unquote::Keep => {
            let item = match quasi(env, host, &items[from]) {
                Ok(item) => item,
                Err(err) => {
                    return Err(err);
                },
            };
            made.push(item);
            assert(forms_of(made@) =~= seq![item@]);
            Ok((made, from + 1))
        },
        Unquote::Value => {
            if from + 1 < items.len() {
                let value = match eval(env, host, &items[from + 1]) {
                    Ok(value) => value,
                    Err(err) => {
                        return Err(err);
                    },
                };
                made.push(value);
                assert(forms_of(made@) =~= seq![value@]);
                Ok((made, from + 2))
            } else {
                Err(LispError::new(Fault::BadForm))
            }
        },
        Unquote::Splice => {
            if from + 1 < items.len() {
                let value = match eval(env, host, &items[from + 1]) {
                    Ok(value) => value,
                    Err(err) => {
                        return Err(err);
                    },
                };
                match value.get() {
                    ExpEnum::Vector(values) => Ok((box_slice_it(values), from + 2)),
                    _ => Err(LispError::new(Fault::BadForm)),
                }
            } else {
                Err(LispError::new(Fault::BadForm))
            }
        },
    }
}

} // verus!
