//! Laws of multi-value results.

use crate::environment::EnvModel;
use crate::semantics::{bounded, done, failed, sem_eval, sem_eval_all, sem_values, Outcome};
use crate::types::Form;
use vstd::prelude::*;

verus! {

/// How many values an outcome holds, where it holds values.
pub open spec fn holds(sem: Option<Outcome<Seq<Form>>>, n: int) -> bool {
    match sem {
        Some(out) => match out.result {
            Ok(values) => values.len() == n,
            Err(_) => true,
        },
        None => true,
    }
}

/// Evaluating forms in turn gives one value for each form.
pub proof fn law_one_value_for_each_form(env: EnvModel, forms: Seq<Form>, from: int)
    requires
        0 <= from <= forms.len(),
    ensures
        holds(sem_eval_all(env, forms, from), forms.len() - from),
    decreases forms.len() - from,
{
    reveal(sem_eval_all);
    if from < forms.len() {
        let first = bounded(env.steps_left, sem_eval(env, forms[from]));
        match first {
            Some(out) => {
                match out.result {
                    Ok(v) => {
                        law_one_value_for_each_form(out.env, forms, from + 1);
                        let rest = sem_eval_all(out.env, forms, from + 1);
                        match rest {
                            Some(more) => {
                                match more.result {
                                    Ok(vs) => {
                                        assert((seq![v] + vs).len() == 1 + vs.len());
                                    },
                                    Err(_) => {},
                                }
                            },
                            None => {},
                        }
                    },
                    Err(_) => {},
                }
            },
            None => {},
        }
    }
}

/// The multi-value result that `values` makes of its forms has one value for
/// each form.
pub proof fn law_values_has_one_value_for_each_form(env: EnvModel, parts: Seq<Form>)
    ensures
        match sem_values(env, parts) {
            Some(out) => match out.result {
                Ok(v) => v is Values && v->Values_0.len() == parts.len(),
                Err(_) => true,
            },
            None => true,
        },
{
    law_one_value_for_each_form(env, parts, 0);
    assert(sem_values(env, parts) == match sem_eval_all(env, parts, 0) {
        None => None,
        Some(out) => match out.result {
            Err(f) => failed(out.env, f),
            Ok(values) => done(out.env, Form::Values(values)),
        },
    }) by {
        reveal(sem_values);
        reveal(sem_eval_all);
    }
}

} // verus!
