//! The items of a back-quoted list.

use crate::environment::{carried, Environment};
use crate::error::LispError;
use crate::host::Host;
use crate::quasi_item::quasi_item;
use crate::semantics::{after_values, agrees_all, sem_quasi_item, sem_quasi_items};
use crate::types::{forms_of, lemma_forms_add, Expression, Form};
use vstd::prelude::*;

verus! {

/// What the items of a back-quoted list come to, item by item.
pub(crate) fn quasi_items<H: Host>(
    env: &mut Environment,
    host: &mut H,
    items: &Vec<Expression>,
) -> (r: Result<Vec<Expression>, LispError>)
    ensures
        carried(old(env)@, final(env)@),
        agrees_all(sem_quasi_items(old(env)@, forms_of(items@), 0), r, final(env)@),
    decreases old(env).steps_left, 120nat, *items, 2 * items.len() + 1,
{
    let ghost all = sem_quasi_items(old(env)@, forms_of(items@), 0);
    let mut out: Vec<Expression> = Vec::new();
    let mut i: usize = 0;
    assert(forms_of(out@) + Seq::<Form>::empty() =~= forms_of(out@));
    proof {
        reveal(sem_quasi_items);
    }
    while i < items.len()
        invariant
            i <= items.len(),
            carried(old(env)@, env@),
            all == sem_quasi_items(old(env)@, forms_of(items@), 0),
            all is Some ==> all == after_values(
                forms_of(out@),
                sem_quasi_items(env@, forms_of(items@), i as int),
            ),
        decreases items.len() - i,
    {
        proof {
            reveal(sem_quasi_items);
        }
        let ghost before = env@;
        let ghost prefix = forms_of(out@);
        let ghost out_before = out@;
        let (mut made, next) = match quasi_item(env, host, items, i) {
            Ok(got) => got,
            Err(err) => {
                return Err(err);
            },
        };
        proof {
            lemma_forms_add(out_before, made@);
            let rest = sem_quasi_items(env@, forms_of(items@), next as int);
            if all is Some {
                assert(sem_quasi_item(before, forms_of(items@), i as int) is Some);
                if rest is Some && rest->0.result is Ok {
                    assert(prefix + (forms_of(made@) + rest->0.result->Ok_0) =~= (prefix
                        + forms_of(made@)) + rest->0.result->Ok_0);
                }
            }
        }
        out.append(&mut made);
        i = next;
    }
    proof {
        assert(forms_of(out@) + Seq::<Form>::empty() =~= forms_of(out@));
    }
    Ok(out)
}

} // verus!
