//! Multi-value results: the natives that make one and take it apart.

use crate::args::eval_all;
use crate::environment::{carried, lemma_inserted, Environment, Namespace, ScopeModel};
use crate::error::{fresh, Fault, LispError};
use crate::eval::eval;
use crate::host::Host;
use crate::semantics::{
    agrees, length_value, nth_value, sem_values, sem_values_length, sem_values_nth,
};
use crate::types::{forms_of, Callable, ExpEnum, Expression, Form};
use vstd::prelude::*;
use vstd::string::*;

verus! {

/// The native `callable` as a value.
pub fn make_function(callable: Callable) -> (r: Expression)
    ensures
        r@ == Form::Function(callable),
{
    Expression::alloc_data(ExpEnum::Function(callable))
}

/// `(values form*)`: a multi-value result of the values of the forms, in order.
pub fn builtin_values<H: Host>(env: &mut Environment, host: &mut H, parts: &Vec<Expression>) -> (r:
    Result<Expression, LispError>)
    ensures
        carried(old(env)@, final(env)@),
        agrees(sem_values(old(env)@, forms_of(parts@)), r, final(env)@),
    decreases old(env).steps_left, 140nat,
{
    proof {
        reveal(sem_values);
    }
    let vals = match eval_all(env, host, parts) {
        Ok(vals) => vals,
        Err(err) => {
            assert(agrees(sem_values(old(env)@, forms_of(parts@)), Err(err), env@));
            return Err(err);
        },
    };
    let r = Expression::alloc_data(ExpEnum::Values(vals));
    assert(r@ == Form::Values(forms_of(vals@)));
    assert(agrees(sem_values(old(env)@, forms_of(parts@)), Ok(r), env@));
    Ok(r)
}

/// The value at `idx` of `vals`.
pub fn values_nth(idx: &Expression, vals: &Expression) -> (r: Result<Expression, LispError>)
    ensures
        match nth_value(idx@, vals@) {
            Ok(v) => r matches Ok(x) && x@ == v,
            Err(fault) => r matches Err(err) && err@ == fresh(fault),
        },
{
    match idx.get() {
        ExpEnum::Int(n) => match vals.get() {
            ExpEnum::Values(items) => {
                if *n < 0 || *n as u64 >= items.len() as u64 {
                    return Err(
                        LispError::new(Fault::ValuesRange { index: *n, len: items.len() }),
                    );
                }
                Ok(items[*n as usize].dup())
            },
            _ => Err(LispError::new(Fault::Usage(Callable::ValuesNth))),
        },
        _ => Err(LispError::new(Fault::Usage(Callable::ValuesNth))),
    }
}

/// `(values-nth idx form)`: the value at `idx` of the multi-value result that
/// `form` evaluates to. The index is evaluated first, and where it is not a
/// number the form is not evaluated at all.
pub fn builtin_values_nth<H: Host>(
    env: &mut Environment,
    host: &mut H,
    parts: &Vec<Expression>,
) -> (r: Result<Expression, LispError>)
    ensures
        carried(old(env)@, final(env)@),
        agrees(sem_values_nth(old(env)@, forms_of(parts@)), r, final(env)@),
    decreases old(env).steps_left, 140nat,
{
    proof {
        reveal(sem_values_nth);
    }
    if parts.len() != 2 {
        return Err(LispError::new(Fault::Usage(Callable::ValuesNth)));
    }
    let idx = match eval(env, host, &parts[0]) {
        Ok(value) => value,
        Err(err) => {
            return Err(err);
        },
    };
    match idx.get() {
        ExpEnum::Int(_) => {},
        _ => {
            return Err(LispError::new(Fault::Usage(Callable::ValuesNth)));
        },
    }
    let vals = match eval(env, host, &parts[1]) {
        Ok(value) => value,
        Err(err) => {
            return Err(err);
        },
    };
    values_nth(&idx, &vals)
}

/// The number of values of `vals`.
pub fn values_length(vals: &Expression) -> (r: Result<Expression, LispError>)
    ensures
        match length_value(vals@) {
            Ok(n) => r matches Ok(x) && x@ == n,
            Err(fault) => r matches Err(err) && err@ == fresh(fault),
        },
{
    match vals.get() {
        ExpEnum::Values(items) => {
            let n = items.len();
            if n as u64 <= 0x7fff_ffff_ffff_ffffu64 {
                Ok(Expression::make_int(n as i64))
            } else {
                Ok(Expression::make_int(0x7fff_ffff_ffff_ffff))
            }
        },
        _ => Err(LispError::new(Fault::Usage(Callable::ValuesLength))),
    }
}

/// `(values-length form)`: the number of values of the multi-value result that
/// `form` evaluates to.
pub fn builtin_values_length<H: Host>(
    env: &mut Environment,
    host: &mut H,
    parts: &Vec<Expression>,
) -> (r: Result<Expression, LispError>)
    ensures
        carried(old(env)@, final(env)@),
        agrees(sem_values_length(old(env)@, forms_of(parts@)), r, final(env)@),
    decreases old(env).steps_left, 140nat,
{
    proof {
        reveal(sem_values_length);
    }
    if parts.len() != 1 {
        return Err(LispError::new(Fault::Usage(Callable::ValuesLength)));
    }
    let vals = match eval(env, host, &parts[0]) {
        Ok(value) => value,
        Err(err) => {
            return Err(err);
        },
    };
    values_length(&vals)
}

/// `scope` binds `name` to the native `callable`, and documents it.
pub open spec fn binds_native(scope: ScopeModel, name: Seq<char>, callable: Callable) -> bool {
    scope.value_of(name) == Some(Form::Function(callable)) && scope.doc_of(name) is Some
}

pub open spec fn values_name() -> Seq<char> {
    "values"@
}

pub open spec fn values_nth_name() -> Seq<char> {
    "values-nth"@
}

pub open spec fn values_length_name() -> Seq<char> {
    "values-length"@
}

/// Binds the natives of multi-value results in `data`: `values`, `values-nth`
/// and `values-length`, each with its documentation. No other name of `data` is
/// touched.
pub fn add_values_builtins(data: &mut Namespace)
    ensures
        final(data)@.name == old(data)@.name,
        binds_native(final(data)@, values_name(), Callable::Values),
        binds_native(final(data)@, values_nth_name(), Callable::ValuesNth),
        binds_native(final(data)@, values_length_name(), Callable::ValuesLength),
        forall|other: Seq<char>|
            other != values_name() && other != values_nth_name() && other
                != values_length_name() ==> final(data)@.value_of(other) == old(data)@.value_of(
                other,
            ) && final(data)@.doc_of(other) == old(data)@.doc_of(other),
{
    proof {
        reveal_strlit("values");
        reveal_strlit("values-nth");
        reveal_strlit("values-length");
        assert("values"@.len() == 6 && "values-nth"@.len() == 10 && "values-length"@.len() == 13);
    }
    let ghost scope1 = data@;
    let doc1 = String::from_str(
        "Usage: (values expression*)

Produces a multi values object.  Useful for returning more then one value from
a function when most of time you only care about the first (primary) item.  When
evaluting a muti values object it will evaluate as if it the first item only.

Section: root

Example:
(test::assert-true (values? (values 1 \"str\" 5.5)))
(test::assert-equal 1 (values-nth 0 (values 1 \"str\" 5.5)))
(test::assert-equal \"str\" (values-nth 1 (values 1 \"str\" 5.5)))
(test::assert-equal 5.5 (values-nth 2 (values 1 \"str\" 5.5)))
",
    );
    let ghost text1 = doc1@;
    data.insert(String::from_str("values"), make_function(Callable::Values), doc1);
    proof {
        lemma_inserted(scope1, "values"@, Form::Function(Callable::Values), text1);
    }
    let ghost scope2 = data@;
    let doc2 = String::from_str(
        "Usage: (values-nth idx expression)

If expression is a values object then return the item at index idx.

Section: root

Example:
(test::assert-equal 1 (values-nth 0 (values 1 \"str\" 5.5)))
(test::assert-equal \"str\" (values-nth 1 (values 1 \"str\" 5.5)))
(test::assert-equal 5.5 (values-nth 2 (values 1 \"str\" 5.5)))
(def 'test-vals-nth (values 1 \"str\" 5.5))
(test::assert-equal 1 (values-nth 0 test-vals-nth))
(test::assert-equal \"str\" (values-nth 1 test-vals-nth))
(test::assert-equal 5.5 (values-nth 2 test-vals-nth))
",
    );
    let ghost text2 = doc2@;
    data.insert(String::from_str("values-nth"), make_function(Callable::ValuesNth), doc2);
    proof {
        lemma_inserted(scope2, "values-nth"@, Form::Function(Callable::ValuesNth), text2);
    }
    let ghost scope3 = data@;
    let doc3 = String::from_str(
        "Usage: (values-length expression)

If expression is a values object then return it's length (number of values).

Section: root

Example:
(test::assert-equal 3 (values-length (values 1 \"str\" 5.5)))
(test::assert-equal 2 (values-length (values 1 \"str\")))
(test::assert-equal 1 (values-length (values \"str\")))
(test::assert-equal 0 (values-length (values)))
(test::assert-equal \"str\" (values-nth 1 (values 1 \"str\" 5.5)))
(test::assert-equal 5.5 (values-nth 2 (values 1 \"str\" 5.5)))
(def 'test-vals-len (values 1 \"str\" 5.5))
(test::assert-equal 3 (values-length test-vals-len))
",
    );
    let ghost text3 = doc3@;
    data.insert(String::from_str("values-length"), make_function(Callable::ValuesLength), doc3);
    proof {
        lemma_inserted(scope3, "values-length"@, Form::Function(Callable::ValuesLength), text3);
    }
}

} // verus!
