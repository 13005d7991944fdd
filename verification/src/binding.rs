//! How the arguments of a call are matched against a parameter list.

use crate::environment::{first_named, lemma_first_named};
use crate::error::{fresh, Fault, FaultModel, LispError};
use crate::text::same_text;
use crate::types::{forms_of, texts, Expression, Form};
use vstd::prelude::*;

verus! {

/// The name that makes the parameter after it take all remaining arguments.
pub open spec fn rest_marker() -> Seq<char> {
    "&rest"@
}

/// How many of the first `upto` names are parameters, that is, not the marker.
pub open spec fn declared(names: Seq<Seq<char>>, upto: int) -> nat
    decreases upto,
{
    if upto <= 0 || upto > names.len() {
        0
    } else if names[upto - 1] == rest_marker() {
        declared(names, upto - 1)
    } else {
        declared(names, upto - 1) + 1
    }
}

/// A parameter list that a number of arguments fits: `fixed` parameters take one
/// argument each, and with `rest` one more parameter takes what remains.
pub struct BindPlan {
    pub fixed: usize,
    pub rest: bool,
}

/// Matching `nargs` arguments against the parameter names `names`.
///
/// The arguments before the first marker are matched one to one. Where they
/// reach the marker, exactly one name, not the marker again, has to follow it.
/// Where they do not fit, the fault gives the number of arguments that the list
/// asks for, and the number it got: with a marker the least number that is
/// accepted, which is the number of names before the marker, else the number of
/// parameters that the list declares.
pub open spec fn binding(names: Seq<Seq<char>>, nargs: nat) -> Result<BindPlan, FaultModel> {
    let r = first_named(names, rest_marker(), 0);
    if r < names.len() && nargs >= r {
        if r + 1 >= names.len() {
            Err(FaultModel::RestWithoutName)
        } else if names[r + 1] == rest_marker() {
            Err(FaultModel::RestTwice)
        } else if r + 2 < names.len() {
            Err(FaultModel::RestNotLast)
        } else {
            Ok(BindPlan { fixed: r as usize, rest: true })
        }
    } else if r == names.len() && nargs == names.len() {
        Ok(BindPlan { fixed: names.len() as usize, rest: false })
    } else {
        Err(
            FaultModel::WrongParamCount {
                expected: if r < names.len() {
                    r as usize
                } else {
                    declared(names, names.len() as int) as usize
                },
                got: nargs as usize,
                at_least: r < names.len(),
            },
        )
    }
}

/// What the rest parameter is bound to: nil when nothing remains, else the list
/// of what remains, in call order.
pub open spec fn rest_form(extra: Seq<Form>) -> Form {
    if extra.len() == 0 {
        Form::Nil
    } else {
        Form::Vector(extra)
    }
}

/// What a plan binds for the arguments `args`, where `fixed` are the values for
/// the fixed parameters: those, then the rest value made of the arguments after
/// them.
pub open spec fn bound_forms(plan: BindPlan, fixed: Seq<Form>, args: Seq<Form>) -> Seq<Form> {
    if plan.rest {
        fixed.push(rest_form(args.skip(plan.fixed as int)))
    } else {
        fixed
    }
}

fn count_declared(names: &Vec<String>) -> (n: usize)
    ensures
        n == declared(texts(names@), names@.len() as int),
{
    let mut n: usize = 0;
    let mut i: usize = 0;
    while i < names.len()
        invariant
            i <= names.len(),
            n <= i,
            n == declared(texts(names@), i as int),
        decreases names.len() - i,
    {
        if !same_text(&names[i], "&rest") {
            n += 1;
        }
        i += 1;
    }
    n
}

/// Matches `nargs` arguments against `names`.
pub fn bind_plan(names: &Vec<String>, nargs: usize) -> (r: Result<BindPlan, LispError>)
    ensures
        match binding(texts(names@), nargs as nat) {
            Ok(plan) => r matches Ok(p) && p == plan,
            Err(fault) => r matches Err(err) && err@ == fresh(fault),
        },
        r matches Ok(plan) ==> plan.fixed <= nargs && plan.fixed <= names@.len(),
{
    let ghost keys = texts(names@);
    let mut i: usize = 0;
    while i < names.len() && !same_text(&names[i], "&rest")
        invariant
            i <= names.len(),
            keys == texts(names@),
            first_named(keys, rest_marker(), 0) == first_named(keys, rest_marker(), i as int),
        decreases names.len() - i,
    {
        i += 1;
    }
    proof {
        lemma_first_named(keys, rest_marker(), 0);
    }
    if i < names.len() && nargs >= i {
        if i + 1 >= names.len() {
            Err(LispError::new(Fault::RestWithoutName))
        } else if same_text(&names[i + 1], "&rest") {
            Err(LispError::new(Fault::RestTwice))
        } else if i + 2 < names.len() {
            Err(LispError::new(Fault::RestNotLast))
        } else {
            Ok(BindPlan { fixed: i, rest: true })
        }
    } else if i == names.len() && nargs == names.len() {
        Ok(BindPlan { fixed: i, rest: false })
    } else {
        Err(
            LispError::new(
                Fault::WrongParamCount {
                    expected: if i < names.len() {
                        i
                    } else {
                        count_declared(names)
                    },
                    got: nargs,
                    at_least: i < names.len(),
                },
            ),
        )
    }
}

/// The value for the rest parameter when `args[from..]` remain.
pub fn rest_value(args: &Vec<Expression>, from: usize) -> (r: Expression)
    requires
        from <= args.len(),
    ensures
        r@ == rest_form(forms_of(args@).skip(from as int)),
{
    if from == args.len() {
        Expression::make_nil()
    } else {
        let mut rest: Vec<Expression> = Vec::new();
        let mut i: usize = from;
        while i < args.len()
            invariant
                from <= i <= args.len(),
                rest@ == args@.subrange(from as int, i as int),
            decreases args.len() - i,
        {
            rest.push(args[i].dup());
            i += 1;
        }
        assert(forms_of(rest@) =~= forms_of(args@).skip(from as int));
        Expression::with_list(rest)
    }
}

/// A parameter list without the marker declares as many parameters as it has names.
pub proof fn lemma_declared_all(names: Seq<Seq<char>>, upto: int)
    requires
        0 <= upto <= names.len(),
        forall|i: int| 0 <= i < upto ==> names[i] != rest_marker(),
    ensures
        declared(names, upto) == upto,
    decreases upto,
{
    if upto > 0 {
        lemma_declared_all(names, upto - 1);
    }
}

} // verus!
