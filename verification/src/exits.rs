//! `return` statements, checked in steps around the checking of the
//! returned expression: what the enclosing callable allows, the returned
//! value, and the cleanup the exit runs.
use vstd::prelude::*;
use crate::ast::Span;
use crate::checked::{Error, TCleanup, TExpr, TStmt};
use crate::generics::{Diagnostics, diagnostics};
use crate::moves::{
    Binding, cleanup_for_exit, cleanup_views, consume_effect, consume_moves, consumed, dependency_check,
    exit_plan, expression_error_exit, mark_consumed, spec_error_exit,
};
use crate::names::{display_depth, spec_display};
use crate::places::{MoveState, ViewBorrow};
use crate::ty::{SumId, Ty, Types};

verus! {

/// What a `return` does with its expression, once the enclosing callable
/// is known.
#[derive(Debug)]
pub enum ReturnPlan {
    /// Outside any callable: reported. The expression, if any, is checked
    /// for its own diagnostics only, and the statement is this.
    Outside(TStmt),
    /// The expression, if any, is checked for its own diagnostics only;
    /// the `return` carries no value.
    NoValue,
    /// The expression is checked, handed to `consume_into` for the
    /// callable's result type, and returned.
    Value(Ty),
}

pub open spec fn outside_message() -> Seq<char> {
    "'return' is only valid inside a function or method body"@
}

pub open spec fn bare_return_message(types: &Types, result: Ty) -> Seq<char> {
    "bare 'return' is not valid here; this callable declares a result of type '"@ + spec_display(types, result)
        + "', so 'return' needs a value"@
}

pub open spec fn valueless_return_message() -> Seq<char> {
    "this callable declares no result, so 'return' cannot return a value; use bare 'return' instead"@
}

/// The diagnostics a `return` gets before its expression is checked.
/// `callable` is `None` outside any callable, else its declared result;
/// `value` is the expression's span, if there is one.
pub open spec fn return_diagnostics(types: &Types, callable: Option<Option<Ty>>, value: Option<Span>, span: Span) -> Diagnostics {
    match callable {
        None => seq![(span, outside_message())],
        Some(Some(result)) => if value is None {
            seq![(span, bare_return_message(types, result))]
        } else {
            Seq::empty()
        },
        Some(None) => match value {
            Some(value_span) => seq![(value_span, valueless_return_message())],
            None => Seq::empty(),
        },
    }
}

/// Checks what the enclosing callable allows a `return` before its
/// expression is looked at: it must be inside a callable, carry a value
/// exactly when the callable declares a result.
pub fn plan_return(
    types: &Types,
    errors: &mut Vec<Error>,
    callable: Option<Option<Ty>>,
    value: Option<Span>,
    span: Span,
) -> (r: ReturnPlan)
    requires
        types.wf(),
        display_depth(types) <= usize::MAX,
        callable matches Some(Some(t)) ==> types.valid_ty(t),
    ensures
        diagnostics(final(errors)@) == diagnostics(old(errors)@) + return_diagnostics(types, callable, value, span),
        match callable {
            None => r matches ReturnPlan::Outside(TStmt::Return { value: None, result: None, cleanup })
                && cleanup@.len() == 0,
            Some(Some(result)) => if value is Some {
                r == ReturnPlan::Value(result)
            } else {
                r is NoValue
            },
            Some(None) => r is NoValue,
        },
{
    let ghost start = diagnostics(errors@);
    match callable {
        None => {
            errors.push(
                Error { span, msg: String::from_str("'return' is only valid inside a function or method body") },
            );
            proof {
                assert(diagnostics(errors@) =~= start.push((span, outside_message())));
            }
            ReturnPlan::Outside(TStmt::Return { value: None, result: None, cleanup: Vec::new() })
        },
        Some(Some(result)) => match value {
            Some(_) => {
                proof {
                    assert(start =~= start + Seq::<(Span, Seq<char>)>::empty());
                }
                ReturnPlan::Value(result)
            },
            None => {
                let mut msg = String::from_str(
                    "bare 'return' is not valid here; this callable declares a result of type '",
                );
                msg.append(types.display(result).as_str());
                msg.append("', so 'return' needs a value");
                let ghost text = msg@;
                errors.push(Error { span, msg });
                proof {
                    assert(text =~= bare_return_message(types, result));
                    assert(diagnostics(errors@) =~= start.push((span, bare_return_message(types, result))));
                }
                ReturnPlan::NoValue
            },
        },
        Some(None) => {
            match value {
                Some(value_span) => {
                    errors.push(
                        Error {
                            span: value_span,
                            msg: String::from_str(
                                "this callable declares no result, so 'return' cannot return a value; use bare 'return' instead",
                            ),
                        },
                    );
                    proof {
                        assert(diagnostics(errors@) =~= start.push((value_span, valueless_return_message())));
                    }
                },
                None => {
                    proof {
                        assert(start =~= start + Seq::<(Span, Seq<char>)>::empty());
                    }
                },
            }
            ReturnPlan::NoValue
        },
    }
}

/// Builds a `return` from its handled value: the exit's cleanup runs every
/// deferred call and drop still registered in the callable, and a value
/// whose success or failure is known arms only the matching deferred
/// calls.
pub fn finish_return(
    cleanup_scopes: &Vec<Vec<TCleanup>>,
    types: &Types,
    moves: &MoveState,
    env: &Vec<Binding>,
    errors: &mut Vec<Error>,
    value: Option<TExpr>,
    result: Option<Ty>,
) -> (r: TStmt)
    requires
        types.wf(),
        types.layout_finite(),
        forall|i: int| 0 <= i < env@.len() ==> types.valid_ty(#[trigger] env@[i].ty),
    ensures
        ({
            let error_exit = match value {
                Some(v) => spec_error_exit(types, v),
                None => None,
            };
            match r {
                TStmt::Return { value: v, result: t, cleanup } => {
                    &&& v == value
                    &&& t == result
                    &&& cleanup_views(cleanup@) == exit_plan(types, cleanup_scopes@, moves.entries@, env@, 0)
                    &&& diagnostics(final(errors)@) == diagnostics(old(errors)@) + dependency_check(
                        moves.entries@,
                        cleanup_views(cleanup@),
                        cleanup@.len() as int,
                        error_exit,
                    ).0
                },
                _ => false,
            }
        }),
{
    let error_exit = match &value {
        Some(v) => expression_error_exit(types, v),
        None => None,
    };
    let cleanup = cleanup_for_exit(cleanup_scopes, types, moves, env, 0, error_exit, errors);
    TStmt::Return { value, result, cleanup }
}

/// A checked `return_on_error`: a statement, or an expression with the
/// type of the operand's success.
#[derive(Debug)]
pub enum CheckedReturnOnError {
    Expr { value: TExpr, ty: Ty },
    Statement(TStmt),
}

/// What a rejected `return_on_error` stands for.
pub open spec fn spec_return_on_error_fallback(statement_form: bool) -> CheckedReturnOnError {
    if statement_form {
        CheckedReturnOnError::Statement(TStmt::Expr(TExpr::Nil))
    } else {
        CheckedReturnOnError::Expr { value: TExpr::Nil, ty: Ty::Nil }
    }
}

/// What a rejected `return_on_error` stands for: a statement that does
/// nothing, or `nil`.
pub fn return_on_error_fallback(statement_form: bool) -> (r: CheckedReturnOnError)
    ensures
        r == spec_return_on_error_fallback(statement_form),
{
    if statement_form {
        CheckedReturnOnError::Statement(TStmt::Expr(TExpr::Nil))
    } else {
        CheckedReturnOnError::Expr { value: TExpr::Nil, ty: Ty::Nil }
    }
}

/// The predeclared `Error` type.
pub open spec fn error_type(types: &Types) -> Option<Ty> {
    match types.spec_top_level("Error"@) {
        Some(id) => Some(Ty::User(id)),
        None => None,
    }
}

/// The first `n` members other than `error`, in order.
pub open spec fn successes(members: Seq<Ty>, error: Ty, n: int) -> Seq<Ty>
    decreases if n > 0 { n as nat } else { 0 },
{
    if n <= 0 || n > members.len() {
        Seq::empty()
    } else {
        successes(members, error, n - 1) + if members[n - 1] == error {
            Seq::empty()
        } else {
            seq![members[n - 1]]
        }
    }
}

pub open spec fn needs_error_sum_message() -> Seq<char> {
    "'return_on_error' requires an inline sum containing exact 'Error'"@
}

/// What a `return_on_error` of an operand of type `value_ty` propagates:
/// the operand's sum, the enclosing result, and the operand's success
/// members in order; or the diagnostic that rejects it. `callable` is
/// `None` outside any callable, else its declared result.
pub open spec fn spec_return_on_error(
    types: &Types,
    value_ty: Ty,
    callable: Option<Option<Ty>>,
    statement_form: bool,
) -> Result<(SumId, Ty, Seq<Ty>), Seq<char>> {
    match error_type(types) {
        None => Err("the predeclared 'Error' type is unavailable"@),
        Some(error) => match value_ty {
            Ty::Sum(sum) => {
                let members = types.sums@[sum.0 as int]@;
                let rest = successes(members, error, members.len() as int);
                if !members.contains(error) {
                    Err(needs_error_sum_message())
                } else {
                    match callable {
                        Some(Some(result)) => match result {
                            Ty::Sum(result_sum) => if !types.sums@[result_sum.0 as int]@.contains(error) {
                                Err("'return_on_error' requires an enclosing result containing exact 'Error'"@)
                            } else if statement_form {
                                if rest != seq![Ty::Nil] {
                                    Err(
                                        "'return_on_error' statement form requires an operand of exactly 'Nil | Error'"@,
                                    )
                                } else {
                                    Ok((sum, result, rest))
                                }
                            } else if !(exists|i: int| 0 <= i < rest.len() && rest[i] != Ty::Nil) {
                                Err("'return_on_error' requires at least one non-Nil success member"@)
                            } else {
                                Ok((sum, result, rest))
                            },
                            _ => Err("'return_on_error' requires a fallible inline-sum result"@),
                        },
                        _ => Err("'return_on_error' is only valid inside a fallible callable"@),
                    }
                }
            },
            _ => Err(needs_error_sum_message()),
        },
    }
}

fn contains_ty(members: &Vec<Ty>, ty: Ty) -> (r: bool)
    ensures
        r == members@.contains(ty),
{
    let mut i: usize = 0;
    while i < members.len()
        invariant
            i <= members@.len(),
            forall|j: int| 0 <= j < i ==> members@[j] != ty,
        decreases members.len() - i,
    {
        if members[i] == ty {
            return true;
        }
        i = i + 1;
    }
    false
}

fn reject(errors: &mut Vec<Error>, span: Span, msg: &str)
    ensures
        diagnostics(final(errors)@) == diagnostics(old(errors)@).push((span, msg@)),
{
    let ghost before = diagnostics(errors@);
    errors.push(Error { span, msg: String::from_str(msg) });
    proof {
        assert(diagnostics(errors@) =~= before.push((span, msg@)));
    }
}

/// Checks the operand of `return_on_error`, of type `value_ty`: it must be
/// an inline sum holding the predeclared `Error`, inside a callable whose
/// result is an inline sum holding it too; the statement form needs
/// exactly `Nil | Error`, the expression form a success other than `Nil`.
/// Gives what propagates, or reports why nothing does.
pub fn return_on_error_operand(
    types: &Types,
    errors: &mut Vec<Error>,
    value_ty: Ty,
    callable: Option<Option<Ty>>,
    statement_form: bool,
    span: Span,
) -> (r: Option<(SumId, Ty, Vec<Ty>)>)
    requires
        types.defs@.len() <= u32::MAX,
        types.valid_ty(value_ty),
        callable matches Some(Some(t)) ==> types.valid_ty(t),
    ensures
        match spec_return_on_error(types, value_ty, callable, statement_form) {
            Ok((sum, result, rest)) => r matches Some((s, t, m)) && s == sum && t == result && m@ == rest
                && final(errors)@ == old(errors)@,
            Err(msg) => r is None && diagnostics(final(errors)@) == diagnostics(old(errors)@).push((span, msg)),
        },
{
    let error = match types.top_level("Error") {
        Some(id) => Ty::User(id),
        None => {
            reject(errors, span, "the predeclared 'Error' type is unavailable");
            return None;
        },
    };
    let sum = match value_ty {
        Ty::Sum(sum) => sum,
        _ => {
            reject(errors, span, "'return_on_error' requires an inline sum containing exact 'Error'");
            return None;
        },
    };
    let members = types.sum_members(sum);
    if !contains_ty(members, error) {
        reject(errors, span, "'return_on_error' requires an inline sum containing exact 'Error'");
        return None;
    }
    let mut rest: Vec<Ty> = Vec::new();
    let mut i: usize = 0;
    while i < members.len()
        invariant
            i <= members@.len(),
            rest@ == successes(members@, error, i as int),
        decreases members.len() - i,
    {
        if members[i] != error {
            rest.push(members[i]);
        }
        i = i + 1;
        proof {
            assert(rest@ =~= successes(members@, error, i as int));
        }
    }
    let result = match callable {
        Some(Some(result)) => result,
        _ => {
            reject(errors, span, "'return_on_error' is only valid inside a fallible callable");
            return None;
        },
    };
    let result_sum = match result {
        Ty::Sum(result_sum) => result_sum,
        _ => {
            reject(errors, span, "'return_on_error' requires a fallible inline-sum result");
            return None;
        },
    };
    if !contains_ty(types.sum_members(result_sum), error) {
        reject(errors, span, "'return_on_error' requires an enclosing result containing exact 'Error'");
        return None;
    }
    if statement_form {
        if !(rest.len() == 1 && rest[0] == Ty::Nil) {
            proof {
                if rest@ == seq![Ty::Nil] {
                    assert(rest@.len() == 1 && rest@[0] == Ty::Nil);
                }
            }
            reject(errors, span, "'return_on_error' statement form requires an operand of exactly 'Nil | Error'");
            return None;
        }
        proof {
            assert(rest@ =~= seq![Ty::Nil]);
        }
        return Some((sum, result, rest));
    }
    let mut k: usize = 0;
    let mut found = false;
    while k < rest.len() && !found
        invariant
            k <= rest@.len(),
            found ==> exists|q: int| 0 <= q < rest@.len() && rest@[q] != Ty::Nil,
            !found ==> forall|q: int| 0 <= q < k ==> rest@[q] == Ty::Nil,
        decreases rest.len() - k,
    {
        if rest[k] != Ty::Nil {
            found = true;
        }
        k = k + 1;
    }
    if !found {
        reject(errors, span, "'return_on_error' requires at least one non-Nil success member");
        return None;
    }
    Some((sum, result, rest))
}

/// Builds a `return_on_error` that propagates the `Error` member of `sum`
/// out of a callable whose result is `result`: the operand is taken over,
/// and the failure exit runs the cleanup registered in the callable with
/// only the deferred calls armed for an error. `success` is the operand's
/// success type for the expression form (its one success member, or the
/// inline sum of several), `None` for the statement form.
pub fn finish_return_on_error(
    cleanup_scopes: &Vec<Vec<TCleanup>>,
    types: &Types,
    moves: &mut MoveState,
    borrows: &Vec<ViewBorrow>,
    env: &Vec<Binding>,
    errors: &mut Vec<Error>,
    value: TExpr,
    sum: SumId,
    result: Ty,
    success: Option<Ty>,
    span: Span,
) -> (r: CheckedReturnOnError)
    requires
        types.wf(),
        types.layout_finite(),
        old(moves).wf(),
        forall|i: int| 0 <= i < env@.len() ==> types.valid_ty(#[trigger] env@[i].ty),
        value matches TExpr::Place(p, _) ==> types.valid_ty(p.ty) && types.valid_ty(p.root_ty),
    ensures
        final(moves).wf(),
        consume_moves(types, env@, old(moves).entries@, final(moves).entries@, value, span),
        ({
            let checks = |cleanup: Vec<TCleanup>|
                {
                    &&& cleanup_views(cleanup@) == exit_plan(
                        types,
                        cleanup_scopes@,
                        final(moves).entries@,
                        env@,
                        0,
                    )
                    &&& diagnostics(final(errors)@) == diagnostics(old(errors)@) + consume_effect(
                        types,
                        old(moves).entries@,
                        borrows@,
                        env@,
                        value,
                        span,
                    ) + dependency_check(
                        final(moves).entries@,
                        cleanup_views(cleanup@),
                        cleanup@.len() as int,
                        Some(true),
                    ).0
                };
            match success {
                None => match r {
                    CheckedReturnOnError::Statement(
                        TStmt::ReturnOnError { value: v, sum: s, result: t, cleanup },
                    ) => v == consumed(value) && s == sum && t == result && checks(cleanup),
                    _ => false,
                },
                Some(ty) => match r {
                    CheckedReturnOnError::Expr {
                        value: TExpr::ReturnOnError { value: v, sum: s, success: u, result: t, cleanup },
                        ty: rt,
                    } => *v == consumed(value) && s == sum && u == ty && t == result && rt == ty && checks(cleanup),
                    _ => false,
                },
            }
        }),
{
    let ghost start = diagnostics(errors@);
    let ghost moves0 = moves.entries@;
    let taken = mark_consumed(types, moves, borrows, env, errors, value, span);
    let ghost mid = diagnostics(errors@);
    let cleanup = cleanup_for_exit(cleanup_scopes, types, moves, env, 0, Some(true), errors);
    proof {
        assert(diagnostics(errors@) =~= start + consume_effect(types, moves0, borrows@, env@, value, span)
            + dependency_check(moves.entries@, cleanup_views(cleanup@), cleanup@.len() as int, Some(true)).0);
    }
    match success {
        None => CheckedReturnOnError::Statement(TStmt::ReturnOnError { value: taken, sum, result, cleanup }),
        Some(ty) => CheckedReturnOnError::Expr {
            value: TExpr::ReturnOnError { value: Box::new(taken), sum, success: ty, result, cleanup },
            ty,
        },
    }
}

} // verus!
