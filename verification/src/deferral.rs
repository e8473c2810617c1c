//! `defer` and `defer_on_error`: a direct call checked now and run at scope
//! exit. Arming it moves nothing; what its eventual run may consume and
//! which bindings it reads are recorded for exit-time validation.
use vstd::prelude::*;
use crate::ast::{Arg, Expr, Span, Spanned};
use crate::checked::{Error, TDeferred, TStmt};
use crate::generics::diagnostics;
use crate::mentions::{expr_mentions_local, spec_expr_mentions_local};
use crate::methods::CheckedCall;
use crate::moves::Binding;
use crate::places::{MoveState, PlaceRoot, PlaceRootView, moves_root};
use crate::text::str_eq;
use crate::ty::{SumId, Ty, TypeDef, Types};

verus! {

pub open spec fn direct_call_message() -> Seq<char> {
    "a deferred action must be a direct function or method call"@
}

/// The callee and arguments of a deferred action, which must be a direct
/// call; anything else is reported.
pub fn deferred_call<'a, 'src>(errors: &mut Vec<Error>, call: &'a Spanned<Expr<'src>>, span: Span) -> (r: Option<
    (&'a Spanned<Expr<'src>>, &'a Spanned<Vec<Arg<'src>>>),
>)
    ensures
        match call.0 {
            Expr::Call(callee, args) => r matches Some((c, a)) && *c == *callee && *a == args && final(errors)@
                == old(errors)@,
            _ => r is None && diagnostics(final(errors)@) == diagnostics(old(errors)@).push(
                (span, direct_call_message()),
            ),
        },
{
    match &call.0 {
        Expr::Call(callee, args) => Some((&**callee, args)),
        _ => {
            let ghost before = diagnostics(errors@);
            errors.push(Error { span, msg: String::from_str("a deferred action must be a direct function or method call") });
            proof {
                assert(diagnostics(errors@) =~= before.push((span, direct_call_message())));
            }
            None
        },
    }
}

/// The roots the first `n` entries of `now` record as moved that `before`
/// does not, in order.
pub open spec fn newly_moved(now: Seq<(PlaceRoot, Span)>, before: Seq<(PlaceRoot, Span)>, n: int) -> Seq<PlaceRootView>
    decreases if n > 0 { n as nat } else { 0 },
{
    if n <= 0 || n > now.len() {
        Seq::empty()
    } else {
        newly_moved(now, before, n - 1) + if moves_root(before, now[n - 1].0@) {
            Seq::empty()
        } else {
            seq![now[n - 1].0@]
        }
    }
}

/// The first `n` bindings of `env` that `call` mentions, as roots, in
/// order.
pub open spec fn mentioned_roots(env: Seq<Binding>, call: Expr, n: int) -> Seq<PlaceRootView>
    decreases if n > 0 { n as nat } else { 0 },
{
    if n <= 0 || n > env.len() {
        Seq::empty()
    } else {
        mentioned_roots(env, call, n - 1) + if spec_expr_mentions_local(call, env[n - 1].name@) {
            seq![PlaceRootView::Local(env[n - 1].name@)]
        } else {
            Seq::empty()
        }
    }
}

/// A user-defined type named `Error`.
pub open spec fn named_error(types: &Types, ty: Ty) -> bool {
    match ty {
        Ty::User(id) => types.defs@[id.0 as int].spec_name()@ == "Error"@,
        _ => false,
    }
}

/// Inline sum `sum` has a member named `Error`.
pub open spec fn sum_holds_error(types: &Types, sum: SumId) -> bool {
    exists|i: int| 0 <= i < types.sums@[sum.0 as int]@.len() && named_error(types, #[trigger] types.sums@[sum.0 as int]@[i])
}

/// The enclosing callable returns an inline sum holding a type named
/// `Error`.
pub open spec fn result_holds_error(types: &Types, callable: Option<Option<Ty>>) -> bool {
    match callable {
        Some(Some(Ty::Sum(sum))) => sum_holds_error(types, sum),
        _ => false,
    }
}

pub open spec fn produces_value_message() -> Seq<char> {
    "a deferred call must not produce a value"@
}

pub open spec fn on_error_message() -> Seq<char> {
    "'defer_on_error' is only valid in a callable whose result contains Error"@
}

/// The statement a checked deferred call runs, or the diagnostic that
/// rejects it.
pub open spec fn deferred_statement_error(checked: CheckedCall) -> Option<Seq<char>> {
    match checked {
        CheckedCall::Function { result: None, .. } => None,
        CheckedCall::Method { result: None, .. } => None,
        CheckedCall::Statement(_) => Some(direct_call_message()),
        _ => Some(produces_value_message()),
    }
}

pub open spec fn deferred_statement(checked: CheckedCall) -> TStmt {
    match checked {
        CheckedCall::Function { name, args, .. } => TStmt::Call(name, args),
        CheckedCall::Method { call, .. } => TStmt::MethodCall(call),
        CheckedCall::Statement(s) => s,
        CheckedCall::Value(v, _) => TStmt::Expr(v),
    }
}

fn newly_moved_roots(now: &MoveState, before: &MoveState) -> (r: Vec<PlaceRoot>)
    ensures
        r@.map_values(|root: PlaceRoot| root@) == newly_moved(now.entries@, before.entries@, now.entries@.len() as int),
{
    let mut r: Vec<PlaceRoot> = Vec::new();
    let mut i: usize = 0;
    while i < now.entries.len()
        invariant
            i <= now.entries@.len(),
            r@.map_values(|root: PlaceRoot| root@) == newly_moved(now.entries@, before.entries@, i as int),
        decreases now.entries.len() - i,
    {
        let ghost prev = r@;
        if !before.contains(&now.entries[i].0) {
            r.push(crate::places::copy_root(&now.entries[i].0));
            proof {
                assert(r@.map_values(|root: PlaceRoot| root@) =~= prev.map_values(|root: PlaceRoot| root@).push(
                    now.entries@[i as int].0@,
                ));
            }
        }
        i = i + 1;
        proof {
            assert(r@.map_values(|root: PlaceRoot| root@) =~= newly_moved(now.entries@, before.entries@, i as int));
        }
    }
    r
}

fn holds_error(types: &Types, callable: Option<Option<Ty>>) -> (r: bool)
    requires
        types.wf(),
        callable matches Some(Some(t)) ==> types.valid_ty(t),
    ensures
        r == result_holds_error(types, callable),
{
    proof {
        reveal_strlit("Error");
    }
    let sum = match callable {
        Some(Some(Ty::Sum(sum))) => sum,
        _ => {
            return false;
        },
    };
    let members = types.sum_members(sum);
    let mut i: usize = 0;
    while i < members.len()
        invariant
            types.wf(),
            sum.0 < types.sums@.len(),
            callable == Some(Some(Ty::Sum(sum))),
            members@ == types.sums@[sum.0 as int]@,
            i <= members@.len(),
            forall|j: int| 0 <= j < i ==> !named_error(types, #[trigger] members@[j]),
        decreases members.len() - i,
    {
        match members[i] {
            Ty::User(id) => {
                proof {
                    assert(types.sum_wf(sum.0 as int));
                    assert(types.valid_ty(members@[i as int]));
                }
                if str_eq(types.def(id).name().as_str(), "Error") {
                    proof {
                        assert(named_error(types, types.sums@[sum.0 as int]@[i as int]));
                    }
                    return true;
                }
            },
            _ => {},
        }
        i = i + 1;
    }
    false
}

fn mentioned_bindings(env: &Vec<Binding>, call: &Expr) -> (r: Vec<PlaceRoot>)
    ensures
        r@.map_values(|root: PlaceRoot| root@) == mentioned_roots(env@, *call, env@.len() as int),
{
    let mut r: Vec<PlaceRoot> = Vec::new();
    let mut i: usize = 0;
    while i < env.len()
        invariant
            i <= env@.len(),
            r@.map_values(|root: PlaceRoot| root@) == mentioned_roots(env@, *call, i as int),
        decreases env.len() - i,
    {
        let ghost prev = r@;
        if expr_mentions_local(call, env[i].name) {
            r.push(PlaceRoot::Local(String::from_str(env[i].name)));
            proof {
                assert(r@.map_values(|root: PlaceRoot| root@) =~= prev.map_values(|root: PlaceRoot| root@).push(
                    PlaceRootView::Local(env@[i as int].name@),
                ));
            }
        }
        i = i + 1;
        proof {
            assert(r@.map_values(|root: PlaceRoot| root@) =~= mentioned_roots(env@, *call, i as int));
        }
    }
    r
}

/// Completes a deferred action once its call is checked: the roots the
/// check recorded as moved (beyond `armed`, the state before it) become
/// what the eventual run consumes, and `moves` is put back to `armed`,
/// since arming moves nothing. The call must be a direct call without a
/// value; `defer_on_error` needs a callable whose result holds `Error`.
/// The bindings the call mentions become its dependencies.
pub fn finish_defer(
    types: &Types,
    errors: &mut Vec<Error>,
    moves: &mut MoveState,
    armed: MoveState,
    checked: CheckedCall,
    on_error: bool,
    callable: Option<Option<Ty>>,
    env: &Vec<Binding>,
    call: &Spanned<Expr>,
    span: Span,
) -> (r: Option<TDeferred>)
    requires
        types.wf(),
        callable matches Some(Some(t)) ==> types.valid_ty(t),
    ensures
        final(moves).entries@ == armed.entries@,
        match deferred_statement_error(checked) {
            Some(msg) => r is None && diagnostics(final(errors)@) == diagnostics(old(errors)@).push((span, msg)),
            None => if on_error && !result_holds_error(types, callable) {
                r is None && diagnostics(final(errors)@) == diagnostics(old(errors)@).push((span, on_error_message()))
            } else {
                &&& final(errors)@ == old(errors)@
                &&& r matches Some(d)
                &&& d.on_error == on_error
                &&& d.call == deferred_statement(checked)
                &&& d.span == span
                &&& d.dependencies@.map_values(|root: PlaceRoot| root@) == mentioned_roots(env@, call.0, env@.len() as int)
                &&& d.consumes@.map_values(|root: PlaceRoot| root@) == newly_moved(
                    old(moves).entries@,
                    armed.entries@,
                    old(moves).entries@.len() as int,
                )
            },
        },
{
    let consumes = newly_moved_roots(moves, &armed);
    *moves = armed;
    let statement = match checked {
        CheckedCall::Function { name, args, result: None } => TStmt::Call(name, args),
        CheckedCall::Method { call, result: None } => TStmt::MethodCall(call),
        CheckedCall::Statement(_) => {
            let ghost before = diagnostics(errors@);
            errors.push(Error { span, msg: String::from_str("a deferred action must be a direct function or method call") });
            proof {
                assert(diagnostics(errors@) =~= before.push((span, direct_call_message())));
            }
            return None;
        },
        _ => {
            let ghost before = diagnostics(errors@);
            errors.push(Error { span, msg: String::from_str("a deferred call must not produce a value") });
            proof {
                assert(diagnostics(errors@) =~= before.push((span, produces_value_message())));
            }
            return None;
        },
    };
    if on_error && !holds_error(types, callable) {
        let ghost before = diagnostics(errors@);
        errors.push(
            Error {
                span,
                msg: String::from_str("'defer_on_error' is only valid in a callable whose result contains Error"),
            },
        );
        proof {
            assert(diagnostics(errors@) =~= before.push((span, on_error_message())));
        }
        return None;
    }
    let dependencies = mentioned_bindings(env, &call.0);
    Some(TDeferred { on_error, call: statement, span, dependencies, consumes })
}

} // verus!
