use snacc_compiler::ast::{Arg, Expr, Span};
use snacc_compiler::checked::{Error, TArg, TExpr, TStmt};
use snacc_compiler::deferral::{deferred_call, finish_defer};
use snacc_compiler::methods::CheckedCall;
use snacc_compiler::moves::Binding;
use snacc_compiler::places::{MoveState, PlaceRoot};
use snacc_compiler::ty::{SumId, Ty, TypeDef, TypeId, Types};

fn span(start: usize) -> Span {
    Span { start, end: start + 1 }
}

fn messages(errors: &[Error]) -> Vec<String> {
    errors.iter().map(|e| e.msg.clone()).collect()
}

/// Error { code: Int64 }; Nil | Error; Int64 | Bool.
fn fixture() -> Types {
    Types {
        defs: vec![TypeDef::Struct { name: "Error".to_string(), fields: vec![("code".to_string(), Ty::Int64)] }],
        sums: vec![vec![Ty::Nil, Ty::User(TypeId(0))], vec![Ty::Int64, Ty::Bool]],
        boxes: vec![],
        collections: vec![],
    }
}

fn binding<'a>(name: &'a str) -> Binding<'a> {
    Binding { name, ty: Ty::String, mutable: false, scope: 0, type_test_alias: false }
}

fn local(name: &str) -> PlaceRoot {
    PlaceRoot::Local(name.to_string())
}

fn call_of<'a>(args: Vec<&'a str>) -> (Expr<'a>, Span) {
    let args: Vec<Arg<'a>> =
        args.into_iter().map(|a| Arg { name: None, value: (Expr::Local(a), span(4)) }).collect();
    (Expr::Call(Box::new((Expr::Local("close"), span(1))), (args, span(3))), span(0))
}

fn function(result: Option<Ty>) -> CheckedCall {
    CheckedCall::Function { name: "close".to_string(), args: vec![TArg::Value(TExpr::Nil)], result }
}

#[test]
fn deferred_actions_must_be_direct_calls() {
    let mut errors = Vec::new();
    let call = call_of(vec!["a"]);
    let parts = deferred_call(&mut errors, &call, span(0));
    assert!(matches!(parts, Some(((Expr::Local("close"), _), (args, _))) if args.len() == 1));
    let value = (Expr::Local("a"), span(0));
    assert!(deferred_call(&mut errors, &value, span(9)).is_none());
    assert_eq!(
        messages(&errors),
        vec!["a deferred action must be a direct function or method call".to_string()]
    );
}

#[test]
fn arming_a_defer_restores_moves_and_records_consumption() {
    let types = fixture();
    let env = vec![binding("a"), binding("b"), binding("c")];
    let call = call_of(vec!["a", "c"]);
    let armed = MoveState { entries: vec![(local("b"), span(0))] };
    let mut moves = MoveState { entries: vec![(local("b"), span(0)), (local("a"), span(4))] };
    let mut errors = Vec::new();
    let deferred = finish_defer(&types, &mut errors, &mut moves, armed, function(None), false, Some(None), &env, &call, span(7))
        .unwrap();
    assert!(errors.is_empty());
    assert_eq!(moves.entries.len(), 1);
    assert!(matches!(deferred.call, TStmt::Call(ref name, _) if name == "close"));
    assert_eq!(deferred.consumes.len(), 1);
    assert!(matches!(&deferred.consumes[0], PlaceRoot::Local(n) if n == "a"));
    let deps: Vec<String> = deferred
        .dependencies
        .iter()
        .map(|d| match d {
            PlaceRoot::Local(n) => n.clone(),
            PlaceRoot::SelfRef => "self".to_string(),
        })
        .collect();
    assert_eq!(deps, vec!["a".to_string(), "c".to_string()]);
    assert_eq!(deferred.span, span(7));
    assert!(!deferred.on_error);
}

#[test]
fn deferred_calls_must_not_produce_values() {
    let types = fixture();
    let env: Vec<Binding> = vec![];
    let call = call_of(vec![]);
    let mut moves = MoveState { entries: vec![] };
    let mut errors = Vec::new();
    let r = finish_defer(&types, &mut errors, &mut moves, MoveState { entries: vec![] }, function(Some(Ty::Int64)), false, Some(None), &env, &call, span(2));
    assert!(r.is_none());
    let r = finish_defer(&types, &mut errors, &mut moves, MoveState { entries: vec![] }, CheckedCall::Statement(TStmt::Expr(TExpr::Nil)), false, Some(None), &env, &call, span(3));
    assert!(r.is_none());
    assert_eq!(
        messages(&errors),
        vec![
            "a deferred call must not produce a value".to_string(),
            "a deferred action must be a direct function or method call".to_string(),
        ]
    );
}

#[test]
fn defer_on_error_needs_a_result_holding_error() {
    let types = fixture();
    let env: Vec<Binding> = vec![];
    let call = call_of(vec![]);
    let mut moves = MoveState { entries: vec![] };
    let mut errors = Vec::new();
    let ok = finish_defer(&types, &mut errors, &mut moves, MoveState { entries: vec![] }, function(None), true, Some(Some(Ty::Sum(SumId(0)))), &env, &call, span(2));
    assert!(ok.unwrap().on_error);
    assert!(errors.is_empty());
    let r = finish_defer(&types, &mut errors, &mut moves, MoveState { entries: vec![] }, function(None), true, Some(Some(Ty::Sum(SumId(1)))), &env, &call, span(5));
    assert!(r.is_none());
    assert_eq!(
        messages(&errors),
        vec!["'defer_on_error' is only valid in a callable whose result contains Error".to_string()]
    );
}
