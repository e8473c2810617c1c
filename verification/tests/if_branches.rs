use snacc_compiler::ast::Span;
use snacc_compiler::branches::{check_else_branch, finish_if, FlowIf};
use snacc_compiler::checked::{Error, TBlock, TCondition, TExpr};
use snacc_compiler::places::{MoveState, PlaceRoot, ViewBorrow};
use snacc_compiler::resolve::ChainFact;
use snacc_compiler::ty::{Ty, Types};

fn span(start: usize) -> Span {
    Span { start, end: start + 1 }
}

fn messages(errors: &[Error]) -> Vec<String> {
    errors.iter().map(|e| e.msg.clone()).collect()
}

fn types() -> Types {
    Types { defs: vec![], sums: vec![], boxes: vec![], collections: vec![] }
}

fn local(name: &str) -> PlaceRoot {
    PlaceRoot::Local(name.to_string())
}

fn roots(moves: &MoveState) -> Vec<String> {
    let mut names: Vec<String> = moves
        .entries
        .iter()
        .map(|(root, _)| match root {
            PlaceRoot::Local(name) => name.clone(),
            PlaceRoot::SelfRef => "self".to_string(),
        })
        .collect();
    names.sort();
    names
}

fn block() -> TBlock {
    TBlock { statements: vec![], result: None, result_ty: None, cleanup: vec![] }
}

fn arm() -> (TCondition, TBlock) {
    (TCondition::Expr(TExpr::Bool(true)), block())
}

fn fact(exhaustive: bool, missing: &[&str]) -> ChainFact {
    ChainFact { exhaustive, missing: missing.iter().map(|m| m.to_string()).collect() }
}

fn borrow(name: &str) -> ViewBorrow {
    ViewBorrow { view_name: name.to_string(), sources: vec![local("s")], scope: 0, persistent: false }
}

#[test]
fn an_else_after_an_exhaustive_chain_is_unreachable() {
    let mut errors = Vec::new();
    check_else_branch(&types(), &mut errors, &fact(true, &[]), true, None, span(2));
    assert_eq!(
        messages(&errors),
        vec!["this type-test chain already covers every direct member, so the 'else' branch is unreachable"
            .to_string()]
    );
    assert_eq!(errors[0].span, span(2));
    let mut errors = Vec::new();
    check_else_branch(&types(), &mut errors, &fact(false, &[]), true, Some(Ty::Int64), span(2));
    assert!(errors.is_empty());
}

#[test]
fn a_value_if_without_else_is_reported() {
    let mut errors = Vec::new();
    check_else_branch(&types(), &mut errors, &fact(false, &[]), false, Some(Ty::Int64), span(4));
    assert_eq!(
        messages(&errors),
        vec!["an 'if' that produces a value of type 'Int64' requires an 'else' branch".to_string()]
    );
    let mut errors = Vec::new();
    check_else_branch(&types(), &mut errors, &fact(false, &["Circle", "Square"]), false, Some(Ty::String), span(4));
    assert_eq!(
        messages(&errors),
        vec!["this type-test chain produces a value of type 'String' without an 'else' branch, but does not handle Circle, Square"
            .to_string()]
    );
    let mut errors = Vec::new();
    check_else_branch(&types(), &mut errors, &fact(false, &["Circle"]), false, None, span(4));
    check_else_branch(&types(), &mut errors, &fact(true, &[]), false, Some(Ty::Bool), span(4));
    assert!(errors.is_empty());
}

#[test]
fn an_if_without_else_merges_the_entry_state() {
    let entry = MoveState { entries: vec![(local("a"), span(1))] };
    let exits = vec![MoveState { entries: vec![(local("a"), span(1)), (local("b"), span(5))] }];
    let mut moves = MoveState { entries: vec![] };
    let mut borrows: Vec<ViewBorrow> = vec![];
    let (flow, returns) = finish_if(
        &mut moves,
        &mut borrows,
        entry,
        vec![borrow("v")],
        exits,
        vec![vec![]],
        vec![arm()],
        &[false],
        None,
        true,
        false,
        None,
    );
    assert!(!returns);
    assert_eq!(roots(&moves), vec!["a".to_string(), "b".to_string()]);
    assert_eq!(borrows.len(), 1);
    assert!(matches!(flow, FlowIf::Stmt(ref s) if s.arms.len() == 1 && s.else_branch.is_none() && !s.exhaustive));
}

#[test]
fn an_if_whose_branches_all_return_returns() {
    let entry = MoveState { entries: vec![(local("a"), span(1))] };
    let mut moves = MoveState { entries: vec![] };
    let mut borrows: Vec<ViewBorrow> = vec![];
    let (flow, returns) = finish_if(
        &mut moves,
        &mut borrows,
        entry,
        vec![],
        vec![],
        vec![],
        vec![arm(), arm()],
        &[true, true],
        Some(block()),
        true,
        false,
        Some(Ty::Int64),
    );
    assert!(returns);
    assert_eq!(roots(&moves), vec!["a".to_string()]);
    assert!(matches!(flow, FlowIf::Stmt(ref s) if s.arms.len() == 2 && s.else_branch.is_some()));
}

#[test]
fn a_value_if_merges_only_the_branches_that_reach_its_end() {
    let entry = MoveState { entries: vec![] };
    let exits = vec![
        MoveState { entries: vec![(local("x"), span(3))] },
        MoveState { entries: vec![(local("y"), span(7))] },
    ];
    let mut moves = MoveState { entries: vec![(local("stale"), span(0))] };
    let mut borrows: Vec<ViewBorrow> = vec![borrow("old")];
    let (flow, returns) = finish_if(
        &mut moves,
        &mut borrows,
        entry,
        vec![],
        exits,
        vec![vec![borrow("v")], vec![]],
        vec![arm(), arm()],
        &[false, true],
        Some(block()),
        false,
        false,
        Some(Ty::Bool),
    );
    assert!(!returns);
    assert_eq!(roots(&moves), vec!["x".to_string(), "y".to_string()]);
    assert_eq!(borrows.len(), 1);
    assert_eq!(borrows[0].view_name, "v");
    match flow {
        FlowIf::Value(TExpr::If(value)) => {
            assert_eq!(value.ty, Ty::Bool);
            assert_eq!(value.arms.len(), 2);
            assert!(value.else_branch.is_some());
        }
        _ => panic!("a value if is a value"),
    }
}

#[test]
fn an_exhaustive_chain_without_else_covers_every_path() {
    let entry = MoveState { entries: vec![(local("e"), span(9))] };
    let mut moves = MoveState { entries: vec![] };
    let mut borrows: Vec<ViewBorrow> = vec![];
    let (flow, returns) = finish_if(
        &mut moves,
        &mut borrows,
        entry,
        vec![],
        vec![MoveState { entries: vec![] }],
        vec![vec![]],
        vec![arm()],
        &[false],
        None,
        true,
        true,
        Some(Ty::Int64),
    );
    assert!(!returns);
    assert!(moves.entries.is_empty());
    assert!(matches!(flow, FlowIf::Value(TExpr::If(ref v)) if v.exhaustive));
}
