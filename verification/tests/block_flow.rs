use snacc_compiler::ast::Span;
use snacc_compiler::blocks::{
    block_element, finish_block, register_binding, BlockFlow, ElementKind, ElementRole,
};
use snacc_compiler::checked::{Error, TCleanup, TExpr, TStmt};
use snacc_compiler::places::{MoveState, Place, PlaceRoot, ViewBorrow};
use snacc_compiler::ty::{Ty, Types};

fn span(start: usize) -> Span {
    Span { start, end: start + 1 }
}

fn messages(errors: &[Error]) -> Vec<String> {
    errors.iter().map(|e| e.msg.clone()).collect()
}

fn types() -> Types {
    Types { defs: vec![], sums: vec![], boxes: vec![], collections: vec![] }
}

fn fresh() -> BlockFlow {
    BlockFlow { returned: false, reported_unreachable: false }
}

fn local(name: &str) -> PlaceRoot {
    PlaceRoot::Local(name.to_string())
}

fn drop_of(name: &str) -> TCleanup {
    TCleanup::Drop(Place { root: local(name), root_ty: Ty::String, path: vec![], ty: Ty::String })
}

fn dropped(plan: &[TCleanup]) -> Vec<String> {
    plan.iter()
        .map(|c| match c {
            TCleanup::Drop(place) => match &place.root {
                PlaceRoot::Local(name) => name.clone(),
                PlaceRoot::SelfRef => "self".to_string(),
            },
            TCleanup::Deferred(_) => "deferred".to_string(),
        })
        .collect()
}

fn let_of(name: &str, ty: Ty) -> TStmt {
    TStmt::Let { mutable: false, name: name.to_string(), ty, value: TExpr::Nil }
}

fn borrow(name: &str, scope: usize) -> ViewBorrow {
    ViewBorrow { view_name: name.to_string(), sources: vec![local("s")], scope, persistent: false }
}

#[test]
fn the_last_expression_supplies_the_value() {
    let mut errors = Vec::new();
    let mut flow = fresh();
    let role = block_element(&types(), &mut errors, &mut flow, 2, 3, ElementKind::Expr, Some(Ty::Int64), span(1));
    assert_eq!(role, ElementRole::TrailingValue { ty: Ty::Int64 });
    let role = block_element(&types(), &mut errors, &mut flow, 1, 3, ElementKind::Expr, Some(Ty::Int64), span(1));
    assert_eq!(role, ElementRole::Statement);
    let role = block_element(&types(), &mut errors, &mut flow, 2, 3, ElementKind::Let, None, span(1));
    assert_eq!(role, ElementRole::Binding);
    assert!(errors.is_empty());
}

#[test]
fn a_value_block_must_not_end_in_a_statement_or_deferral() {
    let mut errors = Vec::new();
    let mut flow = fresh();
    let role = block_element(&types(), &mut errors, &mut flow, 0, 1, ElementKind::Defer, Some(Ty::Bool), span(2));
    assert_eq!(role, ElementRole::Deferral);
    let role = block_element(&types(), &mut errors, &mut flow, 0, 1, ElementKind::Let, Some(Ty::Bool), span(3));
    assert_eq!(role, ElementRole::Statement);
    let role = block_element(&types(), &mut errors, &mut flow, 0, 1, ElementKind::Other, Some(Ty::Bool), span(4));
    assert_eq!(role, ElementRole::Statement);
    let role = block_element(&types(), &mut errors, &mut flow, 0, 1, ElementKind::Return, Some(Ty::Bool), span(5));
    assert_eq!(role, ElementRole::Return);
    assert_eq!(
        messages(&errors),
        vec![
            "this block must end in an expression of type 'Bool', but it ends in a deferred call".to_string(),
            "this block must end in an expression of type 'Bool', but it ends in a statement".to_string(),
            "this block must end in an expression of type 'Bool', but it ends in a statement".to_string(),
        ]
    );
    assert_eq!(errors[0].span, span(2));
}

#[test]
fn dead_code_is_reported_once_at_its_first_element() {
    let mut errors = Vec::new();
    let mut flow = BlockFlow { returned: true, reported_unreachable: false };
    let role = block_element(&types(), &mut errors, &mut flow, 1, 3, ElementKind::Other, None, span(7));
    assert_eq!(role, ElementRole::Statement);
    assert!(flow.reported_unreachable);
    let role = block_element(&types(), &mut errors, &mut flow, 2, 3, ElementKind::If, Some(Ty::Int64), span(9));
    assert_eq!(role, ElementRole::Branch { slot: None });
    assert_eq!(
        messages(&errors),
        vec!["this code is unreachable: every path that reaches it has already returned from this function or method"
            .to_string()]
    );
    assert_eq!(errors[0].span, span(7));
}

#[test]
fn only_a_reachable_last_if_can_supply_the_value() {
    let mut errors = Vec::new();
    let mut flow = fresh();
    let role = block_element(&types(), &mut errors, &mut flow, 0, 2, ElementKind::If, Some(Ty::Int64), span(0));
    assert_eq!(role, ElementRole::Branch { slot: None });
    let role = block_element(&types(), &mut errors, &mut flow, 1, 2, ElementKind::If, Some(Ty::Int64), span(0));
    assert_eq!(role, ElementRole::Branch { slot: Some(Ty::Int64) });
    assert!(errors.is_empty());
}

#[test]
fn move_only_bindings_register_their_drop() {
    let types = types();
    let mut scope: Vec<TCleanup> = vec![drop_of("first")];
    register_binding(&types, &mut scope, &let_of("text", Ty::String));
    register_binding(&types, &mut scope, &let_of("count", Ty::Int64));
    register_binding(&types, &mut scope, &TStmt::Expr(TExpr::Nil));
    assert_eq!(dropped(&scope), vec!["first".to_string(), "text".to_string()]);
}

#[test]
fn an_empty_value_block_is_reported() {
    let types = types();
    let mut errors = Vec::new();
    let moves = MoveState { entries: vec![] };
    let mut borrows: Vec<ViewBorrow> = vec![];
    let block = finish_block(
        &types, &mut errors, &moves, &mut borrows, vec![], None, Some(Ty::String), vec![], false, 0, 0, span(6),
    );
    assert_eq!(
        messages(&errors),
        vec!["this block must end in an expression of type 'String', but it is empty".to_string()]
    );
    assert_eq!(block.result_ty, Some(Ty::String));
}

#[test]
fn a_block_drops_its_armed_locals_in_reverse_and_ends_its_borrows() {
    let types = types();
    let mut errors = Vec::new();
    let moves = MoveState { entries: vec![(local("b"), span(4))] };
    let mut borrows = vec![borrow("outer", 0), borrow("inner", 1), borrow("deeper", 2)];
    let block = finish_block(
        &types,
        &mut errors,
        &moves,
        &mut borrows,
        vec![TStmt::Expr(TExpr::Nil)],
        None,
        None,
        vec![drop_of("a"), drop_of("b"), drop_of("c")],
        false,
        1,
        1,
        span(0),
    );
    assert!(errors.is_empty());
    assert_eq!(dropped(&block.cleanup), vec!["c".to_string(), "a".to_string()]);
    assert_eq!(block.statements.len(), 1);
    let names: Vec<String> = borrows.iter().map(|b| b.view_name.clone()).collect();
    assert_eq!(names, vec!["outer".to_string()]);
}

#[test]
fn a_block_that_always_returns_has_no_exit_plan() {
    let types = types();
    let mut errors = Vec::new();
    let moves = MoveState { entries: vec![] };
    let mut borrows: Vec<ViewBorrow> = vec![];
    let block = finish_block(
        &types, &mut errors, &moves, &mut borrows, vec![], None, Some(Ty::Int64), vec![drop_of("a")], true, 0, 0,
        span(0),
    );
    assert!(block.cleanup.is_empty());
    assert!(errors.is_empty());
}
