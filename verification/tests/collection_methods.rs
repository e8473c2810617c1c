use snacc_compiler::ast::{Arg, Expr, NumLiteral, Span};
use snacc_compiler::checked::{Error, TExpr, TStmt};
use snacc_compiler::methods::{
    collection_argument, finish_collection_call, plan_collection_call, reject_named_args, shape,
    CallPlan, CheckedCall, CollectionOp, Shape,
};
use snacc_compiler::moves::Binding;
use snacc_compiler::places::{MoveState, Place, PlaceRoot, UseMode, ViewBorrow};
use snacc_compiler::ty::{CollectionDef, CollectionId, Ty, Types};

fn span(start: usize) -> Span {
    Span { start, end: start + 1 }
}

fn messages(errors: &[Error]) -> Vec<String> {
    errors.iter().map(|e| e.msg.clone()).collect()
}

/// List<Int64>, Map<String, Int64>, Set<String>, Set<List<Int64>>, List<String>.
fn fixture() -> Types {
    Types {
        defs: vec![],
        sums: vec![],
        boxes: vec![],
        collections: vec![
            CollectionDef::List { elem: Ty::Int64 },
            CollectionDef::MapOf { key: Ty::String, value: Ty::Int64 },
            CollectionDef::SetOf { elem: Ty::String },
            CollectionDef::SetOf { elem: Ty::List(CollectionId(0)) },
            CollectionDef::List { elem: Ty::String },
        ],
    }
}

fn whole(name: &str, ty: Ty) -> Place {
    Place { root: PlaceRoot::Local(name.to_string()), root_ty: ty, path: vec![], ty }
}

fn positional<'a>(at: usize) -> Arg<'a> {
    Arg { name: None, value: (Expr::Local("x"), span(at)) }
}

fn named<'a>(name: &'a str, at: usize) -> Arg<'a> {
    Arg { name: Some((name, span(at))), value: (Expr::Local("x"), span(at + 1)) }
}

fn list() -> Ty {
    Ty::List(CollectionId(0))
}

fn map() -> Ty {
    Ty::MapOf(CollectionId(1))
}

fn set() -> Ty {
    Ty::SetOf(CollectionId(2))
}

#[test]
fn named_arguments_are_rejected_in_order() {
    let mut errors = Vec::new();
    let args = vec![named("a", 1), positional(3), named("b", 5)];
    reject_named_args(&mut errors, "a List.push call", &args);
    assert_eq!(
        messages(&errors),
        vec![
            "named argument 'a' is not valid for a List.push call; named arguments are only used to construct a struct"
                .to_string(),
            "named argument 'b' is not valid for a List.push call; named arguments are only used to construct a struct"
                .to_string(),
        ]
    );
    assert_eq!(errors[1].span, span(5));
}

#[test]
fn shapes_of_collection_receivers() {
    let types = fixture();
    assert_eq!(shape(&types, list()), Some(Shape::List { elem: Ty::Int64 }));
    assert_eq!(shape(&types, map()), Some(Shape::MapOf { key: Ty::String, value: Ty::Int64 }));
    assert_eq!(shape(&types, set()), Some(Shape::SetOf { elem: Ty::String }));
    assert_eq!(shape(&types, Ty::String), None);
}

#[test]
fn plan_hands_a_well_formed_push_its_arguments() {
    let types = fixture();
    let borrows: Vec<ViewBorrow> = vec![];
    let mut errors = Vec::new();
    let args = vec![positional(4)];
    let plan = plan_collection_call(&types, &borrows, &mut errors, span(0), whole("xs", list()), true, "push", &args);
    assert!(errors.is_empty());
    match plan {
        CallPlan::Arguments(op, receiver) => {
            assert_eq!(op, CollectionOp::ListPush);
            assert_eq!(receiver.ty, list());
        }
        other => panic!("unexpected plan {:?}", other),
    }
}

#[test]
fn plan_reports_mutability_and_arity_of_a_list_call() {
    let types = fixture();
    let borrows: Vec<ViewBorrow> = vec![];
    let mut errors = Vec::new();
    let args = vec![positional(4), positional(6)];
    let plan = plan_collection_call(&types, &borrows, &mut errors, span(0), whole("xs", list()), false, "push", &args);
    assert_eq!(
        messages(&errors),
        vec![
            "List.push requires a mutable list receiver".to_string(),
            "List.push expects 1 argument, found 2".to_string(),
        ]
    );
    match plan {
        CallPlan::CheckOnly(CheckedCall::Statement(TStmt::ListPush { value: TExpr::Nil, elem, .. })) => {
            assert_eq!(elem, Ty::Int64)
        }
        other => panic!("unexpected plan {:?}", other),
    }
}

#[test]
fn plan_rejects_changing_a_borrowed_list() {
    let types = fixture();
    let borrows = vec![ViewBorrow {
        view_name: "v".to_string(),
        sources: vec![PlaceRoot::Local("xs".to_string())],
        scope: 0,
        persistent: false,
    }];
    let mut errors = Vec::new();
    let args: Vec<Arg> = vec![];
    let plan = plan_collection_call(&types, &borrows, &mut errors, span(0), whole("xs", list()), true, "clear", &args);
    assert_eq!(
        messages(&errors),
        vec!["cannot move or replace 'xs': view 'v' still borrows it".to_string()]
    );
    assert!(matches!(plan, CallPlan::CheckOnly(CheckedCall::Statement(TStmt::ListClear { .. }))));
}

#[test]
fn plan_leaves_unknown_methods_alone() {
    let types = fixture();
    let borrows: Vec<ViewBorrow> = vec![];
    let mut errors = Vec::new();
    let args: Vec<Arg> = vec![];
    let plan = plan_collection_call(&types, &borrows, &mut errors, span(0), whole("xs", list()), true, "length", &args);
    assert!(matches!(plan, CallPlan::Unhandled));
    let plan = plan_collection_call(&types, &borrows, &mut errors, span(0), whole("s", Ty::String), true, "push", &args);
    assert!(matches!(plan, CallPlan::Unhandled));
    assert!(errors.is_empty());
}

#[test]
fn plan_rejects_unsupported_set_elements() {
    let types = fixture();
    let borrows: Vec<ViewBorrow> = vec![];
    let mut errors = Vec::new();
    let args = vec![positional(4)];
    let plan = plan_collection_call(
        &types,
        &borrows,
        &mut errors,
        span(0),
        whole("s", Ty::SetOf(CollectionId(3))),
        true,
        "insert",
        &args,
    );
    assert_eq!(
        messages(&errors),
        vec!["Set operations require a supported scalar or String element".to_string()]
    );
    assert!(matches!(plan, CallPlan::Done(CheckedCall::Value(TExpr::Nil, Ty::Nil))));
}

#[test]
fn map_clear_with_arguments_is_reported_and_built() {
    let types = fixture();
    let borrows: Vec<ViewBorrow> = vec![];
    let mut errors = Vec::new();
    let args = vec![positional(4)];
    let plan = plan_collection_call(&types, &borrows, &mut errors, span(0), whole("m", map()), true, "clear", &args);
    assert_eq!(messages(&errors), vec!["Map.clear expects no arguments, found 1".to_string()]);
    assert!(matches!(plan, CallPlan::Done(CheckedCall::Statement(TStmt::MapClear { .. }))));
}

#[test]
fn map_lookups_with_the_wrong_count_answer_false() {
    let types = fixture();
    let borrows: Vec<ViewBorrow> = vec![];
    let mut errors = Vec::new();
    let args: Vec<Arg> = vec![named("k", 3)];
    let plan = plan_collection_call(&types, &borrows, &mut errors, span(0), whole("m", map()), false, "contains", &args);
    assert_eq!(
        messages(&errors),
        vec![
            "named argument 'k' is not valid for a map operation; named arguments are only used to construct a struct"
                .to_string()
        ]
    );
    assert!(matches!(plan, CallPlan::Arguments(CollectionOp::MapContains, _)));

    let mut errors = Vec::new();
    let args: Vec<Arg> = vec![];
    let plan = plan_collection_call(&types, &borrows, &mut errors, span(0), whole("m", map()), false, "take", &args);
    assert_eq!(messages(&errors), vec!["Map.take expects 1 argument, found 0".to_string()]);
    assert!(matches!(plan, CallPlan::CheckOnly(CheckedCall::Value(TExpr::Bool(false), Ty::Bool))));
}

#[test]
fn pushed_values_are_taken_over_and_coerced() {
    let types = fixture();
    let borrows: Vec<ViewBorrow> = vec![];
    let env = vec![Binding { name: "s", ty: Ty::String, mutable: false, scope: 0, type_test_alias: false }];
    let mut moves = MoveState { entries: vec![] };
    let mut errors = Vec::new();
    let list_of_strings = Shape::List { elem: Ty::String };
    let value = TExpr::Place(whole("s", Ty::String), UseMode::Copy);
    let r = collection_argument(
        &types,
        &mut moves,
        &borrows,
        &env,
        &mut errors,
        list_of_strings,
        CollectionOp::ListPush,
        0,
        value,
        Ty::String,
        span(4),
    );
    assert!(errors.is_empty());
    assert!(matches!(r, TExpr::Place(_, UseMode::Consume)));
    assert_eq!(moves.entries.len(), 1);

    let value = TExpr::Place(whole("s", Ty::String), UseMode::Copy);
    collection_argument(
        &types,
        &mut moves,
        &borrows,
        &env,
        &mut errors,
        list_of_strings,
        CollectionOp::ListPush,
        0,
        value,
        Ty::String,
        span(8),
    );
    assert_eq!(messages(&errors), vec!["'s' is already moved, so this use is invalid".to_string()]);
}

#[test]
fn pushed_integers_widen_to_float_elements() {
    let types = fixture();
    let borrows: Vec<ViewBorrow> = vec![];
    let env: Vec<Binding> = vec![];
    let mut moves = MoveState { entries: vec![] };
    let mut errors = Vec::new();
    let r = collection_argument(
        &types,
        &mut moves,
        &borrows,
        &env,
        &mut errors,
        Shape::List { elem: Ty::Float64 },
        CollectionOp::ListPush,
        0,
        TExpr::Num(NumLiteral::Int(2)),
        Ty::Int64,
        span(4),
    );
    assert!(errors.is_empty());
    assert!(matches!(r, TExpr::Cast(_, Ty::Float64)));
}

#[test]
fn indexes_must_be_integers() {
    let types = fixture();
    let borrows: Vec<ViewBorrow> = vec![];
    let env: Vec<Binding> = vec![];
    let mut moves = MoveState { entries: vec![] };
    let mut errors = Vec::new();
    let r = collection_argument(
        &types,
        &mut moves,
        &borrows,
        &env,
        &mut errors,
        Shape::List { elem: Ty::Int64 },
        CollectionOp::ListRemove,
        0,
        TExpr::Bool(true),
        Ty::Bool,
        span(4),
    );
    assert_eq!(messages(&errors), vec!["expected 'Int64', found 'Bool'".to_string()]);
    assert!(matches!(r, TExpr::Bool(true)));
}

#[test]
fn string_keys_are_looked_up_through_a_view() {
    let types = fixture();
    let borrows: Vec<ViewBorrow> = vec![];
    let env: Vec<Binding> = vec![];
    let mut moves = MoveState { entries: vec![] };
    let mut errors = Vec::new();
    let map_shape = Shape::MapOf { key: Ty::String, value: Ty::Int64 };
    let key = TExpr::Place(whole("k", Ty::String), UseMode::Copy);
    let r = collection_argument(
        &types, &mut moves, &borrows, &env, &mut errors, map_shape, CollectionOp::MapContains, 0, key, Ty::String,
        span(4),
    );
    assert!(errors.is_empty());
    assert!(matches!(r, TExpr::ViewFromString(_, Ty::ViewByte)));

    let r = collection_argument(
        &types,
        &mut moves,
        &borrows,
        &env,
        &mut errors,
        map_shape,
        CollectionOp::MapContains,
        0,
        TExpr::StringLiteral("k".to_string()),
        Ty::String,
        span(9),
    );
    assert!(matches!(r, TExpr::Nil));
    assert_eq!(
        messages(&errors),
        vec![
            "a view can only be lent from a named String place; a temporary String would not live long enough"
                .to_string()
        ]
    );
}

#[test]
fn finished_map_insert_answers_a_bool() {
    let types = fixture();
    let mut errors = Vec::new();
    let map_shape = Shape::MapOf { key: Ty::String, value: Ty::Int64 };
    let args = vec![
        (TExpr::StringLiteral("k".to_string()), Ty::String, span(2)),
        (TExpr::Num(NumLiteral::Int(1)), Ty::Int64, span(4)),
    ];
    let r = finish_collection_call(&types, &mut errors, span(0), whole("m", map()), false, map_shape, CollectionOp::MapInsert, args);
    assert!(errors.is_empty());
    match r {
        CheckedCall::Value(TExpr::MapInsert { key_ty, value_ty, require_existing, .. }, ty) => {
            assert_eq!(key_ty, Ty::String);
            assert_eq!(value_ty, Ty::Int64);
            assert!(!require_existing);
            assert_eq!(ty, Ty::Bool);
        }
        other => panic!("unexpected call {:?}", other),
    }
}

#[test]
fn finished_map_take_checks_mutability_last() {
    let types = fixture();
    let mut errors = Vec::new();
    let map_shape = Shape::MapOf { key: Ty::String, value: Ty::Int64 };
    let args = vec![(TExpr::Nil, Ty::ViewByte, span(2))];
    let r = finish_collection_call(&types, &mut errors, span(0), whole("m", map()), false, map_shape, CollectionOp::MapTake, args);
    assert_eq!(messages(&errors), vec!["Map.take requires a mutable map receiver".to_string()]);
    match r {
        CheckedCall::Value(TExpr::MapTake { key_ty, .. }, ty) => {
            assert_eq!(key_ty, Ty::ViewByte);
            assert_eq!(ty, Ty::Int64);
        }
        other => panic!("unexpected call {:?}", other),
    }
}

#[test]
fn finished_set_delete_lends_a_string_element() {
    let types = fixture();
    let mut errors = Vec::new();
    let set_shape = Shape::SetOf { elem: Ty::String };
    let args = vec![(TExpr::Place(whole("e", Ty::String), UseMode::Copy), Ty::String, span(2))];
    let r = finish_collection_call(&types, &mut errors, span(0), whole("s", set()), false, set_shape, CollectionOp::SetDelete, args);
    assert_eq!(messages(&errors), vec!["Set.delete requires a mutable set receiver".to_string()]);
    match r {
        CheckedCall::Value(TExpr::SetDelete { value, elem, .. }, ty) => {
            assert!(matches!(*value, TExpr::ViewFromString(_, Ty::ViewByte)));
            assert_eq!(elem, Ty::String);
            assert_eq!(ty, Ty::Bool);
        }
        other => panic!("unexpected call {:?}", other),
    }
}

#[test]
fn finished_list_insert_keeps_index_then_value() {
    let types = fixture();
    let mut errors = Vec::new();
    let args = vec![
        (TExpr::Num(NumLiteral::Int(0)), Ty::Int64, span(2)),
        (TExpr::Num(NumLiteral::Int(7)), Ty::Int64, span(4)),
    ];
    let r = finish_collection_call(
        &types,
        &mut errors,
        span(0),
        whole("xs", list()),
        true,
        Shape::List { elem: Ty::Int64 },
        CollectionOp::ListInsert,
        args,
    );
    assert!(errors.is_empty());
    match r {
        CheckedCall::Statement(TStmt::ListInsert { index, value, .. }) => {
            assert!(matches!(index, TExpr::Num(NumLiteral::Int(0))));
            assert!(matches!(value, TExpr::Num(NumLiteral::Int(7))));
        }
        other => panic!("unexpected call {:?}", other),
    }
}
