use snacc_compiler::ast::{Arg, Expr, NumLiteral, Span};
use snacc_compiler::checked::{Error, TCleanup, TExpr, TStmt};
use snacc_compiler::convert::consume_into;
use snacc_compiler::construction::{
    begin_construction, construction_slot, construction_value, finish_construction,
    finish_conversion, plan_collection_literal, plan_conversion, type_call, Construction,
    ConstructionStart, TypeCall,
};
use snacc_compiler::exits::{
    finish_return, finish_return_on_error, plan_return, return_on_error_fallback,
    return_on_error_operand, CheckedReturnOnError, ReturnPlan,
};
use snacc_compiler::methods::CheckedCall;
use snacc_compiler::moves::Binding;
use snacc_compiler::places::{MoveState, Place, PlaceRoot, UseMode, ViewBorrow};
use snacc_compiler::narrowing::condition_value;
use snacc_compiler::ty::{CollectionDef, CollectionId, SumId, Ty, TypeDef, TypeId, Types};

fn span(start: usize) -> Span {
    Span { start, end: start + 1 }
}

fn messages(errors: &[Error]) -> Vec<String> {
    errors.iter().map(|e| e.msg.clone()).collect()
}

/// Point { x: Int64, y: Float64 }; Meters is Float64; union Shape { Empty };
/// Empty is a member without fields.
fn fixture() -> Types {
    Types {
        defs: vec![
            TypeDef::Struct {
                name: "Point".to_string(),
                fields: vec![("x".to_string(), Ty::Int64), ("y".to_string(), Ty::Float64)],
            },
            TypeDef::Represented { name: "Meters".to_string(), target: Ty::Float64 },
            TypeDef::Union { name: "Shape".to_string(), members: vec![TypeId(3)] },
            TypeDef::UnionMember { name: "Empty".to_string(), union: TypeId(2), tag: 0, nil: false, fields: vec![] },
        ],
        sums: vec![],
        boxes: vec![],
        collections: vec![],
    }
}

fn named<'a>(name: &'a str, at: usize) -> Arg<'a> {
    Arg { name: Some((name, span(at))), value: (Expr::Local("v"), span(at + 1)) }
}

fn positional<'a>(at: usize) -> Arg<'a> {
    Arg { name: None, value: (Expr::Local("v"), span(at)) }
}

#[test]
fn type_calls_dispatch_on_the_definition() {
    let types = fixture();
    let mut errors = Vec::new();
    assert!(matches!(type_call(&types, &mut errors, TypeId(1), span(0)), TypeCall::Convert));
    assert!(matches!(type_call(&types, &mut errors, TypeId(0), span(0)), TypeCall::Construct));
    assert!(errors.is_empty());
    assert!(matches!(
        type_call(&types, &mut errors, TypeId(2), span(0)),
        TypeCall::Rejected(CheckedCall::Value(TExpr::Nil, Ty::Nil))
    ));
    assert_eq!(
        messages(&errors),
        vec!["'Shape' is a union; construction names one member type, not the union itself".to_string()]
    );
}

#[test]
fn conversions_take_exactly_one_positional_value() {
    let types = fixture();
    let mut errors = Vec::new();
    let one = vec![positional(2)];
    assert!(plan_conversion(&types, &mut errors, Ty::User(TypeId(1)), &one, span(0)).is_none());
    assert!(errors.is_empty());
    let two = vec![positional(2), named("z", 4)];
    let fallback = plan_conversion(&types, &mut errors, Ty::User(TypeId(1)), &two, span(0));
    assert!(matches!(fallback, Some(CheckedCall::Value(TExpr::Nil, Ty::User(TypeId(1))))));
    assert_eq!(
        messages(&errors),
        vec![
            "named argument 'z' is not valid for a represented-type conversion; named arguments are only used to construct a struct"
                .to_string(),
            "'Meters' converts exactly one positional value, but 2 were supplied".to_string(),
        ]
    );
}

#[test]
fn conversions_cross_exactly_one_layer() {
    let types = fixture();
    let meters = Ty::User(TypeId(1));
    let mut errors = Vec::new();
    let wrapped = finish_conversion(&types, &mut errors, meters, TExpr::Nil, Ty::Float64, span(2));
    assert!(matches!(wrapped, CheckedCall::Value(TExpr::Represent { ty, .. }, t) if ty == meters && t == meters));
    finish_conversion(&types, &mut errors, Ty::Float64, TExpr::Nil, meters, span(2));
    assert!(errors.is_empty());
    finish_conversion(&types, &mut errors, meters, TExpr::Nil, Ty::Int64, span(3));
    finish_conversion(&types, &mut errors, Ty::Int64, TExpr::Nil, meters, span(4));
    assert_eq!(
        messages(&errors),
        vec![
            "'Meters' wraps exactly its immediate representation 'Float64', found 'Int64'".to_string(),
            "'Int64' unwraps exactly one value of a type represented by 'Int64', found 'Meters'".to_string(),
        ]
    );
}

#[test]
fn constructing_a_type_without_fields_takes_no_arguments() {
    let types = fixture();
    let mut errors = Vec::new();
    match begin_construction(&types, &mut errors, TypeId(3), 1, span(0)) {
        ConstructionStart::Done(CheckedCall::Value(TExpr::Construct { type_id, fields }, ty)) => {
            assert_eq!(type_id, TypeId(3));
            assert!(fields.is_empty());
            assert_eq!(ty, Ty::User(TypeId(3)));
        }
        other => panic!("unexpected start {:?}", other),
    }
    assert_eq!(messages(&errors), vec!["'Empty' has no fields, so it is constructed with '()'".to_string()]);
}

fn started(types: &Types) -> Construction {
    let mut errors = Vec::new();
    match begin_construction(types, &mut errors, TypeId(0), 2, span(0)) {
        ConstructionStart::Fields(c) => c,
        other => panic!("unexpected start {:?}", other),
    }
}

#[test]
fn construction_arguments_must_name_fields() {
    let types = fixture();
    let mut errors = Vec::new();
    assert_eq!(construction_slot(&types, &mut errors, TypeId(0), &named("y", 3)), Some((1, Ty::Float64)));
    assert_eq!(construction_slot(&types, &mut errors, TypeId(0), &named("z", 5)), None);
    assert_eq!(construction_slot(&types, &mut errors, TypeId(0), &positional(7)), None);
    assert_eq!(
        messages(&errors),
        vec![
            "'Point' has no field 'z'".to_string(),
            "'Point' requires named fields; positional construction of a non-empty struct is invalid".to_string(),
        ]
    );
    assert_eq!(errors[0].span, span(5));
    assert_eq!(errors[1].span, span(7));
}

#[test]
fn constructions_record_fields_in_written_order() {
    let types = fixture();
    let env: Vec<Binding> = vec![];
    let borrows: Vec<ViewBorrow> = vec![];
    let mut moves = MoveState { entries: vec![] };
    let mut errors = Vec::new();
    let mut c = started(&types);
    construction_value(
        &types, &mut moves, &borrows, &env, &mut errors, &mut c, 1, "y", span(3),
        TExpr::Num(NumLiteral::Int(2)), Ty::Int64, span(4),
    );
    construction_value(
        &types, &mut moves, &borrows, &env, &mut errors, &mut c, 0, "x", span(6),
        TExpr::Num(NumLiteral::Int(1)), Ty::Int64, span(7),
    );
    construction_value(
        &types, &mut moves, &borrows, &env, &mut errors, &mut c, 0, "x", span(9),
        TExpr::Num(NumLiteral::Int(5)), Ty::Int64, span(10),
    );
    assert_eq!(messages(&errors), vec!["Field 'Point.x' is supplied more than once".to_string()]);
    assert_eq!(c.filled, vec![true, true]);
    let call = finish_construction(&types, &mut errors, c, span(0));
    assert_eq!(errors.len(), 1);
    match call {
        CheckedCall::Value(TExpr::Construct { type_id, fields }, ty) => {
            assert_eq!(type_id, TypeId(0));
            assert_eq!(ty, Ty::User(TypeId(0)));
            assert_eq!(fields.len(), 2);
            assert_eq!(fields[0].0, 1);
            assert!(matches!(fields[0].1, TExpr::Cast(_, Ty::Float64)));
            assert_eq!(fields[1].0, 0);
        }
        other => panic!("unexpected call {:?}", other),
    }
}

#[test]
fn missing_fields_are_reported_together() {
    let types = fixture();
    let mut errors = Vec::new();
    let c = started(&types);
    finish_construction(&types, &mut errors, c, span(0));
    assert_eq!(messages(&errors), vec!["'Point' is missing field 'x', 'y'".to_string()]);
}

#[test]
fn returns_must_match_the_callable() {
    let types = fixture();
    let mut errors = Vec::new();
    assert!(matches!(
        plan_return(&types, &mut errors, Some(Some(Ty::Int64)), Some(span(3)), span(0)),
        ReturnPlan::Value(Ty::Int64)
    ));
    assert!(matches!(plan_return(&types, &mut errors, Some(None), None, span(0)), ReturnPlan::NoValue));
    assert!(errors.is_empty());
    assert!(matches!(
        plan_return(&types, &mut errors, None, None, span(1)),
        ReturnPlan::Outside(TStmt::Return { value: None, result: None, .. })
    ));
    assert!(matches!(plan_return(&types, &mut errors, Some(Some(Ty::Int64)), None, span(2)), ReturnPlan::NoValue));
    assert!(matches!(plan_return(&types, &mut errors, Some(None), Some(span(4)), span(3)), ReturnPlan::NoValue));
    assert_eq!(
        messages(&errors),
        vec![
            "'return' is only valid inside a function or method body".to_string(),
            "bare 'return' is not valid here; this callable declares a result of type 'Int64', so 'return' needs a value"
                .to_string(),
            "this callable declares no result, so 'return' cannot return a value; use bare 'return' instead".to_string(),
        ]
    );
    assert_eq!(errors[2].span, span(4));
}

#[test]
fn returned_values_move_to_the_caller() {
    let types = fixture();
    let env = vec![Binding { name: "s", ty: Ty::String, mutable: false, scope: 0, type_test_alias: false }];
    let borrows: Vec<ViewBorrow> = vec![];
    let mut moves = MoveState { entries: vec![] };
    let mut errors = Vec::new();
    let place = Place { root: PlaceRoot::Local("s".to_string()), root_ty: Ty::String, path: vec![], ty: Ty::String };
    let r = consume_into(
        &types, &mut moves, &borrows, &env, &mut errors, TExpr::Place(place, UseMode::Copy), Ty::String,
        Ty::String, span(2),
    );
    assert!(matches!(r, TExpr::Place(_, UseMode::Consume)));
    assert_eq!(moves.entries.len(), 1);
    assert!(errors.is_empty());

    let scopes: Vec<Vec<TCleanup>> = vec![];
    let stmt = finish_return(&scopes, &types, &moves, &env, &mut errors, Some(r), Some(Ty::String));
    match stmt {
        TStmt::Return { value: Some(_), result: Some(Ty::String), cleanup } => assert!(cleanup.is_empty()),
        other => panic!("unexpected statement {:?}", other),
    }
}

/// Error { code: Int64 }; Nil | Error, Int64 | Error, Int64 | Bool | Error, String.
fn fallible() -> Types {
    Types {
        defs: vec![TypeDef::Struct { name: "Error".to_string(), fields: vec![("code".to_string(), Ty::Int64)] }],
        sums: vec![
            vec![Ty::Nil, Ty::User(TypeId(0))],
            vec![Ty::Int64, Ty::User(TypeId(0))],
            vec![Ty::Int64, Ty::Bool, Ty::User(TypeId(0))],
            vec![Ty::String, Ty::Int64],
        ],
        boxes: vec![],
        collections: vec![],
    }
}

#[test]
fn return_on_error_propagates_the_error_member() {
    let types = fallible();
    let mut errors = Vec::new();
    let result = Some(Some(Ty::Sum(SumId(2))));
    let r = return_on_error_operand(&types, &mut errors, Ty::Sum(SumId(2)), result, false, span(0));
    assert_eq!(r, Some((SumId(2), Ty::Sum(SumId(2)), vec![Ty::Int64, Ty::Bool])));
    let r = return_on_error_operand(&types, &mut errors, Ty::Sum(SumId(0)), result, true, span(0));
    assert_eq!(r, Some((SumId(0), Ty::Sum(SumId(2)), vec![Ty::Nil])));
    assert!(errors.is_empty());
}

#[test]
fn return_on_error_rejections() {
    let fallible_result = Some(Some(Ty::Sum(SumId(1))));
    let cases: Vec<(Types, Ty, Option<Option<Ty>>, bool, &str)> = vec![
        (fallible(), Ty::Int64, fallible_result, false, "'return_on_error' requires an inline sum containing exact 'Error'"),
        (fallible(), Ty::Sum(SumId(3)), fallible_result, false, "'return_on_error' requires an inline sum containing exact 'Error'"),
        (fallible(), Ty::Sum(SumId(1)), None, false, "'return_on_error' is only valid inside a fallible callable"),
        (fallible(), Ty::Sum(SumId(1)), Some(None), false, "'return_on_error' is only valid inside a fallible callable"),
        (fallible(), Ty::Sum(SumId(1)), Some(Some(Ty::Int64)), false, "'return_on_error' requires a fallible inline-sum result"),
        (fallible(), Ty::Sum(SumId(1)), Some(Some(Ty::Sum(SumId(3)))), false, "'return_on_error' requires an enclosing result containing exact 'Error'"),
        (fallible(), Ty::Sum(SumId(1)), fallible_result, true, "'return_on_error' statement form requires an operand of exactly 'Nil | Error'"),
        (fallible(), Ty::Sum(SumId(0)), fallible_result, false, "'return_on_error' requires at least one non-Nil success member"),
        (fixture(), Ty::Sum(SumId(0)), fallible_result, false, "the predeclared 'Error' type is unavailable"),
    ];
    for (table, value_ty, callable, statement_form, expected) in cases {
        let mut errors = Vec::new();
        let r = return_on_error_operand(&table, &mut errors, value_ty, callable, statement_form, span(8));
        assert!(r.is_none());
        assert_eq!(messages(&errors), vec![expected.to_string()]);
        assert_eq!(errors[0].span, span(8));
    }
}

#[test]
fn rejected_return_on_error_stands_for_nothing() {
    assert!(matches!(return_on_error_fallback(true), CheckedReturnOnError::Statement(TStmt::Expr(TExpr::Nil))));
    assert!(matches!(
        return_on_error_fallback(false),
        CheckedReturnOnError::Expr { value: TExpr::Nil, ty: Ty::Nil }
    ));
}

#[test]
fn finished_return_on_error_carries_its_success_type() {
    let types = fallible();
    let env: Vec<Binding> = vec![];
    let borrows: Vec<ViewBorrow> = vec![];
    let scopes: Vec<Vec<TCleanup>> = vec![];
    let mut moves = MoveState { entries: vec![] };
    let mut errors = Vec::new();
    let r = finish_return_on_error(
        &scopes, &types, &mut moves, &borrows, &env, &mut errors, TExpr::Nil, SumId(1), Ty::Sum(SumId(1)),
        Some(Ty::Int64), span(0),
    );
    match r {
        CheckedReturnOnError::Expr { value: TExpr::ReturnOnError { sum, success, result, cleanup, .. }, ty } => {
            assert_eq!(sum, SumId(1));
            assert_eq!(success, Ty::Int64);
            assert_eq!(result, Ty::Sum(SumId(1)));
            assert!(cleanup.is_empty());
            assert_eq!(ty, Ty::Int64);
        }
        other => panic!("unexpected {:?}", other),
    }
    let r = finish_return_on_error(
        &scopes, &types, &mut moves, &borrows, &env, &mut errors, TExpr::Nil, SumId(0), Ty::Sum(SumId(1)), None,
        span(0),
    );
    assert!(matches!(r, CheckedReturnOnError::Statement(TStmt::ReturnOnError { sum: SumId(0), .. })));
    assert!(errors.is_empty());
}

#[test]
fn collection_literals_need_an_expected_array_or_list() {
    let mut types = fixture();
    types.collections.push(CollectionDef::Array { elem: Ty::Int64, len: 3 });
    types.collections.push(CollectionDef::List { elem: Ty::Float64 });
    let mut errors = Vec::new();
    assert_eq!(plan_collection_literal(&types, &mut errors, Ty::List(CollectionId(1)), 5, span(0)), Some(Ty::Float64));
    assert_eq!(plan_collection_literal(&types, &mut errors, Ty::Array(CollectionId(0)), 3, span(0)), Some(Ty::Int64));
    assert!(errors.is_empty());
    assert_eq!(plan_collection_literal(&types, &mut errors, Ty::Array(CollectionId(0)), 2, span(4)), Some(Ty::Int64));
    assert_eq!(plan_collection_literal(&types, &mut errors, Ty::Int64, 2, span(6)), None);
    assert_eq!(
        messages(&errors),
        vec![
            "array literal has 2 elements, but the expected array length is 3".to_string(),
            "a collection literal requires an expected Array<T, N> or List<T> type".to_string(),
        ]
    );
}

#[test]
fn conditions_test_truthiness_and_reject_a_bare_nil() {
    let mut errors = Vec::new();
    let r = condition_value(&mut errors, TExpr::Bool(true), Ty::Bool, span(0));
    assert!(matches!(r, TExpr::Truthiness(_, Ty::Bool)));
    assert!(errors.is_empty());
    let r = condition_value(&mut errors, TExpr::Nil, Ty::Nil, span(2));
    assert!(matches!(r, TExpr::Truthiness(_, Ty::Nil)));
    assert_eq!(
        messages(&errors),
        vec!["a standalone 'nil' cannot be used as a condition; give it a sum type".to_string()]
    );
}
