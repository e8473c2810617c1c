use snacc_compiler::ast::{Expr, NumLiteral, Span, TypeName, Value};
use snacc_compiler::calls::{call_head, check_arity, find_method, CallHead};
use snacc_compiler::checked::{ArithOp, CmpOp, Error, LogicalOp, TExpr, TMethodCall, TReceiver, TStmt};
use snacc_compiler::expressions::{
    arith_expr, call_value, field_read, index_read, interpolation_part, logical_expr, not_expr,
    ordered_expr, read_local, read_self, type_name_value, value_expr,
};
use snacc_compiler::methods::CheckedCall;
use snacc_compiler::moves::Binding;
use snacc_compiler::places::{MoveState, Place, PlaceRoot, UseMode};
use snacc_compiler::ty::{BoxId, CollectionDef, CollectionId, MethodId, Ty, TypeDef, TypeId, Types};

fn span(start: usize) -> Span {
    Span { start, end: start + 1 }
}

fn messages(errors: &[Error]) -> Vec<String> {
    errors.iter().map(|e| e.msg.clone()).collect()
}

/// Point { x: Int64, y: Float64 }; Box<Point>; List<Int64>; Map<String, Int64>;
/// Map<Int64, String>; List<String>.
fn fixture() -> Types {
    Types {
        defs: vec![TypeDef::Struct {
            name: "Point".to_string(),
            fields: vec![("x".to_string(), Ty::Int64), ("y".to_string(), Ty::Float64)],
        }],
        sums: vec![],
        boxes: vec![Ty::User(TypeId(0))],
        collections: vec![
            CollectionDef::List { elem: Ty::Int64 },
            CollectionDef::MapOf { key: Ty::String, value: Ty::Int64 },
            CollectionDef::MapOf { key: Ty::Int64, value: Ty::String },
            CollectionDef::List { elem: Ty::String },
        ],
    }
}

#[test]
fn literals_have_the_type_of_their_form() {
    assert!(matches!(value_expr(&Value::Num(NumLiteral::U8(7))), (TExpr::Num(NumLiteral::U8(7)), Ty::Byte)));
    assert!(matches!(value_expr(&Value::Num(NumLiteral::F32(0))), (TExpr::Num(_), Ty::Float32)));
    assert!(matches!(value_expr(&Value::Bool(true)), (TExpr::Bool(true), Ty::Bool)));
    assert!(matches!(value_expr(&Value::Nil), (TExpr::Nil, Ty::Nil)));
    assert!(matches!(value_expr(&Value::Str("hi".to_string())), (TExpr::StringLiteral(ref s), Ty::String) if s == "hi"));
    assert!(matches!(value_expr(&Value::Unicode(65)), (TExpr::Unicode(65), Ty::Unicode)));
}

#[test]
fn interpolation_accepts_text_and_scalars_only() {
    let types = fixture();
    let mut errors = Vec::new();
    interpolation_part(&types, &mut errors, TExpr::Nil, Ty::Float64, span(0));
    assert!(errors.is_empty());
    let part = interpolation_part(&types, &mut errors, TExpr::Nil, Ty::User(TypeId(0)), span(1));
    assert_eq!(part.ty, Ty::User(TypeId(0)));
    assert_eq!(
        messages(&errors),
        vec!["string interpolation does not accept 'Point'; expected a text or scalar part".to_string()]
    );
}

#[test]
fn locals_read_their_innermost_binding() {
    let types = fixture();
    let env = vec![
        Binding { name: "a", ty: Ty::Int64, mutable: false, scope: 0, type_test_alias: false },
        Binding { name: "a", ty: Ty::String, mutable: false, scope: 1, type_test_alias: false },
    ];
    let moves = MoveState { entries: vec![(PlaceRoot::Local("a".to_string()), span(9))] };
    let functions = vec!["main".to_string()];
    let mut errors = Vec::new();
    let (value, ty) = read_local(&types, &env, &moves, &functions, &mut errors, "a", span(3));
    assert_eq!(ty, Ty::String);
    assert!(matches!(value, TExpr::Place(ref p, UseMode::Copy) if p.ty == Ty::String));
    assert_eq!(messages(&errors), vec!["'a' is already moved, so this use is invalid".to_string()]);

    let mut errors = Vec::new();
    assert!(matches!(read_local(&types, &env, &moves, &functions, &mut errors, "main", span(1)), (TExpr::Nil, Ty::Nil)));
    read_local(&types, &env, &moves, &functions, &mut errors, "Point", span(2));
    read_local(&types, &env, &moves, &functions, &mut errors, "zzz", span(3));
    assert_eq!(
        messages(&errors),
        vec![
            "'main' is a function; functions cannot be used as values".to_string(),
            "'Point' is a type name; a type name alone is never a value".to_string(),
            "No such variable 'zzz' in scope".to_string(),
        ]
    );
}

#[test]
fn self_and_type_names_as_values() {
    let mut errors = Vec::new();
    let (value, ty) = read_self(&mut errors, Some(Ty::User(TypeId(0))), span(0));
    assert_eq!(ty, Ty::User(TypeId(0)));
    assert!(matches!(value, TExpr::Place(ref p, UseMode::Copy) if matches!(p.root, PlaceRoot::SelfRef)));
    assert!(matches!(read_self(&mut errors, None, span(1)), (TExpr::Nil, Ty::Nil)));
    type_name_value(&mut errors, TypeName::Int64, span(2));
    assert_eq!(
        messages(&errors),
        vec![
            "'self' is only valid inside a method body".to_string(),
            "'Int64' is a type name; a type name alone is never a value".to_string(),
        ]
    );
}

#[test]
fn boolean_operators_need_bool_operands() {
    let types = fixture();
    let mut errors = Vec::new();
    assert!(matches!(not_expr(&types, &mut errors, TExpr::Bool(true), Ty::Bool, span(0)), (TExpr::Not(_), Ty::Bool)));
    not_expr(&types, &mut errors, TExpr::Nil, Ty::Int64, span(1));
    logical_expr(&types, &mut errors, LogicalOp::And, TExpr::Nil, Ty::Bool, TExpr::Nil, Ty::String, span(2));
    let (value, ty) =
        logical_expr(&types, &mut errors, LogicalOp::Or, TExpr::Bool(true), Ty::Bool, TExpr::Bool(false), Ty::Bool, span(3));
    assert!(matches!(value, TExpr::Logical(_, LogicalOp::Or, _)));
    assert_eq!(ty, Ty::Bool);
    assert_eq!(
        messages(&errors),
        vec![
            "'!' requires a Bool operand, found 'Int64'".to_string(),
            "'and' requires Bool operands, found 'Bool' and 'String'".to_string(),
        ]
    );
}

#[test]
fn arithmetic_widens_int_to_float_and_reports_mixed_pairs() {
    let types = fixture();
    let mut errors = Vec::new();
    let (value, ty) = arith_expr(
        &types,
        &mut errors,
        ArithOp::Add,
        TExpr::Num(NumLiteral::Int(1)),
        Ty::Int64,
        TExpr::Num(NumLiteral::F64(0)),
        Ty::Float64,
        span(0),
    );
    assert_eq!(ty, Ty::Float64);
    match value {
        TExpr::Arith(left, ArithOp::Add, _, Ty::Float64) => assert!(matches!(*left, TExpr::Cast(_, Ty::Float64))),
        other => panic!("unexpected {:?}", other),
    }
    assert!(errors.is_empty());
    let (_, ty) = arith_expr(&types, &mut errors, ArithOp::Mul, TExpr::Nil, Ty::Byte, TExpr::Nil, Ty::Int64, span(4));
    assert_eq!(ty, Ty::Byte);
    assert_eq!(
        messages(&errors),
        vec!["arithmetic operands must be two numbers of the same type, found 'Byte' and 'Int64'".to_string()]
    );
}

#[test]
fn ordered_comparisons_compare_numbers() {
    let types = fixture();
    let mut errors = Vec::new();
    let (value, ty) = ordered_expr(&types, &mut errors, CmpOp::Less, TExpr::Nil, Ty::UInt16, TExpr::Nil, Ty::UInt16, span(0));
    assert_eq!(ty, Ty::Bool);
    assert!(matches!(value, TExpr::Cmp(_, CmpOp::Less, _, Ty::UInt16)));
    assert!(errors.is_empty());
    ordered_expr(&types, &mut errors, CmpOp::Greater, TExpr::Nil, Ty::String, TExpr::Nil, Ty::String, span(1));
    assert_eq!(
        messages(&errors),
        vec!["ordered comparison operands must be two numbers of the same type, found 'String' and 'String'".to_string()]
    );
}

#[test]
fn fields_of_computed_values_are_read_through_boxes() {
    let types = fixture();
    let methods = vec![(TypeId(0), "norm".to_string())];
    let mut errors = Vec::new();
    let (value, ty) = field_read(&types, &methods, &mut errors, TExpr::Nil, Ty::Box(BoxId(0)), "y", span(2));
    assert_eq!(ty, Ty::Float64);
    assert!(matches!(value, TExpr::FieldRead { index: 1, base_ty: Ty::Box(BoxId(0)), .. }));
    field_read(&types, &methods, &mut errors, TExpr::Nil, Ty::User(TypeId(0)), "norm", span(3));
    field_read(&types, &methods, &mut errors, TExpr::Nil, Ty::Int64, "x", span(4));
    assert_eq!(
        messages(&errors),
        vec![
            "'Point.norm' is a method; a method requires a receiver call".to_string(),
            "'Int64' is not a struct, so it has no field 'x'".to_string(),
        ]
    );
}

#[test]
fn indexed_reads_of_lists_and_maps() {
    let types = fixture();
    let mut errors = Vec::new();
    let (value, ty) = index_read(
        &types, &mut errors, TExpr::Nil, Ty::List(CollectionId(0)), TExpr::Num(NumLiteral::Int(0)), Ty::Int64,
        span(2), span(0), span(0),
    );
    assert_eq!(ty, Ty::Int64);
    assert!(matches!(value, TExpr::CollectionIndex { elem: Ty::Int64, .. }));
    let (_, ty) = index_read(
        &types, &mut errors, TExpr::Nil, Ty::MapOf(CollectionId(1)),
        TExpr::Place(
            Place {
                root: PlaceRoot::Local("k".to_string()),
                root_ty: Ty::String,
                path: vec![],
                ty: Ty::String,
            },
            UseMode::Copy,
        ),
        Ty::String, span(2), span(0), span(0),
    );
    assert_eq!(ty, Ty::Int64);
    assert!(errors.is_empty());

    let (value, _) = index_read(
        &types, &mut errors, TExpr::Nil, Ty::MapOf(CollectionId(2)), TExpr::Nil, Ty::Int64, span(2), span(0), span(5),
    );
    assert!(matches!(value, TExpr::Nil));
    index_read(&types, &mut errors, TExpr::Nil, Ty::Bool, TExpr::Nil, Ty::Bool, span(6), span(7), span(8));
    let (_, ty) = index_read(
        &types, &mut errors, TExpr::Nil, Ty::List(CollectionId(3)), TExpr::Nil, Ty::Int64, span(9), span(10), span(11),
    );
    assert_eq!(ty, Ty::String);
    assert_eq!(
        messages(&errors),
        vec![
            "an indexed map read cannot move a move-only value out of its map; use take()".to_string(),
            "expected 'Int64', found 'Bool'".to_string(),
            "'Bool' is not an indexable collection".to_string(),
            "an indexed read cannot move a move-only element out of its collection".to_string(),
        ]
    );
}

#[test]
fn calls_used_as_values_need_a_result() {
    let mut errors = Vec::new();
    let names = vec!["Point.move".to_string()];
    let call = CheckedCall::Function { name: "f".to_string(), args: vec![], result: Some(Ty::Int64) };
    assert!(matches!(call_value(&mut errors, Some(call), &names, span(0)), (TExpr::Call(_, _), Ty::Int64)));
    let call = CheckedCall::Function { name: "g".to_string(), args: vec![], result: None };
    assert!(matches!(call_value(&mut errors, Some(call), &names, span(1)), (TExpr::Nil, Ty::Nil)));
    let method = TMethodCall { receiver: TReceiver::Value(TExpr::Nil, Ty::Nil), method: MethodId(0), args: vec![] };
    call_value(&mut errors, Some(CheckedCall::Method { call: method, result: None }), &names, span(2));
    call_value(&mut errors, Some(CheckedCall::Statement(TStmt::Expr(TExpr::Nil))), &names, span(3));
    assert!(matches!(call_value(&mut errors, None, &names, span(4)), (TExpr::Nil, Ty::Nil)));
    assert_eq!(
        messages(&errors),
        vec![
            "'g' declares no result, so its call cannot be used as a value".to_string(),
            "'Point.move' declares no result, so its call cannot be used as a value".to_string(),
            "a list mutation does not produce a value".to_string(),
        ]
    );
}

/// Point as above, plus union Shape { Circle }.
fn with_union() -> Types {
    let mut types = fixture();
    types.defs.push(TypeDef::Union { name: "Shape".to_string(), members: vec![TypeId(2)] });
    types.defs.push(TypeDef::UnionMember {
        name: "Circle".to_string(),
        union: TypeId(1),
        tag: 0,
        nil: false,
        fields: vec![("r".to_string(), Ty::Float64)],
    });
    types
}

#[test]
fn call_heads_name_functions_types_and_receivers() {
    let types = with_union();
    let methods: Vec<(TypeId, String)> = vec![];
    let functions = vec!["main".to_string(), "Point.origin".to_string()];
    let env = vec![Binding { name: "p", ty: Ty::User(TypeId(0)), mutable: true, scope: 0, type_test_alias: false }];
    let moves = MoveState { entries: vec![] };
    let mut errors = Vec::new();
    let head = |errors: &mut Vec<Error>, callee: (Expr<'static>, Span)| {
        call_head(&types, &methods, &functions, &env, None, &moves, errors, &callee)
    };
    assert!(matches!(head(&mut errors, (Expr::Local("main"), span(0))), CallHead::Function(ref f) if f == "main"));
    assert!(matches!(head(&mut errors, (Expr::Local("Point"), span(0))), CallHead::Type(TypeId(0))));
    assert!(matches!(head(&mut errors, (Expr::BuiltinType(TypeName::Int64), span(0))), CallHead::Convert(Ty::Int64)));
    let origin = (Expr::Member(Box::new((Expr::Local("Point"), span(0))), ("origin", span(6))), span(0));
    assert!(matches!(head(&mut errors, origin), CallHead::Function(ref f) if f == "Point.origin"));
    let circle = (Expr::Member(Box::new((Expr::Local("Shape"), span(0))), ("Circle", span(6))), span(0));
    assert!(matches!(head(&mut errors, circle), CallHead::Type(TypeId(2))));
    let method = (Expr::Member(Box::new((Expr::Local("p"), span(0))), ("norm", span(2))), span(0));
    match head(&mut errors, method) {
        CallHead::Receiver(resolved) => assert_eq!(resolved.place.ty, Ty::User(TypeId(0))),
        other => panic!("unexpected {:?}", other),
    }
    let from_utf8 = (Expr::Member(Box::new((Expr::BuiltinType(TypeName::String), span(0))), ("from_utf8", span(7))), span(0));
    assert!(matches!(head(&mut errors, from_utf8), CallHead::StringStatic));
    let computed = (
        Expr::Member(Box::new((Expr::Value(Value::Str("x".to_string())), span(0))), ("bytes", span(4))),
        span(0),
    );
    assert!(matches!(head(&mut errors, computed), CallHead::Computed));
    assert!(errors.is_empty());

    assert!(matches!(head(&mut errors, (Expr::Local("p"), span(1))), CallHead::Rejected));
    assert!(matches!(head(&mut errors, (Expr::Local("q"), span(2))), CallHead::Rejected));
    let square = (Expr::Member(Box::new((Expr::Local("Shape"), span(0))), ("Square", span(9))), span(0));
    assert!(matches!(head(&mut errors, square), CallHead::Rejected));
    assert!(matches!(head(&mut errors, (Expr::Value(Value::Nil), span(3))), CallHead::Rejected));
    assert_eq!(
        messages(&errors),
        vec![
            "'p' is a variable; Snacc has no function values, so it cannot be called".to_string(),
            "'q' is not callable".to_string(),
            "'Shape' has no member type 'Square'".to_string(),
            "only calling a function, type, or method by name is supported".to_string(),
        ]
    );
}

#[test]
fn a_moved_receiver_cannot_be_called_on() {
    let types = with_union();
    let methods: Vec<(TypeId, String)> = vec![];
    let functions: Vec<String> = vec![];
    let env = vec![Binding { name: "s", ty: Ty::String, mutable: true, scope: 0, type_test_alias: false }];
    let moves = MoveState { entries: vec![(PlaceRoot::Local("s".to_string()), span(1))] };
    let mut errors = Vec::new();
    let callee = (Expr::Member(Box::new((Expr::Local("s"), span(4))), ("clone", span(6))), span(4));
    assert!(matches!(
        call_head(&types, &methods, &functions, &env, None, &moves, &mut errors, &callee),
        CallHead::Rejected
    ));
    assert_eq!(messages(&errors), vec!["'s' is already moved, so this use is invalid".to_string()]);
    assert_eq!(errors[0].span, span(4));
}

#[test]
fn methods_are_found_on_the_receiver_type_through_boxes() {
    let types = fixture();
    let methods = vec![(TypeId(0), "norm".to_string()), (TypeId(0), "scale".to_string())];
    let mut errors = Vec::new();
    assert_eq!(find_method(&types, &methods, &mut errors, Ty::Box(BoxId(0)), "scale", span(1)), Some(MethodId(1)));
    assert!(errors.is_empty());
    assert_eq!(find_method(&types, &methods, &mut errors, Ty::User(TypeId(0)), "x", span(2)), None);
    assert_eq!(find_method(&types, &methods, &mut errors, Ty::User(TypeId(0)), "grow", span(3)), None);
    assert_eq!(find_method(&types, &methods, &mut errors, Ty::Int64, "abs", span(4)), None);
    assert_eq!(
        messages(&errors),
        vec![
            "'Point.x' is a field, not a method, so it cannot be called".to_string(),
            "'Point' has no method 'grow'".to_string(),
            "'Int64' has no method 'abs'".to_string(),
        ]
    );
}

#[test]
fn argument_counts_are_checked_against_signatures() {
    let mut errors = Vec::new();
    check_arity(&mut errors, "add", 2, 2, span(0));
    assert!(errors.is_empty());
    check_arity(&mut errors, "Point.scale", 1, 3, span(5));
    assert_eq!(
        messages(&errors),
        vec!["'Point.scale' called with wrong number of arguments (expected 1, found 3)".to_string()]
    );
}
