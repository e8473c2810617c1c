use snacc_compiler::ast::{
    Arg, BinaryOp, Block, BlockElement, Expr, Func, NumLiteral, Param, ParamMode, Span, Spanned,
    TypeName, TypeRef, Value,
};
use snacc_compiler::checked::Error;
use snacc_compiler::generics::{
    expr_is_literal, generic_operation, merge_body_diagnostics, type_ref_is_param,
    type_ref_mentions_param,
    validate_generic_block, validate_generic_expr, validate_generic_function,
    validate_generic_signature_type, STANDALONE_NIL,
};
use snacc_compiler::ty::{Ty, TypeDef, TypeId, Types};

fn sp(start: usize) -> Span {
    Span { start, end: start + 1 }
}

fn named(name: &'static str) -> Spanned<TypeRef<'static>> {
    (TypeRef::Named(vec![(name, sp(0))]), sp(0))
}

fn local(name: &'static str) -> Spanned<Expr<'static>> {
    (Expr::Local(name), sp(0))
}

fn int_lit(value: i64) -> Spanned<Expr<'static>> {
    (Expr::Value(Value::Num(NumLiteral::Int(value))), sp(0))
}

fn binary(left: Spanned<Expr<'static>>, op: BinaryOp, right: Spanned<Expr<'static>>, at: usize) -> Spanned<Expr<'static>> {
    (Expr::Binary(Box::new(left), op, Box::new(right)), sp(at))
}

fn messages(errors: &[Error]) -> Vec<String> {
    errors.iter().map(|e| e.msg.clone()).collect()
}

fn capability(operation: &str) -> String {
    format!(
        "cannot use an unconstrained generic type parameter with {operation}; add a concrete type or a future capability bound"
    )
}

fn types() -> Types {
    Types {
        defs: vec![
            TypeDef::Union { name: "Shape".to_string(), members: vec![TypeId(1)] },
            TypeDef::UnionMember {
                name: "Circle".to_string(),
                union: TypeId(0),
                tag: 0,
                nil: false,
                fields: vec![],
            },
            TypeDef::Struct { name: "Point".to_string(), fields: vec![] },
        ],
        sums: vec![],
        boxes: vec![],
        collections: vec![],
    }
}

#[test]
fn parameters_are_recognised_in_written_types() {
    let params = vec!["T"];
    assert!(type_ref_is_param(&named("T").0, &params));
    assert!(!type_ref_is_param(&named("U").0, &params));
    let list = TypeRef::List(Box::new(named("T")));
    assert!(!type_ref_is_param(&list, &params));
    assert!(type_ref_mentions_param(&list, &params));
    let map = TypeRef::MapOf(Box::new((TypeRef::Builtin(TypeName::Int64), sp(0))), Box::new(named("T")));
    assert!(type_ref_mentions_param(&map, &params));
    assert!(!type_ref_mentions_param(&TypeRef::Builtin(TypeName::Bool), &params));
    assert!(expr_is_literal(&int_lit(3)));
    assert!(!expr_is_literal(&local("x")));
}

#[test]
fn operations_on_generic_values_are_reported_once_per_operation() {
    let vars = vec!["x"];
    let opaque = vec!["x"];
    let mut errors = Vec::new();
    let sum = binary(local("x"), BinaryOp::Add, int_lit(1), 4);
    assert!(validate_generic_expr(&sum, &vars, &opaque, &mut errors));
    assert_eq!(messages(&errors), vec![capability("arithmetic")]);
    assert_eq!(errors[0].span, sp(4));
    let mut errors = Vec::new();
    let compare = binary(sum, BinaryOp::Less, int_lit(2), 6);
    assert!(validate_generic_expr(&compare, &vars, &opaque, &mut errors));
    assert_eq!(messages(&errors), vec![capability("arithmetic"), capability("comparison")]);
    let mut errors = Vec::new();
    let member = (Expr::Member(Box::new(local("x")), ("field", sp(0))), sp(8));
    validate_generic_expr(&member, &vars, &opaque, &mut errors);
    assert_eq!(messages(&errors), vec![capability("field or method access")]);
    let mut errors = Vec::new();
    let call = (
        Expr::Call(Box::new(local("f")), (vec![Arg { name: None, value: local("x") }], sp(0))),
        sp(9),
    );
    assert!(validate_generic_expr(&call, &vars, &opaque, &mut errors));
    assert!(errors.is_empty());
    let mut errors = Vec::new();
    assert!(!validate_generic_expr(&binary(int_lit(1), BinaryOp::Add, local("y"), 1), &vars, &opaque, &mut errors));
    assert!(errors.is_empty());
    let mut errors = Vec::new();
    generic_operation(&mut errors, sp(3), "printing");
    assert_eq!(messages(&errors), vec![capability("printing")]);
}

#[test]
fn signature_types_resolve_or_are_reported() {
    let types = types();
    let params = vec!["T"];
    let generic_types = vec![("Pair", 2usize)];
    let mut errors = Vec::new();
    validate_generic_signature_type(&named("T"), &params, &types, &generic_types, false, &mut errors);
    validate_generic_signature_type(&named("Point"), &params, &types, &generic_types, false, &mut errors);
    assert!(errors.is_empty());
    validate_generic_signature_type(&named("Missing"), &params, &types, &generic_types, false, &mut errors);
    let qualified = (TypeRef::Named(vec![("Shape", sp(1)), ("Circle", sp(2))]), sp(0));
    validate_generic_signature_type(&qualified, &params, &types, &generic_types, false, &mut errors);
    let unknown_member = (TypeRef::Named(vec![("Shape", sp(1)), ("Square", sp(2))]), sp(0));
    validate_generic_signature_type(&unknown_member, &params, &types, &generic_types, false, &mut errors);
    let member_name = (TypeRef::Named(vec![("Circle", sp(1))]), sp(0));
    validate_generic_signature_type(&member_name, &params, &types, &generic_types, false, &mut errors);
    let too_long = (TypeRef::Named(vec![("Shape", sp(1)), ("Circle", sp(2)), ("X", sp(3))]), sp(5));
    validate_generic_signature_type(&too_long, &params, &types, &generic_types, false, &mut errors);
    assert_eq!(
        messages(&errors),
        vec![
            "Unknown type 'Missing'",
            "Unknown type 'Shape.Square'",
            "Unknown type 'Circle'",
            "a qualified type name has at most two components",
        ]
    );
    assert_eq!(errors[1].span, sp(2));
    assert_eq!(errors[3].span, sp(5));
}

#[test]
fn generic_applications_check_their_arity() {
    let types = types();
    let params = vec!["T"];
    let generic_types = vec![("Pair", 2usize)];
    let mut errors = Vec::new();
    let short = (TypeRef::Apply { path: vec![("Pair", sp(1))], args: vec![named("T")] }, sp(7));
    validate_generic_signature_type(&short, &params, &types, &generic_types, false, &mut errors);
    let exact = (TypeRef::Apply { path: vec![("Pair", sp(1))], args: vec![named("T"), named("Point")] }, sp(7));
    validate_generic_signature_type(&exact, &params, &types, &generic_types, false, &mut errors);
    let unknown = (TypeRef::Apply { path: vec![("Triple", sp(2))], args: vec![named("Nope")] }, sp(7));
    validate_generic_signature_type(&unknown, &params, &types, &generic_types, false, &mut errors);
    let qualified = (TypeRef::Apply { path: vec![("A", sp(2)), ("B", sp(3))], args: vec![] }, sp(9));
    validate_generic_signature_type(&qualified, &params, &types, &generic_types, false, &mut errors);
    assert_eq!(
        messages(&errors),
        vec![
            "generic type 'Pair' expects 2 type arguments, found 1",
            "Unknown generic type 'Triple'",
            "Unknown type 'Nope'",
            "generic type applications must name a top-level type",
        ]
    );
    assert_eq!(errors[0].span, sp(7));
    assert_eq!(errors[1].span, sp(2));
}

#[test]
fn nil_stands_only_inside_a_sum() {
    let types = types();
    let params: Vec<&str> = vec![];
    let nil = (TypeRef::Builtin(TypeName::Nil), sp(3));
    let mut errors = Vec::new();
    validate_generic_signature_type(&nil, &params, &types, &vec![], false, &mut errors);
    assert_eq!(messages(&errors), vec![STANDALONE_NIL.to_string()]);
    let mut errors = Vec::new();
    let sum = (TypeRef::Sum(vec![(TypeRef::Builtin(TypeName::Nil), sp(1)), (TypeRef::Builtin(TypeName::Int64), sp(2))]), sp(0));
    validate_generic_signature_type(&sum, &params, &types, &vec![], false, &mut errors);
    assert!(errors.is_empty());
    let list_of_nil = (TypeRef::List(Box::new((TypeRef::Builtin(TypeName::Nil), sp(4)))), sp(0));
    validate_generic_signature_type(&list_of_nil, &params, &types, &vec![], true, &mut errors);
    assert_eq!(errors.len(), 1);
    assert_eq!(errors[0].span, sp(4));
}

#[test]
fn block_bindings_join_the_scope_but_do_not_leak_out_of_nested_blocks() {
    let types = types();
    let params = vec!["T"];
    let inner = Block {
        elements: vec![(
            BlockElement::Let { mutable: false, name: "z", name_span: sp(0), ty: named("T"), value: local("y") },
            sp(0),
        )],
        span: sp(0),
    };
    let block = Block {
        elements: vec![
            (
                BlockElement::Let { mutable: false, name: "y", name_span: sp(0), ty: named("T"), value: int_lit(5) },
                sp(0),
            ),
            (BlockElement::While { condition: (Expr::Local("y"), sp(11)), body: inner, span: sp(0) }, sp(0)),
            (BlockElement::Expr(binary(local("z"), BinaryOp::Mul, int_lit(2), 12)), sp(0)),
            (BlockElement::Return(Some(binary(local("y"), BinaryOp::Eq, int_lit(2), 13)), sp(0)), sp(0)),
        ],
        span: sp(0),
    };
    let mut vars: Vec<&str> = vec![];
    let mut opaque: Vec<&str> = vec![];
    let mut errors = Vec::new();
    validate_generic_block(&block, &params, &types, &vec![], &mut vars, &mut opaque, &mut errors);
    assert_eq!(
        messages(&errors),
        vec![
            capability("a generic-parameter literal or value"),
            capability("truthiness"),
            capability("equality"),
        ]
    );
    assert_eq!(errors[1].span, sp(11));
    assert_eq!(vars, vec!["y"]);
    assert_eq!(opaque, vec!["y"]);
}

#[test]
fn a_generic_function_is_checked_signature_first() {
    let types = types();
    let function = Func {
        generic_params: vec![("T", sp(1)), ("T", sp(2))],
        args: vec![
            Param { name: "x", mode: ParamMode::Value, ty: named("T"), span: sp(3) },
            Param { name: "x", mode: ParamMode::Value, ty: (TypeRef::Builtin(TypeName::Int64), sp(0)), span: sp(4) },
        ],
        ret: Some((TypeRef::Named(vec![("Missing", sp(5))]), sp(5))),
        span: sp(0),
        body: Block {
            elements: vec![(BlockElement::Expr(binary(local("x"), BinaryOp::Add, int_lit(1), 6)), sp(0))],
            span: sp(0),
        },
    };
    let mut errors = Vec::new();
    validate_generic_function(&function, &types, &vec![], &mut errors);
    assert_eq!(
        messages(&errors),
        vec![
            "Generic parameter 'T' already exists".to_string(),
            "Parameter 'x' already exists".to_string(),
            "Unknown type 'Missing'".to_string(),
            capability("arithmetic"),
        ]
    );
    let spans: Vec<Span> = errors.iter().map(|e| e.span).collect();
    assert_eq!(spans, vec![sp(2), sp(4), sp(5), sp(6)]);
}

#[test]
fn top_level_names_skip_union_members() {
    let types = types();
    assert_eq!(types.top_level("Shape"), Some(TypeId(0)));
    assert_eq!(types.top_level("Point"), Some(TypeId(2)));
    assert_eq!(types.top_level("Circle"), None);
    assert_eq!(types.member(TypeId(0), "Circle"), Some(TypeId(1)));
    assert_eq!(types.member(TypeId(2), "Circle"), None);
    let _ = Ty::Bool;
}

#[test]
fn body_diagnostics_at_an_already_reported_span_are_dropped() {
    let at = |start: usize| Span { start, end: start + 2 };
    let mut errors = vec![Error { span: at(4), msg: "capability".to_string() }];
    let body = vec![
        Error { span: at(4), msg: "same place".to_string() },
        Error { span: at(9), msg: "elsewhere".to_string() },
        Error { span: at(9), msg: "elsewhere again".to_string() },
    ];
    merge_body_diagnostics(&mut errors, body);
    let msgs: Vec<String> = errors.iter().map(|e| e.msg.clone()).collect();
    assert_eq!(
        msgs,
        vec!["capability".to_string(), "elsewhere".to_string(), "elsewhere again".to_string()]
    );
}
