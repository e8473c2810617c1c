use snacc_compiler::ast::{
    Block, BlockElement, Condition, Expr, ExternFunc, IfForm, MethodDecl, Param, ParamMode,
    PlacePath, PlaceRootName, Span, Spanned, TypeName, TypeRef, TypeTest,
};
use snacc_compiler::checked::Error;
use snacc_compiler::declarations::{check_duplicate_params, check_extern_declaration};
use snacc_compiler::mentions::{block_mentions_local, element_mentions_local, expr_mentions_local, flatten};

fn sp(start: usize) -> Span {
    Span { start, end: start + 1 }
}

fn ty(t: TypeRef<'static>) -> Spanned<TypeRef<'static>> {
    (t, sp(0))
}

fn builtin(name: TypeName) -> Spanned<TypeRef<'static>> {
    ty(TypeRef::Builtin(name))
}

fn local(name: &'static str) -> Spanned<Expr<'static>> {
    (Expr::Local(name), sp(0))
}

fn param(name: &'static str, at: usize) -> Param<'static> {
    Param { name, mode: ParamMode::Value, ty: builtin(TypeName::Int64), span: sp(at) }
}

fn messages(errors: &[Error]) -> Vec<String> {
    errors.iter().map(|e| e.msg.clone()).collect()
}

#[test]
fn written_types_render_as_in_source() {
    assert_eq!(TypeRef::Builtin(TypeName::UInt64).text(), "UInt64");
    assert_eq!(TypeRef::Named(vec![("Shape", sp(0)), ("Circle", sp(1))]).text(), "Shape.Circle");
    let pair = TypeRef::Apply {
        path: vec![("Pair", sp(0))],
        args: vec![builtin(TypeName::Int64), ty(TypeRef::Named(vec![("T", sp(0))]))],
    };
    assert_eq!(pair.text(), "Pair<Int64, T>");
    let sum = TypeRef::Sum(vec![builtin(TypeName::Nil), builtin(TypeName::String), builtin(TypeName::Bool)]);
    assert_eq!(sum.text(), "Nil | String | Bool");
    assert_eq!(TypeRef::Array(Box::new(builtin(TypeName::Byte)), 16).text(), "Array<Byte, 16>");
    let map = TypeRef::MapOf(Box::new(builtin(TypeName::String)), Box::new(ty(TypeRef::List(Box::new(builtin(TypeName::Int64))))));
    assert_eq!(map.text(), "Map<String, List<Int64>>");
    assert_eq!(TypeRef::Box(Box::new(ty(TypeRef::View(Box::new(builtin(TypeName::Unicode)))))).text(), "Box<View<Unicode>>");
    assert_eq!(TypeRef::SetOf(Box::new(builtin(TypeName::Float32))).text(), "Set<Float32>");
}

#[test]
fn written_places_render_as_in_source() {
    let place = PlacePath {
        root: PlaceRootName::Name("p"),
        root_span: sp(0),
        fields: vec![("a", sp(1)), ("b", sp(2))],
        span: sp(0),
    };
    assert_eq!(place.text(), "p.a.b");
    let receiver = PlacePath { root: PlaceRootName::SelfRef, root_span: sp(0), fields: vec![], span: sp(0) };
    assert_eq!(receiver.text(), "self");
    assert_eq!(PlaceRootName::Name("x").text(), "x");
}

#[test]
fn member_chains_flatten_to_their_atom() {
    let chain = (
        Expr::Member(Box::new((Expr::Member(Box::new(local("a")), ("b", sp(1))), sp(0))), ("c", sp(2))),
        sp(0),
    );
    let (atom, fields) = flatten(&chain);
    assert!(matches!(atom.0, Expr::Local("a")));
    let names: Vec<&str> = fields.iter().map(|f| f.0).collect();
    assert_eq!(names, vec!["b", "c"]);
    let single = local("x");
    let (atom, fields) = flatten(&single);
    assert!(matches!(atom.0, Expr::Local("x")));
    assert!(fields.is_empty());
}

#[test]
fn local_mentions_reach_into_nested_blocks_and_conditions() {
    let expr = (Expr::Print(Box::new((Expr::Index(Box::new(local("xs")), Box::new(local("i"))), sp(0)))), sp(0));
    assert!(expr_mentions_local(&expr.0, "i"));
    assert!(!expr_mentions_local(&expr.0, "j"));
    let test = TypeTest {
        place: PlacePath { root: PlaceRootName::Name("shape"), root_span: sp(0), fields: vec![], span: sp(0) },
        member: vec![("Circle", sp(0))],
        member_span: sp(0),
        binding: None,
        span: sp(0),
    };
    let branch = Block { elements: vec![(BlockElement::Expr(local("inner")), sp(0))], span: sp(0) };
    let element = (
        BlockElement::If(IfForm { arms: vec![(Condition::TypeTest(test), branch)], else_branch: None, span: sp(0) }),
        sp(0),
    );
    assert!(element_mentions_local(&element, "shape"));
    assert!(element_mentions_local(&element, "inner"));
    assert!(!element_mentions_local(&element, "other"));
    let block = Block {
        elements: vec![(BlockElement::Break(sp(0)), sp(0)), (BlockElement::Return(Some(local("r")), sp(0)), sp(0))],
        span: sp(0),
    };
    assert!(block_mentions_local(&block, "r"));
    assert!(!block_mentions_local(&block, "s"));
}

#[test]
fn repeated_parameters_are_each_reported() {
    let params = vec![param("a", 1), param("b", 2), param("a", 3), param("a", 4)];
    let mut errors = Vec::new();
    check_duplicate_params(&mut errors, &params);
    assert_eq!(messages(&errors), vec!["Parameter 'a' already exists", "Parameter 'a' already exists"]);
    assert_eq!(errors[0].span, sp(3));
    assert_eq!(errors[1].span, sp(4));
}

#[test]
fn bridge_symbols_are_prefixed_rust_identifiers() {
    let mut errors = Vec::new();
    let good = ExternFunc { symbol: "snacc_user_sum", args: vec![param("x", 1)], ret: None, span: sp(9) };
    check_extern_declaration(&mut errors, &good);
    assert!(errors.is_empty());
    let unprefixed = ExternFunc { symbol: "sum", args: vec![], ret: None, span: sp(9) };
    check_extern_declaration(&mut errors, &unprefixed);
    let invalid = ExternFunc { symbol: "snacc_user_a-b", args: vec![param("x", 1), param("x", 2)], ret: None, span: sp(8) };
    check_extern_declaration(&mut errors, &invalid);
    assert_eq!(
        messages(&errors),
        vec![
            "Rust bridge symbols must start with 'snacc_user_'",
            "Parameter 'x' already exists",
            "Rust bridge symbols must be valid Rust identifiers",
        ]
    );
    assert_eq!(errors[0].span, sp(9));
    assert_eq!(errors[2].span, sp(8));
}

#[test]
fn method_paths_split_into_receiver_and_name() {
    let method = MethodDecl {
        path: vec![("Shape", sp(0)), ("Circle", sp(1)), ("area", sp(2))],
        args: vec![],
        ret: None,
        span: sp(0),
        body: Block { elements: vec![], span: sp(0) },
    };
    let (receiver, name) = method.split().unwrap();
    assert_eq!(receiver.len(), 2);
    assert_eq!(name.0, "area");
    let bare = MethodDecl { path: vec![("area", sp(0))], args: vec![], ret: None, span: sp(0), body: Block { elements: vec![], span: sp(0) } };
    assert!(bare.split().is_none());
    let condition = Condition::Expr((Expr::Local("c"), sp(7)));
    assert_eq!(condition.span(), sp(7));
}

#[test]
fn literals_are_spelled_as_written() {
    assert_eq!(snacc_compiler::literals::num_literal_text(&snacc_compiler::ast::NumLiteral::Int(-42)), Some("-42".to_string()));
    assert_eq!(snacc_compiler::literals::num_literal_text(&snacc_compiler::ast::NumLiteral::Int(i64::MIN)), Some(i64::MIN.to_string()));
    assert_eq!(snacc_compiler::literals::num_literal_text(&snacc_compiler::ast::NumLiteral::Int(7)), Some("7".to_string()));
    assert_eq!(snacc_compiler::literals::num_literal_text(&snacc_compiler::ast::NumLiteral::U8(255)), Some("255u8".to_string()));
    assert_eq!(snacc_compiler::literals::num_literal_text(&snacc_compiler::ast::NumLiteral::U64(u64::MAX)), Some(format!("{}u64", u64::MAX)));
    assert_eq!(snacc_compiler::literals::num_literal_text(&snacc_compiler::ast::NumLiteral::F64(1.5f64.to_bits())), None);
    assert_eq!(snacc_compiler::literals::value_text(&snacc_compiler::ast::Value::Nil), Some("nil".to_string()));
    assert_eq!(snacc_compiler::literals::value_text(&snacc_compiler::ast::Value::Bool(false)), Some("false".to_string()));
    assert_eq!(snacc_compiler::literals::value_text(&snacc_compiler::ast::Value::Str("hi".to_string())), Some("hi".to_string()));
    assert_eq!(snacc_compiler::literals::value_text(&snacc_compiler::ast::Value::Unicode(0x41)), Some("U+0041".to_string()));
    assert_eq!(snacc_compiler::literals::value_text(&snacc_compiler::ast::Value::Unicode(0x1F600)), Some("U+1F600".to_string()));
    assert_eq!(snacc_compiler::literals::value_text(&snacc_compiler::ast::Value::Num(snacc_compiler::ast::NumLiteral::F32(2.0f32.to_bits()))), None);
}

#[test]
fn keyword_types_display_as_their_keyword() {
    let names = [
        snacc_compiler::ast::TypeName::Float64, snacc_compiler::ast::TypeName::Int64, snacc_compiler::ast::TypeName::Bool, snacc_compiler::ast::TypeName::Nil, snacc_compiler::ast::TypeName::String,
        snacc_compiler::ast::TypeName::Unicode, snacc_compiler::ast::TypeName::Byte, snacc_compiler::ast::TypeName::UInt16, snacc_compiler::ast::TypeName::UInt32, snacc_compiler::ast::TypeName::UInt64,
        snacc_compiler::ast::TypeName::Float32,
    ];
    for n in names {
        assert_eq!(snacc_compiler::ty::Ty::from(n).text(), n.name());
    }
}
