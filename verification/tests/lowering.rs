use snacc_compiler::ast::TypeName;
use snacc_compiler::lowering::{
    concat_part_tag, field_ty, is_bridge_view_ty, is_float, is_scalar_collection_element,
    is_unsigned, member_tag, print_symbol, root_name, sum_member_tag,
};
use snacc_compiler::places::PlaceRoot;
use snacc_compiler::program::{builtin_type_name, is_rust_identifier, solve_receiver_writes};
use snacc_compiler::symbols::{
    internal, list_scalar_symbol, map_raw_symbol, map_symbol, map_uses_raw_value,
    scalar_map_raw_symbol, scalar_map_symbol, scalar_set_symbol, set_symbol,
};
use snacc_compiler::text::{decimal_string, decimal_string_u64};
use snacc_compiler::ty::{CollectionDef, CollectionId, MethodId, SumId, Ty, TypeDef, TypeId, Types};

fn fixture() -> Types {
    Types {
        defs: vec![
            TypeDef::Struct {
                name: "Point".to_string(),
                fields: vec![("x".to_string(), Ty::Int64), ("y".to_string(), Ty::Float64)],
            },
            TypeDef::Union { name: "Shape".to_string(), members: vec![TypeId(2), TypeId(3)] },
            TypeDef::UnionMember {
                name: "Circle".to_string(),
                union: TypeId(1),
                tag: 0,
                nil: false,
                fields: vec![("r".to_string(), Ty::Float64)],
            },
            TypeDef::UnionMember {
                name: "Nil".to_string(),
                union: TypeId(1),
                tag: 1,
                nil: true,
                fields: vec![],
            },
        ],
        sums: vec![vec![Ty::Nil, Ty::Int64, Ty::String]],
        boxes: vec![],
        collections: vec![CollectionDef::List { elem: Ty::Int64 }],
    }
}

#[test]
fn concatenation_tags_are_fixed() {
    assert_eq!(concat_part_tag(Ty::Int64), Ok(1));
    assert_eq!(concat_part_tag(Ty::Byte), Ok(2));
    assert_eq!(concat_part_tag(Ty::UInt16), Ok(3));
    assert_eq!(concat_part_tag(Ty::UInt32), Ok(4));
    assert_eq!(concat_part_tag(Ty::UInt64), Ok(5));
    assert_eq!(concat_part_tag(Ty::Float32), Ok(6));
    assert_eq!(concat_part_tag(Ty::Float64), Ok(7));
    assert_eq!(concat_part_tag(Ty::Bool), Ok(8));
    assert_eq!(concat_part_tag(Ty::Unicode), Ok(9));
    assert_eq!(
        concat_part_tag(Ty::String),
        Err("internal compiler error: unsupported scalar concatenation part".to_string())
    );
}

#[test]
fn scalar_elements_all_have_distinct_concatenation_tags() {
    let scalars = [
        Ty::Int64,
        Ty::Byte,
        Ty::UInt16,
        Ty::UInt32,
        Ty::UInt64,
        Ty::Float32,
        Ty::Float64,
        Ty::Bool,
        Ty::Unicode,
    ];
    for a in scalars {
        assert!(is_scalar_collection_element(a));
        for b in scalars {
            if a != b {
                assert_ne!(concat_part_tag(a), concat_part_tag(b));
            }
        }
    }
    assert!(!is_scalar_collection_element(Ty::String));
}

#[test]
fn type_classification_for_lowering() {
    assert!(is_float(Ty::Float32));
    assert!(!is_float(Ty::Int64));
    assert!(is_unsigned(Ty::Unicode));
    assert!(is_unsigned(Ty::Byte));
    assert!(!is_unsigned(Ty::Int64));
    assert!(is_bridge_view_ty(Ty::ViewByte));
    assert!(is_bridge_view_ty(Ty::View(CollectionId(0))));
    assert!(!is_bridge_view_ty(Ty::String));
}

#[test]
fn print_imports_and_rejections() {
    assert_eq!(print_symbol(Ty::Float64), Ok("snacc_print_f64"));
    assert_eq!(print_symbol(Ty::Int64), Ok("snacc_print_i64"));
    assert_eq!(print_symbol(Ty::String), Ok("snacc_print_string_ptr"));
    assert_eq!(print_symbol(Ty::ViewUnicode), Ok("snacc_print_unicode_view"));
    assert_eq!(
        print_symbol(Ty::Nil),
        Err("internal compiler error: a standalone 'Nil' reached 'print' lowering".to_string())
    );
    assert!(print_symbol(Ty::User(TypeId(0))).is_err());
}

#[test]
fn root_names_are_the_environment_keys() {
    assert_eq!(root_name(&PlaceRoot::Local("count".to_string())), "count");
    assert_eq!(root_name(&PlaceRoot::SelfRef), "self");
}

#[test]
fn union_and_sum_tags_are_positions() {
    let types = fixture();
    assert_eq!(member_tag(&types, TypeId(2)), Ok(0));
    assert_eq!(member_tag(&types, TypeId(3)), Ok(1));
    assert_eq!(
        member_tag(&types, TypeId(0)),
        Err("internal compiler error: injection named a type that is not a union member".to_string())
    );
    assert_eq!(sum_member_tag(&types, SumId(0), Ty::Nil), Ok(0));
    assert_eq!(sum_member_tag(&types, SumId(0), Ty::String), Ok(2));
    assert!(sum_member_tag(&types, SumId(0), Ty::Bool).is_err());
}

#[test]
fn field_types_follow_declaration_order() {
    let types = fixture();
    assert_eq!(field_ty(&types, Ty::User(TypeId(0)), 1), Ok(Ty::Float64));
    assert_eq!(field_ty(&types, Ty::User(TypeId(2)), 0), Ok(Ty::Float64));
    assert_eq!(
        field_ty(&types, Ty::User(TypeId(0)), 2),
        Err("internal compiler error: a field path selected a field that does not exist".to_string())
    );
    assert_eq!(
        field_ty(&types, Ty::Int64, 0),
        Err("internal compiler error: a field path reached a built-in type".to_string())
    );
}

#[test]
fn runtime_symbols_for_maps_sets_and_lists() {
    assert_eq!(scalar_map_symbol("u8", "contains"), "snacc_map_u8_i64_contains");
    assert_eq!(scalar_map_symbol("unicode", "drop"), "snacc_map_unicode_i64_drop");
    assert_eq!(scalar_map_raw_symbol("bool", "insert"), "snacc_map_bool_raw_insert");
    assert_eq!(scalar_set_symbol("u64", "at"), "snacc_set_u64_at");
    assert_eq!(map_symbol("index", Ty::String), Ok("snacc_map_string_i64_index"));
    assert_eq!(map_symbol("key_at", Ty::Int64), Ok("snacc_map_i64_i64_key_at"));
    assert_eq!(
        map_symbol("index", Ty::Float64),
        Err("internal compiler error: unsupported map key type reached lowering".to_string())
    );
    assert_eq!(
        map_symbol("bogus", Ty::ViewByte),
        Err("internal compiler error: unsupported map operation reached lowering".to_string())
    );
    assert_eq!(map_raw_symbol("take", Ty::UInt16), Ok("snacc_map_u16_raw_take"));
    assert!(map_uses_raw_value(Ty::String));
    assert!(!map_uses_raw_value(Ty::Int64));
    assert_eq!(set_symbol("contains", Ty::String), Ok("snacc_set_string_contains"));
    assert_eq!(set_symbol("insert", Ty::Unicode), Ok("snacc_set_unicode_insert"));
    assert_eq!(list_scalar_symbol("pop", Ty::Float32), Ok("snacc_list_pop_f32"));
    assert_eq!(list_scalar_symbol("remove", Ty::Unicode), Ok("snacc_list_remove_unicode"));
    assert_eq!(
        list_scalar_symbol("push", Ty::Int64),
        Err("internal compiler error: unsupported scalar list operation".to_string())
    );
}

#[test]
fn internal_errors_carry_the_marker() {
    assert_eq!(internal("boom"), "internal compiler error: boom".to_string());
}

#[test]
fn rust_identifiers() {
    assert!(is_rust_identifier("snacc_user_add"));
    assert!(is_rust_identifier("_x9"));
    assert!(!is_rust_identifier(""));
    assert!(!is_rust_identifier("9lives"));
    assert!(!is_rust_identifier("has-dash"));
}

#[test]
fn builtin_type_names_round_trip() {
    for name in [
        TypeName::Float64,
        TypeName::Int64,
        TypeName::Bool,
        TypeName::Nil,
        TypeName::String,
        TypeName::Unicode,
        TypeName::Byte,
        TypeName::UInt16,
        TypeName::UInt32,
        TypeName::UInt64,
        TypeName::Float32,
    ] {
        assert_eq!(builtin_type_name(name.name()), Some(name));
    }
    assert_eq!(builtin_type_name("Point"), None);
    assert_eq!(builtin_type_name("int64"), None);
}

#[test]
fn receiver_writes_propagate_through_call_cycles() {
    let direct = [false, false, true, false];
    let edges = [
        (MethodId(0), MethodId(1)),
        (MethodId(1), MethodId(0)),
        (MethodId(1), MethodId(2)),
    ];
    assert_eq!(solve_receiver_writes(&direct, &edges), vec![true, true, true, false]);
    assert_eq!(solve_receiver_writes(&[false, false], &[(MethodId(0), MethodId(1))]), vec![
        false, false,
    ]);
}

#[test]
fn receiver_writes_grow_with_direct_writes() {
    let edges = [(MethodId(0), MethodId(1)), (MethodId(2), MethodId(0))];
    let small = solve_receiver_writes(&[false, false, false], &edges);
    let large = solve_receiver_writes(&[false, true, false], &edges);
    for i in 0..3 {
        assert!(!small[i] || large[i]);
    }
    assert_eq!(large, vec![true, true, true]);
}

#[test]
fn decimal_spelling() {
    assert_eq!(decimal_string(0), "0");
    assert_eq!(decimal_string(7), "7");
    assert_eq!(decimal_string(40213), "40213");
    assert_eq!(decimal_string_u64(18446744073709551615), "18446744073709551615");
}

#[test]
fn map_symbol_families_never_share_a_symbol() {
    let prefixes = ["u8", "u16", "u32", "u64", "i64", "bool", "unicode"];
    let operations = ["contains", "insert", "delete", "index", "take", "reserve", "key_at", "value_at", "clear", "drop"];
    for p in prefixes {
        for o in operations {
            assert_eq!(scalar_map_raw_symbol(p, o), format!("snacc_map_{p}_raw_{o}"));
            for q in prefixes {
                for u in operations {
                    assert_ne!(scalar_map_raw_symbol(p, o), scalar_map_symbol(q, u));
                }
            }
        }
    }
}

#[test]
fn receiver_writes_ignore_edge_order_and_repeats() {
    let direct = [false, false, true, false];
    let edges = [(MethodId(0), MethodId(1)), (MethodId(1), MethodId(2)), (MethodId(3), MethodId(0))];
    let shuffled = [
        (MethodId(3), MethodId(0)),
        (MethodId(1), MethodId(2)),
        (MethodId(0), MethodId(1)),
        (MethodId(1), MethodId(2)),
    ];
    let first = solve_receiver_writes(&direct, &edges);
    assert_eq!(first, vec![true, true, true, true]);
    assert_eq!(solve_receiver_writes(&direct, &shuffled), first);
}
