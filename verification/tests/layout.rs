use snacc_compiler::layout::layout_order;
use snacc_compiler::ty::{BoxId, SumId, Ty, TypeDef, TypeId, Types};

fn position(order: &[Ty], ty: Ty) -> usize {
    order.iter().position(|t| *t == ty).expect("every aggregate is laid out")
}

#[test]
fn aggregates_are_laid_out_after_their_contents() {
    // Line { a: Point, b: Point }, Point { x: Int64 }, Shape = Circle | Nil,
    // Circle { center: Point }, and the sum Int64 | Line.
    let types = Types {
        defs: vec![
            TypeDef::Struct {
                name: "Line".to_string(),
                fields: vec![("a".to_string(), Ty::User(TypeId(1))), ("b".to_string(), Ty::User(TypeId(1)))],
            },
            TypeDef::Struct { name: "Point".to_string(), fields: vec![("x".to_string(), Ty::Int64)] },
            TypeDef::Union { name: "Shape".to_string(), members: vec![TypeId(3), TypeId(4)] },
            TypeDef::UnionMember {
                name: "Circle".to_string(),
                union: TypeId(2),
                tag: 0,
                nil: false,
                fields: vec![("center".to_string(), Ty::User(TypeId(1)))],
            },
            TypeDef::UnionMember { name: "Nil".to_string(), union: TypeId(2), tag: 1, nil: true, fields: vec![] },
            TypeDef::Represented { name: "Wrapped".to_string(), target: Ty::Sum(SumId(0)) },
        ],
        sums: vec![vec![Ty::Int64, Ty::User(TypeId(0))]],
        boxes: vec![],
        collections: vec![],
    };
    let order = layout_order(&types).expect("finite layouts");
    assert_eq!(order.len(), 7);
    let line = position(&order, Ty::User(TypeId(0)));
    let point = position(&order, Ty::User(TypeId(1)));
    let shape = position(&order, Ty::User(TypeId(2)));
    let circle = position(&order, Ty::User(TypeId(3)));
    let nil = position(&order, Ty::User(TypeId(4)));
    let wrapped = position(&order, Ty::User(TypeId(5)));
    let sum = position(&order, Ty::Sum(SumId(0)));
    assert!(point < line);
    assert!(point < circle);
    assert!(circle < shape);
    assert!(nil < shape);
    assert!(line < sum);
    assert!(sum < wrapped);
}

#[test]
fn a_type_holding_itself_by_value_is_reported() {
    let types = Types {
        defs: vec![TypeDef::Struct { name: "Node".to_string(), fields: vec![("next".to_string(), Ty::User(TypeId(0)))] }],
        sums: vec![],
        boxes: vec![],
        collections: vec![],
    };
    assert_eq!(
        layout_order(&types),
        Err("internal compiler error: 'Node' contains itself by value".to_string())
    );
}

#[test]
fn a_cycle_through_an_inline_sum_is_reported() {
    let types = Types {
        defs: vec![TypeDef::Represented { name: "Loop".to_string(), target: Ty::Sum(SumId(0)) }],
        sums: vec![vec![Ty::Nil, Ty::User(TypeId(0))]],
        boxes: vec![],
        collections: vec![],
    };
    assert_eq!(
        layout_order(&types),
        Err("internal compiler error: 'Loop' contains itself by value".to_string())
    );
}

#[test]
fn a_box_breaks_a_by_value_cycle() {
    let types = Types {
        defs: vec![TypeDef::Struct {
            name: "Node".to_string(),
            fields: vec![("value".to_string(), Ty::Int64), ("next".to_string(), Ty::Box(BoxId(0)))],
        }],
        sums: vec![],
        boxes: vec![Ty::User(TypeId(0))],
        collections: vec![],
    };
    assert_eq!(layout_order(&types), Ok(vec![Ty::User(TypeId(0))]));
}

#[test]
fn an_empty_table_has_nothing_to_lay_out() {
    let types = Types { defs: vec![], sums: vec![], boxes: vec![], collections: vec![] };
    assert_eq!(layout_order(&types), Ok(vec![]));
}
