use snacc_compiler::ast::Span;
use snacc_compiler::places::{
    copy_place, deref_box, is_builtin_view, merge_moves, merge_view_borrows, overlaps, same_root,
    MoveState, Place, PlaceRoot, ViewBorrow,
};
use snacc_compiler::ty::{BoxId, CollectionId, Ty, TypeDef, TypeId, Types};

fn span(start: usize, end: usize) -> Span {
    Span { start, end }
}

fn place(root: &str, path: Vec<usize>) -> Place {
    Place {
        root: PlaceRoot::Local(root.to_string()),
        root_ty: Ty::User(TypeId(0)),
        path,
        ty: Ty::Int64,
    }
}

fn local(name: &str) -> PlaceRoot {
    PlaceRoot::Local(name.to_string())
}

fn moved(roots: &[(&str, usize)]) -> MoveState {
    MoveState {
        entries: roots.iter().map(|(name, at)| (local(name), span(*at, *at + 1))).collect(),
    }
}

fn borrow(view: &str, sources: &[&str], scope: usize, persistent: bool) -> ViewBorrow {
    ViewBorrow {
        view_name: view.to_string(),
        sources: sources.iter().map(|s| local(s)).collect(),
        scope,
        persistent,
    }
}

#[test]
fn overlap_is_prefix_relation_on_one_root() {
    let whole = place("p", vec![]);
    let field = place("p", vec![1]);
    let nested = place("p", vec![1, 0]);
    let sibling = place("p", vec![0]);
    let other = place("q", vec![]);
    assert!(overlaps(&whole, &nested));
    assert!(overlaps(&nested, &whole));
    assert!(overlaps(&field, &nested));
    assert!(overlaps(&field, &field));
    assert!(!overlaps(&field, &sibling));
    assert!(!overlaps(&whole, &other));
}

#[test]
fn overlap_is_symmetric_on_examples() {
    let places = [
        place("p", vec![]),
        place("p", vec![0]),
        place("p", vec![0, 2]),
        place("p", vec![1]),
        place("q", vec![0]),
    ];
    for a in &places {
        assert!(overlaps(a, a));
        for b in &places {
            assert_eq!(overlaps(a, b), overlaps(b, a));
        }
    }
}

#[test]
fn roots_compare_by_name() {
    assert!(same_root(&local("a"), &local("a")));
    assert!(!same_root(&local("a"), &local("b")));
    assert!(same_root(&PlaceRoot::SelfRef, &PlaceRoot::SelfRef));
    assert!(!same_root(&PlaceRoot::SelfRef, &local("self")));
    let copy = copy_place(&place("p", vec![2, 3]));
    assert_eq!(copy.path, vec![2, 3]);
    assert!(matches!(copy.root, PlaceRoot::Local(ref n) if n == "p"));
}

#[test]
fn boxes_are_peeled_to_the_first_non_box() {
    let types = Types {
        defs: vec![TypeDef::Struct { name: "Node".to_string(), fields: vec![] }],
        sums: vec![],
        boxes: vec![Ty::User(TypeId(0)), Ty::Box(BoxId(0))],
        collections: vec![],
    };
    assert_eq!(deref_box(&types, Ty::Box(BoxId(1))), Ty::User(TypeId(0)));
    assert_eq!(deref_box(&types, Ty::Box(BoxId(0))), Ty::User(TypeId(0)));
    assert_eq!(deref_box(&types, Ty::Int64), Ty::Int64);
    let once = deref_box(&types, Ty::Box(BoxId(1)));
    assert_eq!(deref_box(&types, once), once);
}

#[test]
fn builtin_views() {
    assert!(is_builtin_view(Ty::ViewByte));
    assert!(is_builtin_view(Ty::ViewUnicode));
    assert!(is_builtin_view(Ty::View(CollectionId(0))));
    assert!(!is_builtin_view(Ty::String));
}

#[test]
fn merged_moves_are_the_union_with_first_spans() {
    let merged = merge_moves(vec![moved(&[("a", 1)]), moved(&[("b", 5), ("a", 9)]), moved(&[])]);
    assert!(merged.contains(&local("a")));
    assert!(merged.contains(&local("b")));
    assert!(!merged.contains(&local("c")));
    assert_eq!(merged.entries.len(), 2);
    for (root, at) in &merged.entries {
        match root {
            PlaceRoot::Local(name) if name == "a" => assert_eq!(*at, span(1, 2)),
            PlaceRoot::Local(name) if name == "b" => assert_eq!(*at, span(5, 6)),
            _ => panic!("unexpected root"),
        }
    }
    let none = merge_moves(vec![]);
    assert!(none.entries.is_empty());
}

#[test]
fn merged_borrows_keep_every_source_and_the_widest_lifetime() {
    let merged = merge_view_borrows(vec![
        vec![borrow("v", &["s"], 3, false)],
        vec![borrow("v", &["t", "s"], 1, true), borrow("w", &["u"], 2, false)],
    ]);
    assert_eq!(merged.len(), 2);
    let v = merged.iter().find(|b| b.view_name == "v").unwrap();
    assert_eq!(v.scope, 1);
    assert!(v.persistent);
    assert_eq!(v.sources.len(), 2);
    assert!(v.sources.iter().any(|s| same_root(s, &local("s"))));
    assert!(v.sources.iter().any(|s| same_root(s, &local("t"))));
    let w = merged.iter().find(|b| b.view_name == "w").unwrap();
    assert_eq!(w.scope, 2);
    assert!(!w.persistent);
}

fn shape_of(borrows: &[ViewBorrow]) -> Vec<(String, Vec<String>, usize, bool)> {
    borrows
        .iter()
        .map(|b| {
            let sources = b
                .sources
                .iter()
                .map(|s| match s {
                    PlaceRoot::Local(name) => name.clone(),
                    PlaceRoot::SelfRef => "self".to_string(),
                })
                .collect();
            (b.view_name.clone(), sources, b.scope, b.persistent)
        })
        .collect()
}

#[test]
fn merged_borrows_keep_first_occurrence_order() {
    let merged = merge_view_borrows(vec![
        vec![borrow("b", &["x"], 2, false), borrow("a", &["y", "z"], 4, false)],
        vec![borrow("c", &["q"], 1, false), borrow("a", &["w", "y", "v"], 3, true)],
    ]);
    assert_eq!(
        shape_of(&merged),
        vec![
            ("b".to_string(), vec!["x".to_string()], 2, false),
            (
                "a".to_string(),
                vec!["y".to_string(), "z".to_string(), "w".to_string(), "v".to_string()],
                3,
                true
            ),
            ("c".to_string(), vec!["q".to_string()], 1, false),
        ]
    );
}

#[test]
fn joining_a_borrow_state_with_itself_changes_nothing() {
    let state = || vec![borrow("v", &["s", "t"], 1, false), borrow("w", &["u"], 0, true)];
    assert!(merge_view_borrows(vec![]).is_empty());
    assert_eq!(shape_of(&merge_view_borrows(vec![state()])), shape_of(&state()));
    assert_eq!(shape_of(&merge_view_borrows(vec![state(), state()])), shape_of(&state()));
}
