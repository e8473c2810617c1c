//! Type tests: `place is Member` against a named union or an inline sum,
//! and the function-wide uniqueness of the names they bind.
use vstd::prelude::*;
use crate::ast::{Span, Spanned, TypeTest, spec_type_name_text};
use crate::checked::{Error, TCondition, TExpr, TSumTypeTest, TTypeTest};
use crate::generics::{Diagnostics, diagnostics, names_contain, unknown_type_message};
use crate::names::{display_depth, spec_display};
use crate::moves::Binding;
use crate::places::{Place, deref_box, spec_deref_box};
use crate::resolve::Resolved;
use crate::program::{builtin_type_name, spec_builtin_type_name};
use crate::text::{concat_str, str_eq};
use crate::ty::{SumId, Ty, TypeDef, TypeId, Types, spec_ty_from_name};

verus! {

pub open spec fn already_exists_message(kind: Seq<char>, name: Seq<char>) -> Seq<char> {
    kind + " '"@ + name + "' already exists"@
}

/// Records a function-wide binding name, reporting one that is already
/// declared instead of declaring it twice.
pub fn declare<'src>(
    declared: &mut Vec<&'src str>,
    errors: &mut Vec<Error>,
    name: &'src str,
    span: Span,
    kind: &str,
)
    ensures
        names_contain(old(declared)@, name@) ==> final(declared)@ == old(declared)@ && diagnostics(
            final(errors)@,
        ) == diagnostics(old(errors)@).push((span, already_exists_message(kind@, name@))),
        !names_contain(old(declared)@, name@) ==> final(declared)@ == old(declared)@.push(name)
            && final(errors)@ == old(errors)@,
{
    let mut found = false;
    let mut i: usize = 0;
    while i < declared.len()
        invariant
            i <= declared@.len(),
            found == exists|j: int| 0 <= j < i && (#[trigger] declared@[j])@ == name@,
        decreases declared.len() - i,
    {
        if str_eq(declared[i], name) {
            found = true;
        }
        i = i + 1;
    }
    if found {
        let mut msg = concat_str(kind, " '");
        msg.append(name);
        msg.append("' already exists");
        let ghost text = msg@;
        let ghost before = errors@;
        errors.push(Error { span, msg });
        proof {
            assert(text =~= already_exists_message(kind@, name@));
            assert(diagnostics(errors@) =~= diagnostics(before).push((span, text)));
        }
    } else {
        declared.push(name);
    }
}

pub open spec fn nil_binding_message() -> Seq<char> {
    "'Nil' carries no value, so it cannot be bound by a type test"@
}

/// Resolves the member named by a test against named union `union`: one
/// segment names a direct member; two name `Union.Member`, which must be a
/// member of this union.
pub open spec fn union_test_member(types: &Types, test: TypeTest, place: Place, union: TypeId) -> Result<TypeId, (Span, Seq<char>)> {
    let subject = spec_display(types, place.ty);
    let segments = test.member@;
    if segments.len() == 1 {
        let name = segments[0].0@;
        match types.spec_member(union, name) {
            Some(id) => Ok(id),
            None => Err((
                test.member_span,
                if types.spec_top_level(name) == Some(union) {
                    "'"@ + test.place.spec_text() + "' already has type '"@ + subject
                        + "', so this test is always true"@
                } else {
                    "'"@ + name + "' is not a direct member of '"@ + subject + "'"@
                },
            )),
        }
    } else if segments.len() == 2 {
        let first = segments[0];
        let second = segments[1].0@;
        match types.spec_top_level(first.0@) {
            None => Err((first.1, unknown_type_message(first.0@))),
            Some(root) => match types.spec_member(root, second) {
                None => Err((
                    test.member_span,
                    "'"@ + types.defs@[root.0 as int].spec_name()@ + "' has no member type '"@ + second
                        + "'"@,
                )),
                Some(id) => if root != union {
                    Err((
                        test.member_span,
                        "'"@ + types.defs@[id.0 as int].spec_name()@ + "' is not a direct member of '"@
                            + subject + "'"@,
                    ))
                } else {
                    Ok(id)
                },
            },
        }
    } else {
        Err((test.member_span, "a tested member name has at most two components"@))
    }
}

fn resolve_union_member(
    types: &Types,
    errors: &mut Vec<Error>,
    test: &TypeTest,
    place: &Place,
    union: TypeId,
) -> (r: Option<TypeId>)
    requires
        types.wf(),
        types.defs@.len() <= u32::MAX,
        union.0 < types.defs@.len(),
        types.valid_ty(place.ty),
        display_depth(types) <= usize::MAX,
    ensures
        match union_test_member(types, *test, *place, union) {
            Ok(id) => r == Some(id) && final(errors)@ == old(errors)@,
            Err(e) => r is None && diagnostics(final(errors)@) == diagnostics(old(errors)@).push(e),
        },
        r matches Some(id) ==> id.0 < types.defs@.len(),
{
    let ghost before = errors@;
    let subject = types.display(place.ty);
    let n = test.member.len();
    if n == 1 {
        let name = test.member[0].0;
        match types.member(union, name) {
            Some(id) => {
                proof {
                    assert(types.def_wf(union.0 as int));
                    let members = types.spec_union_members(union)->Some_0;
                    let k = choose|k: int|
                        0 <= k < members.len() && types.member_named(#[trigger] members[k], name@)
                            && forall|j: int| 0 <= j < k ==> !types.member_named(#[trigger] members[j], name@);
                }
                Some(id)
            },
            None => {
                let msg = if types.top_level(name) == Some(union) {
                    let mut m = concat_str("'", test.place.text().as_str());
                    m.append("' already has type '");
                    m.append(subject.as_str());
                    m.append("', so this test is always true");
                    m
                } else {
                    let mut m = concat_str("'", name);
                    m.append("' is not a direct member of '");
                    m.append(subject.as_str());
                    m.append("'");
                    m
                };
                let ghost text = msg@;
                errors.push(Error { span: test.member_span, msg });
                proof {
                    assert(diagnostics(errors@) =~= diagnostics(before).push((test.member_span, text)));
                    let name_v = test.member@[0].0@;
                    if types.spec_top_level(name_v) == Some(union) {
                        assert(text =~= "'"@ + test.place.spec_text() + "' already has type '"@
                            + spec_display(types, place.ty) + "', so this test is always true"@);
                    } else {
                        assert(text =~= "'"@ + name_v + "' is not a direct member of '"@ + spec_display(
                            types,
                            place.ty,
                        ) + "'"@);
                    }
                }
                None
            },
        }
    } else if n == 2 {
        let (first, first_span) = test.member[0];
        let second = test.member[1].0;
        let root = match types.top_level(first) {
            Some(root) => root,
            None => {
                let mut msg = concat_str("Unknown type '", first);
                msg.append("'");
                let ghost text = msg@;
                errors.push(Error { span: first_span, msg });
                proof {
                    assert(text =~= unknown_type_message(first@));
                    assert(diagnostics(errors@) =~= diagnostics(before).push((first_span, text)));
                }
                return None;
            },
        };
        match types.member(root, second) {
            None => {
                let mut msg = concat_str("'", types.def(root).name().as_str());
                msg.append("' has no member type '");
                msg.append(second);
                msg.append("'");
                let ghost text = msg@;
                errors.push(Error { span: test.member_span, msg });
                proof {
                    assert(diagnostics(errors@) =~= diagnostics(before).push((test.member_span, text)));
                }
                None
            },
            Some(id) => {
                proof {
                    assert(types.def_wf(root.0 as int));
                    let members = types.spec_union_members(root)->Some_0;
                    let k = choose|k: int|
                        0 <= k < members.len() && types.member_named(#[trigger] members[k], second@)
                            && forall|j: int| 0 <= j < k ==> !types.member_named(#[trigger] members[j], second@);
                }
                if root != union {
                    let mut msg = concat_str("'", types.def(id).name().as_str());
                    msg.append("' is not a direct member of '");
                    msg.append(subject.as_str());
                    msg.append("'");
                    let ghost text = msg@;
                    errors.push(Error { span: test.member_span, msg });
                    proof {
                        assert(diagnostics(errors@) =~= diagnostics(before).push((test.member_span, text)));
                    }
                    None
                } else {
                    Some(id)
                }
            },
        }
    } else {
        errors.push(
            Error {
                span: test.member_span,
                msg: String::from_str("a tested member name has at most two components"),
            },
        );
        proof {
            assert(diagnostics(errors@) =~= diagnostics(before).push(
                (test.member_span, "a tested member name has at most two components"@),
            ));
        }
        None
    }
}

/// The tag and `Nil` flag of a union member.
pub open spec fn member_tag_and_nil(types: &Types, member: TypeId) -> (u32, bool) {
    match types.defs@[member.0 as int] {
        TypeDef::UnionMember { tag, nil, .. } => (tag, nil),
        _ => (0, false),
    }
}

/// Checks `place is Member` against named union `union`: resolves the
/// member, and binds the payload name, which must be new in the function
/// and cannot bind the valueless `Nil` member.
pub fn check_type_test<'src>(
    types: &Types,
    declared: &mut Vec<&'src str>,
    errors: &mut Vec<Error>,
    test: &TypeTest<'src>,
    place: Place,
    union: TypeId,
) -> (r: Option<TTypeTest>)
    requires
        types.wf(),
        types.defs@.len() <= u32::MAX,
        union.0 < types.defs@.len(),
        types.valid_ty(place.ty),
        display_depth(types) <= usize::MAX,
    ensures
        match union_test_member(types, *test, place, union) {
            Err(e) => r is None && final(declared)@ == old(declared)@ && diagnostics(final(errors)@)
                == diagnostics(old(errors)@).push(e),
            Ok(member) => r matches Some(t) && t.place == place && t.member == member && t.tag
                == member_tag_and_nil(types, member).0 && match test.binding {
                None => t.binding is None && final(declared)@ == old(declared)@ && final(errors)@
                    == old(errors)@,
                Some((name, span)) => if member_tag_and_nil(types, member).1 {
                    t.binding is None && final(declared)@ == old(declared)@ && diagnostics(
                        final(errors)@,
                    ) == diagnostics(old(errors)@).push((span, nil_binding_message()))
                } else {
                    t.binding matches Some((n, ty)) && n@ == name@ && ty == Ty::User(member) && (
                    names_contain(old(declared)@, name@) ==> final(declared)@ == old(declared)@
                        && diagnostics(final(errors)@) == diagnostics(old(errors)@).push(
                        (span, already_exists_message("Binding"@, name@)),
                    )) && (!names_contain(old(declared)@, name@) ==> final(declared)@ == old(
                        declared,
                    )@.push(name) && final(errors)@ == old(errors)@)
                },
            },
        },
{
    let member = match resolve_union_member(types, errors, test, &place, union) {
        Some(member) => member,
        None => return None,
    };
    let (tag, nil) = match types.def(member) {
        TypeDef::UnionMember { tag, nil, .. } => (*tag, *nil),
        _ => (0, false),
    };
    let binding = match test.binding {
        Some((name, name_span)) => {
            if nil {
                let ghost before = errors@;
                errors.push(
                    Error {
                        span: name_span,
                        msg: String::from_str("'Nil' carries no value, so it cannot be bound by a type test"),
                    },
                );
                proof {
                    assert(diagnostics(errors@) =~= diagnostics(before).push((name_span, nil_binding_message())));
                }
                None
            } else {
                declare(declared, errors, name, name_span, "Binding");
                proof {
                    reveal_strlit("Binding");
                }
                Some((String::from_str(name), Ty::User(member)))
            }
        },
        None => None,
    };
    Some(TTypeTest { place, member, tag, binding })
}

/// Resolves the member named by a test against an inline sum: exactly one
/// segment, a built-in type keyword or a top-level type, which must be a
/// direct member of the sum.
pub open spec fn sum_test_member(types: &Types, test: TypeTest, place: Place, sum: SumId) -> Result<Ty, (Span, Seq<char>)> {
    let subject = spec_display(types, place.ty);
    if test.member@.len() != 1 {
        Err((
            test.member_span,
            "a type test on an inline sum names exactly one direct member; testing a member inside a named-union member requires a second test after binding that union"@,
        ))
    } else {
        let (name, span) = test.member@[0];
        let member = match spec_builtin_type_name(name@) {
            Some(builtin) => Some(spec_ty_from_name(builtin)),
            None => match types.spec_top_level(name@) {
                Some(id) => Some(Ty::User(id)),
                None => None,
            },
        };
        match member {
            None => Err((span, unknown_type_message(name@))),
            Some(m) => if types.sums@[sum.0 as int]@.contains(m) {
                Ok(m)
            } else {
                Err((span, "'"@ + name@ + "' is not a direct member of '"@ + subject + "'"@))
            },
        }
    }
}

/// Checks `place is Member` against an inline sum: resolves the direct
/// member, and binds the payload name unless the member is `Nil`.
pub fn check_sum_type_test<'src>(
    types: &Types,
    declared: &mut Vec<&'src str>,
    errors: &mut Vec<Error>,
    test: &TypeTest<'src>,
    place: Place,
    sum: SumId,
) -> (r: Option<TSumTypeTest>)
    requires
        types.wf(),
        types.defs@.len() <= u32::MAX,
        sum.0 < types.sums@.len(),
        types.valid_ty(place.ty),
        display_depth(types) <= usize::MAX,
    ensures
        match sum_test_member(types, *test, place, sum) {
            Err(e) => r is None && final(declared)@ == old(declared)@ && diagnostics(final(errors)@)
                == diagnostics(old(errors)@).push(e),
            Ok(member) => r matches Some(t) && t.place == place && t.sum == sum && t.member == member
                && match test.binding {
                None => t.binding is None && final(declared)@ == old(declared)@ && final(errors)@
                    == old(errors)@,
                Some((name, span)) => if member == Ty::Nil {
                    t.binding is None && final(declared)@ == old(declared)@ && diagnostics(
                        final(errors)@,
                    ) == diagnostics(old(errors)@).push((span, nil_binding_message()))
                } else {
                    t.binding matches Some((n, ty)) && n@ == name@ && ty == member && (names_contain(
                        old(declared)@,
                        name@,
                    ) ==> final(declared)@ == old(declared)@ && diagnostics(final(errors)@)
                        == diagnostics(old(errors)@).push((span, already_exists_message("Binding"@, name@))))
                        && (!names_contain(old(declared)@, name@) ==> final(declared)@ == old(
                        declared,
                    )@.push(name) && final(errors)@ == old(errors)@)
                },
            },
        },
{
    let ghost before = errors@;
    let subject = types.display(place.ty);
    if test.member.len() != 1 {
        errors.push(
            Error {
                span: test.member_span,
                msg: String::from_str(
                    "a type test on an inline sum names exactly one direct member; testing a member inside a named-union member requires a second test after binding that union",
                ),
            },
        );
        proof {
            assert(diagnostics(errors@) =~= diagnostics(before).push(
                (
                    test.member_span,
                    "a type test on an inline sum names exactly one direct member; testing a member inside a named-union member requires a second test after binding that union"@,
                ),
            ));
        }
        return None;
    }
    let (name, name_span) = test.member[0];
    let member = match builtin_type_name(name) {
        Some(builtin) => Ty::from(builtin),
        None => match types.top_level(name) {
            Some(id) => Ty::User(id),
            None => {
                let mut msg = concat_str("Unknown type '", name);
                msg.append("'");
                let ghost text = msg@;
                errors.push(Error { span: name_span, msg });
                proof {
                    assert(text =~= unknown_type_message(name@));
                    assert(diagnostics(errors@) =~= diagnostics(before).push((name_span, text)));
                }
                return None;
            },
        },
    };
    let members = types.sum_members(sum);
    let mut present = false;
    let mut k: usize = 0;
    while k < members.len()
        invariant
            k <= members@.len(),
            present == exists|q: int| 0 <= q < k && members@[q] == member,
        decreases members.len() - k,
    {
        if members[k] == member {
            present = true;
        }
        k = k + 1;
    }
    proof {
        if present {
            let q = choose|q: int| 0 <= q < k && members@[q] == member;
            assert(members@.contains(member));
        } else {
            assert(!members@.contains(member));
        }
    }
    if !present {
        let mut msg = concat_str("'", name);
        msg.append("' is not a direct member of '");
        msg.append(subject.as_str());
        msg.append("'");
        let ghost text = msg@;
        errors.push(Error { span: name_span, msg });
        proof {
            assert(diagnostics(errors@) =~= diagnostics(before).push((name_span, text)));
        }
        return None;
    }
    let binding = match test.binding {
        Some((bound, bound_span)) => {
            if member == Ty::Nil {
                let ghost b = errors@;
                errors.push(
                    Error {
                        span: bound_span,
                        msg: String::from_str("'Nil' carries no value, so it cannot be bound by a type test"),
                    },
                );
                proof {
                    assert(diagnostics(errors@) =~= diagnostics(b).push((bound_span, nil_binding_message())));
                }
                None
            } else {
                declare(declared, errors, bound, bound_span, "Binding");
                proof {
                    reveal_strlit("Binding");
                }
                Some((String::from_str(bound), member))
            }
        },
        None => None,
    };
    Some(TSumTypeTest { place, sum, member, binding })
}

/// Brings a proven type-test binding into scope for the arm body when the
/// test was written with one: an alias to the tested place's payload,
/// mutable exactly when the tested place's root is.
pub fn bind_type_test<'src>(
    env: &mut Vec<Binding<'src>>,
    written: Option<Spanned<&'src str>>,
    checked: &Option<(String, Ty)>,
    mutable: bool,
    scope: usize,
)
    ensures
        match (written, *checked) {
            (Some((name, _)), Some((_, ty))) => final(env)@ == old(env)@.push(
                Binding { name, ty, mutable, scope, type_test_alias: true },
            ),
            _ => final(env)@ == old(env)@,
        },
{
    match (written, checked) {
        (Some((name, _)), Some((_, ty))) => {
            env.push(Binding { name, ty: *ty, mutable, scope, type_test_alias: true });
        },
        _ => {},
    }
}

pub open spec fn nil_condition_message() -> Seq<char> {
    "a standalone 'nil' cannot be used as a condition; give it a sum type"@
}

/// Makes a checked expression of type `ty` a condition: its truthiness. A
/// standalone `nil` is reported.
pub fn condition_value(errors: &mut Vec<Error>, value: TExpr, ty: Ty, span: Span) -> (r: TExpr)
    ensures
        r == TExpr::Truthiness(Box::new(value), ty),
        diagnostics(final(errors)@) == diagnostics(old(errors)@) + if ty == Ty::Nil {
            seq![(span, nil_condition_message())]
        } else {
            Seq::empty()
        },
{
    let ghost start = diagnostics(errors@);
    if ty == Ty::Nil {
        errors.push(
            Error {
                span,
                msg: String::from_str("a standalone 'nil' cannot be used as a condition; give it a sum type"),
            },
        );
        proof {
            assert(diagnostics(errors@) =~= start.push((span, nil_condition_message())));
        }
    } else {
        proof {
            assert(start =~= start + Seq::<(Span, Seq<char>)>::empty());
        }
    }
    TExpr::Truthiness(Box::new(value), ty)
}

/// The diagnostic, if any, for the payload binding a successful type test
/// writes: a valueless member cannot be bound, and a binding name must be
/// new in the function.
pub open spec fn payload_binding_diagnostics(declared: Seq<&str>, binding: Option<Spanned<&str>>, nil: bool) -> Diagnostics {
    match binding {
        None => Seq::empty(),
        Some((name, span)) => if nil {
            seq![(span, nil_binding_message())]
        } else if names_contain(declared, name@) {
            seq![(span, already_exists_message("Binding"@, name@))]
        } else {
            Seq::empty()
        },
    }
}

/// The binding a successful type test brings into scope, if any: an alias
/// of the tested payload, of the member type.
pub open spec fn payload_bindings<'src>(
    binding: Option<Spanned<&'src str>>,
    nil: bool,
    ty: Ty,
    mutable: bool,
    scope: usize,
) -> Seq<Binding<'src>> {
    match binding {
        Some((name, _)) => if nil {
            Seq::empty()
        } else {
            seq![Binding { name, ty, mutable, scope, type_test_alias: true }]
        },
        None => Seq::empty(),
    }
}

pub open spec fn untestable_message(place: Seq<char>, ty: Seq<char>) -> Seq<char> {
    "the left side of 'is' must have a union type or an inline sum type, but '"@ + place + "' has type '"@ + ty
        + "'"@
}

/// The tested place: the resolved place, seen through any boxes.
pub open spec fn tested_place(types: &Types, place: Place) -> Place {
    Place { root: place.root, root_ty: place.root_ty, path: place.path, ty: spec_deref_box(types, place.ty) }
}

/// Checks `place is Member` once the place is resolved: the subject, seen
/// through any boxes, must be a named union or an inline sum, and the
/// member one of its direct members. A payload binding comes into scope
/// for the arm, mutable exactly when the tested root is. A failed test is
/// the condition `false`.
pub fn type_test_condition<'src>(
    types: &Types,
    declared: &mut Vec<&'src str>,
    errors: &mut Vec<Error>,
    env: &mut Vec<Binding<'src>>,
    test: &TypeTest<'src>,
    resolved: Resolved,
    scope: usize,
) -> (r: TCondition)
    requires
        types.wf(),
        types.defs@.len() <= u32::MAX,
        types.valid_ty(resolved.place.ty),
        display_depth(types) <= usize::MAX,
    ensures
        ({
            let tested = tested_place(types, resolved.place);
            let d0 = old(declared)@;
            match tested.ty {
                Ty::User(id) if types.spec_union_members(id) is Some => match union_test_member(
                    types,
                    *test,
                    tested,
                    id,
                ) {
                    Err(e) => r == TCondition::Expr(TExpr::Bool(false)) && diagnostics(final(errors)@)
                        == diagnostics(old(errors)@).push(e) && final(env)@ == old(env)@,
                    Ok(member) => {
                        let nil = member_tag_and_nil(types, member).1;
                        &&& r matches TCondition::Test(t) && t.place == tested && t.member == member && t.tag
                            == member_tag_and_nil(types, member).0
                        &&& diagnostics(final(errors)@) == diagnostics(old(errors)@) + payload_binding_diagnostics(
                            d0,
                            test.binding,
                            nil,
                        )
                        &&& final(env)@ == old(env)@ + payload_bindings(
                            test.binding,
                            nil,
                            Ty::User(member),
                            resolved.mutable,
                            scope,
                        )
                    },
                },
                Ty::Sum(sum) => match sum_test_member(types, *test, tested, sum) {
                    Err(e) => r == TCondition::Expr(TExpr::Bool(false)) && diagnostics(final(errors)@)
                        == diagnostics(old(errors)@).push(e) && final(env)@ == old(env)@,
                    Ok(member) => {
                        let nil = member == Ty::Nil;
                        &&& r matches TCondition::SumTest(t) && t.place == tested && t.sum == sum && t.member
                            == member
                        &&& diagnostics(final(errors)@) == diagnostics(old(errors)@) + payload_binding_diagnostics(
                            d0,
                            test.binding,
                            nil,
                        )
                        &&& final(env)@ == old(env)@ + payload_bindings(
                            test.binding,
                            nil,
                            member,
                            resolved.mutable,
                            scope,
                        )
                    },
                },
                _ => r == TCondition::Expr(TExpr::Bool(false)) && diagnostics(final(errors)@) == diagnostics(
                    old(errors)@,
                ).push((test.place.span, untestable_message(test.place.spec_text(), spec_display(types, tested.ty))))
                    && final(env)@ == old(env)@,
            }
        }),
{
    let ghost start = diagnostics(errors@);
    let ghost env0 = env@;
    let mutable = resolved.mutable;
    let mut place = resolved.place;
    place.ty = deref_box(types, place.ty);
    let subject = place.ty;
    match subject {
        Ty::User(id) => {
            if types.union_members(id).is_some() {
                match check_type_test(types, declared, errors, test, place, id) {
                    Some(checked) => {
                        bind_type_test(env, test.binding, &checked.binding, mutable, scope);
                        proof {
                            reveal_strlit("Binding");
                            assert(diagnostics(errors@) =~= start + payload_binding_diagnostics(
                                old(declared)@,
                                test.binding,
                                member_tag_and_nil(types, checked.member).1,
                            ));
                            assert(env@ =~= env0 + payload_bindings(
                                test.binding,
                                member_tag_and_nil(types, checked.member).1,
                                Ty::User(checked.member),
                                mutable,
                                scope,
                            ));
                        }
                        return TCondition::Test(checked);
                    },
                    None => {
                        return TCondition::Expr(TExpr::Bool(false));
                    },
                }
            }
        },
        Ty::Sum(sum) => {
            match check_sum_type_test(types, declared, errors, test, place, sum) {
                Some(checked) => {
                    bind_type_test(env, test.binding, &checked.binding, mutable, scope);
                    proof {
                        reveal_strlit("Binding");
                        assert(diagnostics(errors@) =~= start + payload_binding_diagnostics(
                            old(declared)@,
                            test.binding,
                            checked.member == Ty::Nil,
                        ));
                        assert(env@ =~= env0 + payload_bindings(
                            test.binding,
                            checked.member == Ty::Nil,
                            checked.member,
                            mutable,
                            scope,
                        ));
                    }
                    return TCondition::SumTest(checked);
                },
                None => {
                    return TCondition::Expr(TExpr::Bool(false));
                },
            }
        },
        _ => {},
    }
    let mut msg = String::from_str("the left side of 'is' must have a union type or an inline sum type, but '");
    msg.append(test.place.text().as_str());
    msg.append("' has type '");
    msg.append(types.display(subject).as_str());
    msg.append("'");
    let ghost text = msg@;
    errors.push(Error { span: test.place.span, msg });
    proof {
        assert(text =~= untestable_message(test.place.spec_text(), spec_display(types, subject)));
        assert(diagnostics(errors@) =~= start.push((test.place.span, text)));
    }
    TCondition::Expr(TExpr::Bool(false))
}

} // verus!
