//! Resolving written places: a root (a local binding or `self`) followed
//! by field selectors, each looked up in the type reached so far after
//! peeling box layers.
use vstd::prelude::*;
use crate::ast::{Expr, PlacePath, PlaceRootName, Span, Spanned};
use crate::checked::{Error, TBlock, TCondition};
use crate::generics::diagnostics;
use crate::mentions::{flatten, spec_flatten};
use crate::moves::Binding;
use crate::names::{display_depth, spec_display};
use crate::places::same_root;
use crate::places::{Place, PlaceRoot, PlaceRootView, deref_box, spec_deref_box};
use crate::text::{concat_str, str_eq};
use crate::ty::{Ty, TypeDef, TypeId, Types, spec_ty_from_name};

verus! {

/// A resolved place and whether it may be written through.
#[derive(Debug)]
pub struct Resolved {
    pub place: Place,
    pub mutable: bool,
}

/// What resolving an expression as a place found.
#[derive(Debug)]
pub enum PlaceOutcome {
    Resolved(Resolved),
    /// The expression is a place, but a field selector failed and was
    /// reported.
    Reported,
    /// The expression does not start at a local or `self`.
    NotAPlace,
}

/// The position of the innermost binding named `name`.
pub open spec fn innermost(env: Seq<Binding>, name: Seq<char>) -> Option<int> {
    if exists|i: int|
        0 <= i < env.len() && (#[trigger] env[i]).name@ == name && forall|j: int|
            i < j < env.len() ==> (#[trigger] env[j]).name@ != name {
        Some(
            choose|i: int|
                0 <= i < env.len() && (#[trigger] env[i]).name@ == name && forall|j: int|
                    i < j < env.len() ==> (#[trigger] env[j]).name@ != name,
        )
    } else {
        None
    }
}

/// The position of the innermost binding named `name`.
pub fn find_binding(env: &Vec<Binding>, name: &str) -> (r: Option<usize>)
    ensures
        match r {
            Some(i) => innermost(env@, name@) == Some(i as int),
            None => innermost(env@, name@) is None,
        },
{
    let mut i = env.len();
    while i > 0
        invariant
            i <= env@.len(),
            forall|j: int| i <= j < env@.len() ==> (#[trigger] env@[j]).name@ != name@,
        decreases i,
    {
        i = i - 1;
        if str_eq(env[i].name, name) {
            proof {
                assert(env@[i as int].name@ == name@);
                let k = choose|k: int|
                    0 <= k < env@.len() && (#[trigger] env@[k]).name@ == name@ && forall|j: int|
                        k < j < env@.len() ==> (#[trigger] env@[j]).name@ != name@;
                if k < i {
                    assert(env@[i as int].name@ != name@);
                } else if k > i {
                    assert(env@[k].name@ != name@);
                }
            }
            return Some(i);
        }
    }
    None
}

/// The first field of definition `id` named `name`: its position and type.
pub open spec fn spec_field(types: &Types, id: TypeId, name: Seq<char>) -> Option<(usize, Ty)> {
    match types.defs@[id.0 as int].spec_fields() {
        Some(fields) => if exists|k: int|
            0 <= k < fields.len() && (#[trigger] fields[k]).0@ == name && forall|j: int|
                0 <= j < k ==> (#[trigger] fields[j]).0@ != name {
            let k = choose|k: int|
                0 <= k < fields.len() && (#[trigger] fields[k]).0@ == name && forall|j: int|
                    0 <= j < k ==> (#[trigger] fields[j]).0@ != name;
            Some((k as usize, fields[k].1))
        } else {
            None
        },
        None => None,
    }
}

impl Types {
    /// The field of a struct or union member named `name`, as its
    /// declaration position and type.
    pub fn field(&self, id: TypeId, name: &str) -> (r: Option<(usize, Ty)>)
        requires
            id.0 < self.defs@.len(),
        ensures
            r == spec_field(self, id, name@),
    {
        let fields = match self.def(id).fields() {
            Some(fields) => fields,
            None => return None,
        };
        let mut k: usize = 0;
        while k < fields.len()
            invariant
                k <= fields@.len(),
                id.0 < self.defs@.len(),
                self.defs@[id.0 as int].spec_fields() == Some(fields@),
                forall|j: int| 0 <= j < k ==> (#[trigger] fields@[j]).0@ != name@,
            decreases fields.len() - k,
        {
            if str_eq(fields[k].0.as_str(), name) {
                proof {
                    assert(fields@[k as int].0@ == name@);
                    let fs = self.defs@[id.0 as int].spec_fields()->Some_0;
                    assert(fs == fields@);
                    assert(forall|j: int| 0 <= j < k ==> (#[trigger] fs[j]).0@ != name@);
                    assert(exists|c: int|
                        0 <= c < fs.len() && (#[trigger] fs[c]).0@ == name@ && forall|j: int|
                            0 <= j < c ==> (#[trigger] fs[j]).0@ != name@) by {
                        assert(fs[k as int].0@ == name@);
                    }
                    assert forall|c: int|
                        0 <= c < fields@.len() && (#[trigger] fields@[c]).0@ == name@ && (forall|j: int|
                            0 <= j < c ==> (#[trigger] fields@[j]).0@ != name@) implies c == k by {
                        if c < k {
                        } else if c > k {
                            assert(fields@[k as int].0@ == name@);
                        }
                    }
                }
                return Some((k, fields[k].1));
            }
            k = k + 1;
        }
        None
    }
}

/// Whether `methods` declares a method `name` on type `id`.
pub open spec fn has_method(methods: Seq<(TypeId, String)>, id: TypeId, name: Seq<char>) -> bool {
    exists|k: int| 0 <= k < methods.len() && (#[trigger] methods[k]).0 == id && methods[k].1@ == name
}

fn declares_method(methods: &Vec<(TypeId, String)>, id: TypeId, name: &str) -> (r: bool)
    ensures
        r == has_method(methods@, id, name@),
{
    let mut k: usize = 0;
    while k < methods.len()
        invariant
            k <= methods@.len(),
            forall|j: int| 0 <= j < k ==> !((#[trigger] methods@[j]).0 == id && methods@[j].1@ == name@),
        decreases methods.len() - k,
    {
        if methods[k].0 == id && str_eq(methods[k].1.as_str(), name) {
            return true;
        }
        k = k + 1;
    }
    false
}

pub open spec fn not_a_struct_message(owner: Seq<char>, name: Seq<char>) -> Seq<char> {
    "'"@ + owner + "' is not a struct, so it has no field '"@ + name + "'"@
}

/// The diagnostic for selecting `name` from definition `id`, which has no
/// such field.
pub open spec fn missing_field_message(
    types: &Types,
    methods: Seq<(TypeId, String)>,
    id: TypeId,
    name: Seq<char>,
) -> Seq<char> {
    let owner = types.defs@[id.0 as int].spec_name()@;
    if has_method(methods, id, name) {
        "'"@ + owner + "."@ + name + "' is a method; a method requires a receiver call"@
    } else if types.defs@[id.0 as int].spec_fields() is None {
        not_a_struct_message(owner, name)
    } else {
        "'"@ + owner + "' has no field '"@ + name + "'"@
    }
}

/// The text of the diagnostic for selecting `name` from definition `id`,
/// which has no such field.
pub fn missing_field_text(types: &Types, methods: &Vec<(TypeId, String)>, id: TypeId, name: &str) -> (r: String)
    requires
        id.0 < types.defs@.len(),
    ensures
        r@ == missing_field_message(types, methods@, id, name@),
{
    let owner = types.def(id).name();
    if declares_method(methods, id, name) {
        let mut m = concat_str("'", owner.as_str());
        m.append(".");
        m.append(name);
        m.append("' is a method; a method requires a receiver call");
        m
    } else if types.def(id).fields().is_none() {
        let mut m = concat_str("'", owner.as_str());
        m.append("' is not a struct, so it has no field '");
        m.append(name);
        m.append("'");
        m
    } else {
        let mut m = concat_str("'", owner.as_str());
        m.append("' has no field '");
        m.append(name);
        m.append("'");
        m
    }
}

/// Walks the field selectors from a value of type `current`: the field
/// positions and the type reached, or the first failing selector's
/// diagnostic.
pub open spec fn spec_walk(
    types: &Types,
    methods: Seq<(TypeId, String)>,
    current: Ty,
    fields: Seq<Spanned<&str>>,
) -> Result<(Seq<usize>, Ty), (Span, Seq<char>)>
    decreases fields.len(),
{
    if fields.len() == 0 {
        Ok((Seq::empty(), current))
    } else {
        let (name, span) = fields[0];
        let peeled = spec_deref_box(types, current);
        match peeled {
            Ty::User(id) => match spec_field(types, id, name@) {
                Some((index, ty)) => match spec_walk(types, methods, ty, fields.drop_first()) {
                    Ok((path, reached)) => Ok((seq![index] + path, reached)),
                    Err(e) => Err(e),
                },
                None => Err((span, missing_field_message(types, methods, id, name@))),
            },
            _ => Err((span, not_a_struct_message(spec_display(types, peeled), name@))),
        }
    }
}

/// Walks a field path from a root type, reporting the first failure.
pub fn walk_fields(
    types: &Types,
    methods: &Vec<(TypeId, String)>,
    errors: &mut Vec<Error>,
    root_ty: Ty,
    fields: &[Spanned<&str>],
) -> (r: Option<(Vec<usize>, Ty)>)
    requires
        types.wf(),
        types.valid_ty(root_ty),
        display_depth(types) <= usize::MAX,
    ensures
        match spec_walk(types, methods@, root_ty, fields@) {
            Ok((path, ty)) => r matches Some((p, t)) && p@ == path && t == ty && final(errors)@
                == old(errors)@,
            Err(e) => r is None && diagnostics(final(errors)@) == diagnostics(old(errors)@).push(e),
        },
{
    let mut path: Vec<usize> = Vec::new();
    let mut current = root_ty;
    let mut i: usize = 0;
    proof {
        assert(fields@.skip(0) =~= fields@);
    }
    while i < fields.len()
        invariant
            types.wf(),
            types.valid_ty(current),
            display_depth(types) <= usize::MAX,
            i <= fields@.len(),
            errors@ == old(errors)@,
            match spec_walk(types, methods@, current, fields@.skip(i as int)) {
                Ok((rest, ty)) => spec_walk(types, methods@, root_ty, fields@) == Ok::<
                    (Seq<usize>, Ty),
                    (Span, Seq<char>),
                >((path@ + rest, ty)),
                Err(e) => spec_walk(types, methods@, root_ty, fields@) == Err::<
                    (Seq<usize>, Ty),
                    (Span, Seq<char>),
                >(e),
            },
        decreases fields.len() - i,
    {
        let ghost rest = fields@.skip(i as int);
        proof {
            assert(rest[0] == fields@[i as int]);
            assert(rest.drop_first() =~= fields@.skip(i + 1));
        }
        let (name, span) = fields[i];
        let peeled = deref_box(types, current);
        let id = match peeled {
            Ty::User(id) => id,
            _ => {
                let owner = types.display(peeled);
                let mut msg = concat_str("'", owner.as_str());
                msg.append("' is not a struct, so it has no field '");
                msg.append(name);
                msg.append("'");
                let ghost before = errors@;
                errors.push(Error { span, msg });
                proof {
                    assert(diagnostics(errors@) =~= diagnostics(before).push(
                        (span, not_a_struct_message(spec_display(types, peeled), name@)),
                    ));
                }
                return None;
            },
        };
        match types.field(id, name) {
            Some((index, ty)) => {
                proof {
                    assert(types.def_wf(id.0 as int));
                    let fs = types.defs@[id.0 as int].spec_fields()->Some_0;
                    let k = choose|k: int|
                        0 <= k < fs.len() && (#[trigger] fs[k]).0@ == name@ && forall|j: int|
                            0 <= j < k ==> (#[trigger] fs[j]).0@ != name@;
                    match types.defs@[id.0 as int] {
                        TypeDef::Struct { fields: f, .. } => {
                            assert(f@ == fs);
                            assert(types.valid_ty(f@[k].1));
                        },
                        TypeDef::UnionMember { fields: f, .. } => {
                            assert(f@ == fs);
                            assert(types.valid_ty(f@[k].1));
                        },
                        _ => {},
                    }
                    assert(ty == fs[k].1);
                    assert(types.valid_ty(ty));
                    let tail = spec_walk(types, methods@, ty, fields@.skip(i + 1));
                    match tail {
                        Ok((p2, t2)) => {
                            assert(path@.push(index) + p2 =~= path@ + (seq![index] + p2));
                        },
                        Err(_) => {},
                    }
                }
                path.push(index);
                current = ty;
            },
            None => {
                let msg = missing_field_text(types, methods, id, name);
                let ghost text = msg@;
                let ghost before = errors@;
                errors.push(Error { span, msg });
                proof {
                    assert(text =~= missing_field_message(types, methods@, id, name@));
                    assert(diagnostics(errors@) =~= diagnostics(before).push((span, text)));
                }
                return None;
            },
        }
        i = i + 1;
    }
    proof {
        assert(fields@.skip(i as int) =~= Seq::<Spanned<&str>>::empty());
        assert(path@ + Seq::<usize>::empty() =~= path@);
    }
    Some((path, current))
}

/// The root of a place written as `root`: `self` inside a method (always
/// writable there), or the innermost binding of a local name.
pub open spec fn spec_place_root(env: Seq<Binding>, self_ty: Option<Ty>, root: Expr) -> Option<(PlaceRootView, Ty, bool)> {
    match root {
        Expr::SelfRef => match self_ty {
            Some(ty) => Some((PlaceRootView::SelfRef, ty, true)),
            None => None,
        },
        Expr::Local(name) => match innermost(env, name@) {
            Some(i) => Some((PlaceRootView::Local(name@), env[i].ty, env[i].mutable)),
            None => None,
        },
        _ => None,
    }
}

/// Resolves the root of a place without reporting anything, so a caller
/// can fall back to value or type-path resolution.
pub fn place_root(env: &Vec<Binding>, self_ty: Option<Ty>, root: &Expr) -> (r: Option<(PlaceRoot, Ty, bool)>)
    ensures
        match spec_place_root(env@, self_ty, *root) {
            Some((view, ty, mutable)) => r matches Some((p, t, m)) && p@ == view && t == ty && m == mutable,
            None => r is None,
        },
{
    match root {
        Expr::SelfRef => match self_ty {
            Some(ty) => Some((PlaceRoot::SelfRef, ty, true)),
            None => None,
        },
        Expr::Local(name) => match find_binding(env, name) {
            Some(i) => Some((PlaceRoot::Local(String::from_str(name)), env[i].ty, env[i].mutable)),
            None => None,
        },
        _ => None,
    }
}

/// Resolves an expression as a place: a local or `self` followed by field
/// selections. Not a place when it does not start at one; reported when a
/// selector fails.
pub fn as_place(
    types: &Types,
    methods: &Vec<(TypeId, String)>,
    env: &Vec<Binding>,
    self_ty: Option<Ty>,
    errors: &mut Vec<Error>,
    expr: &Spanned<Expr>,
) -> (r: PlaceOutcome)
    requires
        types.wf(),
        display_depth(types) <= usize::MAX,
        forall|i: int| 0 <= i < env@.len() ==> types.valid_ty(#[trigger] env@[i].ty),
        self_ty matches Some(t) ==> types.valid_ty(t),
    ensures
        match spec_place_root(env@, self_ty, spec_flatten(*expr).0.0) {
            None => r is NotAPlace && final(errors)@ == old(errors)@,
            Some((view, root_ty, mutable)) => match spec_walk(types, methods@, root_ty, spec_flatten(*expr).1) {
                Ok((path, ty)) => r matches PlaceOutcome::Resolved(res) && res.place@ == (view, root_ty, path, ty)
                    && res.mutable == mutable && final(errors)@ == old(errors)@,
                Err(e) => r is Reported && diagnostics(final(errors)@) == diagnostics(old(errors)@).push(e),
            },
        },
{
    let (root, fields) = flatten(expr);
    let (root, root_ty, mutable) = match place_root(env, self_ty, &root.0) {
        Some(found) => found,
        None => return PlaceOutcome::NotAPlace,
    };
    proof {
        match spec_flatten(*expr).0.0 {
            Expr::Local(name) => {
                let i = innermost(env@, name@)->Some_0;
                assert(types.valid_ty(env@[i].ty));
            },
            _ => {},
        }
    }
    match walk_fields(types, methods, errors, root_ty, fields.as_slice()) {
        Some((path, ty)) => PlaceOutcome::Resolved(Resolved { place: Place { root, root_ty, path, ty }, mutable }),
        None => PlaceOutcome::Reported,
    }
}

pub open spec fn no_such_variable_message(name: Seq<char>) -> Seq<char> {
    "No such variable '"@ + name + "' in scope"@
}

/// Resolves a written place (an assignment target or an `is` subject),
/// reporting an unknown root or the first failing field selector.
pub fn resolve_place(
    types: &Types,
    methods: &Vec<(TypeId, String)>,
    env: &Vec<Binding>,
    self_ty: Option<Ty>,
    errors: &mut Vec<Error>,
    path: &PlacePath,
) -> (r: Option<Resolved>)
    requires
        types.wf(),
        display_depth(types) <= usize::MAX,
        forall|i: int| 0 <= i < env@.len() ==> types.valid_ty(#[trigger] env@[i].ty),
        self_ty matches Some(t) ==> types.valid_ty(t),
    ensures
        match path.root {
            PlaceRootName::SelfRef => match self_ty {
                None => r is None && diagnostics(final(errors)@) == diagnostics(old(errors)@).push(
                    (path.root_span, "'self' is only valid inside a method body"@),
                ),
                Some(ty) => match spec_walk(types, methods@, ty, path.fields@) {
                    Ok((p, t)) => r matches Some(res) && res.place@ == (PlaceRootView::SelfRef, ty, p, t)
                        && res.mutable && final(errors)@ == old(errors)@,
                    Err(e) => r is None && diagnostics(final(errors)@) == diagnostics(old(errors)@).push(e),
                },
            },
            PlaceRootName::Name(name) => match innermost(env@, name@) {
                None => r is None && diagnostics(final(errors)@) == diagnostics(old(errors)@).push(
                    (path.root_span, no_such_variable_message(name@)),
                ),
                Some(i) => match spec_walk(types, methods@, env@[i].ty, path.fields@) {
                    Ok((p, t)) => r matches Some(res) && res.place@ == (PlaceRootView::Local(name@), env@[i].ty, p, t)
                        && res.mutable == env@[i].mutable && final(errors)@ == old(errors)@,
                    Err(e) => r is None && diagnostics(final(errors)@) == diagnostics(old(errors)@).push(e),
                },
            },
        },
{
    let (root, root_ty, mutable) = match path.root {
        PlaceRootName::SelfRef => match self_ty {
            Some(ty) => (PlaceRoot::SelfRef, ty, true),
            None => {
                let ghost before = errors@;
                errors.push(Error { span: path.root_span, msg: String::from_str("'self' is only valid inside a method body") });
                proof {
                    assert(diagnostics(errors@) =~= diagnostics(before).push(
                        (path.root_span, "'self' is only valid inside a method body"@),
                    ));
                }
                return None;
            },
        },
        PlaceRootName::Name(name) => match find_binding(env, name) {
            Some(i) => (PlaceRoot::Local(String::from_str(name)), env[i].ty, env[i].mutable),
            None => {
                let mut msg = concat_str("No such variable '", name);
                msg.append("' in scope");
                let ghost text = msg@;
                let ghost before = errors@;
                errors.push(Error { span: path.root_span, msg });
                proof {
                    assert(diagnostics(errors@) =~= diagnostics(before).push((path.root_span, text)));
                }
                return None;
            },
        },
    };
    match walk_fields(types, methods, errors, root_ty, path.fields.as_slice()) {
        Some((field_path, ty)) => Some(Resolved { place: Place { root, root_ty, path: field_path, ty }, mutable }),
        None => None,
    }
}

/// The place and member an arm's condition tests, if it is a type test.
pub open spec fn spec_tested_member(condition: TCondition) -> Option<(Place, Ty)> {
    match condition {
        TCondition::Test(test) => Some((test.place, Ty::User(test.member))),
        TCondition::SumTest(test) => Some((test.place, test.member)),
        TCondition::Expr(_) => None,
    }
}

/// The place and member an arm's condition tests; a named-union member is
/// itself a user-defined type, so union and sum tests share one shape.
pub fn tested_member(condition: &TCondition) -> (r: Option<(&Place, Ty)>)
    ensures
        match spec_tested_member(*condition) {
            Some((p, m)) => r matches Some((q, n)) && *q == p && n == m,
            None => r is None,
        },
{
    match condition {
        TCondition::Test(test) => Some((&test.place, Ty::User(test.member))),
        TCondition::SumTest(test) => Some((&test.place, test.member)),
        TCondition::Expr(_) => None,
    }
}

/// Whether two places are the same: one root, one path, one type.
pub fn same_place(a: &Place, b: &Place) -> (r: bool)
    ensures
        r == (a@ == b@),
{
    if !same_root(&a.root, &b.root) || a.root_ty != b.root_ty || a.ty != b.ty || a.path.len() != b.path.len() {
        return false;
    }
    let mut i: usize = 0;
    while i < a.path.len()
        invariant
            a.path@.len() == b.path@.len(),
            i <= a.path@.len(),
            forall|j: int| 0 <= j < i ==> a.path@[j] == b.path@[j],
        decreases a.path.len() - i,
    {
        if a.path[i] != b.path[i] {
            return false;
        }
        i = i + 1;
    }
    assert(a.path@ =~= b.path@);
    true
}

pub open spec fn duplicate_branch_message(types: &Types, member: Ty) -> Seq<char> {
    "'"@ + spec_display(types, member) + "' is already handled by an earlier branch, so this branch is unreachable"@
}

/// The walk over the first `n` arms of an `if` chain: the tested place,
/// the members tested so far, whether every arm so far is a type test of
/// that one place, and the repeated-member diagnostics. The walk stops at
/// the first arm that is not such a test.
pub open spec fn chain_walk(
    types: &Types,
    arms: Seq<(TCondition, TBlock)>,
    spans: Seq<Span>,
    n: int,
) -> (Option<(PlaceRootView, Ty, Seq<usize>, Ty)>, Seq<Ty>, bool, Seq<(Span, Seq<char>)>)
    decreases if n > 0 { n as nat } else { 0 },
{
    if n <= 0 {
        (None, Seq::empty(), true, Seq::empty())
    } else {
        let s = chain_walk(types, arms, spans, n - 1);
        if !s.2 {
            s
        } else {
            match spec_tested_member(arms[n - 1].0) {
                None => (s.0, s.1, false, s.3),
                Some((place, member)) => if s.0 is Some && s.0 != Some(place@) {
                    (s.0, s.1, false, s.3)
                } else if s.1.contains(member) {
                    (Some(place@), s.1, true, s.3.push((spans[n - 1], duplicate_branch_message(types, member))))
                } else {
                    (Some(place@), s.1.push(member), true, s.3)
                },
            }
        }
    }
}

/// The direct members a chain over a place of type `ty` must cover: a
/// named union's members or an inline sum's members.
pub open spec fn chain_members(types: &Types, ty: Ty) -> Option<Seq<Ty>> {
    match ty {
        Ty::User(id) => match types.spec_union_members(id) {
            Some(members) => Some(members.map_values(|m: TypeId| Ty::User(m))),
            None => None,
        },
        Ty::Sum(id) => Some(types.sums@[id.0 as int]@),
        _ => None,
    }
}

/// The names of the first `n` of `members` that `tested` misses, in order.
pub open spec fn missing_names(types: &Types, members: Seq<Ty>, tested: Seq<Ty>, n: int) -> Seq<Seq<char>>
    decreases if n > 0 { n as nat } else { 0 },
{
    if n <= 0 || n > members.len() {
        Seq::empty()
    } else {
        missing_names(types, members, tested, n - 1) + if tested.contains(members[n - 1]) {
            Seq::empty()
        } else {
            seq![spec_display(types, members[n - 1])]
        }
    }
}

/// Whether an `if` chain provably covers every member, and which members
/// it misses.
#[derive(Debug)]
pub struct ChainFact {
    pub exhaustive: bool,
    pub missing: Vec<String>,
}

/// The members a whole chain must cover, when it is a chain of type tests
/// of one place whose type is a named union or an inline sum.
pub open spec fn covered_members(
    types: &Types,
    arms: Seq<(TCondition, TBlock)>,
    spans: Seq<Span>,
) -> Option<Seq<Ty>> {
    let n = if arms.len() < spans.len() { arms.len() } else { spans.len() };
    let w = chain_walk(types, arms, spans, n as int);
    if w.2 && w.0 is Some {
        chain_members(types, w.0->Some_0.3)
    } else {
        None
    }
}

/// Decides whether a chain of type tests covers every member of the tested
/// union or sum, reporting each branch that repeats an earlier member as
/// unreachable.
pub fn analyze_chain(
    types: &Types,
    errors: &mut Vec<Error>,
    arms: &Vec<(TCondition, TBlock)>,
    spans: &[Span],
) -> (r: ChainFact)
    requires
        types.wf(),
        display_depth(types) <= usize::MAX,
        forall|i: int|
            0 <= i < arms@.len() ==> match spec_tested_member(#[trigger] arms@[i].0) {
                Some((p, m)) => types.valid_ty(p.ty) && types.valid_ty(m),
                None => true,
            },
    ensures
        ({
            let n = if arms@.len() < spans@.len() { arms@.len() } else { spans@.len() };
            diagnostics(final(errors)@) == diagnostics(old(errors)@) + chain_walk(types, arms@, spans@, n as int).3
        }),
        match covered_members(types, arms@, spans@) {
            None => !r.exhaustive && r.missing@.len() == 0,
            Some(members) => {
                let n = if arms@.len() < spans@.len() { arms@.len() } else { spans@.len() };
                let missing = missing_names(
                    types,
                    members,
                    chain_walk(types, arms@, spans@, n as int).1,
                    members.len() as int,
                );
                &&& r.missing@.map_values(|m: String| m@) == missing
                &&& r.exhaustive == (missing.len() == 0 && members.len() > 0)
            },
        },
{
    let ghost start = diagnostics(errors@);
    let n = if arms.len() < spans.len() { arms.len() } else { spans.len() };
    let mut subject: Option<&Place> = None;
    let mut tested: Vec<Ty> = Vec::new();
    let mut chain = true;
    let mut i: usize = 0;
    while i < n && chain
        invariant
            types.wf(),
            display_depth(types) <= usize::MAX,
            n <= arms@.len(),
            n <= spans@.len(),
            i <= n,
            forall|k: int|
                0 <= k < arms@.len() ==> match spec_tested_member(#[trigger] arms@[k].0) {
                    Some((p, m)) => types.valid_ty(p.ty) && types.valid_ty(m),
                    None => true,
                },
            ({
                let w = chain_walk(types, arms@, spans@, i as int);
                &&& w.2 == chain
                &&& w.1 == tested@
                &&& match subject {
                    Some(p) => w.0 == Some(p@) && types.valid_ty(p.ty),
                    None => w.0 is None,
                }
                &&& diagnostics(errors@) == start + w.3
            }),
            !chain ==> chain_walk(types, arms@, spans@, n as int) == chain_walk(types, arms@, spans@, i as int),
        decreases n - i,
    {
        let ghost before = chain_walk(types, arms@, spans@, i as int);
        match tested_member(&arms[i].0) {
            None => {
                chain = false;
            },
            Some((place, member)) => {
                let agrees = match subject {
                    None => true,
                    Some(first) => same_place(first, place),
                };
                if !agrees {
                    chain = false;
                } else {
                    subject = Some(place);
                    let mut seen = false;
                    let mut k: usize = 0;
                    while k < tested.len()
                        invariant
                            k <= tested@.len(),
                            seen == exists|q: int| 0 <= q < k && tested@[q] == member,
                        decreases tested.len() - k,
                    {
                        if tested[k] == member {
                            seen = true;
                        }
                        k = k + 1;
                    }
                    proof {
                        if seen {
                            let q = choose|q: int| 0 <= q < k && tested@[q] == member;
                            assert(tested@.contains(member));
                        } else {
                            assert(!tested@.contains(member));
                        }
                    }
                    if seen {
                        let name = types.display(member);
                        let mut msg = concat_str("'", name.as_str());
                        msg.append("' is already handled by an earlier branch, so this branch is unreachable");
                        let ghost text = msg@;
                        let ghost old_errors = errors@;
                        errors.push(Error { span: spans[i], msg });
                        proof {
                            assert(text =~= duplicate_branch_message(types, member));
                            assert(diagnostics(errors@) =~= diagnostics(old_errors).push((spans@[i as int], text)));
                        }
                    } else {
                        tested.push(member);
                    }
                }
            },
        }
        proof {
            if !chain {
                lemma_chain_walk_stops(types, arms@, spans@, i + 1, n as int);
            }
        }
        i = i + 1;
    }
    proof {
        if chain {
            assert(i == n);
        }
    }
    let members: Vec<Ty> = match subject {
        Some(place) if chain => match place.ty {
            Ty::User(id) => match types.union_members(id) {
                Some(ids) => {
                    let mut out: Vec<Ty> = Vec::new();
                    let mut k: usize = 0;
                    while k < ids.len()
                        invariant
                            k <= ids@.len(),
                            out@ == ids@.take(k as int).map_values(|m: TypeId| Ty::User(m)),
                        decreases ids.len() - k,
                    {
                        out.push(Ty::User(ids[k]));
                        k = k + 1;
                        proof {
                            assert(out@ =~= ids@.take(k as int).map_values(|m: TypeId| Ty::User(m)));
                        }
                    }
                    proof {
                        assert(ids@.take(ids@.len() as int) =~= ids@);
                    }
                    out
                },
                None => return ChainFact { exhaustive: false, missing: Vec::new() },
            },
            Ty::Sum(id) => {
                let ms = types.sum_members(id);
                let mut out: Vec<Ty> = Vec::new();
                let mut k: usize = 0;
                while k < ms.len()
                    invariant
                        k <= ms@.len(),
                        out@ == ms@.take(k as int),
                    decreases ms.len() - k,
                {
                    out.push(ms[k]);
                    k = k + 1;
                    proof {
                        assert(out@ =~= ms@.take(k as int));
                    }
                }
                proof {
                    assert(ms@.take(ms@.len() as int) =~= ms@);
                }
                out
            },
            _ => return ChainFact { exhaustive: false, missing: Vec::new() },
        },
        _ => return ChainFact { exhaustive: false, missing: Vec::new() },
    };
    proof {
        assert(types.valid_ty(subject->Some_0.ty));
        match subject->Some_0.ty {
            Ty::User(id) => {
                assert(types.def_wf(id.0 as int));
            },
            Ty::Sum(id) => {
                assert(types.sum_wf(id.0 as int));
            },
            _ => {},
        }
    }
    let mut missing: Vec<String> = Vec::new();
    let mut k: usize = 0;
    while k < members.len()
        invariant
            types.wf(),
            display_depth(types) <= usize::MAX,
            k <= members@.len(),
            forall|q: int| 0 <= q < members@.len() ==> types.valid_ty(#[trigger] members@[q]),
            missing@.map_values(|m: String| m@) == missing_names(types, members@, tested@, k as int),
        decreases members.len() - k,
    {
        let m = members[k];
        let mut seen = false;
        let mut t: usize = 0;
        while t < tested.len()
            invariant
                t <= tested@.len(),
                seen == exists|q: int| 0 <= q < t && tested@[q] == m,
            decreases tested.len() - t,
        {
            if tested[t] == m {
                seen = true;
            }
            t = t + 1;
        }
        proof {
            if seen {
                let q = choose|q: int| 0 <= q < t && tested@[q] == m;
                assert(tested@.contains(m));
            } else {
                assert(!tested@.contains(m));
            }
        }
        let ghost before = missing@;
        if !seen {
            let name = types.display(m);
            missing.push(name);
            proof {
                assert(missing@.map_values(|s: String| s@) =~= before.map_values(|s: String| s@).push(
                    spec_display(types, m),
                ));
            }
        }
        proof {
            assert(missing@.map_values(|s: String| s@) =~= missing_names(types, members@, tested@, k + 1));
        }
        k = k + 1;
    }
    let exhaustive = missing.len() == 0 && members.len() > 0;
    proof {
        assert(missing@.map_values(|s: String| s@).len() == missing@.len());
    }
    ChainFact { exhaustive, missing }
}

proof fn lemma_chain_walk_stops(
    types: &Types,
    arms: Seq<(TCondition, TBlock)>,
    spans: Seq<Span>,
    i: int,
    n: int,
)
    requires
        0 < i <= n,
        !chain_walk(types, arms, spans, i).2,
    ensures
        chain_walk(types, arms, spans, n) == chain_walk(types, arms, spans, i),
    decreases n - i,
{
    if n > i {
        lemma_chain_walk_stops(types, arms, spans, i, n - 1);
    }
}

/// The type an expression names as the namespace of an associated
/// function call: a built-in type keyword, a top-level type not shadowed
/// by a binding, or `Union.Member` whose union is not shadowed.
pub open spec fn spec_static_receiver_type(types: &Types, env: Seq<Binding>, expression: Expr) -> Option<Ty> {
    match expression {
        Expr::BuiltinType(name) => Some(spec_ty_from_name(name)),
        Expr::Local(name) => if innermost(env, name@) is Some {
            None
        } else {
            match types.spec_top_level(name@) {
                Some(id) => Some(Ty::User(id)),
                None => None,
            }
        },
        Expr::Member(base, (member, _)) => match base.0 {
            Expr::Local(root) => if innermost(env, root@) is Some {
                None
            } else {
                match types.spec_top_level(root@) {
                    Some(union) => match types.spec_member(union, member@) {
                        Some(id) => Some(Ty::User(id)),
                        None => None,
                    },
                    None => None,
                }
            },
            _ => None,
        },
        _ => None,
    }
}

/// Resolves an expression used as the namespace of an associated-function
/// call. A local binding wins over a type name, and a value never becomes
/// a type.
pub fn static_receiver_type(types: &Types, env: &Vec<Binding>, expression: &Spanned<Expr>) -> (r: Option<Ty>)
    requires
        types.wf(),
        types.defs@.len() <= u32::MAX,
    ensures
        r == spec_static_receiver_type(types, env@, expression.0),
{
    match &expression.0 {
        Expr::BuiltinType(name) => Some(Ty::from(*name)),
        Expr::Local(name) => {
            if find_binding(env, name).is_some() {
                return None;
            }
            match types.top_level(name) {
                Some(id) => Some(Ty::User(id)),
                None => None,
            }
        },
        Expr::Member(base, (member, _)) => match &base.0 {
            Expr::Local(root_name) => {
                if find_binding(env, root_name).is_some() {
                    return None;
                }
                match types.top_level(root_name) {
                    Some(root) => match types.member(root, member) {
                        Some(id) => Some(Ty::User(id)),
                        None => None,
                    },
                    None => None,
                }
            },
            _ => None,
        },
        _ => None,
    }
}

} // verus!
