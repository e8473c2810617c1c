//! Call heads. A bare `name(...)` calls a top-level callable or a type,
//! never a local, since there are no function values; `Type.name(...)`
//! calls an associated function when one is declared; otherwise
//! `base.name(...)` is a method call on the place `base` names or on the
//! value it computes.
use vstd::prelude::*;
use crate::ast::{Expr, Span, Spanned, TypeName};
use crate::checked::Error;
use crate::expressions::names_function;
use crate::generics::diagnostics;
use crate::mentions::spec_flatten;
use crate::moves::{Binding, already_moved_message};
use crate::names::{display_depth, spec_display};
use crate::places::{MoveState, PlaceRootView, deref_box, moves_root, spec_deref_box};
use crate::resolve::{
    PlaceOutcome, Resolved, as_place, find_binding, innermost, spec_field, spec_place_root,
    spec_static_receiver_type, spec_walk, static_receiver_type,
};
use crate::lowering::root_name;
use crate::text::{concat_str, decimal, decimal_string, str_eq};
use crate::ty::{MethodId, Ty, TypeId, Types, spec_ty_from_name};

verus! {

/// What a call's head names.
#[derive(Debug)]
pub enum CallHead {
    /// `Type(value)` for a built-in type: a conversion.
    Convert(Ty),
    /// A top-level or associated function, by its name.
    Function(String),
    /// A call whose head names a user-defined type.
    Type(TypeId),
    /// An explicitly specialized generic function.
    Generic,
    /// `String.from_utf8(...)` or `String.from_unicode(...)`.
    StringStatic,
    /// A method or collection call on a resolved receiver place.
    Receiver(Resolved),
    /// A method call on a computed value, whose base is checked next.
    Computed,
    /// Reported; nothing further is checked.
    Rejected,
}

pub open spec fn variable_call_message(name: Seq<char>) -> Seq<char> {
    "'"@ + name + "' is a variable; Snacc has no function values, so it cannot be called"@
}

pub open spec fn not_callable_message(name: Seq<char>) -> Seq<char> {
    "'"@ + name + "' is not callable"@
}

pub open spec fn no_member_type_message(owner: Seq<char>, member: Seq<char>) -> Seq<char> {
    "'"@ + owner + "' has no member type '"@ + member + "'"@
}

pub open spec fn unsupported_callee_message() -> Seq<char> {
    "only calling a function, type, or method by name is supported"@
}

/// The associated function `Type.member` names, when its head is a type
/// and such a function is declared.
pub open spec fn associated_function(
    types: &Types,
    env: Seq<Binding>,
    functions: Seq<String>,
    base: Expr,
    member: Seq<char>,
) -> Option<Seq<char>> {
    match spec_static_receiver_type(types, env, base) {
        Some(receiver) => {
            let qualified = spec_display(types, receiver) + "."@ + member;
            if names_function(functions, qualified) {
                Some(qualified)
            } else {
                None
            }
        },
        None => None,
    }
}

fn find_function(functions: &Vec<String>, name: &str) -> (r: bool)
    ensures
        r == names_function(functions@, name@),
{
    let mut i: usize = 0;
    while i < functions.len()
        invariant
            i <= functions@.len(),
            forall|j: int| 0 <= j < i ==> (#[trigger] functions@[j])@ != name@,
        decreases functions.len() - i,
    {
        if str_eq(functions[i].as_str(), name) {
            return true;
        }
        i = i + 1;
    }
    false
}

fn reject(errors: &mut Vec<Error>, span: Span, msg: String) -> (r: CallHead)
    ensures
        r is Rejected,
        diagnostics(final(errors)@) == diagnostics(old(errors)@).push((span, msg@)),
{
    let ghost before = diagnostics(errors@);
    let ghost text = msg@;
    errors.push(Error { span, msg });
    proof {
        assert(diagnostics(errors@) =~= before.push((span, text)));
    }
    CallHead::Rejected
}

/// Resolves what a call's head names. `functions` holds every callable by
/// name, associated functions as `Type.name`; `methods` every method by
/// its type and name. A receiver place whose root was moved is reported.
pub fn call_head(
    types: &Types,
    methods: &Vec<(TypeId, String)>,
    functions: &Vec<String>,
    env: &Vec<Binding>,
    self_ty: Option<Ty>,
    moves: &MoveState,
    errors: &mut Vec<Error>,
    callee: &Spanned<Expr>,
) -> (r: CallHead)
    requires
        types.wf(),
        types.defs@.len() <= u32::MAX,
        display_depth(types) <= usize::MAX,
        forall|i: int| 0 <= i < env@.len() ==> types.valid_ty(#[trigger] env@[i].ty),
        self_ty matches Some(t) ==> types.valid_ty(t),
    ensures
        match callee.0 {
            Expr::BuiltinType(name) => r == CallHead::Convert(spec_ty_from_name(name)) && final(errors)@ == old(errors)@,
            Expr::Local(name) => if names_function(functions@, name@) {
                r matches CallHead::Function(f) && f@ == name@ && final(errors)@ == old(errors)@
            } else {
                match types.spec_top_level(name@) {
                    Some(id) => r == CallHead::Type(id) && final(errors)@ == old(errors)@,
                    None => r is Rejected && diagnostics(final(errors)@) == diagnostics(old(errors)@).push(
                        (
                            callee.1,
                            if innermost(env@, name@) is Some {
                                variable_call_message(name@)
                            } else {
                                not_callable_message(name@)
                            },
                        ),
                    ),
                }
            },
            Expr::GenericCall(..) => r is Generic && final(errors)@ == old(errors)@,
            Expr::Member(base, (member, member_span)) => if base.0 == Expr::BuiltinType(TypeName::String) && (member@
                == "from_utf8"@ || member@ == "from_unicode"@) {
                r is StringStatic && final(errors)@ == old(errors)@
            } else {
                match associated_function(types, env@, functions@, base.0, member@) {
                    Some(qualified) => r matches CallHead::Function(f) && f@ == qualified && final(errors)@ == old(
                        errors,
                    )@,
                    None => match spec_place_root(env@, self_ty, spec_flatten(*base).0.0) {
                        None => match base.0 {
                            Expr::Local(first) => match types.spec_top_level(first@) {
                                Some(root) => match types.spec_member(root, member@) {
                                    Some(id) => r == CallHead::Type(id) && final(errors)@ == old(errors)@,
                                    None => r is Rejected && diagnostics(final(errors)@) == diagnostics(old(errors)@).push(
                                        (
                                            member_span,
                                            no_member_type_message(types.defs@[root.0 as int].spec_name()@, member@),
                                        ),
                                    ),
                                },
                                None => r is Computed && final(errors)@ == old(errors)@,
                            },
                            _ => r is Computed && final(errors)@ == old(errors)@,
                        },
                        Some((view, root_ty, mutable)) => match spec_walk(
                            types,
                            methods@,
                            root_ty,
                            spec_flatten(*base).1,
                        ) {
                            Ok((path, ty)) => if moves_root(moves.entries@, view) {
                                r is Rejected && diagnostics(final(errors)@) == diagnostics(old(errors)@).push(
                                    (base.1, already_moved_message(view)),
                                )
                            } else {
                                r matches CallHead::Receiver(res) && res.place@ == (view, root_ty, path, ty)
                                    && res.mutable == mutable && final(errors)@ == old(errors)@
                            },
                            Err(e) => r is Rejected && diagnostics(final(errors)@) == diagnostics(old(errors)@).push(e),
                        },
                    },
                }
            },
            _ => r is Rejected && diagnostics(final(errors)@) == diagnostics(old(errors)@).push(
                (callee.1, unsupported_callee_message()),
            ),
        },
{
    match &callee.0 {
        Expr::BuiltinType(name) => CallHead::Convert(Ty::from(*name)),
        Expr::Local(name) => {
            if find_function(functions, name) {
                return CallHead::Function(String::from_str(name));
            }
            match types.top_level(name) {
                Some(id) => CallHead::Type(id),
                None => {
                    let msg = if find_binding(env, name).is_some() {
                        let mut m = concat_str("'", name);
                        m.append("' is a variable; Snacc has no function values, so it cannot be called");
                        m
                    } else {
                        let mut m = concat_str("'", name);
                        m.append("' is not callable");
                        m
                    };
                    reject(errors, callee.1, msg)
                },
            }
        },
        Expr::GenericCall(..) => CallHead::Generic,
        Expr::Member(base, (member, member_span)) => {
            let string_static = match &base.0 {
                Expr::BuiltinType(TypeName::String) => str_eq(member, "from_utf8") || str_eq(member, "from_unicode"),
                _ => false,
            };
            proof {
                if base.0 == Expr::BuiltinType(TypeName::String) {
                    assert(base.0 matches Expr::BuiltinType(TypeName::String));
                }
            }
            if string_static {
                return CallHead::StringStatic;
            }
            match static_receiver_type(types, env, base) {
                Some(receiver) => {
                    proof {
                        lemma_static_receiver_valid(types, env@, base.0);
                    }
                    let mut qualified = types.display(receiver);
                    qualified.append(".");
                    qualified.append(member);
                    if find_function(functions, qualified.as_str()) {
                        return CallHead::Function(qualified);
                    }
                },
                None => {},
            }
            match as_place(types, methods, env, self_ty, errors, base) {
                PlaceOutcome::Resolved(resolved) => {
                    if moves.contains(&resolved.place.root) {
                        let mut msg = concat_str("'", root_name(&resolved.place.root));
                        msg.append("' is already moved, so this use is invalid");
                        let ghost text = msg@;
                        proof {
                            assert(text =~= already_moved_message(resolved.place.root@));
                        }
                        return reject(errors, base.1, msg);
                    }
                    CallHead::Receiver(resolved)
                },
                PlaceOutcome::Reported => CallHead::Rejected,
                PlaceOutcome::NotAPlace => {
                    match &base.0 {
                        Expr::Local(first) => match types.top_level(first) {
                            Some(root) => {
                                proof {
                                    assert(types.wf());
                                }
                                match types.member(root, member) {
                                    Some(id) => CallHead::Type(id),
                                    None => {
                                        let mut msg = concat_str("'", types.def(root).name().as_str());
                                        msg.append("' has no member type '");
                                        msg.append(member);
                                        msg.append("'");
                                        reject(errors, *member_span, msg)
                                    },
                                }
                            },
                            None => CallHead::Computed,
                        },
                        _ => CallHead::Computed,
                    }
                },
            }
        },
        _ => reject(
            errors,
            callee.1,
            String::from_str("only calling a function, type, or method by name is supported"),
        ),
    }
}

/// A top-level type id is within the table.
proof fn lemma_top_level_valid(types: &Types, name: Seq<char>)
    requires
        types.defs@.len() <= u32::MAX,
    ensures
        types.spec_top_level(name) matches Some(id) ==> id.0 < types.defs@.len(),
{
    if types.spec_top_level(name) is Some {
        let k = choose|k: int|
            #[trigger] types.declares_top_level(k, name) && forall|j: int|
                0 <= j < k ==> !#[trigger] types.declares_top_level(j, name);
        assert(0 <= k < types.defs@.len());
        assert(k as u32 == k);
    }
}

/// The type an associated-function head names is a valid one.
proof fn lemma_static_receiver_valid(types: &Types, env: Seq<Binding>, base: Expr)
    requires
        types.wf(),
        types.defs@.len() <= u32::MAX,
        spec_static_receiver_type(types, env, base) is Some,
    ensures
        types.valid_ty(spec_static_receiver_type(types, env, base)->Some_0),
{
    match base {
        Expr::Local(name) => {
            lemma_top_level_valid(types, name@);
        },
        Expr::Member(b, (member, _)) => {
            match b.0 {
                Expr::Local(root) => {
                    lemma_top_level_valid(types, root@);
                    let union = types.spec_top_level(root@)->Some_0;
                    assert(types.def_wf(union.0 as int));
                },
                _ => {},
            }
        },
        _ => {},
    }
}

pub open spec fn arity_message(name: Seq<char>, expected: nat, found: nat) -> Seq<char> {
    "'"@ + name + "' called with wrong number of arguments (expected "@ + decimal(expected) + ", found "@
        + decimal(found) + ")"@
}

/// Reports a call of `name` with `found` arguments where its signature
/// declares `expected`.
pub fn check_arity(errors: &mut Vec<Error>, name: &str, expected: usize, found: usize, span: Span)
    ensures
        diagnostics(final(errors)@) == diagnostics(old(errors)@) + if expected != found {
            seq![(span, arity_message(name@, expected as nat, found as nat))]
        } else {
            Seq::empty()
        },
{
    let ghost start = diagnostics(errors@);
    if expected != found {
        let mut msg = concat_str("'", name);
        msg.append("' called with wrong number of arguments (expected ");
        msg.append(decimal_string(expected).as_str());
        msg.append(", found ");
        msg.append(decimal_string(found).as_str());
        msg.append(")");
        let ghost text = msg@;
        errors.push(Error { span, msg });
        proof {
            assert(diagnostics(errors@) =~= start.push((span, text)));
        }
    } else {
        proof {
            assert(start =~= start + Seq::<(Span, Seq<char>)>::empty());
        }
    }
}

/// The method `name` of type `id`: the first of `methods` (each method's
/// receiver type and name, by id) that matches.
pub open spec fn spec_method(methods: Seq<(TypeId, String)>, id: TypeId, name: Seq<char>) -> Option<int> {
    if exists|k: int|
        0 <= k < methods.len() && (#[trigger] methods[k]).0 == id && methods[k].1@ == name && forall|j: int|
            0 <= j < k ==> !((#[trigger] methods[j]).0 == id && methods[j].1@ == name) {
        Some(
            choose|k: int|
                0 <= k < methods.len() && (#[trigger] methods[k]).0 == id && methods[k].1@ == name && forall|j: int|
                    0 <= j < k ==> !((#[trigger] methods[j]).0 == id && methods[j].1@ == name),
        )
    } else {
        None
    }
}

pub open spec fn no_method_message(owner: Seq<char>, name: Seq<char>) -> Seq<char> {
    "'"@ + owner + "' has no method '"@ + name + "'"@
}

pub open spec fn field_not_method_message(owner: Seq<char>, name: Seq<char>) -> Seq<char> {
    "'"@ + owner + "."@ + name + "' is a field, not a method, so it cannot be called"@
}

/// The method a call `receiver.name(...)` on a receiver of type
/// `receiver_ty` reaches, seen through any boxes; or the diagnostic that
/// rejects it.
pub open spec fn method_lookup(
    types: &Types,
    methods: Seq<(TypeId, String)>,
    receiver_ty: Ty,
    name: Seq<char>,
) -> Result<int, Seq<char>> {
    match spec_deref_box(types, receiver_ty) {
        Ty::User(id) => match spec_method(methods, id, name) {
            Some(k) => Ok(k),
            None => {
                let owner = types.defs@[id.0 as int].spec_name()@;
                Err(
                    if spec_field(types, id, name) is Some {
                        field_not_method_message(owner, name)
                    } else {
                        no_method_message(owner, name)
                    },
                )
            },
        },
        other => Err(no_method_message(spec_display(types, other), name)),
    }
}

/// Finds the method a call `receiver.name(...)` reaches on a receiver of
/// type `receiver_ty`, looking through boxes. A receiver that is not a
/// user-defined type, or whose type declares no such method (perhaps a
/// field of that name), is reported at the method name.
pub fn find_method(
    types: &Types,
    methods: &Vec<(TypeId, String)>,
    errors: &mut Vec<Error>,
    receiver_ty: Ty,
    name: &str,
    name_span: Span,
) -> (r: Option<MethodId>)
    requires
        types.wf(),
        types.valid_ty(receiver_ty),
        display_depth(types) <= usize::MAX,
        methods@.len() <= u32::MAX,
    ensures
        match method_lookup(types, methods@, receiver_ty, name@) {
            Ok(k) => r == Some(MethodId(k as u32)) && final(errors)@ == old(errors)@,
            Err(msg) => r is None && diagnostics(final(errors)@) == diagnostics(old(errors)@).push((name_span, msg)),
        },
{
    let base = deref_box(types, receiver_ty);
    let id = match base {
        Ty::User(id) => id,
        _ => {
            let mut msg = concat_str("'", types.display(base).as_str());
            msg.append("' has no method '");
            msg.append(name);
            msg.append("'");
            reject(errors, name_span, msg);
            return None;
        },
    };
    let mut k: usize = 0;
    while k < methods.len()
        invariant
            k <= methods@.len(),
            methods@.len() <= u32::MAX,
            errors@ == old(errors)@,
            spec_deref_box(types, receiver_ty) == Ty::User(id),
            forall|j: int| 0 <= j < k ==> !((#[trigger] methods@[j]).0 == id && methods@[j].1@ == name@),
        decreases methods.len() - k,
    {
        if methods[k].0 == id && str_eq(methods[k].1.as_str(), name) {
            proof {
                assert(methods@[k as int].0 == id && methods@[k as int].1@ == name@);
                let c = choose|c: int|
                    0 <= c < methods@.len() && (#[trigger] methods@[c]).0 == id && methods@[c].1@ == name@ && forall|j: int|
                        0 <= j < c ==> !((#[trigger] methods@[j]).0 == id && methods@[j].1@ == name@);
                if c < k {
                    assert(!(methods@[c].0 == id && methods@[c].1@ == name@));
                } else if c > k {
                    assert(!(methods@[k as int].0 == id && methods@[k as int].1@ == name@));
                }
                assert(c == k);
                assert(spec_method(methods@, id, name@) == Some(k as int));
            }
            return Some(MethodId(k as u32));
        }
        k = k + 1;
    }
    let owner = types.def(id).name();
    let msg = if types.field(id, name).is_some() {
        let mut m = concat_str("'", owner.as_str());
        m.append(".");
        m.append(name);
        m.append("' is a field, not a method, so it cannot be called");
        m
    } else {
        let mut m = concat_str("'", owner.as_str());
        m.append("' has no method '");
        m.append(name);
        m.append("'");
        m
    };
    reject(errors, name_span, msg);
    None
}

} // verus!
