//! Declaration-level rules: the receiver-write effect analysis, Rust bridge
//! symbol validation, and built-in type names written as plain text.
use vstd::prelude::*;
use crate::ast::{Param, ParamMode, TypeName, spec_type_name_text};
use crate::checked::{Error, TParam};
use crate::generics::{Diagnostics, diagnostics, names_contain};
use crate::moves::Binding;
use crate::narrowing::{already_exists_message, declare};
use crate::text::str_eq;
use crate::ty::MethodId;

verus! {

/// `writes` contains every method `direct` marks as writing its receiver.
pub open spec fn includes_direct(direct: Seq<bool>, writes: Seq<bool>) -> bool {
    &&& writes.len() == direct.len()
    &&& forall|i: int| 0 <= i < direct.len() && direct[i] ==> writes[i]
}

/// `writes` is closed under calls: a caller of a receiver-writing method on
/// a `self`-rooted receiver writes its receiver too.
pub open spec fn closed_under_calls(edges: Seq<(MethodId, MethodId)>, writes: Seq<bool>) -> bool {
    forall|k: int|
        0 <= k < edges.len() && writes[(#[trigger] edges[k]).1.0 as int] ==> writes[edges[k].0.0 as int]
}

/// Every method set that includes the direct writers and is closed under
/// calls contains `writes`.
pub open spec fn least_among_closed(
    direct: Seq<bool>,
    edges: Seq<(MethodId, MethodId)>,
    writes: Seq<bool>,
) -> bool {
    forall|other: Seq<bool>|
        includes_direct(direct, other) && closed_under_calls(edges, other) ==> forall|i: int|
            0 <= i < writes.len() && #[trigger] writes[i] ==> other[i]
}

/// `writes` is the least fixed point of "this method may write its
/// receiver".
pub open spec fn is_receiver_write_solution(
    direct: Seq<bool>,
    edges: Seq<(MethodId, MethodId)>,
    writes: Seq<bool>,
) -> bool {
    &&& includes_direct(direct, writes)
    &&& closed_under_calls(edges, writes)
    &&& least_among_closed(direct, edges, writes)
}

/// Every call edge names methods of the analyzed program.
pub open spec fn edges_in_range(n: nat, edges: Seq<(MethodId, MethodId)>) -> bool {
    forall|k: int|
        0 <= k < edges.len() ==> (#[trigger] edges[k]).0.0 < n && edges[k].1.0 < n
}

/// The number of methods not yet known to write their receiver.
pub open spec fn count_false(s: Seq<bool>) -> nat
    decreases s.len(),
{
    if s.len() == 0 {
        0
    } else {
        count_false(s.drop_last()) + if s.last() {
            0nat
        } else {
            1nat
        }
    }
}

proof fn lemma_count_false_bound(s: Seq<bool>)
    ensures
        count_false(s) <= s.len(),
    decreases s.len(),
{
    if s.len() > 0 {
        lemma_count_false_bound(s.drop_last());
    }
}

proof fn lemma_count_false_set(s: Seq<bool>, i: int)
    requires
        0 <= i < s.len(),
        !s[i],
    ensures
        count_false(s.update(i, true)) < count_false(s),
    decreases s.len(),
{
    let t = s.update(i, true);
    if i == s.len() - 1 {
        assert(t.drop_last() =~= s.drop_last());
    } else {
        assert(t.drop_last() =~= s.drop_last().update(i, true));
        lemma_count_false_set(s.drop_last(), i);
    }
}

/// The least fixed point of "this method may write its receiver": a method
/// writes it when it writes directly, or when it calls -- transitively, and
/// through cycles -- a receiver-writing method on a `self`-rooted receiver.
/// `edges` holds `(caller, callee)` pairs.
pub fn solve_receiver_writes(direct: &[bool], edges: &[(MethodId, MethodId)]) -> (r: Vec<bool>)
    requires
        edges_in_range(direct@.len(), edges@),
    ensures
        is_receiver_write_solution(direct@, edges@, r@),
{
    let mut writes: Vec<bool> = Vec::new();
    let mut i: usize = 0;
    while i < direct.len()
        invariant
            i <= direct@.len(),
            writes@ =~= direct@.take(i as int),
        decreases direct.len() - i,
    {
        writes.push(direct[i]);
        i = i + 1;
    }
    assert(writes@ =~= direct@.take(direct@.len() as int));
    assert(direct@.take(direct@.len() as int) =~= direct@);
    // Each pass over the edges that changes something marks at least one
    // more writer, so the passes number at most one more than the methods.
    let ghost mut passes: nat = 0;
    proof {
        lemma_count_false_bound(writes@);
    }
    loop
        invariant
            edges_in_range(direct@.len(), edges@),
            includes_direct(direct@, writes@),
            least_among_closed(direct@, edges@, writes@),
            passes + count_false(writes@) <= direct@.len(),
        decreases count_false(writes@),
    {
        let ghost start = writes@;
        proof {
            passes = passes + 1;
        }
        let mut changed = false;
        let mut k: usize = 0;
        while k < edges.len()
            invariant
                edges_in_range(direct@.len(), edges@),
                k <= edges@.len(),
                includes_direct(direct@, writes@),
                least_among_closed(direct@, edges@, writes@),
                changed ==> count_false(writes@) < count_false(start),
                !changed ==> writes@ == start,
                !changed ==> forall|e: int|
                    0 <= e < k && writes@[(#[trigger] edges@[e]).1.0 as int] ==> writes@[edges@[e].0.0 as int],
            decreases edges.len() - k,
        {
            let (caller, callee) = edges[k];
            assert(edges@[k as int] == (caller, callee));
            if writes[callee.index()] && !writes[caller.index()] {
                let ghost before = writes@;
                writes.set(caller.index(), true);
                proof {
                    lemma_count_false_set(before, caller.0 as int);
                    assert forall|other: Seq<bool>|
                        includes_direct(direct@, other) && closed_under_calls(edges@, other)
                        implies forall|j: int|
                        0 <= j < writes@.len() && #[trigger] writes@[j] ==> other[j] by {
                        assert(other[callee.0 as int]);
                        assert(other[caller.0 as int]);
                        assert forall|j: int| 0 <= j < writes@.len() && #[trigger] writes@[j] implies other[j] by {
                            if j != caller.0 {
                                assert(before[j]);
                            }
                        }
                    }
                }
                changed = true;
            }
            k = k + 1;
        }
        if !changed {
            assert(passes <= direct@.len() + 1);
            return writes;
        }
    }
}

/// The solution is monotone: adding direct writers never removes a
/// receiver-writing method.
pub proof fn lemma_receiver_writes_monotone(
    direct1: Seq<bool>,
    direct2: Seq<bool>,
    edges: Seq<(MethodId, MethodId)>,
    writes1: Seq<bool>,
    writes2: Seq<bool>,
)
    requires
        direct1.len() == direct2.len(),
        forall|i: int| 0 <= i < direct1.len() && direct1[i] ==> direct2[i],
        is_receiver_write_solution(direct1, edges, writes1),
        is_receiver_write_solution(direct2, edges, writes2),
    ensures
        forall|i: int| 0 <= i < writes1.len() && writes1[i] ==> writes2[i],
{
    assert(includes_direct(direct1, writes2));
}

/// The solution is unique, so it does not depend on the order in which
/// edges are visited.
pub proof fn lemma_receiver_writes_unique(
    direct: Seq<bool>,
    edges: Seq<(MethodId, MethodId)>,
    writes1: Seq<bool>,
    writes2: Seq<bool>,
)
    requires
        is_receiver_write_solution(direct, edges, writes1),
        is_receiver_write_solution(direct, edges, writes2),
    ensures
        writes1 == writes2,
{
    assert forall|i: int| 0 <= i < writes1.len() implies writes1[i] == writes2[i] by {
        if writes1[i] {
            assert(writes2[i]);
        }
        if writes2[i] {
            assert(writes1[i]);
        }
    }
    assert(writes1 =~= writes2);
}

/// The two edge lists name the same calls, perhaps in another order or
/// with repeats.
pub open spec fn same_edges(edges1: Seq<(MethodId, MethodId)>, edges2: Seq<(MethodId, MethodId)>) -> bool {
    &&& forall|k: int| 0 <= k < edges1.len() ==> #[trigger] edges2.contains(edges1[k])
    &&& forall|k: int| 0 <= k < edges2.len() ==> #[trigger] edges1.contains(edges2[k])
}

proof fn lemma_closed_transfers(edges1: Seq<(MethodId, MethodId)>, edges2: Seq<(MethodId, MethodId)>, w: Seq<bool>)
    requires
        forall|k: int| 0 <= k < edges2.len() ==> #[trigger] edges1.contains(edges2[k]),
        closed_under_calls(edges1, w),
    ensures
        closed_under_calls(edges2, w),
{
    assert forall|k: int| 0 <= k < edges2.len() && w[(#[trigger] edges2[k]).1.0 as int] implies w[edges2[k].0.0 as int] by {
        assert(edges1.contains(edges2[k]));
        let j = choose|j: int| 0 <= j < edges1.len() && edges1[j] == edges2[k];
        assert(w[edges1[j].1.0 as int] ==> w[edges1[j].0.0 as int]);
    }
}

/// The solution depends only on which calls there are: permuting the call
/// edges or repeating some of them leaves it unchanged.
pub proof fn lemma_receiver_writes_edge_order(
    direct: Seq<bool>,
    edges1: Seq<(MethodId, MethodId)>,
    edges2: Seq<(MethodId, MethodId)>,
    writes1: Seq<bool>,
    writes2: Seq<bool>,
)
    requires
        same_edges(edges1, edges2),
        is_receiver_write_solution(direct, edges1, writes1),
        is_receiver_write_solution(direct, edges2, writes2),
    ensures
        writes1 == writes2,
{
    lemma_closed_transfers(edges1, edges2, writes1);
    assert forall|other: Seq<bool>|
        includes_direct(direct, other) && closed_under_calls(edges2, other) implies forall|i: int|
        0 <= i < writes1.len() && #[trigger] writes1[i] ==> other[i] by {
        lemma_closed_transfers(edges2, edges1, other);
    }
    lemma_receiver_writes_unique(direct, edges2, writes1, writes2);
}

pub open spec fn is_ascii_alpha(c: char) -> bool {
    ('a' <= c && c <= 'z') || ('A' <= c && c <= 'Z')
}

pub open spec fn is_ascii_alnum(c: char) -> bool {
    is_ascii_alpha(c) || ('0' <= c && c <= '9')
}

/// A valid Rust identifier in the ASCII subset: a letter or `_`, then
/// letters, digits, and `_`.
pub open spec fn spec_is_rust_identifier(s: Seq<char>) -> bool {
    &&& s.len() > 0
    &&& (s[0] == '_' || is_ascii_alpha(s[0]))
    &&& forall|i: int| 1 <= i < s.len() ==> (#[trigger] s[i] == '_' || is_ascii_alnum(s[i]))
}

fn char_is_ascii_alpha(c: char) -> (r: bool)
    ensures
        r == is_ascii_alpha(c),
{
    ('a' <= c && c <= 'z') || ('A' <= c && c <= 'Z')
}

fn char_is_ascii_alnum(c: char) -> (r: bool)
    ensures
        r == is_ascii_alnum(c),
{
    char_is_ascii_alpha(c) || ('0' <= c && c <= '9')
}

/// Whether a bridge symbol is a valid Rust identifier.
pub fn is_rust_identifier(symbol: &str) -> (r: bool)
    ensures
        r == spec_is_rust_identifier(symbol@),
{
    let n = symbol.unicode_len();
    if n == 0 {
        return false;
    }
    let first = symbol.get_char(0);
    if !(first == '_' || char_is_ascii_alpha(first)) {
        return false;
    }
    let mut i: usize = 1;
    while i < n
        invariant
            n == symbol@.len(),
            1 <= i <= n,
            forall|j: int| 1 <= j < i ==> (#[trigger] symbol@[j] == '_' || is_ascii_alnum(symbol@[j])),
        decreases n - i,
    {
        let c = symbol.get_char(i);
        if !(c == '_' || char_is_ascii_alnum(c)) {
            return false;
        }
        i = i + 1;
    }
    true
}

/// The built-in type a written name denotes, if any.
pub open spec fn spec_builtin_type_name(name: Seq<char>) -> Option<TypeName> {
    if name == "Float64"@ {
        Some(TypeName::Float64)
    } else if name == "Int64"@ {
        Some(TypeName::Int64)
    } else if name == "Bool"@ {
        Some(TypeName::Bool)
    } else if name == "Nil"@ {
        Some(TypeName::Nil)
    } else if name == "String"@ {
        Some(TypeName::String)
    } else if name == "Unicode"@ {
        Some(TypeName::Unicode)
    } else if name == "Byte"@ {
        Some(TypeName::Byte)
    } else if name == "UInt16"@ {
        Some(TypeName::UInt16)
    } else if name == "UInt32"@ {
        Some(TypeName::UInt32)
    } else if name == "UInt64"@ {
        Some(TypeName::UInt64)
    } else if name == "Float32"@ {
        Some(TypeName::Float32)
    } else {
        None
    }
}

/// Every built-in type keyword's spelling, as accepted by a type test that
/// names a direct sum member.
pub fn builtin_type_name(name: &str) -> (r: Option<TypeName>)
    ensures
        r == spec_builtin_type_name(name@),
{
    if str_eq(name, "Float64") {
        Some(TypeName::Float64)
    } else if str_eq(name, "Int64") {
        Some(TypeName::Int64)
    } else if str_eq(name, "Bool") {
        Some(TypeName::Bool)
    } else if str_eq(name, "Nil") {
        Some(TypeName::Nil)
    } else if str_eq(name, "String") {
        Some(TypeName::String)
    } else if str_eq(name, "Unicode") {
        Some(TypeName::Unicode)
    } else if str_eq(name, "Byte") {
        Some(TypeName::Byte)
    } else if str_eq(name, "UInt16") {
        Some(TypeName::UInt16)
    } else if str_eq(name, "UInt32") {
        Some(TypeName::UInt32)
    } else if str_eq(name, "UInt64") {
        Some(TypeName::UInt64)
    } else if str_eq(name, "Float32") {
        Some(TypeName::Float32)
    } else {
        None
    }
}

/// Reading back the name a built-in type is written with gives that type.
pub proof fn lemma_builtin_type_name_roundtrip(t: TypeName)
    ensures
        spec_builtin_type_name(spec_type_name_text(t)) == Some(t),
{
    reveal_strlit("Float64");
    reveal_strlit("Int64");
    reveal_strlit("Bool");
    reveal_strlit("Nil");
    reveal_strlit("String");
    reveal_strlit("Unicode");
    reveal_strlit("Byte");
    reveal_strlit("UInt16");
    reveal_strlit("UInt32");
    reveal_strlit("UInt64");
    reveal_strlit("Float32");
    let s = spec_type_name_text(t);
    if t != TypeName::Float64 {
        assert(s != "Float64"@) by {
            if s == "Float64"@ {
                assert(s[0] == "Float64"@[0]);
                assert(s[5] == "Float64"@[5]);
            }
        }
    }
    if t != TypeName::Int64 {
        assert(s != "Int64"@) by {
            if s == "Int64"@ {
                assert(s[0] == "Int64"@[0]);
            }
        }
    }
    if t != TypeName::Bool {
        assert(s != "Bool"@) by {
            if s == "Bool"@ {
                assert(s.len() == 4);
                assert(s[0] == "Bool"@[0]);
                assert(s[1] == "Bool"@[1]);
            }
        }
    }
    if t != TypeName::Nil {
        assert(s != "Nil"@) by {
            if s == "Nil"@ {
                assert(s.len() == 3);
                assert(s[0] == "Nil"@[0]);
            }
        }
    }
    if t != TypeName::String {
        assert(s != "String"@) by {
            if s == "String"@ {
                assert(s[0] == "String"@[0]);
            }
        }
    }
    if t != TypeName::Unicode {
        assert(s != "Unicode"@) by {
            if s == "Unicode"@ {
                assert(s.len() == 7);
                assert(s[0] == "Unicode"@[0]);
            }
        }
    }
    if t != TypeName::Byte {
        assert(s != "Byte"@) by {
            if s == "Byte"@ {
                assert(s.len() == 4);
                assert(s[0] == "Byte"@[0]);
                assert(s[1] == "Byte"@[1]);
            }
        }
    }
    if t != TypeName::UInt16 {
        assert(s != "UInt16"@) by {
            if s == "UInt16"@ {
                assert(s[0] == "UInt16"@[0]);
                assert(s[4] == "UInt16"@[4]);
                assert(s[5] == "UInt16"@[5]);
            }
        }
    }
    if t != TypeName::UInt32 {
        assert(s != "UInt32"@) by {
            if s == "UInt32"@ {
                assert(s[0] == "UInt32"@[0]);
                assert(s[4] == "UInt32"@[4]);
            }
        }
    }
    if t != TypeName::UInt64 {
        assert(s != "UInt64"@) by {
            if s == "UInt64"@ {
                assert(s[0] == "UInt64"@[0]);
                assert(s[4] == "UInt64"@[4]);
            }
        }
    }
}

/// The function-wide names after declaring the first `n` parameters, each
/// name once, in order.
pub open spec fn declared_parameters<'src>(args: Seq<Param<'src>>, n: int) -> Seq<&'src str>
    decreases if n > 0 { n as nat } else { 0 },
{
    if n <= 0 || n > args.len() {
        Seq::empty()
    } else {
        let prev = declared_parameters(args, n - 1);
        if names_contain(prev, args[n - 1].name@) {
            prev
        } else {
            prev.push(args[n - 1].name)
        }
    }
}

/// One diagnostic for each of the first `n` parameters whose name an
/// earlier one already took.
pub open spec fn parameter_diagnostics(args: Seq<Param>, n: int) -> Diagnostics
    decreases if n > 0 { n as nat } else { 0 },
{
    if n <= 0 || n > args.len() {
        Seq::empty()
    } else {
        parameter_diagnostics(args, n - 1) + if names_contain(declared_parameters(args, n - 1), args[n - 1].name@) {
            seq![(args[n - 1].span, already_exists_message("Parameter"@, args[n - 1].name@))]
        } else {
            Seq::empty()
        }
    }
}

/// The binding a parameter introduces: a `Ref<T>` parameter is a mutable
/// root, any other is immutable; both live in the outermost scope.
pub open spec fn parameter_binding<'src>(arg: Param<'src>, param: TParam) -> Binding<'src> {
    Binding { name: arg.name, ty: param.ty, mutable: param.mode is Reference, scope: 0, type_test_alias: false }
}

/// Starts checking a callable body: the function-wide names restart with
/// the parameters (a repeated parameter name is reported), and each written
/// parameter is bound, with its resolved type from `params`, in order.
pub fn begin_region<'src>(
    errors: &mut Vec<Error>,
    declared: &mut Vec<&'src str>,
    env: &mut Vec<Binding<'src>>,
    args: &[Param<'src>],
    params: &[TParam],
)
    ensures
        ({
            let n = if args@.len() < params@.len() { args@.len() } else { params@.len() };
            &&& final(declared)@ == declared_parameters(args@, n as int)
            &&& diagnostics(final(errors)@) == diagnostics(old(errors)@) + parameter_diagnostics(args@, n as int)
            &&& final(env)@.len() == old(env)@.len() + n
            &&& final(env)@.take(old(env)@.len() as int) == old(env)@
            &&& forall|i: int|
                0 <= i < n ==> #[trigger] final(env)@[old(env)@.len() + i] == parameter_binding(args@[i], params@[i])
        }),
{
    declared.clear();
    let ghost start = diagnostics(errors@);
    let ghost env0 = env@;
    let n = if args.len() < params.len() {
        args.len()
    } else {
        params.len()
    };
    let mut i: usize = 0;
    while i < n
        invariant
            n <= args@.len(),
            n <= params@.len(),
            i <= n,
            declared@ == declared_parameters(args@, i as int),
            diagnostics(errors@) == start + parameter_diagnostics(args@, i as int),
            env@.len() == env0.len() + i,
            env@.take(env0.len() as int) == env0,
            forall|k: int| 0 <= k < i ==> #[trigger] env@[env0.len() + k] == parameter_binding(args@[k], params@[k]),
        decreases n - i,
    {
        declare(declared, errors, args[i].name, args[i].span, "Parameter");
        let mutable = match params[i].mode {
            ParamMode::Reference => true,
            ParamMode::Value => false,
        };
        let ghost before = env@;
        env.push(Binding { name: args[i].name, ty: params[i].ty, mutable, scope: 0, type_test_alias: false });
        proof {
            assert(env@.take(env0.len() as int) =~= before.take(env0.len() as int));
            assert forall|k: int| 0 <= k < i + 1 implies #[trigger] env@[env0.len() + k] == parameter_binding(
                args@[k],
                params@[k],
            ) by {
                if k < i {
                    assert(env@[env0.len() + k] == before[env0.len() + k]);
                }
            }
            assert(diagnostics(errors@) =~= start + parameter_diagnostics(args@, i + 1));
        }
        i = i + 1;
    }
}

} // verus!
