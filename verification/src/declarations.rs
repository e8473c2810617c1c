//! Declaration-level diagnostics: repeated parameter names and `extern
//! rust` bridge symbols.
use vstd::prelude::*;
use crate::ast::{ExternFunc, Param, Span};
use crate::checked::Error;
use crate::generics::{Diagnostics, diagnostics, names_contain};
use crate::program::{is_rust_identifier, spec_is_rust_identifier};
use crate::text::str_eq;

verus! {

/// The diagnostic for a parameter name declared twice.
pub open spec fn duplicate_param_message(name: Seq<char>) -> Seq<char> {
    "Parameter '"@ + name + "' already exists"@
}

/// Whether a parameter before position `k` carries the name of parameter
/// `k`.
pub open spec fn repeats_earlier_name(params: Seq<Param>, k: int) -> bool {
    exists|j: int| 0 <= j < k && (#[trigger] params[j]).name@ == params[k].name@
}

/// Whether a parameter before position `k` is named `name`.
pub open spec fn param_named_before(params: Seq<Param>, k: int, name: Seq<char>) -> bool {
    exists|j: int| 0 <= j < k && (#[trigger] params[j]).name@ == name
}

/// One diagnostic, in order, for every parameter among the first `n` whose
/// name an earlier parameter already uses.
pub open spec fn duplicate_param_diagnostics(params: Seq<Param>, n: int) -> Diagnostics
    decreases if n > 0 { n as nat } else { 0 },
{
    if n <= 0 {
        Seq::empty()
    } else {
        let before = duplicate_param_diagnostics(params, n - 1);
        if repeats_earlier_name(params, n - 1) {
            before.push((params[n - 1].span, duplicate_param_message(params[n - 1].name@)))
        } else {
            before
        }
    }
}

/// Reports every parameter whose name an earlier parameter of the same
/// declaration already uses.
pub fn check_duplicate_params(errors: &mut Vec<Error>, params: &Vec<Param>)
    ensures
        diagnostics(final(errors)@) == diagnostics(old(errors)@) + duplicate_param_diagnostics(
            params@,
            params@.len() as int,
        ),
{
    let ghost start = diagnostics(errors@);
    proof {
        assert(start + Seq::<(Span, Seq<char>)>::empty() =~= start);
    }
    let mut seen: Vec<&str> = Vec::new();
    let mut k: usize = 0;
    while k < params.len()
        invariant
            k <= params@.len(),
            seen@.len() <= k,
            forall|n: Seq<char>|
                #[trigger] names_contain(seen@, n) <==> param_named_before(params@, k as int, n),
            diagnostics(errors@) == start + duplicate_param_diagnostics(params@, k as int),
        decreases params.len() - k,
    {
        let name = params[k].name;
        let mut repeated = false;
        let mut i: usize = 0;
        while i < seen.len()
            invariant
                i <= seen@.len(),
                repeated <==> exists|x: int| 0 <= x < i && (#[trigger] seen@[x])@ == name@,
            decreases seen.len() - i,
        {
            if str_eq(seen[i], name) {
                repeated = true;
            }
            i = i + 1;
        }
        let ghost before = diagnostics(errors@);
        if repeated {
            let mut msg = String::from_str("Parameter '");
            msg.append(name);
            msg.append("' already exists");
            errors.push(Error { span: params[k].span, msg });
            proof {
                assert(names_contain(seen@, name@));
                assert(repeats_earlier_name(params@, k as int));
                assert(diagnostics(errors@) =~= before.push(
                    (params@[k as int].span, duplicate_param_message(name@)),
                ));
            }
        } else {
            let ghost old_seen = seen@;
            assert(!names_contain(old_seen, name@));
            seen.push(name);
            proof {
                assert(seen@.drop_last() =~= old_seen);
                assert(!repeats_earlier_name(params@, k as int));
                assert forall|n: Seq<char>|
                    #[trigger] names_contain(seen@, n) <==> param_named_before(params@, k + 1, n) by {
                    assert(names_contain(seen@.drop_last(), n) <==> param_named_before(params@, k as int, n));
                    if exists|i: int| 0 <= i < seen@.len() && (#[trigger] seen@[i])@ == n {
                        let i = choose|i: int| 0 <= i < seen@.len() && (#[trigger] seen@[i])@ == n;
                        if i < seen@.len() - 1 {
                            assert(seen@[i] == seen@.drop_last()[i]);
                        } else {
                            assert(params@[k as int].name@ == n);
                        }
                    }
                    if exists|j: int| 0 <= j < k + 1 && (#[trigger] params@[j]).name@ == n {
                        let j = choose|j: int| 0 <= j < k + 1 && (#[trigger] params@[j]).name@ == n;
                        if j < k {
                            let i = choose|i: int| 0 <= i < seen@.len() - 1 && (#[trigger] seen@.drop_last()[i])@ == n;
                            assert(seen@[i] == seen@.drop_last()[i]);
                        } else {
                            assert(seen@[seen@.len() - 1] == name);
                        }
                    }
                }
            }
        }
        k = k + 1;
    }
}

/// The symbol rule for `extern rust` bridges: the symbol must start with
/// `snacc_user_` and be a valid Rust identifier.
pub open spec fn bridge_symbol_diagnostics(symbol: Seq<char>, span: Span) -> Diagnostics {
    if !("snacc_user_"@.is_prefix_of(symbol)) {
        seq![(span, "Rust bridge symbols must start with 'snacc_user_'"@)]
    } else if !spec_is_rust_identifier(symbol) {
        seq![(span, "Rust bridge symbols must be valid Rust identifiers"@)]
    } else {
        Seq::empty()
    }
}

fn starts_with(s: &str, prefix: &str) -> (r: bool)
    ensures
        r == prefix@.is_prefix_of(s@),
{
    let n = prefix.unicode_len();
    let m = s.unicode_len();
    if n > m {
        return false;
    }
    let mut i: usize = 0;
    while i < n
        invariant
            n == prefix@.len(),
            m == s@.len(),
            n <= m,
            i <= n,
            forall|k: int| 0 <= k < i ==> prefix@[k] == s@[k],
        decreases n - i,
    {
        if prefix.get_char(i) != s.get_char(i) {
            return false;
        }
        i = i + 1;
    }
    assert(prefix@ =~= s@.subrange(0, n as int));
    true
}

/// Checks one `extern rust` bridge declaration: repeated parameter names,
/// then the bridge-symbol rule.
pub fn check_extern_declaration(errors: &mut Vec<Error>, function: &ExternFunc)
    ensures
        diagnostics(final(errors)@) == diagnostics(old(errors)@) + duplicate_param_diagnostics(
            function.args@,
            function.args@.len() as int,
        ) + bridge_symbol_diagnostics(function.symbol@, function.span),
{
    check_duplicate_params(errors, &function.args);
    let ghost mid = diagnostics(errors@);
    if !starts_with(function.symbol, "snacc_user_") {
        errors.push(
            Error {
                span: function.span,
                msg: String::from_str("Rust bridge symbols must start with 'snacc_user_'"),
            },
        );
        proof {
            assert(diagnostics(errors@) =~= mid + bridge_symbol_diagnostics(function.symbol@, function.span));
        }
    } else if !is_rust_identifier(function.symbol) {
        errors.push(
            Error {
                span: function.span,
                msg: String::from_str("Rust bridge symbols must be valid Rust identifiers"),
            },
        );
        proof {
            assert(diagnostics(errors@) =~= mid + bridge_symbol_diagnostics(function.symbol@, function.span));
        }
    } else {
        proof {
            assert(mid + bridge_symbol_diagnostics(function.symbol@, function.span) =~= mid);
        }
    }
}

} // verus!
