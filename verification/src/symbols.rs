//! Backend decisions that do not depend on the code generator: the runtime
//! symbol each collection operation lowers to, how a scalar is classified
//! for lowering, and the internal-error message convention.
use vstd::prelude::*;
use crate::text::{concat_str, str_eq};
use crate::ty::Ty;

verus! {

/// The runtime's spelling of a scalar key or element type.
pub open spec fn is_scalar_key_prefix(prefix: Seq<char>) -> bool {
    prefix == "u8"@
        || prefix == "u16"@
        || prefix == "u32"@
        || prefix == "u64"@
        || prefix == "i64"@
        || prefix == "bool"@
        || prefix == "unicode"@
}

/// An operation the map runtime exports.
pub open spec fn is_map_operation(operation: Seq<char>) -> bool {
    operation == "contains"@
        || operation == "insert"@
        || operation == "delete"@
        || operation == "index"@
        || operation == "take"@
        || operation == "reserve"@
        || operation == "key_at"@
        || operation == "value_at"@
        || operation == "clear"@
        || operation == "drop"@
}

/// An operation the set runtime exports.
pub open spec fn is_set_operation(operation: Seq<char>) -> bool {
    operation == "contains"@
        || operation == "insert"@
        || operation == "delete"@
        || operation == "at"@
        || operation == "reserve"@
        || operation == "clear"@
        || operation == "drop"@
}

/// The runtime symbol of a map operation whose keys are a scalar and whose values are `Int64`.
pub fn scalar_map_symbol(prefix: &str, operation: &str) -> (r: &'static str)
    requires
        is_scalar_key_prefix(prefix@),
        is_map_operation(operation@),
    ensures
        r@ == "snacc_map_"@ + prefix@ + "_i64_"@ + operation@,
{
    proof {
        reveal_strlit("snacc_map_");
        reveal_strlit("_i64_");
    }
    if str_eq(prefix, "u8") {
        if str_eq(operation, "contains") {
            proof {
                reveal_strlit("snacc_map_u8_i64_contains");
                reveal_strlit("u8");
                reveal_strlit("contains");
            }
            "snacc_map_u8_i64_contains"
        } else if str_eq(operation, "insert") {
            proof {
                reveal_strlit("snacc_map_u8_i64_insert");
                reveal_strlit("u8");
                reveal_strlit("insert");
            }
            "snacc_map_u8_i64_insert"
        } else if str_eq(operation, "delete") {
            proof {
                reveal_strlit("snacc_map_u8_i64_delete");
                reveal_strlit("u8");
                reveal_strlit("delete");
            }
            "snacc_map_u8_i64_delete"
        } else if str_eq(operation, "index") {
            proof {
                reveal_strlit("snacc_map_u8_i64_index");
                reveal_strlit("u8");
                reveal_strlit("index");
            }
            "snacc_map_u8_i64_index"
        } else if str_eq(operation, "take") {
            proof {
                reveal_strlit("snacc_map_u8_i64_take");
                reveal_strlit("u8");
                reveal_strlit("take");
            }
            "snacc_map_u8_i64_take"
        } else if str_eq(operation, "reserve") {
            proof {
                reveal_strlit("snacc_map_u8_i64_reserve");
                reveal_strlit("u8");
                reveal_strlit("reserve");
            }
            "snacc_map_u8_i64_reserve"
        } else if str_eq(operation, "key_at") {
            proof {
                reveal_strlit("snacc_map_u8_i64_key_at");
                reveal_strlit("u8");
                reveal_strlit("key_at");
            }
            "snacc_map_u8_i64_key_at"
        } else if str_eq(operation, "value_at") {
            proof {
                reveal_strlit("snacc_map_u8_i64_value_at");
                reveal_strlit("u8");
                reveal_strlit("value_at");
            }
            "snacc_map_u8_i64_value_at"
        } else if str_eq(operation, "clear") {
            proof {
                reveal_strlit("snacc_map_u8_i64_clear");
                reveal_strlit("u8");
                reveal_strlit("clear");
            }
            "snacc_map_u8_i64_clear"
        } else if str_eq(operation, "drop") {
            proof {
                reveal_strlit("snacc_map_u8_i64_drop");
                reveal_strlit("u8");
                reveal_strlit("drop");
            }
            "snacc_map_u8_i64_drop"
        } else {
            proof {
                assert(false);
            }
            ""
        }
    } else if str_eq(prefix, "u16") {
        if str_eq(operation, "contains") {
            proof {
                reveal_strlit("snacc_map_u16_i64_contains");
                reveal_strlit("u16");
                reveal_strlit("contains");
            }
            "snacc_map_u16_i64_contains"
        } else if str_eq(operation, "insert") {
            proof {
                reveal_strlit("snacc_map_u16_i64_insert");
                reveal_strlit("u16");
                reveal_strlit("insert");
            }
            "snacc_map_u16_i64_insert"
        } else if str_eq(operation, "delete") {
            proof {
                reveal_strlit("snacc_map_u16_i64_delete");
                reveal_strlit("u16");
                reveal_strlit("delete");
            }
            "snacc_map_u16_i64_delete"
        } else if str_eq(operation, "index") {
            proof {
                reveal_strlit("snacc_map_u16_i64_index");
                reveal_strlit("u16");
                reveal_strlit("index");
            }
            "snacc_map_u16_i64_index"
        } else if str_eq(operation, "take") {
            proof {
                reveal_strlit("snacc_map_u16_i64_take");
                reveal_strlit("u16");
                reveal_strlit("take");
            }
            "snacc_map_u16_i64_take"
        } else if str_eq(operation, "reserve") {
            proof {
                reveal_strlit("snacc_map_u16_i64_reserve");
                reveal_strlit("u16");
                reveal_strlit("reserve");
            }
            "snacc_map_u16_i64_reserve"
        } else if str_eq(operation, "key_at") {
            proof {
                reveal_strlit("snacc_map_u16_i64_key_at");
                reveal_strlit("u16");
                reveal_strlit("key_at");
            }
            "snacc_map_u16_i64_key_at"
        } else if str_eq(operation, "value_at") {
            proof {
                reveal_strlit("snacc_map_u16_i64_value_at");
                reveal_strlit("u16");
                reveal_strlit("value_at");
            }
            "snacc_map_u16_i64_value_at"
        } else if str_eq(operation, "clear") {
            proof {
                reveal_strlit("snacc_map_u16_i64_clear");
                reveal_strlit("u16");
                reveal_strlit("clear");
            }
            "snacc_map_u16_i64_clear"
        } else if str_eq(operation, "drop") {
            proof {
                reveal_strlit("snacc_map_u16_i64_drop");
                reveal_strlit("u16");
                reveal_strlit("drop");
            }
            "snacc_map_u16_i64_drop"
        } else {
            proof {
                assert(false);
            }
            ""
        }
    } else if str_eq(prefix, "u32") {
        if str_eq(operation, "contains") {
            proof {
                reveal_strlit("snacc_map_u32_i64_contains");
                reveal_strlit("u32");
                reveal_strlit("contains");
            }
            "snacc_map_u32_i64_contains"
        } else if str_eq(operation, "insert") {
            proof {
                reveal_strlit("snacc_map_u32_i64_insert");
                reveal_strlit("u32");
                reveal_strlit("insert");
            }
            "snacc_map_u32_i64_insert"
        } else if str_eq(operation, "delete") {
            proof {
                reveal_strlit("snacc_map_u32_i64_delete");
                reveal_strlit("u32");
                reveal_strlit("delete");
            }
            "snacc_map_u32_i64_delete"
        } else if str_eq(operation, "index") {
            proof {
                reveal_strlit("snacc_map_u32_i64_index");
                reveal_strlit("u32");
                reveal_strlit("index");
            }
            "snacc_map_u32_i64_index"
        } else if str_eq(operation, "take") {
            proof {
                reveal_strlit("snacc_map_u32_i64_take");
                reveal_strlit("u32");
                reveal_strlit("take");
            }
            "snacc_map_u32_i64_take"
        } else if str_eq(operation, "reserve") {
            proof {
                reveal_strlit("snacc_map_u32_i64_reserve");
                reveal_strlit("u32");
                reveal_strlit("reserve");
            }
            "snacc_map_u32_i64_reserve"
        } else if str_eq(operation, "key_at") {
            proof {
                reveal_strlit("snacc_map_u32_i64_key_at");
                reveal_strlit("u32");
                reveal_strlit("key_at");
            }
            "snacc_map_u32_i64_key_at"
        } else if str_eq(operation, "value_at") {
            proof {
                reveal_strlit("snacc_map_u32_i64_value_at");
                reveal_strlit("u32");
                reveal_strlit("value_at");
            }
            "snacc_map_u32_i64_value_at"
        } else if str_eq(operation, "clear") {
            proof {
                reveal_strlit("snacc_map_u32_i64_clear");
                reveal_strlit("u32");
                reveal_strlit("clear");
            }
            "snacc_map_u32_i64_clear"
        } else if str_eq(operation, "drop") {
            proof {
                reveal_strlit("snacc_map_u32_i64_drop");
                reveal_strlit("u32");
                reveal_strlit("drop");
            }
            "snacc_map_u32_i64_drop"
        } else {
            proof {
                assert(false);
            }
            ""
        }
    } else if str_eq(prefix, "u64") {
        if str_eq(operation, "contains") {
            proof {
                reveal_strlit("snacc_map_u64_i64_contains");
                reveal_strlit("u64");
                reveal_strlit("contains");
            }
            "snacc_map_u64_i64_contains"
        } else if str_eq(operation, "insert") {
            proof {
                reveal_strlit("snacc_map_u64_i64_insert");
                reveal_strlit("u64");
                reveal_strlit("insert");
            }
            "snacc_map_u64_i64_insert"
        } else if str_eq(operation, "delete") {
            proof {
                reveal_strlit("snacc_map_u64_i64_delete");
                reveal_strlit("u64");
                reveal_strlit("delete");
            }
            "snacc_map_u64_i64_delete"
        } else if str_eq(operation, "index") {
            proof {
                reveal_strlit("snacc_map_u64_i64_index");
                reveal_strlit("u64");
                reveal_strlit("index");
            }
            "snacc_map_u64_i64_index"
        } else if str_eq(operation, "take") {
            proof {
                reveal_strlit("snacc_map_u64_i64_take");
                reveal_strlit("u64");
                reveal_strlit("take");
            }
            "snacc_map_u64_i64_take"
        } else if str_eq(operation, "reserve") {
            proof {
                reveal_strlit("snacc_map_u64_i64_reserve");
                reveal_strlit("u64");
                reveal_strlit("reserve");
            }
            "snacc_map_u64_i64_reserve"
        } else if str_eq(operation, "key_at") {
            proof {
                reveal_strlit("snacc_map_u64_i64_key_at");
                reveal_strlit("u64");
                reveal_strlit("key_at");
            }
            "snacc_map_u64_i64_key_at"
        } else if str_eq(operation, "value_at") {
            proof {
                reveal_strlit("snacc_map_u64_i64_value_at");
                reveal_strlit("u64");
                reveal_strlit("value_at");
            }
            "snacc_map_u64_i64_value_at"
        } else if str_eq(operation, "clear") {
            proof {
                reveal_strlit("snacc_map_u64_i64_clear");
                reveal_strlit("u64");
                reveal_strlit("clear");
            }
            "snacc_map_u64_i64_clear"
        } else if str_eq(operation, "drop") {
            proof {
                reveal_strlit("snacc_map_u64_i64_drop");
                reveal_strlit("u64");
                reveal_strlit("drop");
            }
            "snacc_map_u64_i64_drop"
        } else {
            proof {
                assert(false);
            }
            ""
        }
    } else if str_eq(prefix, "i64") {
        if str_eq(operation, "contains") {
            proof {
                reveal_strlit("snacc_map_i64_i64_contains");
                reveal_strlit("i64");
                reveal_strlit("contains");
            }
            "snacc_map_i64_i64_contains"
        } else if str_eq(operation, "insert") {
            proof {
                reveal_strlit("snacc_map_i64_i64_insert");
                reveal_strlit("i64");
                reveal_strlit("insert");
            }
            "snacc_map_i64_i64_insert"
        } else if str_eq(operation, "delete") {
            proof {
                reveal_strlit("snacc_map_i64_i64_delete");
                reveal_strlit("i64");
                reveal_strlit("delete");
            }
            "snacc_map_i64_i64_delete"
        } else if str_eq(operation, "index") {
            proof {
                reveal_strlit("snacc_map_i64_i64_index");
                reveal_strlit("i64");
                reveal_strlit("index");
            }
            "snacc_map_i64_i64_index"
        } else if str_eq(operation, "take") {
            proof {
                reveal_strlit("snacc_map_i64_i64_take");
                reveal_strlit("i64");
                reveal_strlit("take");
            }
            "snacc_map_i64_i64_take"
        } else if str_eq(operation, "reserve") {
            proof {
                reveal_strlit("snacc_map_i64_i64_reserve");
                reveal_strlit("i64");
                reveal_strlit("reserve");
            }
            "snacc_map_i64_i64_reserve"
        } else if str_eq(operation, "key_at") {
            proof {
                reveal_strlit("snacc_map_i64_i64_key_at");
                reveal_strlit("i64");
                reveal_strlit("key_at");
            }
            "snacc_map_i64_i64_key_at"
        } else if str_eq(operation, "value_at") {
            proof {
                reveal_strlit("snacc_map_i64_i64_value_at");
                reveal_strlit("i64");
                reveal_strlit("value_at");
            }
            "snacc_map_i64_i64_value_at"
        } else if str_eq(operation, "clear") {
            proof {
                reveal_strlit("snacc_map_i64_i64_clear");
                reveal_strlit("i64");
                reveal_strlit("clear");
            }
            "snacc_map_i64_i64_clear"
        } else if str_eq(operation, "drop") {
            proof {
                reveal_strlit("snacc_map_i64_i64_drop");
                reveal_strlit("i64");
                reveal_strlit("drop");
            }
            "snacc_map_i64_i64_drop"
        } else {
            proof {
                assert(false);
            }
            ""
        }
    } else if str_eq(prefix, "bool") {
        if str_eq(operation, "contains") {
            proof {
                reveal_strlit("snacc_map_bool_i64_contains");
                reveal_strlit("bool");
                reveal_strlit("contains");
            }
            "snacc_map_bool_i64_contains"
        } else if str_eq(operation, "insert") {
            proof {
                reveal_strlit("snacc_map_bool_i64_insert");
                reveal_strlit("bool");
                reveal_strlit("insert");
            }
            "snacc_map_bool_i64_insert"
        } else if str_eq(operation, "delete") {
            proof {
                reveal_strlit("snacc_map_bool_i64_delete");
                reveal_strlit("bool");
                reveal_strlit("delete");
            }
            "snacc_map_bool_i64_delete"
        } else if str_eq(operation, "index") {
            proof {
                reveal_strlit("snacc_map_bool_i64_index");
                reveal_strlit("bool");
                reveal_strlit("index");
            }
            "snacc_map_bool_i64_index"
        } else if str_eq(operation, "take") {
            proof {
                reveal_strlit("snacc_map_bool_i64_take");
                reveal_strlit("bool");
                reveal_strlit("take");
            }
            "snacc_map_bool_i64_take"
        } else if str_eq(operation, "reserve") {
            proof {
                reveal_strlit("snacc_map_bool_i64_reserve");
                reveal_strlit("bool");
                reveal_strlit("reserve");
            }
            "snacc_map_bool_i64_reserve"
        } else if str_eq(operation, "key_at") {
            proof {
                reveal_strlit("snacc_map_bool_i64_key_at");
                reveal_strlit("bool");
                reveal_strlit("key_at");
            }
            "snacc_map_bool_i64_key_at"
        } else if str_eq(operation, "value_at") {
            proof {
                reveal_strlit("snacc_map_bool_i64_value_at");
                reveal_strlit("bool");
                reveal_strlit("value_at");
            }
            "snacc_map_bool_i64_value_at"
        } else if str_eq(operation, "clear") {
            proof {
                reveal_strlit("snacc_map_bool_i64_clear");
                reveal_strlit("bool");
                reveal_strlit("clear");
            }
            "snacc_map_bool_i64_clear"
        } else if str_eq(operation, "drop") {
            proof {
                reveal_strlit("snacc_map_bool_i64_drop");
                reveal_strlit("bool");
                reveal_strlit("drop");
            }
            "snacc_map_bool_i64_drop"
        } else {
            proof {
                assert(false);
            }
            ""
        }
    } else if str_eq(prefix, "unicode") {
        if str_eq(operation, "contains") {
            proof {
                reveal_strlit("snacc_map_unicode_i64_contains");
                reveal_strlit("unicode");
                reveal_strlit("contains");
            }
            "snacc_map_unicode_i64_contains"
        } else if str_eq(operation, "insert") {
            proof {
                reveal_strlit("snacc_map_unicode_i64_insert");
                reveal_strlit("unicode");
                reveal_strlit("insert");
            }
            "snacc_map_unicode_i64_insert"
        } else if str_eq(operation, "delete") {
            proof {
                reveal_strlit("snacc_map_unicode_i64_delete");
                reveal_strlit("unicode");
                reveal_strlit("delete");
            }
            "snacc_map_unicode_i64_delete"
        } else if str_eq(operation, "index") {
            proof {
                reveal_strlit("snacc_map_unicode_i64_index");
                reveal_strlit("unicode");
                reveal_strlit("index");
            }
            "snacc_map_unicode_i64_index"
        } else if str_eq(operation, "take") {
            proof {
                reveal_strlit("snacc_map_unicode_i64_take");
                reveal_strlit("unicode");
                reveal_strlit("take");
            }
            "snacc_map_unicode_i64_take"
        } else if str_eq(operation, "reserve") {
            proof {
                reveal_strlit("snacc_map_unicode_i64_reserve");
                reveal_strlit("unicode");
                reveal_strlit("reserve");
            }
            "snacc_map_unicode_i64_reserve"
        } else if str_eq(operation, "key_at") {
            proof {
                reveal_strlit("snacc_map_unicode_i64_key_at");
                reveal_strlit("unicode");
                reveal_strlit("key_at");
            }
            "snacc_map_unicode_i64_key_at"
        } else if str_eq(operation, "value_at") {
            proof {
                reveal_strlit("snacc_map_unicode_i64_value_at");
                reveal_strlit("unicode");
                reveal_strlit("value_at");
            }
            "snacc_map_unicode_i64_value_at"
        } else if str_eq(operation, "clear") {
            proof {
                reveal_strlit("snacc_map_unicode_i64_clear");
                reveal_strlit("unicode");
                reveal_strlit("clear");
            }
            "snacc_map_unicode_i64_clear"
        } else if str_eq(operation, "drop") {
            proof {
                reveal_strlit("snacc_map_unicode_i64_drop");
                reveal_strlit("unicode");
                reveal_strlit("drop");
            }
            "snacc_map_unicode_i64_drop"
        } else {
            proof {
                assert(false);
            }
            ""
        }
    } else {
        proof {
            assert(false);
        }
        ""
    }
}

/// A scalar key prefix never holds `_`.
proof fn lemma_prefix_has_no_underscore(p: Seq<char>)
    requires
        is_scalar_key_prefix(p),
    ensures
        forall|i: int| 0 <= i < p.len() ==> p[i] != '_',
        p.len() >= 2,
{
    reveal_strlit("u8");
    reveal_strlit("u16");
    reveal_strlit("u32");
    reveal_strlit("u64");
    reveal_strlit("i64");
    reveal_strlit("bool");
    reveal_strlit("unicode");
}

/// The two map runtime families never share a symbol: a map with `Int64`
/// values and a map with raw values call different functions, whatever
/// their key types and operations.
pub proof fn lemma_map_symbol_families_distinct(p1: Seq<char>, o1: Seq<char>, p2: Seq<char>, o2: Seq<char>)
    requires
        is_scalar_key_prefix(p1),
        is_map_operation(o1),
        is_scalar_key_prefix(p2),
        is_map_operation(o2),
    ensures
        "snacc_map_"@ + p1 + "_i64_"@ + o1 != "snacc_map_"@ + p2 + "_raw_"@ + o2,
{
    reveal_strlit("snacc_map_");
    reveal_strlit("_i64_");
    reveal_strlit("_raw_");
    lemma_prefix_has_no_underscore(p1);
    lemma_prefix_has_no_underscore(p2);
    let a = "snacc_map_"@ + p1 + "_i64_"@ + o1;
    let b = "snacc_map_"@ + p2 + "_raw_"@ + o2;
    if p1.len() == p2.len() {
        assert(a[(10 + p1.len() + 1) as int] == 'i');
        assert(b[(10 + p2.len() + 1) as int] == 'r');
    } else if p1.len() < p2.len() {
        assert(a[(10 + p1.len()) as int] == '_');
        assert(b[(10 + p1.len()) as int] == p2[p1.len() as int]);
    } else {
        assert(b[(10 + p2.len()) as int] == '_');
        assert(a[(10 + p2.len()) as int] == p1[p2.len() as int]);
    }
}

/// The runtime symbol of a map operation whose keys are a scalar and whose values are stored as raw bytes.
pub fn scalar_map_raw_symbol(prefix: &str, operation: &str) -> (r: &'static str)
    requires
        is_scalar_key_prefix(prefix@),
        is_map_operation(operation@),
    ensures
        r@ == "snacc_map_"@ + prefix@ + "_raw_"@ + operation@,
{
    proof {
        reveal_strlit("snacc_map_");
        reveal_strlit("_raw_");
    }
    if str_eq(prefix, "u8") {
        if str_eq(operation, "contains") {
            proof {
                reveal_strlit("snacc_map_u8_raw_contains");
                reveal_strlit("u8");
                reveal_strlit("contains");
            }
            "snacc_map_u8_raw_contains"
        } else if str_eq(operation, "insert") {
            proof {
                reveal_strlit("snacc_map_u8_raw_insert");
                reveal_strlit("u8");
                reveal_strlit("insert");
            }
            "snacc_map_u8_raw_insert"
        } else if str_eq(operation, "delete") {
            proof {
                reveal_strlit("snacc_map_u8_raw_delete");
                reveal_strlit("u8");
                reveal_strlit("delete");
            }
            "snacc_map_u8_raw_delete"
        } else if str_eq(operation, "index") {
            proof {
                reveal_strlit("snacc_map_u8_raw_index");
                reveal_strlit("u8");
                reveal_strlit("index");
            }
            "snacc_map_u8_raw_index"
        } else if str_eq(operation, "take") {
            proof {
                reveal_strlit("snacc_map_u8_raw_take");
                reveal_strlit("u8");
                reveal_strlit("take");
            }
            "snacc_map_u8_raw_take"
        } else if str_eq(operation, "reserve") {
            proof {
                reveal_strlit("snacc_map_u8_raw_reserve");
                reveal_strlit("u8");
                reveal_strlit("reserve");
            }
            "snacc_map_u8_raw_reserve"
        } else if str_eq(operation, "key_at") {
            proof {
                reveal_strlit("snacc_map_u8_raw_key_at");
                reveal_strlit("u8");
                reveal_strlit("key_at");
            }
            "snacc_map_u8_raw_key_at"
        } else if str_eq(operation, "value_at") {
            proof {
                reveal_strlit("snacc_map_u8_raw_value_at");
                reveal_strlit("u8");
                reveal_strlit("value_at");
            }
            "snacc_map_u8_raw_value_at"
        } else if str_eq(operation, "clear") {
            proof {
                reveal_strlit("snacc_map_u8_raw_clear");
                reveal_strlit("u8");
                reveal_strlit("clear");
            }
            "snacc_map_u8_raw_clear"
        } else if str_eq(operation, "drop") {
            proof {
                reveal_strlit("snacc_map_u8_raw_drop");
                reveal_strlit("u8");
                reveal_strlit("drop");
            }
            "snacc_map_u8_raw_drop"
        } else {
            proof {
                assert(false);
            }
            ""
        }
    } else if str_eq(prefix, "u16") {
        if str_eq(operation, "contains") {
            proof {
                reveal_strlit("snacc_map_u16_raw_contains");
                reveal_strlit("u16");
                reveal_strlit("contains");
            }
            "snacc_map_u16_raw_contains"
        } else if str_eq(operation, "insert") {
            proof {
                reveal_strlit("snacc_map_u16_raw_insert");
                reveal_strlit("u16");
                reveal_strlit("insert");
            }
            "snacc_map_u16_raw_insert"
        } else if str_eq(operation, "delete") {
            proof {
                reveal_strlit("snacc_map_u16_raw_delete");
                reveal_strlit("u16");
                reveal_strlit("delete");
            }
            "snacc_map_u16_raw_delete"
        } else if str_eq(operation, "index") {
            proof {
                reveal_strlit("snacc_map_u16_raw_index");
                reveal_strlit("u16");
                reveal_strlit("index");
            }
            "snacc_map_u16_raw_index"
        } else if str_eq(operation, "take") {
            proof {
                reveal_strlit("snacc_map_u16_raw_take");
                reveal_strlit("u16");
                reveal_strlit("take");
            }
            "snacc_map_u16_raw_take"
        } else if str_eq(operation, "reserve") {
            proof {
                reveal_strlit("snacc_map_u16_raw_reserve");
                reveal_strlit("u16");
                reveal_strlit("reserve");
            }
            "snacc_map_u16_raw_reserve"
        } else if str_eq(operation, "key_at") {
            proof {
                reveal_strlit("snacc_map_u16_raw_key_at");
                reveal_strlit("u16");
                reveal_strlit("key_at");
            }
            "snacc_map_u16_raw_key_at"
        } else if str_eq(operation, "value_at") {
            proof {
                reveal_strlit("snacc_map_u16_raw_value_at");
                reveal_strlit("u16");
                reveal_strlit("value_at");
            }
            "snacc_map_u16_raw_value_at"
        } else if str_eq(operation, "clear") {
            proof {
                reveal_strlit("snacc_map_u16_raw_clear");
                reveal_strlit("u16");
                reveal_strlit("clear");
            }
            "snacc_map_u16_raw_clear"
        } else if str_eq(operation, "drop") {
            proof {
                reveal_strlit("snacc_map_u16_raw_drop");
                reveal_strlit("u16");
                reveal_strlit("drop");
            }
            "snacc_map_u16_raw_drop"
        } else {
            proof {
                assert(false);
            }
            ""
        }
    } else if str_eq(prefix, "u32") {
        if str_eq(operation, "contains") {
            proof {
                reveal_strlit("snacc_map_u32_raw_contains");
                reveal_strlit("u32");
                reveal_strlit("contains");
            }
            "snacc_map_u32_raw_contains"
        } else if str_eq(operation, "insert") {
            proof {
                reveal_strlit("snacc_map_u32_raw_insert");
                reveal_strlit("u32");
                reveal_strlit("insert");
            }
            "snacc_map_u32_raw_insert"
        } else if str_eq(operation, "delete") {
            proof {
                reveal_strlit("snacc_map_u32_raw_delete");
                reveal_strlit("u32");
                reveal_strlit("delete");
            }
            "snacc_map_u32_raw_delete"
        } else if str_eq(operation, "index") {
            proof {
                reveal_strlit("snacc_map_u32_raw_index");
                reveal_strlit("u32");
                reveal_strlit("index");
            }
            "snacc_map_u32_raw_index"
        } else if str_eq(operation, "take") {
            proof {
                reveal_strlit("snacc_map_u32_raw_take");
                reveal_strlit("u32");
                reveal_strlit("take");
            }
            "snacc_map_u32_raw_take"
        } else if str_eq(operation, "reserve") {
            proof {
                reveal_strlit("snacc_map_u32_raw_reserve");
                reveal_strlit("u32");
                reveal_strlit("reserve");
            }
            "snacc_map_u32_raw_reserve"
        } else if str_eq(operation, "key_at") {
            proof {
                reveal_strlit("snacc_map_u32_raw_key_at");
                reveal_strlit("u32");
                reveal_strlit("key_at");
            }
            "snacc_map_u32_raw_key_at"
        } else if str_eq(operation, "value_at") {
            proof {
                reveal_strlit("snacc_map_u32_raw_value_at");
                reveal_strlit("u32");
                reveal_strlit("value_at");
            }
            "snacc_map_u32_raw_value_at"
        } else if str_eq(operation, "clear") {
            proof {
                reveal_strlit("snacc_map_u32_raw_clear");
                reveal_strlit("u32");
                reveal_strlit("clear");
            }
            "snacc_map_u32_raw_clear"
        } else if str_eq(operation, "drop") {
            proof {
                reveal_strlit("snacc_map_u32_raw_drop");
                reveal_strlit("u32");
                reveal_strlit("drop");
            }
            "snacc_map_u32_raw_drop"
        } else {
            proof {
                assert(false);
            }
            ""
        }
    } else if str_eq(prefix, "u64") {
        if str_eq(operation, "contains") {
            proof {
                reveal_strlit("snacc_map_u64_raw_contains");
                reveal_strlit("u64");
                reveal_strlit("contains");
            }
            "snacc_map_u64_raw_contains"
        } else if str_eq(operation, "insert") {
            proof {
                reveal_strlit("snacc_map_u64_raw_insert");
                reveal_strlit("u64");
                reveal_strlit("insert");
            }
            "snacc_map_u64_raw_insert"
        } else if str_eq(operation, "delete") {
            proof {
                reveal_strlit("snacc_map_u64_raw_delete");
                reveal_strlit("u64");
                reveal_strlit("delete");
            }
            "snacc_map_u64_raw_delete"
        } else if str_eq(operation, "index") {
            proof {
                reveal_strlit("snacc_map_u64_raw_index");
                reveal_strlit("u64");
                reveal_strlit("index");
            }
            "snacc_map_u64_raw_index"
        } else if str_eq(operation, "take") {
            proof {
                reveal_strlit("snacc_map_u64_raw_take");
                reveal_strlit("u64");
                reveal_strlit("take");
            }
            "snacc_map_u64_raw_take"
        } else if str_eq(operation, "reserve") {
            proof {
                reveal_strlit("snacc_map_u64_raw_reserve");
                reveal_strlit("u64");
                reveal_strlit("reserve");
            }
            "snacc_map_u64_raw_reserve"
        } else if str_eq(operation, "key_at") {
            proof {
                reveal_strlit("snacc_map_u64_raw_key_at");
                reveal_strlit("u64");
                reveal_strlit("key_at");
            }
            "snacc_map_u64_raw_key_at"
        } else if str_eq(operation, "value_at") {
            proof {
                reveal_strlit("snacc_map_u64_raw_value_at");
                reveal_strlit("u64");
                reveal_strlit("value_at");
            }
            "snacc_map_u64_raw_value_at"
        } else if str_eq(operation, "clear") {
            proof {
                reveal_strlit("snacc_map_u64_raw_clear");
                reveal_strlit("u64");
                reveal_strlit("clear");
            }
            "snacc_map_u64_raw_clear"
        } else if str_eq(operation, "drop") {
            proof {
                reveal_strlit("snacc_map_u64_raw_drop");
                reveal_strlit("u64");
                reveal_strlit("drop");
            }
            "snacc_map_u64_raw_drop"
        } else {
            proof {
                assert(false);
            }
            ""
        }
    } else if str_eq(prefix, "i64") {
        if str_eq(operation, "contains") {
            proof {
                reveal_strlit("snacc_map_i64_raw_contains");
                reveal_strlit("i64");
                reveal_strlit("contains");
            }
            "snacc_map_i64_raw_contains"
        } else if str_eq(operation, "insert") {
            proof {
                reveal_strlit("snacc_map_i64_raw_insert");
                reveal_strlit("i64");
                reveal_strlit("insert");
            }
            "snacc_map_i64_raw_insert"
        } else if str_eq(operation, "delete") {
            proof {
                reveal_strlit("snacc_map_i64_raw_delete");
                reveal_strlit("i64");
                reveal_strlit("delete");
            }
            "snacc_map_i64_raw_delete"
        } else if str_eq(operation, "index") {
            proof {
                reveal_strlit("snacc_map_i64_raw_index");
                reveal_strlit("i64");
                reveal_strlit("index");
            }
            "snacc_map_i64_raw_index"
        } else if str_eq(operation, "take") {
            proof {
                reveal_strlit("snacc_map_i64_raw_take");
                reveal_strlit("i64");
                reveal_strlit("take");
            }
            "snacc_map_i64_raw_take"
        } else if str_eq(operation, "reserve") {
            proof {
                reveal_strlit("snacc_map_i64_raw_reserve");
                reveal_strlit("i64");
                reveal_strlit("reserve");
            }
            "snacc_map_i64_raw_reserve"
        } else if str_eq(operation, "key_at") {
            proof {
                reveal_strlit("snacc_map_i64_raw_key_at");
                reveal_strlit("i64");
                reveal_strlit("key_at");
            }
            "snacc_map_i64_raw_key_at"
        } else if str_eq(operation, "value_at") {
            proof {
                reveal_strlit("snacc_map_i64_raw_value_at");
                reveal_strlit("i64");
                reveal_strlit("value_at");
            }
            "snacc_map_i64_raw_value_at"
        } else if str_eq(operation, "clear") {
            proof {
                reveal_strlit("snacc_map_i64_raw_clear");
                reveal_strlit("i64");
                reveal_strlit("clear");
            }
            "snacc_map_i64_raw_clear"
        } else if str_eq(operation, "drop") {
            proof {
                reveal_strlit("snacc_map_i64_raw_drop");
                reveal_strlit("i64");
                reveal_strlit("drop");
            }
            "snacc_map_i64_raw_drop"
        } else {
            proof {
                assert(false);
            }
            ""
        }
    } else if str_eq(prefix, "bool") {
        if str_eq(operation, "contains") {
            proof {
                reveal_strlit("snacc_map_bool_raw_contains");
                reveal_strlit("bool");
                reveal_strlit("contains");
            }
            "snacc_map_bool_raw_contains"
        } else if str_eq(operation, "insert") {
            proof {
                reveal_strlit("snacc_map_bool_raw_insert");
                reveal_strlit("bool");
                reveal_strlit("insert");
            }
            "snacc_map_bool_raw_insert"
        } else if str_eq(operation, "delete") {
            proof {
                reveal_strlit("snacc_map_bool_raw_delete");
                reveal_strlit("bool");
                reveal_strlit("delete");
            }
            "snacc_map_bool_raw_delete"
        } else if str_eq(operation, "index") {
            proof {
                reveal_strlit("snacc_map_bool_raw_index");
                reveal_strlit("bool");
                reveal_strlit("index");
            }
            "snacc_map_bool_raw_index"
        } else if str_eq(operation, "take") {
            proof {
                reveal_strlit("snacc_map_bool_raw_take");
                reveal_strlit("bool");
                reveal_strlit("take");
            }
            "snacc_map_bool_raw_take"
        } else if str_eq(operation, "reserve") {
            proof {
                reveal_strlit("snacc_map_bool_raw_reserve");
                reveal_strlit("bool");
                reveal_strlit("reserve");
            }
            "snacc_map_bool_raw_reserve"
        } else if str_eq(operation, "key_at") {
            proof {
                reveal_strlit("snacc_map_bool_raw_key_at");
                reveal_strlit("bool");
                reveal_strlit("key_at");
            }
            "snacc_map_bool_raw_key_at"
        } else if str_eq(operation, "value_at") {
            proof {
                reveal_strlit("snacc_map_bool_raw_value_at");
                reveal_strlit("bool");
                reveal_strlit("value_at");
            }
            "snacc_map_bool_raw_value_at"
        } else if str_eq(operation, "clear") {
            proof {
                reveal_strlit("snacc_map_bool_raw_clear");
                reveal_strlit("bool");
                reveal_strlit("clear");
            }
            "snacc_map_bool_raw_clear"
        } else if str_eq(operation, "drop") {
            proof {
                reveal_strlit("snacc_map_bool_raw_drop");
                reveal_strlit("bool");
                reveal_strlit("drop");
            }
            "snacc_map_bool_raw_drop"
        } else {
            proof {
                assert(false);
            }
            ""
        }
    } else if str_eq(prefix, "unicode") {
        if str_eq(operation, "contains") {
            proof {
                reveal_strlit("snacc_map_unicode_raw_contains");
                reveal_strlit("unicode");
                reveal_strlit("contains");
            }
            "snacc_map_unicode_raw_contains"
        } else if str_eq(operation, "insert") {
            proof {
                reveal_strlit("snacc_map_unicode_raw_insert");
                reveal_strlit("unicode");
                reveal_strlit("insert");
            }
            "snacc_map_unicode_raw_insert"
        } else if str_eq(operation, "delete") {
            proof {
                reveal_strlit("snacc_map_unicode_raw_delete");
                reveal_strlit("unicode");
                reveal_strlit("delete");
            }
            "snacc_map_unicode_raw_delete"
        } else if str_eq(operation, "index") {
            proof {
                reveal_strlit("snacc_map_unicode_raw_index");
                reveal_strlit("unicode");
                reveal_strlit("index");
            }
            "snacc_map_unicode_raw_index"
        } else if str_eq(operation, "take") {
            proof {
                reveal_strlit("snacc_map_unicode_raw_take");
                reveal_strlit("unicode");
                reveal_strlit("take");
            }
            "snacc_map_unicode_raw_take"
        } else if str_eq(operation, "reserve") {
            proof {
                reveal_strlit("snacc_map_unicode_raw_reserve");
                reveal_strlit("unicode");
                reveal_strlit("reserve");
            }
            "snacc_map_unicode_raw_reserve"
        } else if str_eq(operation, "key_at") {
            proof {
                reveal_strlit("snacc_map_unicode_raw_key_at");
                reveal_strlit("unicode");
                reveal_strlit("key_at");
            }
            "snacc_map_unicode_raw_key_at"
        } else if str_eq(operation, "value_at") {
            proof {
                reveal_strlit("snacc_map_unicode_raw_value_at");
                reveal_strlit("unicode");
                reveal_strlit("value_at");
            }
            "snacc_map_unicode_raw_value_at"
        } else if str_eq(operation, "clear") {
            proof {
                reveal_strlit("snacc_map_unicode_raw_clear");
                reveal_strlit("unicode");
                reveal_strlit("clear");
            }
            "snacc_map_unicode_raw_clear"
        } else if str_eq(operation, "drop") {
            proof {
                reveal_strlit("snacc_map_unicode_raw_drop");
                reveal_strlit("unicode");
                reveal_strlit("drop");
            }
            "snacc_map_unicode_raw_drop"
        } else {
            proof {
                assert(false);
            }
            ""
        }
    } else {
        proof {
            assert(false);
        }
        ""
    }
}

/// The runtime symbol of a set operation whose elements are a scalar.
pub fn scalar_set_symbol(prefix: &str, operation: &str) -> (r: &'static str)
    requires
        is_scalar_key_prefix(prefix@),
        is_set_operation(operation@),
    ensures
        r@ == "snacc_set_"@ + prefix@ + "_"@ + operation@,
{
    proof {
        reveal_strlit("snacc_set_");
        reveal_strlit("_");
    }
    if str_eq(prefix, "u8") {
        if str_eq(operation, "contains") {
            proof {
                reveal_strlit("snacc_set_u8_contains");
                reveal_strlit("u8");
                reveal_strlit("contains");
            }
            "snacc_set_u8_contains"
        } else if str_eq(operation, "insert") {
            proof {
                reveal_strlit("snacc_set_u8_insert");
                reveal_strlit("u8");
                reveal_strlit("insert");
            }
            "snacc_set_u8_insert"
        } else if str_eq(operation, "delete") {
            proof {
                reveal_strlit("snacc_set_u8_delete");
                reveal_strlit("u8");
                reveal_strlit("delete");
            }
            "snacc_set_u8_delete"
        } else if str_eq(operation, "at") {
            proof {
                reveal_strlit("snacc_set_u8_at");
                reveal_strlit("u8");
                reveal_strlit("at");
            }
            "snacc_set_u8_at"
        } else if str_eq(operation, "reserve") {
            proof {
                reveal_strlit("snacc_set_u8_reserve");
                reveal_strlit("u8");
                reveal_strlit("reserve");
            }
            "snacc_set_u8_reserve"
        } else if str_eq(operation, "clear") {
            proof {
                reveal_strlit("snacc_set_u8_clear");
                reveal_strlit("u8");
                reveal_strlit("clear");
            }
            "snacc_set_u8_clear"
        } else if str_eq(operation, "drop") {
            proof {
                reveal_strlit("snacc_set_u8_drop");
                reveal_strlit("u8");
                reveal_strlit("drop");
            }
            "snacc_set_u8_drop"
        } else {
            proof {
                assert(false);
            }
            ""
        }
    } else if str_eq(prefix, "u16") {
        if str_eq(operation, "contains") {
            proof {
                reveal_strlit("snacc_set_u16_contains");
                reveal_strlit("u16");
                reveal_strlit("contains");
            }
            "snacc_set_u16_contains"
        } else if str_eq(operation, "insert") {
            proof {
                reveal_strlit("snacc_set_u16_insert");
                reveal_strlit("u16");
                reveal_strlit("insert");
            }
            "snacc_set_u16_insert"
        } else if str_eq(operation, "delete") {
            proof {
                reveal_strlit("snacc_set_u16_delete");
                reveal_strlit("u16");
                reveal_strlit("delete");
            }
            "snacc_set_u16_delete"
        } else if str_eq(operation, "at") {
            proof {
                reveal_strlit("snacc_set_u16_at");
                reveal_strlit("u16");
                reveal_strlit("at");
            }
            "snacc_set_u16_at"
        } else if str_eq(operation, "reserve") {
            proof {
                reveal_strlit("snacc_set_u16_reserve");
                reveal_strlit("u16");
                reveal_strlit("reserve");
            }
            "snacc_set_u16_reserve"
        } else if str_eq(operation, "clear") {
            proof {
                reveal_strlit("snacc_set_u16_clear");
                reveal_strlit("u16");
                reveal_strlit("clear");
            }
            "snacc_set_u16_clear"
        } else if str_eq(operation, "drop") {
            proof {
                reveal_strlit("snacc_set_u16_drop");
                reveal_strlit("u16");
                reveal_strlit("drop");
            }
            "snacc_set_u16_drop"
        } else {
            proof {
                assert(false);
            }
            ""
        }
    } else if str_eq(prefix, "u32") {
        if str_eq(operation, "contains") {
            proof {
                reveal_strlit("snacc_set_u32_contains");
                reveal_strlit("u32");
                reveal_strlit("contains");
            }
            "snacc_set_u32_contains"
        } else if str_eq(operation, "insert") {
            proof {
                reveal_strlit("snacc_set_u32_insert");
                reveal_strlit("u32");
                reveal_strlit("insert");
            }
            "snacc_set_u32_insert"
        } else if str_eq(operation, "delete") {
            proof {
                reveal_strlit("snacc_set_u32_delete");
                reveal_strlit("u32");
                reveal_strlit("delete");
            }
            "snacc_set_u32_delete"
        } else if str_eq(operation, "at") {
            proof {
                reveal_strlit("snacc_set_u32_at");
                reveal_strlit("u32");
                reveal_strlit("at");
            }
            "snacc_set_u32_at"
        } else if str_eq(operation, "reserve") {
            proof {
                reveal_strlit("snacc_set_u32_reserve");
                reveal_strlit("u32");
                reveal_strlit("reserve");
            }
            "snacc_set_u32_reserve"
        } else if str_eq(operation, "clear") {
            proof {
                reveal_strlit("snacc_set_u32_clear");
                reveal_strlit("u32");
                reveal_strlit("clear");
            }
            "snacc_set_u32_clear"
        } else if str_eq(operation, "drop") {
            proof {
                reveal_strlit("snacc_set_u32_drop");
                reveal_strlit("u32");
                reveal_strlit("drop");
            }
            "snacc_set_u32_drop"
        } else {
            proof {
                assert(false);
            }
            ""
        }
    } else if str_eq(prefix, "u64") {
        if str_eq(operation, "contains") {
            proof {
                reveal_strlit("snacc_set_u64_contains");
                reveal_strlit("u64");
                reveal_strlit("contains");
            }
            "snacc_set_u64_contains"
        } else if str_eq(operation, "insert") {
            proof {
                reveal_strlit("snacc_set_u64_insert");
                reveal_strlit("u64");
                reveal_strlit("insert");
            }
            "snacc_set_u64_insert"
        } else if str_eq(operation, "delete") {
            proof {
                reveal_strlit("snacc_set_u64_delete");
                reveal_strlit("u64");
                reveal_strlit("delete");
            }
            "snacc_set_u64_delete"
        } else if str_eq(operation, "at") {
            proof {
                reveal_strlit("snacc_set_u64_at");
                reveal_strlit("u64");
                reveal_strlit("at");
            }
            "snacc_set_u64_at"
        } else if str_eq(operation, "reserve") {
            proof {
                reveal_strlit("snacc_set_u64_reserve");
                reveal_strlit("u64");
                reveal_strlit("reserve");
            }
            "snacc_set_u64_reserve"
        } else if str_eq(operation, "clear") {
            proof {
                reveal_strlit("snacc_set_u64_clear");
                reveal_strlit("u64");
                reveal_strlit("clear");
            }
            "snacc_set_u64_clear"
        } else if str_eq(operation, "drop") {
            proof {
                reveal_strlit("snacc_set_u64_drop");
                reveal_strlit("u64");
                reveal_strlit("drop");
            }
            "snacc_set_u64_drop"
        } else {
            proof {
                assert(false);
            }
            ""
        }
    } else if str_eq(prefix, "i64") {
        if str_eq(operation, "contains") {
            proof {
                reveal_strlit("snacc_set_i64_contains");
                reveal_strlit("i64");
                reveal_strlit("contains");
            }
            "snacc_set_i64_contains"
        } else if str_eq(operation, "insert") {
            proof {
                reveal_strlit("snacc_set_i64_insert");
                reveal_strlit("i64");
                reveal_strlit("insert");
            }
            "snacc_set_i64_insert"
        } else if str_eq(operation, "delete") {
            proof {
                reveal_strlit("snacc_set_i64_delete");
                reveal_strlit("i64");
                reveal_strlit("delete");
            }
            "snacc_set_i64_delete"
        } else if str_eq(operation, "at") {
            proof {
                reveal_strlit("snacc_set_i64_at");
                reveal_strlit("i64");
                reveal_strlit("at");
            }
            "snacc_set_i64_at"
        } else if str_eq(operation, "reserve") {
            proof {
                reveal_strlit("snacc_set_i64_reserve");
                reveal_strlit("i64");
                reveal_strlit("reserve");
            }
            "snacc_set_i64_reserve"
        } else if str_eq(operation, "clear") {
            proof {
                reveal_strlit("snacc_set_i64_clear");
                reveal_strlit("i64");
                reveal_strlit("clear");
            }
            "snacc_set_i64_clear"
        } else if str_eq(operation, "drop") {
            proof {
                reveal_strlit("snacc_set_i64_drop");
                reveal_strlit("i64");
                reveal_strlit("drop");
            }
            "snacc_set_i64_drop"
        } else {
            proof {
                assert(false);
            }
            ""
        }
    } else if str_eq(prefix, "bool") {
        if str_eq(operation, "contains") {
            proof {
                reveal_strlit("snacc_set_bool_contains");
                reveal_strlit("bool");
                reveal_strlit("contains");
            }
            "snacc_set_bool_contains"
        } else if str_eq(operation, "insert") {
            proof {
                reveal_strlit("snacc_set_bool_insert");
                reveal_strlit("bool");
                reveal_strlit("insert");
            }
            "snacc_set_bool_insert"
        } else if str_eq(operation, "delete") {
            proof {
                reveal_strlit("snacc_set_bool_delete");
                reveal_strlit("bool");
                reveal_strlit("delete");
            }
            "snacc_set_bool_delete"
        } else if str_eq(operation, "at") {
            proof {
                reveal_strlit("snacc_set_bool_at");
                reveal_strlit("bool");
                reveal_strlit("at");
            }
            "snacc_set_bool_at"
        } else if str_eq(operation, "reserve") {
            proof {
                reveal_strlit("snacc_set_bool_reserve");
                reveal_strlit("bool");
                reveal_strlit("reserve");
            }
            "snacc_set_bool_reserve"
        } else if str_eq(operation, "clear") {
            proof {
                reveal_strlit("snacc_set_bool_clear");
                reveal_strlit("bool");
                reveal_strlit("clear");
            }
            "snacc_set_bool_clear"
        } else if str_eq(operation, "drop") {
            proof {
                reveal_strlit("snacc_set_bool_drop");
                reveal_strlit("bool");
                reveal_strlit("drop");
            }
            "snacc_set_bool_drop"
        } else {
            proof {
                assert(false);
            }
            ""
        }
    } else if str_eq(prefix, "unicode") {
        if str_eq(operation, "contains") {
            proof {
                reveal_strlit("snacc_set_unicode_contains");
                reveal_strlit("unicode");
                reveal_strlit("contains");
            }
            "snacc_set_unicode_contains"
        } else if str_eq(operation, "insert") {
            proof {
                reveal_strlit("snacc_set_unicode_insert");
                reveal_strlit("unicode");
                reveal_strlit("insert");
            }
            "snacc_set_unicode_insert"
        } else if str_eq(operation, "delete") {
            proof {
                reveal_strlit("snacc_set_unicode_delete");
                reveal_strlit("unicode");
                reveal_strlit("delete");
            }
            "snacc_set_unicode_delete"
        } else if str_eq(operation, "at") {
            proof {
                reveal_strlit("snacc_set_unicode_at");
                reveal_strlit("unicode");
                reveal_strlit("at");
            }
            "snacc_set_unicode_at"
        } else if str_eq(operation, "reserve") {
            proof {
                reveal_strlit("snacc_set_unicode_reserve");
                reveal_strlit("unicode");
                reveal_strlit("reserve");
            }
            "snacc_set_unicode_reserve"
        } else if str_eq(operation, "clear") {
            proof {
                reveal_strlit("snacc_set_unicode_clear");
                reveal_strlit("unicode");
                reveal_strlit("clear");
            }
            "snacc_set_unicode_clear"
        } else if str_eq(operation, "drop") {
            proof {
                reveal_strlit("snacc_set_unicode_drop");
                reveal_strlit("unicode");
                reveal_strlit("drop");
            }
            "snacc_set_unicode_drop"
        } else {
            proof {
                assert(false);
            }
            ""
        }
    } else {
        proof {
            assert(false);
        }
        ""
    }
}


/// Marks a backend failure that is a compiler bug rather than a property of
/// the program.
pub const INTERNAL_ERROR: &'static str = "internal compiler error: ";

/// The text of an internal-error diagnostic carrying `message`.
pub open spec fn internal_message(message: Seq<char>) -> Seq<char> {
    "internal compiler error: "@ + message
}

/// An internal compiler error: `message` behind the internal-error marker.
pub fn internal(message: &str) -> (r: String)
    ensures
        r@ == internal_message(message@),
{
    concat_str(INTERNAL_ERROR, message)
}

/// The runtime's spelling of a scalar map key or set element type.
pub open spec fn spec_scalar_key_prefix(ty: Ty) -> Option<Seq<char>> {
    match ty {
        Ty::Byte => Some("u8"@),
        Ty::UInt16 => Some("u16"@),
        Ty::UInt32 => Some("u32"@),
        Ty::UInt64 => Some("u64"@),
        Ty::Int64 => Some("i64"@),
        Ty::Bool => Some("bool"@),
        Ty::Unicode => Some("unicode"@),
        _ => None,
    }
}

fn scalar_key_prefix(ty: Ty) -> (r: Option<&'static str>)
    ensures
        match r {
            Some(p) => spec_scalar_key_prefix(ty) == Some(p@) && is_scalar_key_prefix(p@),
            None => spec_scalar_key_prefix(ty) is None,
        },
{
    match ty {
        Ty::Byte => Some("u8"),
        Ty::UInt16 => Some("u16"),
        Ty::UInt32 => Some("u32"),
        Ty::UInt64 => Some("u64"),
        Ty::Int64 => Some("i64"),
        Ty::Bool => Some("bool"),
        Ty::Unicode => Some("unicode"),
        _ => None,
    }
}

/// Whether a map key or set element is carried as string bytes.
pub open spec fn is_string_key(ty: Ty) -> bool {
    ty == Ty::String || ty == Ty::ViewByte
}

/// The runtime symbol of a map operation for maps with `Int64` values.
/// String and byte-view keys share one runtime family; a scalar key selects
/// its own family, and any other key type is an internal error.
pub fn map_symbol(operation: &str, key_ty: Ty) -> (r: Result<&'static str, String>)
    requires
        spec_scalar_key_prefix(key_ty) is Some ==> is_map_operation(operation@),
    ensures
        is_string_key(key_ty) ==> match r {
            Ok(s) => is_map_operation(operation@) && s@ == "snacc_map_string_i64_"@ + operation@,
            Err(e) => !is_map_operation(operation@) && e@ == internal_message(
                "unsupported map operation reached lowering"@,
            ),
        },
        spec_scalar_key_prefix(key_ty) matches Some(p) ==> (r matches Ok(s) && s@ == "snacc_map_"@
            + p + "_i64_"@ + operation@),
        !is_string_key(key_ty) && spec_scalar_key_prefix(key_ty) is None ==> (r matches Err(e)
            && e@ == internal_message("unsupported map key type reached lowering"@)),
{
    if key_ty == Ty::String || key_ty == Ty::ViewByte {
        proof {
            reveal_strlit("snacc_map_string_i64_");
        }
        if str_eq(operation, "contains") {
            proof {
                reveal_strlit("snacc_map_string_i64_contains");
                reveal_strlit("contains");
            }
            Ok("snacc_map_string_i64_contains")
        } else if str_eq(operation, "insert") {
            proof {
                reveal_strlit("snacc_map_string_i64_insert");
                reveal_strlit("insert");
            }
            Ok("snacc_map_string_i64_insert")
        } else if str_eq(operation, "delete") {
            proof {
                reveal_strlit("snacc_map_string_i64_delete");
                reveal_strlit("delete");
            }
            Ok("snacc_map_string_i64_delete")
        } else if str_eq(operation, "index") {
            proof {
                reveal_strlit("snacc_map_string_i64_index");
                reveal_strlit("index");
            }
            Ok("snacc_map_string_i64_index")
        } else if str_eq(operation, "take") {
            proof {
                reveal_strlit("snacc_map_string_i64_take");
                reveal_strlit("take");
            }
            Ok("snacc_map_string_i64_take")
        } else if str_eq(operation, "reserve") {
            proof {
                reveal_strlit("snacc_map_string_i64_reserve");
                reveal_strlit("reserve");
            }
            Ok("snacc_map_string_i64_reserve")
        } else if str_eq(operation, "key_at") {
            proof {
                reveal_strlit("snacc_map_string_i64_key_at");
                reveal_strlit("key_at");
            }
            Ok("snacc_map_string_i64_key_at")
        } else if str_eq(operation, "value_at") {
            proof {
                reveal_strlit("snacc_map_string_i64_value_at");
                reveal_strlit("value_at");
            }
            Ok("snacc_map_string_i64_value_at")
        } else if str_eq(operation, "clear") {
            proof {
                reveal_strlit("snacc_map_string_i64_clear");
                reveal_strlit("clear");
            }
            Ok("snacc_map_string_i64_clear")
        } else if str_eq(operation, "drop") {
            proof {
                reveal_strlit("snacc_map_string_i64_drop");
                reveal_strlit("drop");
            }
            Ok("snacc_map_string_i64_drop")
        } else {
            Err(internal("unsupported map operation reached lowering"))
        }
    } else {
        match scalar_key_prefix(key_ty) {
            Some(prefix) => Ok(scalar_map_symbol(prefix, operation)),
            None => Err(internal("unsupported map key type reached lowering")),
        }
    }
}

/// The runtime symbol of a map operation for maps whose values are stored
/// as raw bytes (every value type other than `Int64`).
pub fn map_raw_symbol(operation: &str, key_ty: Ty) -> (r: Result<&'static str, String>)
    requires
        spec_scalar_key_prefix(key_ty) is Some ==> is_map_operation(operation@),
    ensures
        is_string_key(key_ty) ==> match r {
            Ok(s) => is_map_operation(operation@) && s@ == "snacc_map_string_raw_"@ + operation@,
            Err(e) => !is_map_operation(operation@) && e@ == internal_message(
                "unsupported raw map operation reached lowering"@,
            ),
        },
        spec_scalar_key_prefix(key_ty) matches Some(p) ==> (r matches Ok(s) && s@ == "snacc_map_"@
            + p + "_raw_"@ + operation@),
        !is_string_key(key_ty) && spec_scalar_key_prefix(key_ty) is None ==> (r matches Err(e)
            && e@ == internal_message("unsupported raw map key type reached lowering"@)),
{
    if key_ty == Ty::String || key_ty == Ty::ViewByte {
        proof {
            reveal_strlit("snacc_map_string_raw_");
        }
        if str_eq(operation, "contains") {
            proof {
                reveal_strlit("snacc_map_string_raw_contains");
                reveal_strlit("contains");
            }
            Ok("snacc_map_string_raw_contains")
        } else if str_eq(operation, "insert") {
            proof {
                reveal_strlit("snacc_map_string_raw_insert");
                reveal_strlit("insert");
            }
            Ok("snacc_map_string_raw_insert")
        } else if str_eq(operation, "delete") {
            proof {
                reveal_strlit("snacc_map_string_raw_delete");
                reveal_strlit("delete");
            }
            Ok("snacc_map_string_raw_delete")
        } else if str_eq(operation, "index") {
            proof {
                reveal_strlit("snacc_map_string_raw_index");
                reveal_strlit("index");
            }
            Ok("snacc_map_string_raw_index")
        } else if str_eq(operation, "take") {
            proof {
                reveal_strlit("snacc_map_string_raw_take");
                reveal_strlit("take");
            }
            Ok("snacc_map_string_raw_take")
        } else if str_eq(operation, "reserve") {
            proof {
                reveal_strlit("snacc_map_string_raw_reserve");
                reveal_strlit("reserve");
            }
            Ok("snacc_map_string_raw_reserve")
        } else if str_eq(operation, "key_at") {
            proof {
                reveal_strlit("snacc_map_string_raw_key_at");
                reveal_strlit("key_at");
            }
            Ok("snacc_map_string_raw_key_at")
        } else if str_eq(operation, "value_at") {
            proof {
                reveal_strlit("snacc_map_string_raw_value_at");
                reveal_strlit("value_at");
            }
            Ok("snacc_map_string_raw_value_at")
        } else if str_eq(operation, "clear") {
            proof {
                reveal_strlit("snacc_map_string_raw_clear");
                reveal_strlit("clear");
            }
            Ok("snacc_map_string_raw_clear")
        } else if str_eq(operation, "drop") {
            proof {
                reveal_strlit("snacc_map_string_raw_drop");
                reveal_strlit("drop");
            }
            Ok("snacc_map_string_raw_drop")
        } else {
            Err(internal("unsupported raw map operation reached lowering"))
        }
    } else {
        match scalar_key_prefix(key_ty) {
            Some(prefix) => Ok(scalar_map_raw_symbol(prefix, operation)),
            None => Err(internal("unsupported raw map key type reached lowering")),
        }
    }
}

/// Whether a map's values are stored as raw bytes rather than as `Int64`.
pub fn map_uses_raw_value(value_ty: Ty) -> (r: bool)
    ensures
        r == (value_ty != Ty::Int64),
{
    value_ty != Ty::Int64
}

/// The runtime symbol of a set operation. String and byte-view elements
/// share one family, `Int64` has its own, and every other scalar element
/// selects the scalar family; any other element type is an internal error.
pub fn set_symbol(operation: &str, elem: Ty) -> (r: Result<&'static str, String>)
    requires
        (spec_scalar_key_prefix(elem) is Some && elem != Ty::Int64) ==> is_set_operation(operation@),
    ensures
        is_string_key(elem) ==> match r {
            Ok(s) => is_set_operation(operation@) && s@ == "snacc_set_string_"@ + operation@,
            Err(e) => !is_set_operation(operation@) && e@ == internal_message(
                "unsupported set operation reached lowering"@,
            ),
        },
        elem == Ty::Int64 ==> match r {
            Ok(s) => is_set_operation(operation@) && s@ == "snacc_set_i64_"@ + operation@,
            Err(e) => !is_set_operation(operation@) && e@ == internal_message(
                "unsupported set operation reached lowering"@,
            ),
        },
        elem != Ty::Int64 ==> (spec_scalar_key_prefix(elem) matches Some(p) ==> (r matches Ok(s)
            && s@ == "snacc_set_"@ + p + "_"@ + operation@)),
        !is_string_key(elem) && spec_scalar_key_prefix(elem) is None ==> (r matches Err(e) && e@
            == internal_message("unsupported set element type reached lowering"@)),
{
    let string_elem = elem == Ty::String || elem == Ty::ViewByte;
    let prefix = scalar_key_prefix(elem);
    if !string_elem && prefix.is_none() {
        return Err(internal("unsupported set element type reached lowering"));
    }
    if elem != Ty::Int64 {
        if let Some(prefix) = prefix {
            return Ok(scalar_set_symbol(prefix, operation));
        }
    }
    if string_elem {
        proof {
            reveal_strlit("snacc_set_string_");
        }
        if str_eq(operation, "contains") {
            proof {
                reveal_strlit("snacc_set_string_contains");
                reveal_strlit("contains");
            }
            Ok("snacc_set_string_contains")
        } else if str_eq(operation, "insert") {
            proof {
                reveal_strlit("snacc_set_string_insert");
                reveal_strlit("insert");
            }
            Ok("snacc_set_string_insert")
        } else if str_eq(operation, "delete") {
            proof {
                reveal_strlit("snacc_set_string_delete");
                reveal_strlit("delete");
            }
            Ok("snacc_set_string_delete")
        } else if str_eq(operation, "at") {
            proof {
                reveal_strlit("snacc_set_string_at");
                reveal_strlit("at");
            }
            Ok("snacc_set_string_at")
        } else if str_eq(operation, "reserve") {
            proof {
                reveal_strlit("snacc_set_string_reserve");
                reveal_strlit("reserve");
            }
            Ok("snacc_set_string_reserve")
        } else if str_eq(operation, "clear") {
            proof {
                reveal_strlit("snacc_set_string_clear");
                reveal_strlit("clear");
            }
            Ok("snacc_set_string_clear")
        } else if str_eq(operation, "drop") {
            proof {
                reveal_strlit("snacc_set_string_drop");
                reveal_strlit("drop");
            }
            Ok("snacc_set_string_drop")
        } else {
            Err(internal("unsupported set operation reached lowering"))
        }
    } else {
        proof {
            reveal_strlit("snacc_set_i64_");
        }
        if str_eq(operation, "contains") {
            proof {
                reveal_strlit("snacc_set_i64_contains");
                reveal_strlit("contains");
            }
            Ok("snacc_set_i64_contains")
        } else if str_eq(operation, "at") {
            proof {
                reveal_strlit("snacc_set_i64_at");
                reveal_strlit("at");
            }
            Ok("snacc_set_i64_at")
        } else if str_eq(operation, "insert") {
            proof {
                reveal_strlit("snacc_set_i64_insert");
                reveal_strlit("insert");
            }
            Ok("snacc_set_i64_insert")
        } else if str_eq(operation, "delete") {
            proof {
                reveal_strlit("snacc_set_i64_delete");
                reveal_strlit("delete");
            }
            Ok("snacc_set_i64_delete")
        } else if str_eq(operation, "reserve") {
            proof {
                reveal_strlit("snacc_set_i64_reserve");
                reveal_strlit("reserve");
            }
            Ok("snacc_set_i64_reserve")
        } else if str_eq(operation, "clear") {
            proof {
                reveal_strlit("snacc_set_i64_clear");
                reveal_strlit("clear");
            }
            Ok("snacc_set_i64_clear")
        } else if str_eq(operation, "drop") {
            proof {
                reveal_strlit("snacc_set_i64_drop");
                reveal_strlit("drop");
            }
            Ok("snacc_set_i64_drop")
        } else {
            Err(internal("unsupported set operation reached lowering"))
        }
    }
}

/// The operations the scalar list runtime exports.
pub open spec fn is_list_scalar_operation(operation: Seq<char>) -> bool {
    operation == "pop"@ || operation == "insert"@ || operation == "remove"@
}

/// The runtime's spelling of a scalar list element type.
pub open spec fn spec_list_elem_suffix(ty: Ty) -> Option<Seq<char>> {
    match ty {
        Ty::Int64 => Some("i64"@),
        Ty::Byte => Some("u8"@),
        Ty::UInt16 => Some("u16"@),
        Ty::UInt32 => Some("u32"@),
        Ty::UInt64 => Some("u64"@),
        Ty::Float32 => Some("f32"@),
        Ty::Float64 => Some("f64"@),
        Ty::Bool => Some("bool"@),
        Ty::Unicode => Some("unicode"@),
        _ => None,
    }
}

/// The runtime symbol of a scalar list operation.
pub fn list_scalar_symbol(operation: &str, elem: Ty) -> (r: Result<&'static str, String>)
    ensures
        match r {
            Ok(s) => is_list_scalar_operation(operation@) && (spec_list_elem_suffix(elem) matches Some(
                suffix,
            ) && s@ == "snacc_list_"@ + operation@ + "_"@ + suffix),
            Err(e) => !(is_list_scalar_operation(operation@) && spec_list_elem_suffix(elem) is Some)
                && e@ == internal_message("unsupported scalar list operation"@),
        },
{
    proof {
        reveal_strlit("snacc_list_");
        reveal_strlit("_");
    }
    if str_eq(operation, "pop") {
        proof { reveal_strlit("pop"); }
        match elem {
            Ty::Int64 => {
                proof {
                    reveal_strlit("snacc_list_pop_i64");
                    reveal_strlit("i64");
                }
                Ok("snacc_list_pop_i64")
            },
            Ty::Byte => {
                proof {
                    reveal_strlit("snacc_list_pop_u8");
                    reveal_strlit("u8");
                }
                Ok("snacc_list_pop_u8")
            },
            Ty::UInt16 => {
                proof {
                    reveal_strlit("snacc_list_pop_u16");
                    reveal_strlit("u16");
                }
                Ok("snacc_list_pop_u16")
            },
            Ty::UInt32 => {
                proof {
                    reveal_strlit("snacc_list_pop_u32");
                    reveal_strlit("u32");
                }
                Ok("snacc_list_pop_u32")
            },
            Ty::UInt64 => {
                proof {
                    reveal_strlit("snacc_list_pop_u64");
                    reveal_strlit("u64");
                }
                Ok("snacc_list_pop_u64")
            },
            Ty::Float32 => {
                proof {
                    reveal_strlit("snacc_list_pop_f32");
                    reveal_strlit("f32");
                }
                Ok("snacc_list_pop_f32")
            },
            Ty::Float64 => {
                proof {
                    reveal_strlit("snacc_list_pop_f64");
                    reveal_strlit("f64");
                }
                Ok("snacc_list_pop_f64")
            },
            Ty::Bool => {
                proof {
                    reveal_strlit("snacc_list_pop_bool");
                    reveal_strlit("bool");
                }
                Ok("snacc_list_pop_bool")
            },
            Ty::Unicode => {
                proof {
                    reveal_strlit("snacc_list_pop_unicode");
                    reveal_strlit("unicode");
                }
                Ok("snacc_list_pop_unicode")
            },
            _ => Err(internal("unsupported scalar list operation")),
        }
    } else if str_eq(operation, "insert") {
        proof { reveal_strlit("insert"); }
        match elem {
            Ty::Int64 => {
                proof {
                    reveal_strlit("snacc_list_insert_i64");
                    reveal_strlit("i64");
                }
                Ok("snacc_list_insert_i64")
            },
            Ty::Byte => {
                proof {
                    reveal_strlit("snacc_list_insert_u8");
                    reveal_strlit("u8");
                }
                Ok("snacc_list_insert_u8")
            },
            Ty::UInt16 => {
                proof {
                    reveal_strlit("snacc_list_insert_u16");
                    reveal_strlit("u16");
                }
                Ok("snacc_list_insert_u16")
            },
            Ty::UInt32 => {
                proof {
                    reveal_strlit("snacc_list_insert_u32");
                    reveal_strlit("u32");
                }
                Ok("snacc_list_insert_u32")
            },
            Ty::UInt64 => {
                proof {
                    reveal_strlit("snacc_list_insert_u64");
                    reveal_strlit("u64");
                }
                Ok("snacc_list_insert_u64")
            },
            Ty::Float32 => {
                proof {
                    reveal_strlit("snacc_list_insert_f32");
                    reveal_strlit("f32");
                }
                Ok("snacc_list_insert_f32")
            },
            Ty::Float64 => {
                proof {
                    reveal_strlit("snacc_list_insert_f64");
                    reveal_strlit("f64");
                }
                Ok("snacc_list_insert_f64")
            },
            Ty::Bool => {
                proof {
                    reveal_strlit("snacc_list_insert_bool");
                    reveal_strlit("bool");
                }
                Ok("snacc_list_insert_bool")
            },
            Ty::Unicode => {
                proof {
                    reveal_strlit("snacc_list_insert_unicode");
                    reveal_strlit("unicode");
                }
                Ok("snacc_list_insert_unicode")
            },
            _ => Err(internal("unsupported scalar list operation")),
        }
    } else if str_eq(operation, "remove") {
        proof { reveal_strlit("remove"); }
        match elem {
            Ty::Int64 => {
                proof {
                    reveal_strlit("snacc_list_remove_i64");
                    reveal_strlit("i64");
                }
                Ok("snacc_list_remove_i64")
            },
            Ty::Byte => {
                proof {
                    reveal_strlit("snacc_list_remove_u8");
                    reveal_strlit("u8");
                }
                Ok("snacc_list_remove_u8")
            },
            Ty::UInt16 => {
                proof {
                    reveal_strlit("snacc_list_remove_u16");
                    reveal_strlit("u16");
                }
                Ok("snacc_list_remove_u16")
            },
            Ty::UInt32 => {
                proof {
                    reveal_strlit("snacc_list_remove_u32");
                    reveal_strlit("u32");
                }
                Ok("snacc_list_remove_u32")
            },
            Ty::UInt64 => {
                proof {
                    reveal_strlit("snacc_list_remove_u64");
                    reveal_strlit("u64");
                }
                Ok("snacc_list_remove_u64")
            },
            Ty::Float32 => {
                proof {
                    reveal_strlit("snacc_list_remove_f32");
                    reveal_strlit("f32");
                }
                Ok("snacc_list_remove_f32")
            },
            Ty::Float64 => {
                proof {
                    reveal_strlit("snacc_list_remove_f64");
                    reveal_strlit("f64");
                }
                Ok("snacc_list_remove_f64")
            },
            Ty::Bool => {
                proof {
                    reveal_strlit("snacc_list_remove_bool");
                    reveal_strlit("bool");
                }
                Ok("snacc_list_remove_bool")
            },
            Ty::Unicode => {
                proof {
                    reveal_strlit("snacc_list_remove_unicode");
                    reveal_strlit("unicode");
                }
                Ok("snacc_list_remove_unicode")
            },
            _ => Err(internal("unsupported scalar list operation")),
        }
    } else {
        Err(internal("unsupported scalar list operation"))
    }
}


/// The runtime key prefix tells scalar key types apart: no two scalar types
/// share one, each is a prefix the map and set runtimes export, and it is
/// the spelling the list runtime uses for the same element type.
pub proof fn lemma_scalar_key_prefix_faithful(a: Ty, b: Ty)
    ensures
        spec_scalar_key_prefix(a) is Some && spec_scalar_key_prefix(a) == spec_scalar_key_prefix(b) ==> a == b,
        spec_scalar_key_prefix(a) matches Some(p) ==> is_scalar_key_prefix(p),
        spec_scalar_key_prefix(a) is Some ==> spec_scalar_key_prefix(a) == spec_list_elem_suffix(a),
{
    reveal_strlit("u8");
    reveal_strlit("u16");
    reveal_strlit("u32");
    reveal_strlit("u64");
    reveal_strlit("i64");
    reveal_strlit("bool");
    reveal_strlit("unicode");
        assert("u8"@ != "u16"@) by { assert("u8"@.len() != "u16"@.len()); }
        assert("u8"@ != "u32"@) by { assert("u8"@.len() != "u32"@.len()); }
        assert("u8"@ != "u64"@) by { assert("u8"@.len() != "u64"@.len()); }
        assert("u8"@ != "i64"@) by { assert("u8"@.len() != "i64"@.len()); }
        assert("u8"@ != "bool"@) by { assert("u8"@.len() != "bool"@.len()); }
        assert("u8"@ != "unicode"@) by { assert("u8"@.len() != "unicode"@.len()); }
        assert("u16"@ != "u32"@) by { assert("u16"@[1] != "u32"@[1]); }
        assert("u16"@ != "u64"@) by { assert("u16"@[1] != "u64"@[1]); }
        assert("u16"@ != "i64"@) by { assert("u16"@[0] != "i64"@[0]); }
        assert("u16"@ != "bool"@) by { assert("u16"@.len() != "bool"@.len()); }
        assert("u16"@ != "unicode"@) by { assert("u16"@.len() != "unicode"@.len()); }
        assert("u32"@ != "u64"@) by { assert("u32"@[1] != "u64"@[1]); }
        assert("u32"@ != "i64"@) by { assert("u32"@[0] != "i64"@[0]); }
        assert("u32"@ != "bool"@) by { assert("u32"@.len() != "bool"@.len()); }
        assert("u32"@ != "unicode"@) by { assert("u32"@.len() != "unicode"@.len()); }
        assert("u64"@ != "i64"@) by { assert("u64"@[0] != "i64"@[0]); }
        assert("u64"@ != "bool"@) by { assert("u64"@.len() != "bool"@.len()); }
        assert("u64"@ != "unicode"@) by { assert("u64"@.len() != "unicode"@.len()); }
        assert("i64"@ != "bool"@) by { assert("i64"@.len() != "bool"@.len()); }
        assert("i64"@ != "unicode"@) by { assert("i64"@.len() != "unicode"@.len()); }
        assert("bool"@ != "unicode"@) by { assert("bool"@.len() != "unicode"@.len()); }
}

} // verus!
