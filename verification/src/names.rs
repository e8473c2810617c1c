//! How diagnostics name a checked type: in its source spelling, with a
//! union member qualified by its union.
use vstd::prelude::*;
use crate::ast::{TypeName, spec_type_name_text};
use crate::text::{concat_str, decimal, decimal_string, decimal_string_u64, digit_char};
use vstd::utf8::encode_utf8;
use crate::ty::{CollectionDef, Ty, TypeDef, Types, spec_ty_from_name};

verus! {

/// The spelling of a built-in scalar or text type, `None` for a type that
/// is named through the table.
pub open spec fn builtin_text(ty: Ty) -> Option<Seq<char>> {
    match ty {
        Ty::Float64 => Some(spec_type_name_text(TypeName::Float64)),
        Ty::Int64 => Some(spec_type_name_text(TypeName::Int64)),
        Ty::Bool => Some(spec_type_name_text(TypeName::Bool)),
        Ty::Nil => Some(spec_type_name_text(TypeName::Nil)),
        Ty::String => Some(spec_type_name_text(TypeName::String)),
        Ty::Unicode => Some(spec_type_name_text(TypeName::Unicode)),
        Ty::Byte => Some(spec_type_name_text(TypeName::Byte)),
        Ty::UInt16 => Some(spec_type_name_text(TypeName::UInt16)),
        Ty::UInt32 => Some(spec_type_name_text(TypeName::UInt32)),
        Ty::UInt64 => Some(spec_type_name_text(TypeName::UInt64)),
        Ty::Float32 => Some(spec_type_name_text(TypeName::Float32)),
        Ty::ViewByte => Some("View<Byte>"@),
        Ty::ViewUnicode => Some("View<Unicode>"@),
        _ => None,
    }
}

/// How deeply nested boxes and collections may be spelled out: every box
/// and collection once.
pub open spec fn display_depth(types: &Types) -> nat {
    types.boxes@.len() + types.collections@.len() + 1
}

/// The name of a user-defined type: a union member is qualified by its
/// union's name.
pub open spec fn user_type_name(types: &Types, i: int) -> Seq<char> {
    match types.defs@[i] {
        TypeDef::UnionMember { name, union, .. } => types.defs@[union.0 as int].spec_name()@ + "."@
            + name@,
        def => def.spec_name()@,
    }
}

/// The spelling of `ty` with at most `depth` nested boxes and collections
/// spelled out; deeper ones are elided as `...`.
pub open spec fn spec_display_within(types: &Types, ty: Ty, depth: nat) -> Seq<char>
    decreases depth, if ty is Sum { 2nat } else { 1nat }, 0nat,
{
    match builtin_text(ty) {
        Some(text) => text,
        None => match ty {
            Ty::User(id) => user_type_name(types, id.0 as int),
            Ty::Sum(id) => sum_text(types, types.sums@[id.0 as int]@, types.sums@[id.0 as int]@.len() as int, depth),
            _ => if depth == 0 {
                "..."@
            } else {
                let d = (depth - 1) as nat;
                match ty {
                    Ty::Box(id) => "Box<"@ + spec_display_within(types, types.boxes@[id.0 as int], d) + ">"@,
                    Ty::Array(id) => match types.collections@[id.0 as int] {
                        CollectionDef::Array { elem, len } => "Array<"@ + spec_display_within(types, elem, d)
                            + ", "@ + decimal(len as nat) + ">"@,
                        _ => "Array<...>"@,
                    },
                    Ty::List(id) => match types.collections@[id.0 as int] {
                        CollectionDef::List { elem } => "List<"@ + spec_display_within(types, elem, d) + ">"@,
                        _ => "List<...>"@,
                    },
                    Ty::View(id) => match types.collections@[id.0 as int] {
                        CollectionDef::View { elem } => "View<"@ + spec_display_within(types, elem, d) + ">"@,
                        _ => "View<...>"@,
                    },
                    Ty::MapOf(id) => match types.collections@[id.0 as int] {
                        CollectionDef::MapOf { key, value } => "Map<"@ + spec_display_within(types, key, d)
                            + ", "@ + spec_display_within(types, value, d) + ">"@,
                        _ => "Map<...>"@,
                    },
                    Ty::SetOf(id) => match types.collections@[id.0 as int] {
                        CollectionDef::SetOf { elem } => "Set<"@ + spec_display_within(types, elem, d) + ">"@,
                        _ => "Set<...>"@,
                    },
                    _ => "..."@,
                }
            },
        },
    }
}

/// The first `n` members of an inline sum joined by ` | `; sums never
/// nest, so a nested one is elided.
pub open spec fn sum_text(types: &Types, members: Seq<Ty>, n: int, depth: nat) -> Seq<char>
    decreases depth, 1nat, if n > 0 { n as nat } else { 0 },
{
    if n <= 0 || n > members.len() {
        Seq::empty()
    } else {
        let last = if members[n - 1] is Sum {
            "..."@
        } else {
            spec_display_within(types, members[n - 1], depth)
        };
        if n == 1 {
            last
        } else {
            sum_text(types, members, n - 1, depth) + " | "@ + last
        }
    }
}

/// The name diagnostics give `ty`: its source spelling.
pub open spec fn spec_display(types: &Types, ty: Ty) -> Seq<char> {
    spec_display_within(types, ty, display_depth(types))
}

impl Types {
    /// The name diagnostics give `ty`: built-in types by their keyword,
    /// user-defined types by their declared name (a union member as
    /// `Union.Member`), inline sums as `A | B`, and boxes and collections
    /// as `Box<T>`, `Array<T, N>`, `List<T>`, `View<T>`, `Map<K, V>`, and
    /// `Set<T>`.
    pub fn display(&self, ty: Ty) -> (r: String)
        requires
            self.wf(),
            self.valid_ty(ty),
            display_depth(self) <= usize::MAX,
        ensures
            r@ == spec_display(self, ty),
    {
        let depth = self.boxes.len() + self.collections.len() + 1;
        display_within(self, ty, depth)
    }
}

fn builtin_name(ty: Ty) -> (r: Option<&'static str>)
    ensures
        match r {
            Some(s) => builtin_text(ty) == Some(s@),
            None => builtin_text(ty) is None,
        },
{
    match ty {
        Ty::Float64 => Some(TypeName::Float64.name()),
        Ty::Int64 => Some(TypeName::Int64.name()),
        Ty::Bool => Some(TypeName::Bool.name()),
        Ty::Nil => Some(TypeName::Nil.name()),
        Ty::String => Some(TypeName::String.name()),
        Ty::Unicode => Some(TypeName::Unicode.name()),
        Ty::Byte => Some(TypeName::Byte.name()),
        Ty::UInt16 => Some(TypeName::UInt16.name()),
        Ty::UInt32 => Some(TypeName::UInt32.name()),
        Ty::UInt64 => Some(TypeName::UInt64.name()),
        Ty::Float32 => Some(TypeName::Float32.name()),
        Ty::ViewByte => Some("View<Byte>"),
        Ty::ViewUnicode => Some("View<Unicode>"),
        _ => None,
    }
}

/// The spelling of `ty` without its type table: a built-in type by name, a
/// collection with its elements elided, and a user type, a sum, or a box
/// by its index.
pub open spec fn spec_bare_text(ty: Ty) -> Seq<char> {
    match builtin_text(ty) {
        Some(text) => text,
        None => match ty {
            Ty::Array(_) => "Array<...>"@,
            Ty::List(_) => "List<...>"@,
            Ty::View(_) => "View<...>"@,
            Ty::MapOf(_) => "Map<...>"@,
            Ty::SetOf(_) => "Set<...>"@,
            Ty::User(id) => "<user type #"@ + decimal(id.0 as nat) + ">"@,
            Ty::Sum(id) => "<sum #"@ + decimal(id.0 as nat) + ">"@,
            Ty::Box(id) => "<box #"@ + decimal(id.0 as nat) + ">"@,
            _ => Seq::empty(),
        },
    }
}

/// A built-in type keyword denotes a type that displays as the keyword,
/// with or without a type table, and distinct keywords denote distinct
/// types.
pub proof fn lemma_keyword_types_display_as_written(types: &Types, n: TypeName, m: TypeName)
    ensures
        spec_bare_text(spec_ty_from_name(n)) == spec_type_name_text(n),
        spec_display(types, spec_ty_from_name(n)) == spec_type_name_text(n),
        spec_ty_from_name(n) == spec_ty_from_name(m) ==> n == m,
{
}

fn numbered(open: &str, index: u32) -> (r: String)
    ensures
        r@ == open@ + decimal(index as nat) + ">"@,
{
    let mut text = String::from_str(open);
    let digits = decimal_string(index as usize);
    text.append(digits.as_str());
    text.append(">");
    text
}

impl Ty {
    /// Spells the type without its table, for inspection; diagnostics name
    /// types through `Types::display`.
    pub fn text(&self) -> (r: String)
        ensures
            r@ == spec_bare_text(*self),
    {
        match builtin_name(*self) {
            Some(name) => String::from_str(name),
            None => match *self {
                Ty::Array(_) => String::from_str("Array<...>"),
                Ty::List(_) => String::from_str("List<...>"),
                Ty::View(_) => String::from_str("View<...>"),
                Ty::MapOf(_) => String::from_str("Map<...>"),
                Ty::SetOf(_) => String::from_str("Set<...>"),
                Ty::User(id) => numbered("<user type #", id.0),
                Ty::Sum(id) => numbered("<sum #", id.0),
                Ty::Box(id) => numbered("<box #", id.0),
                _ => String::new(),
            },
        }
    }
}

fn wrapped(open: &str, inner: String) -> (r: String)
    ensures
        r@ == open@ + inner@ + ">"@,
{
    let mut text = String::from_str(open);
    text.append(inner.as_str());
    text.append(">");
    text
}

fn pair_text(open: &str, first: String, second: String) -> (r: String)
    ensures
        r@ == open@ + first@ + ", "@ + second@ + ">"@,
{
    let mut text = String::from_str(open);
    text.append(first.as_str());
    text.append(", ");
    text.append(second.as_str());
    text.append(">");
    text
}

fn display_within(types: &Types, ty: Ty, depth: usize) -> (r: String)
    requires
        types.wf(),
        types.valid_ty(ty),
    ensures
        r@ == spec_display_within(types, ty, depth as nat),
    decreases depth, if ty is Sum { 2nat } else { 1nat }, 0nat,
{
    match builtin_name(ty) {
        Some(text) => return String::from_str(text),
        None => {},
    }
    match ty {
        Ty::User(id) => {
            proof {
                assert(types.def_wf(id.0 as int));
            }
            match types.def(id) {
                TypeDef::UnionMember { name, union, .. } => {
                    let mut text = concat_str(types.def(*union).name().as_str(), ".");
                    text.append(name.as_str());
                    text
                },
                def => def.name().clone(),
            }
        },
        Ty::Sum(id) => {
            proof {
                assert(types.sum_wf(id.0 as int));
            }
            sum_display(types, types.sum_members(id), depth)
        },
        _ => {
            if depth == 0 {
                return String::from_str("...");
            }
            let d = depth - 1;
            match ty {
                Ty::Box(id) => {
                    proof {
                        assert(types.box_wf(id.0 as int));
                    }
                    wrapped("Box<", display_within(types, types.box_pointee(id), d))
                },
                Ty::Array(id) => {
                    proof {
                        assert(types.collection_wf(id.0 as int));
                    }
                    match types.collection(id) {
                        CollectionDef::Array { elem, len } => {
                            let inner = display_within(types, *elem, d);
                            pair_text("Array<", inner, decimal_string_u64(*len))
                        },
                        _ => String::from_str("Array<...>"),
                    }
                },
                Ty::List(id) => {
                    proof {
                        assert(types.collection_wf(id.0 as int));
                    }
                    match types.collection(id) {
                        CollectionDef::List { elem } => wrapped("List<", display_within(types, *elem, d)),
                        _ => String::from_str("List<...>"),
                    }
                },
                Ty::View(id) => {
                    proof {
                        assert(types.collection_wf(id.0 as int));
                    }
                    match types.collection(id) {
                        CollectionDef::View { elem } => wrapped("View<", display_within(types, *elem, d)),
                        _ => String::from_str("View<...>"),
                    }
                },
                Ty::MapOf(id) => {
                    proof {
                        assert(types.collection_wf(id.0 as int));
                    }
                    match types.collection(id) {
                        CollectionDef::MapOf { key, value } => {
                            let k = display_within(types, *key, d);
                            let v = display_within(types, *value, d);
                            pair_text("Map<", k, v)
                        },
                        _ => String::from_str("Map<...>"),
                    }
                },
                Ty::SetOf(id) => {
                    proof {
                        assert(types.collection_wf(id.0 as int));
                    }
                    match types.collection(id) {
                        CollectionDef::SetOf { elem } => wrapped("Set<", display_within(types, *elem, d)),
                        _ => String::from_str("Set<...>"),
                    }
                },
                _ => String::from_str("..."),
            }
        },
    }
}

fn sum_display(types: &Types, members: &Vec<Ty>, depth: usize) -> (r: String)
    requires
        types.wf(),
        forall|k: int| 0 <= k < members@.len() ==> types.valid_ty(#[trigger] members@[k]),
    ensures
        r@ == sum_text(types, members@, members@.len() as int, depth as nat),
    decreases depth, 1nat, members@.len() + 1,
{
    let mut text = String::new();
    let mut i: usize = 0;
    while i < members.len()
        invariant
            types.wf(),
            forall|k: int| 0 <= k < members@.len() ==> types.valid_ty(#[trigger] members@[k]),
            i <= members@.len(),
            text@ == sum_text(types, members@, i as int, depth as nat),
        decreases members.len() - i,
    {
        if i > 0 {
            text.append(" | ");
        }
        let part = if matches!(members[i], Ty::Sum(_)) {
            String::from_str("...")
        } else {
            display_within(types, members[i], depth)
        };
        text.append(part.as_str());
        i = i + 1;
    }
    text
}

/// The diagnostic for a value of type `found` where `expected` is required.
pub open spec fn mismatch_message(types: &Types, expected: Ty, found: Ty) -> Seq<char> {
    "expected '"@ + spec_display(types, expected) + "', found '"@ + spec_display(types, found) + "'"@
}

/// The text of a type-mismatch diagnostic.
pub fn mismatch(types: &Types, expected: Ty, found: Ty) -> (r: String)
    requires
        types.wf(),
        types.valid_ty(expected),
        types.valid_ty(found),
        display_depth(types) <= usize::MAX,
    ensures
        r@ == mismatch_message(types, expected, found),
{
    let mut text = String::from_str("expected '");
    let e = types.display(expected);
    text.append(e.as_str());
    text.append("', found '");
    let f = types.display(found);
    text.append(f.as_str());
    text.append("'");
    text
}

/// The diagnostic for an arithmetic or comparison operand pair that is
/// not two numbers of one type.
pub open spec fn operands_message(types: &Types, what: Seq<char>, left: Ty, right: Ty) -> Seq<char> {
    what + " operands must be two numbers of the same type, found '"@ + spec_display(types, left) + "' and '"@
        + spec_display(types, right) + "'"@
}

/// The text of a rejected-operand-pair diagnostic.
pub fn operands(types: &Types, what: &str, left: Ty, right: Ty) -> (r: String)
    requires
        types.wf(),
        types.valid_ty(left),
        types.valid_ty(right),
        display_depth(types) <= usize::MAX,
    ensures
        r@ == operands_message(types, what@, left, right),
{
    let mut text = concat_str(what, " operands must be two numbers of the same type, found '");
    let l = types.display(left);
    text.append(l.as_str());
    text.append("' and '");
    let r = types.display(right);
    text.append(r.as_str());
    text.append("'");
    text
}

/// A lowercase hexadecimal digit.
pub open spec fn hex_char(d: nat) -> char {
    if d < 10 {
        digit_char(d)
    } else if d == 10 {
        'a'
    } else if d == 11 {
        'b'
    } else if d == 12 {
        'c'
    } else if d == 13 {
        'd'
    } else if d == 14 {
        'e'
    } else {
        'f'
    }
}

/// Each byte as two lowercase hexadecimal digits, in order.
pub open spec fn hex_text(bytes: Seq<u8>) -> Seq<char>
    decreases bytes.len(),
{
    if bytes.len() == 0 {
        Seq::empty()
    } else {
        let b = bytes.last();
        hex_text(bytes.drop_last()) + seq![hex_char((b / 16) as nat), hex_char((b % 16) as nat)]
    }
}

/// The first `n` type arguments, each spelled as the hexadecimal of its
/// diagnostic name's UTF-8 bytes, joined by `$`.
pub open spec fn encoded_args(types: &Types, args: Seq<Ty>, n: int) -> Seq<char>
    decreases if n > 0 { n as nat } else { 0 },
{
    if n <= 0 || n > args.len() {
        Seq::empty()
    } else {
        let part = hex_text(encode_utf8(spec_display(types, args[n - 1])));
        if n == 1 {
            part
        } else {
            encoded_args(types, args, n - 1) + "$"@ + part
        }
    }
}

/// The symbol of generic `name` specialized at `args`.
pub open spec fn spec_generic_name(types: &Types, name: Seq<char>, args: Seq<Ty>) -> Seq<char> {
    "$snacc$generic$"@ + name + "$"@ + encoded_args(types, args, args.len() as int)
}

/// A hexadecimal digit is never the separator `$`, and each digit spells
/// one value.
proof fn lemma_hex_char(d: nat, e: nat)
    requires
        d < 16,
        e < 16,
    ensures
        hex_char(d) != '$',
        hex_char(d) == hex_char(e) ==> d == e,
{
}

/// Two digits per byte, and no `$` among them.
proof fn lemma_hex_text_shape(bytes: Seq<u8>)
    ensures
        hex_text(bytes).len() == 2 * bytes.len(),
        forall|i: int| 0 <= i < hex_text(bytes).len() ==> #[trigger] hex_text(bytes)[i] != '$',
    decreases bytes.len(),
{
    if bytes.len() > 0 {
        let b = bytes.last();
        lemma_hex_text_shape(bytes.drop_last());
        lemma_hex_char((b / 16) as nat, 0);
        lemma_hex_char((b % 16) as nat, 0);
        let h = hex_text(bytes);
        let p = hex_text(bytes.drop_last());
        assert forall|i: int| 0 <= i < h.len() implies #[trigger] h[i] != '$' by {
            if i < p.len() {
                assert(h[i] == p[i]);
            }
        }
    }
}

/// The hexadecimal spelling of bytes determines the bytes.
proof fn lemma_hex_text_injective(a: Seq<u8>, b: Seq<u8>)
    requires
        hex_text(a) == hex_text(b),
    ensures
        a == b,
    decreases a.len(),
{
    lemma_hex_text_shape(a);
    lemma_hex_text_shape(b);
    if a.len() > 0 {
        let x = a.last();
        let y = b.last();
        let h = hex_text(a);
        let n = h.len();
        lemma_hex_text_shape(a.drop_last());
        lemma_hex_text_shape(b.drop_last());
        assert(hex_text(a.drop_last()) =~= h.subrange(0, n - 2));
        assert(hex_text(b.drop_last()) =~= hex_text(b).subrange(0, n - 2));
        lemma_hex_text_injective(a.drop_last(), b.drop_last());
        assert(h[n - 2] == hex_char((x / 16) as nat));
        assert(hex_text(b)[n - 2] == hex_char((y / 16) as nat));
        assert(h[n - 1] == hex_char((x % 16) as nat));
        assert(hex_text(b)[n - 1] == hex_char((y % 16) as nat));
        lemma_hex_char((x / 16) as nat, (y / 16) as nat);
        lemma_hex_char((x % 16) as nat, (y % 16) as nat);
        assert(x == y);
        assert(a =~= a.drop_last().push(x));
        assert(b =~= b.drop_last().push(y));
    }
}

/// Equal encodings of the first `n` arguments of two lists come from
/// arguments that display alike.
proof fn lemma_encoded_args_parts(types: &Types, a: Seq<Ty>, b: Seq<Ty>, n: int)
    requires
        0 <= n <= a.len(),
        n <= b.len(),
        encoded_args(types, a, n) == encoded_args(types, b, n),
    ensures
        forall|i: int| #![trigger a[i]] 0 <= i < n ==> spec_display(types, a[i]) == spec_display(types, b[i]),
    decreases n,
{
    if n > 0 {
        let da = spec_display(types, a[n - 1]);
        let db = spec_display(types, b[n - 1]);
        let pa = hex_text(encode_utf8(da));
        let pb = hex_text(encode_utf8(db));
        lemma_hex_text_shape(encode_utf8(da));
        lemma_hex_text_shape(encode_utf8(db));
        if n == 1 {
            assert(pa == pb);
        } else {
            let ea = encoded_args(types, a, n - 1);
            let eb = encoded_args(types, b, n - 1);
            let w = encoded_args(types, a, n);
            reveal_strlit("$");
            assert(w == ea + "$"@ + pa);
            assert(w == eb + "$"@ + pb);
            if pa.len() < pb.len() {
                let k = w.len() - pa.len() - 1;
                assert(w[k] == '$');
                assert(w[k] == pb[k - (w.len() - pb.len())]);
            }
            if pb.len() < pa.len() {
                let k = w.len() - pb.len() - 1;
                assert(w[k] == '$');
                assert(w[k] == pa[k - (w.len() - pa.len())]);
            }
            assert(pa =~= w.subrange(w.len() - pa.len(), w.len() as int));
            assert(pb =~= w.subrange(w.len() - pb.len(), w.len() as int));
            assert(ea =~= w.subrange(0, ea.len() as int));
            assert(eb =~= w.subrange(0, eb.len() as int));
            lemma_encoded_args_parts(types, a, b, n - 1);
        }
        lemma_hex_text_injective(encode_utf8(da), encode_utf8(db));
        vstd::utf8::encode_utf8_decode_utf8(da);
        vstd::utf8::encode_utf8_decode_utf8(db);
        assert(da == db);
    }
}

/// Specializing one generic at two argument lists of the same length gives
/// one symbol only when the arguments display alike, position by position:
/// distinct diagnostic names never collide in the symbol.
pub proof fn lemma_generic_name_distinguishes_arguments(types: &Types, name: Seq<char>, a: Seq<Ty>, b: Seq<Ty>)
    requires
        a.len() == b.len(),
        spec_generic_name(types, name, a) == spec_generic_name(types, name, b),
    ensures
        forall|i: int| #![trigger a[i]] 0 <= i < a.len() ==> spec_display(types, a[i]) == spec_display(types, b[i]),
{
    let head = "$snacc$generic$"@ + name + "$"@;
    let ea = encoded_args(types, a, a.len() as int);
    let eb = encoded_args(types, b, b.len() as int);
    let w = spec_generic_name(types, name, a);
    assert(w == head + ea);
    assert(ea =~= w.subrange(head.len() as int, w.len() as int));
    assert(eb =~= w.subrange(head.len() as int, w.len() as int));
    lemma_encoded_args_parts(types, a, b, a.len() as int);
}

fn hex_digit(d: u8) -> (r: &'static str)
    requires
        d < 16,
    ensures
        r@ == seq![hex_char(d as nat)],
{
    proof {
        reveal_strlit("0");
        reveal_strlit("1");
        reveal_strlit("2");
        reveal_strlit("3");
        reveal_strlit("4");
        reveal_strlit("5");
        reveal_strlit("6");
        reveal_strlit("7");
        reveal_strlit("8");
        reveal_strlit("9");
        reveal_strlit("a");
        reveal_strlit("b");
        reveal_strlit("c");
        reveal_strlit("d");
        reveal_strlit("e");
        reveal_strlit("f");
    }
    let r = match d {
        0 => "0",
        1 => "1",
        2 => "2",
        3 => "3",
        4 => "4",
        5 => "5",
        6 => "6",
        7 => "7",
        8 => "8",
        9 => "9",
        10 => "a",
        11 => "b",
        12 => "c",
        13 => "d",
        14 => "e",
        _ => "f",
    };
    assert(r@ =~= seq![hex_char(d as nat)]);
    r
}

fn append_hex(text: &mut String, bytes: &[u8])
    ensures
        final(text)@ == old(text)@ + hex_text(bytes@),
{
    let ghost start = text@;
    let mut i: usize = 0;
    while i < bytes.len()
        invariant
            i <= bytes@.len(),
            text@ == start + hex_text(bytes@.take(i as int)),
        decreases bytes.len() - i,
    {
        let b = bytes[i];
        text.append(hex_digit(b / 16));
        text.append(hex_digit(b % 16));
        proof {
            let next = bytes@.take(i + 1);
            assert(next.drop_last() =~= bytes@.take(i as int));
            assert(next.last() == b);
        }
        i = i + 1;
    }
    assert(bytes@.take(bytes@.len() as int) =~= bytes@);
}

/// The symbol of a generic function or type specialized at `args`: the
/// generic's name, then each argument's diagnostic name as the hexadecimal
/// of its UTF-8 bytes, joined by `$`.
pub fn generic_name(types: &Types, name: &str, args: &[Ty]) -> (r: String)
    requires
        types.wf(),
        forall|i: int| 0 <= i < args@.len() ==> types.valid_ty(#[trigger] args@[i]),
        display_depth(types) <= usize::MAX,
    ensures
        r@ == spec_generic_name(types, name@, args@),
{
    let mut text = concat_str("$snacc$generic$", name);
    text.append("$");
    let ghost head = text@;
    let mut i: usize = 0;
    while i < args.len()
        invariant
            types.wf(),
            display_depth(types) <= usize::MAX,
            forall|k: int| 0 <= k < args@.len() ==> types.valid_ty(#[trigger] args@[k]),
            i <= args@.len(),
            text@ == head + encoded_args(types, args@, i as int),
        decreases args.len() - i,
    {
        if i > 0 {
            text.append("$");
        }
        let spelled = types.display(args[i]);
        append_hex(&mut text, spelled.as_str().as_bytes());
        i = i + 1;
        proof {
            assert(text@ =~= head + encoded_args(types, args@, i as int));
        }
    }
    text
}

} // verus!
