//! Pieces of LLVM IR text: symbols, types, string constants, and the numbering of
//! instructions.
use crate::ast::{TupleField, TyKw, TypeSpec};
use crate::text::{
    all_digits, cat2, chars_of, digits_value, has_prefix, is_digit, numeral, same, sep_at,
    starts_with, string_of,
};
use vstd::prelude::*;
use vstd::utf8::encode_utf8;

verus! {

// ---------- names and types ----------
/// The name of a type, as messages give it.
pub open spec fn ty_text(t: TypeSpec) -> Seq<char> {
    match t {
        TypeSpec::Named(k) => match k {
            TyKw::I8 => "i8"@,
            TyKw::I16 => "i16"@,
            TyKw::I32 => "i32"@,
            TyKw::I64 => "i64"@,
            TyKw::U8 => "u8"@,
            TyKw::U16 => "u16"@,
            TyKw::U32 => "u32"@,
            TyKw::U64 => "u64"@,
            TyKw::F32 => "f32"@,
            TyKw::F64 => "f64"@,
            TyKw::Bool => "bool"@,
            TyKw::Char => "char"@,
            TyKw::Str => "string"@,
            TyKw::Void => "void"@,
            _ => "类型"@,
        },
        TypeSpec::Tuple(_) => "元组"@,
        TypeSpec::Struct(_) => "struct"@,
        TypeSpec::Table(_) => "table<T>"@,
    }
}

/// The name of a type.
pub fn type_name_of(t: &TypeSpec) -> (r: &'static str)
    ensures
        r@ == ty_text(*t),
{
    match t {
        TypeSpec::Named(k) => match k {
            TyKw::I8 => "i8",
            TyKw::I16 => "i16",
            TyKw::I32 => "i32",
            TyKw::I64 => "i64",
            TyKw::U8 => "u8",
            TyKw::U16 => "u16",
            TyKw::U32 => "u32",
            TyKw::U64 => "u64",
            TyKw::F32 => "f32",
            TyKw::F64 => "f64",
            TyKw::Bool => "bool",
            TyKw::Char => "char",
            TyKw::Str => "string",
            TyKw::Void => "void",
            _ => "类型",
        },
        TypeSpec::Tuple(_) => "元组",
        TypeSpec::Struct(_) => "struct",
        TypeSpec::Table(_) => "table<T>",
    }
}

/// The LLVM type of a named type; the categories that only analysis knows have none.
pub open spec fn named_llvm(k: TyKw) -> Option<Seq<char>> {
    match k {
        TyKw::I8 | TyKw::U8 | TyKw::Trit => Some("i8"@),
        TyKw::I16 | TyKw::U16 => Some("i16"@),
        TyKw::I32 | TyKw::U32 | TyKw::Char => Some("i32"@),
        TyKw::I64 | TyKw::U64 => Some("i64"@),
        TyKw::F32 => Some("float"@),
        TyKw::F64 => Some("double"@),
        TyKw::Bool => Some("i1"@),
        TyKw::Str | TyKw::Table => Some("ptr"@),
        TyKw::Void => Some("void"@),
        TyKw::Num | TyKw::Text | TyKw::Misc | TyKw::Code => None,
    }
}

pub fn named_llvm_of(k: TyKw) -> (r: Option<&'static str>)
    ensures
        match r {
            Some(s) => named_llvm(k) == Some(s@),
            None => named_llvm(k) is None,
        },
{
    match k {
        TyKw::I8 | TyKw::U8 | TyKw::Trit => Some("i8"),
        TyKw::I16 | TyKw::U16 => Some("i16"),
        TyKw::I32 | TyKw::U32 | TyKw::Char => Some("i32"),
        TyKw::I64 | TyKw::U64 => Some("i64"),
        TyKw::F32 => Some("float"),
        TyKw::F64 => Some("double"),
        TyKw::Bool => Some("i1"),
        TyKw::Str | TyKw::Table => Some("ptr"),
        TyKw::Void => Some("void"),
        TyKw::Num | TyKw::Text | TyKw::Misc | TyKw::Code => None,
    }
}

/// The text of the zero of an LLVM type.
pub open spec fn zero_text(ty: Seq<char>) -> Seq<char> {
    if ty == "ptr"@ {
        "null"@
    } else if ty == "double"@ || ty == "float"@ {
        "0.0"@
    } else if ty == "i1"@ {
        "false"@
    } else {
        "0"@
    }
}

/// The zero of an LLVM type.
pub fn zero_value(llvm_ty: &str) -> (r: &'static str)
    ensures
        r@ == zero_text(llvm_ty@),
{
    if same(llvm_ty, "ptr") {
        "null"
    } else if same(llvm_ty, "double") || same(llvm_ty, "float") {
        "0.0"
    } else if same(llvm_ty, "i1") {
        "false"
    } else {
        "0"
    }
}

/// The LLVM name of a variable.
pub fn mangle(name: &str) -> (r: String)
    ensures
        r@ == "%"@ + name@,
{
    cat2("%", name)
}

/// `s[from..]` with every `::` replaced by `$`, taken from the left.
pub open spec fn dollars(s: Seq<char>, from: int) -> Seq<char>
    decreases s.len() - from,
{
    if from < 0 || from >= s.len() {
        Seq::empty()
    } else if sep_at(s, from) {
        seq!['$'] + dollars(s, from + 2)
    } else {
        seq![s[from]] + dollars(s, from + 1)
    }
}

/// The LLVM symbol of a function: its full name with `$` for `::`.
pub fn ns_symbol(full_name: &str) -> (r: String)
    ensures
        r@ == dollars(full_name@, 0),
{
    let v = chars_of(full_name);
    let n: usize = v.len();
    let mut out = String::new();
    let mut i: usize = 0;
    assert(out@ + dollars(full_name@, 0) =~= dollars(full_name@, 0));
    while i < n
        invariant
            n == v@.len(),
            v@ == full_name@,
            i <= n,
            out@ + dollars(full_name@, i as int) == dollars(full_name@, 0),
        decreases n - i,
    {
        let ghost before = out@;
        if i + 1 < n && v[i] == ':' && v[i + 1] == ':' {
            out.push('$');
            assert(out@ + dollars(full_name@, i + 2) =~= before + dollars(full_name@, i as int));
            i = i + 2;
        } else {
            out.push(v[i]);
            assert(out@ + dollars(full_name@, i + 1) =~= before + dollars(full_name@, i as int));
            i = i + 1;
        }
    }
    assert(out@ + dollars(full_name@, i as int) =~= out@);
    out
}

/// The width of the elements that a table constructor of that name makes.
pub open spec fn elem_size(name: Seq<char>) -> Option<i64> {
    if name == "table_new_i64"@ || name == "table_new_f64"@ || name == "table_new_string"@ {
        Some(8i64)
    } else if name == "table_new_bool"@ {
        Some(1i64)
    } else {
        None
    }
}

/// The element width, in bytes, behind the name of a table constructor.
pub fn table_new_elem_size(name: &str) -> (r: Option<i64>)
    ensures
        r == elem_size(name@),
{
    if same(name, "table_new_i64") || same(name, "table_new_f64") || same(
        name,
        "table_new_string",
    ) {
        Some(8)
    } else if same(name, "table_new_bool") {
        Some(1)
    } else {
        None
    }
}

/// The suffix of the table functions for an LLVM element type.
pub open spec fn elem_suffix(ty: Seq<char>) -> Seq<char> {
    if ty == "i64"@ {
        "i64"@
    } else if ty == "double"@ {
        "f64"@
    } else if ty == "ptr"@ {
        "string"@
    } else if ty == "i1"@ {
        "bool"@
    } else {
        "i64"@
    }
}

/// The suffix of the table functions for an LLVM element type.
pub fn table_elem_suffix(llvm_ty: &str) -> (r: &'static str)
    ensures
        r@ == elem_suffix(llvm_ty@),
{
    if same(llvm_ty, "i64") {
        "i64"
    } else if same(llvm_ty, "double") {
        "f64"
    } else if same(llvm_ty, "ptr") {
        "string"
    } else if same(llvm_ty, "i1") {
        "bool"
    } else {
        "i64"
    }
}

// ---------- numbers in text ----------
/// What parsing `s` as an unsigned number up to `max` gives: an optional `+`, then digits.
pub open spec fn parse_unsigned(s: Seq<char>, max: int) -> Option<int> {
    if s.len() > 0 && s[0] == '-' {
        None
    } else {
        match numeral(s) {
            Some(n) => if n <= max {
                Some(n)
            } else {
                None
            },
            None => None,
        }
    }
}

fn parse_up_to(s: &str, max: u64) -> (r: Option<u64>)
    ensures
        match r {
            Some(n) => parse_unsigned(s@, max as int) == Some(n as int),
            None => parse_unsigned(s@, max as int) is None,
        },
{
    let v = chars_of(s);
    let n: usize = v.len();
    if n > 0 && v[0] == '-' {
        return None;
    }
    let signed: bool = n > 0 && v[0] == '+';
    let from: usize = if signed {
        1
    } else {
        0
    };
    let ghost ds = v@.skip(from as int);
    assert(signed ==> ds == s@.skip(1));
    assert(!signed ==> ds =~= s@);
    if from == n {
        return None;
    }
    let limit: u128 = 0x1_0000_0000_0000_0000u128;
    let mut acc: u128 = 0;
    let mut i: usize = from;
    let mut over: bool = false;
    while i < n
        invariant
            from <= i <= n,
            n == v@.len(),
            v@ == s@,
            n > 0 ==> s@[0] != '-',
            signed == (n > 0 && s@[0] == '+'),
            from == (if signed {
                1int
            } else {
                0int
            }),
            ds == v@.skip(from as int),
            signed ==> ds == s@.skip(1),
            !signed ==> ds == s@,
            limit == 0x1_0000_0000_0000_0000u128,
            forall|j: int| 0 <= j < i - from ==> is_digit(#[trigger] ds[j]),
            !over ==> acc == digits_value(ds.take(i - from)) && acc < limit,
            over ==> digits_value(ds.take(i - from)) >= limit,
        decreases n - i,
    {
        let c: char = v[i];
        assert(c == ds[i - from]);
        if !(c >= '0' && c <= '9') {
            assert(!is_digit(ds[i - from]));
            return None;
        }
        proof {
            assert(ds.take(i + 1 - from).drop_last() =~= ds.take(i - from));
            assert(ds.take(i + 1 - from).last() == c);
        }
        if !over {
            acc = acc * 10 + (c as u32 - 48) as u128;
            if acc >= limit {
                over = true;
            }
        }
        i = i + 1;
    }
    assert(ds.take(n - from) =~= ds);
    assert(all_digits(ds));
    if over || acc > max as u128 {
        return None;
    }
    Some(acc as u64)
}

/// What parsing `s` as a `usize` gives.
pub open spec fn parse_size(s: Seq<char>) -> Option<int> {
    parse_unsigned(s, usize::MAX as int)
}

fn parse_usize(s: &str) -> (r: Option<usize>)
    ensures
        match r {
            Some(n) => parse_size(s@) == Some(n as int),
            None => parse_size(s@) is None,
        },
{
    match parse_up_to(s, usize::MAX as u64) {
        Some(n) => Some(n as usize),
        None => None,
    }
}

/// Parses a `u16`.
pub fn parse_u16(s: &str) -> (r: Option<u16>)
    ensures
        match r {
            Some(n) => parse_unsigned(s@, u16::MAX as int) == Some(n as int),
            None => parse_unsigned(s@, u16::MAX as int) is None,
        },
{
    match parse_up_to(s, u16::MAX as u64) {
        Some(n) => Some(n as u16),
        None => None,
    }
}

/// Parses a `u32`.
pub fn parse_u32(s: &str) -> (r: Option<u32>)
    ensures
        match r {
            Some(n) => parse_unsigned(s@, u32::MAX as int) == Some(n as int),
            None => parse_unsigned(s@, u32::MAX as int) is None,
        },
{
    match parse_up_to(s, u32::MAX as u64) {
        Some(n) => Some(n as u32),
        None => None,
    }
}

// ---------- tuple fields and array types ----------
/// The position of the first field called `access`, from position `i` on.
pub open spec fn named_field(fields: Seq<TupleField>, access: Seq<char>, i: int) -> Option<int>
    decreases fields.len() - i,
{
    if i < 0 || i >= fields.len() {
        None
    } else if fields[i].name is Some && fields[i].name->0@ == access {
        Some(i)
    } else {
        named_field(fields, access, i + 1)
    }
}

/// The position of the field that `access` means: a number from 0, `Item` and a number from
/// 1, or a name.
pub open spec fn field_index(ty: TypeSpec, access: Seq<char>) -> Option<int> {
    match ty {
        TypeSpec::Tuple(fields) => {
            let n = fields@.len();
            match parse_size(access) {
                Some(i) => if i < n {
                    Some(i)
                } else {
                    None
                },
                None => if starts_with(access, "Item"@) && parse_size(access.skip(4)) is Some {
                    let i = parse_size(access.skip(4))->0;
                    if 1 <= i <= n {
                        Some(i - 1)
                    } else {
                        None
                    }
                } else {
                    named_field(fields@, access, 0)
                },
            }
        },
        _ => None,
    }
}

/// The position of a tuple field.
pub fn tuple_field_index(tuple_ty: &TypeSpec, access: &str) -> (r: Option<usize>)
    ensures
        match r {
            Some(i) => field_index(*tuple_ty, access@) == Some(i as int) && (tuple_ty matches TypeSpec::Tuple(f)
                ==> i < f@.len()),
            None => field_index(*tuple_ty, access@) is None,
        },
{
    let fields = match tuple_ty {
        TypeSpec::Tuple(f) => f,
        _ => return None,
    };
    let n: usize = fields.len();
    match parse_usize(access) {
        Some(i) => {
            return if i < n {
                Some(i)
            } else {
                None
            };
        },
        None => {},
    }
    proof {
        reveal_strlit("Item");
    }
    if has_prefix(access, "Item") {
        let v = chars_of(access);
        let rest = string_of(&v, 4, v.len());
        assert(rest@ =~= access@.skip(4));
        match parse_usize(rest.as_str()) {
            Some(i) => {
                return if 1 <= i && i <= n {
                    Some(i - 1)
                } else {
                    None
                };
            },
            None => {},
        }
    }
    for i in 0..n
        invariant
            n == fields@.len(),
            named_field(fields@, access@, 0) == named_field(fields@, access@, i as int),
            parse_size(access@) is None,
            !(starts_with(access@, "Item"@) && parse_size(access@.skip(4)) is Some),
            *tuple_ty == TypeSpec::Tuple(*fields),
    {
        match &fields[i].name {
            Some(name) => {
                if same(name.as_str(), access) {
                    return Some(i);
                }
            },
            None => {},
        }
    }
    None
}

/// Whether ` x ` stands at position `i`.
pub open spec fn times_at(s: Seq<char>, i: int) -> bool {
    0 <= i && i + 2 < s.len() && s[i] == ' ' && s[i + 1] == 'x' && s[i + 2] == ' '
}

/// The first position from `i` on where ` x ` stands.
pub open spec fn find_times(s: Seq<char>, i: int) -> Option<int>
    decreases s.len() - i,
{
    if i < 0 || i >= s.len() {
        None
    } else if times_at(s, i) {
        Some(i)
    } else {
        find_times(s, i + 1)
    }
}

/// The LLVM types that an array can hold.
pub open spec fn scalar_ty(t: Seq<char>) -> bool {
    t == "i1"@ || t == "i8"@ || t == "i16"@ || t == "i32"@ || t == "i64"@ || t == "float"@ || t
        == "double"@ || t == "ptr"@
}

/// The length and the element type of an array type `[N x T]`.
pub open spec fn array_shape(s: Seq<char>) -> Option<(int, Seq<char>)> {
    if s.len() == 0 || s[0] != '[' {
        None
    } else {
        let rest = s.skip(1);
        match find_times(rest, 0) {
            Some(k) => {
                let tail = rest.skip(k + 3);
                match parse_size(rest.take(k)) {
                    Some(n) => if tail.len() > 0 && tail.last() == ']' && scalar_ty(
                        tail.drop_last(),
                    ) {
                        Some((n, tail.drop_last()))
                    } else {
                        None
                    },
                    None => None,
                }
            },
            None => None,
        }
    }
}

proof fn lemma_find_times(s: Seq<char>, i: int)
    requires
        0 <= i,
    ensures
        find_times(s, i) is Some ==> i <= find_times(s, i)->0 && times_at(s, find_times(s, i)->0),
    decreases s.len() - i,
{
    if i < s.len() && !times_at(s, i) {
        lemma_find_times(s, i + 1);
    }
}

/// The length and the element type of an array type `[N x T]`; `None` for any other type.
pub fn parse_array_shape(arr_ty: &str) -> (r: Option<(usize, String)>)
    ensures
        match r {
            Some((n, t)) => array_shape(arr_ty@) == Some((n as int, t@)),
            None => array_shape(arr_ty@) is None,
        },
{
    let v = chars_of(arr_ty);
    let len: usize = v.len();
    if len == 0 || v[0] != '[' {
        return None;
    }
    let ghost rest = arr_ty@.skip(1);
    let mut k: usize = 0;
    let mut found: bool = false;
    while k + 1 < len && !found
        invariant
            len == v@.len(),
            v@ == arr_ty@,
            len >= 1,
            k < len,
            rest == arr_ty@.skip(1),
            found ==> find_times(rest, 0) == Some(k as int),
            !found ==> find_times(rest, 0) == find_times(rest, k as int),
        decreases
            if found {
                0
            } else {
                len - k
            },
    {
        if len - k > 3 && v[k + 1] == ' ' && v[k + 2] == 'x' && v[k + 3] == ' ' {
            assert(times_at(rest, k as int));
            found = true;
        } else {
            assert(!times_at(rest, k as int));
            k = k + 1;
        }
    }
    if !found {
        assert(find_times(rest, k as int) is None);
        return None;
    }
    proof {
        lemma_find_times(rest, 0);
    }
    let num = string_of(&v, 1, k + 1);
    assert(num@ =~= rest.take(k as int));
    let ghost tail = rest.skip(k + 3);
    assert(tail =~= arr_ty@.skip(k + 4));
    let n: usize = match parse_usize(num.as_str()) {
        Some(n) => n,
        None => return None,
    };
    if len <= k + 4 || v[len - 1] != ']' {
        assert(tail.len() == 0 || tail.last() != ']');
        return None;
    }
    let elem = string_of(&v, k + 4, len - 1);
    assert(elem@ =~= tail.drop_last());
    let e = elem.as_str();
    if same(e, "i1") || same(e, "i8") || same(e, "i16") || same(e, "i32") || same(e, "i64") || same(
        e,
        "float",
    ) || same(e, "double") || same(e, "ptr") {
        Some((n, elem))
    } else {
        None
    }
}

/// The element type of an array type.
pub open spec fn array_elem(s: Seq<char>) -> Option<Seq<char>> {
    match array_shape(s) {
        Some((n, t)) => Some(t),
        None => None,
    }
}

/// The element type of an array type; `None` for any other type.
pub fn parse_array_elem_ty(arr_ty: &str) -> (r: Option<String>)
    ensures
        match r {
            Some(t) => array_elem(arr_ty@) == Some(t@),
            None => array_elem(arr_ty@) is None,
        },
{
    match parse_array_shape(arr_ty) {
        Some((n, t)) => Some(t),
        None => None,
    }
}

// ---------- string constants ----------
pub open spec fn upper_hex(d: int) -> char {
    if d < 10 {
        ('0' as int + d) as char
    } else {
        ('A' as int + (d - 10)) as char
    }
}

/// How a string constant shows a byte: as it is where it can be printed, else by its number
/// in base sixteen.
pub open spec fn escaped_byte(b: u8) -> Seq<char> {
    if 0x20 <= b <= 0x7e && b != 0x22 && b != 0x5c {
        seq![b as char]
    } else {
        seq!['\\', upper_hex(b as int / 16), upper_hex(b as int % 16)]
    }
}

/// The first `n` bytes as a string constant shows them.
pub open spec fn escaped(bytes: Seq<u8>, n: nat) -> Seq<char>
    decreases n,
{
    if n == 0 || n > bytes.len() {
        Seq::empty()
    } else {
        escaped(bytes, (n - 1) as nat) + escaped_byte(bytes[n - 1])
    }
}

/// The bytes of a string constant: those of the string and a NUL.
pub open spec fn constant_bytes(s: Seq<char>) -> Seq<u8> {
    encode_utf8(s).push(0u8)
}

pub open spec fn constant_text(s: Seq<char>) -> Seq<char> {
    escaped(constant_bytes(s), constant_bytes(s).len())
}

fn hex_char(d: u8) -> (c: char)
    requires
        d < 16,
    ensures
        c == upper_hex(d as int),
{
    if d < 10 {
        (48 + d) as char
    } else {
        (55 + d) as char
    }
}

/// The bytes of a string constant in number, and its text.
pub fn escape_ir_string(s: &str) -> (r: (usize, String))
    ensures
        r.0 == constant_bytes(s@).len(),
        r.1@ == constant_text(s@),
{
    let mut bytes: Vec<u8> = Vec::new();
    let raw = s.as_bytes();
    for i in 0..raw.len()
        invariant
            raw@ == encode_utf8(s@),
            bytes@ == raw@.take(i as int),
    {
        bytes.push(raw[i]);
        assert(raw@.take(i + 1) =~= raw@.take(i as int).push(raw@[i as int]));
    }
    assert(raw@.take(raw@.len() as int) =~= raw@);
    bytes.push(0);
    let mut out = String::new();
    for i in 0..bytes.len()
        invariant
            bytes@ == constant_bytes(s@),
            out@ == escaped(bytes@, i as nat),
    {
        let b: u8 = bytes[i];
        let ghost before = out@;
        if 0x20 <= b && b <= 0x7e && b != 0x22 && b != 0x5c {
            out.push(b as char);
            assert(out@ =~= before + escaped_byte(b));
        } else {
            out.push('\\');
            out.push(hex_char(b / 16));
            out.push(hex_char(b % 16));
            assert(out@ =~= before + escaped_byte(b));
        }
    }
    (bytes.len(), out)
}

// ---------- laws ----------
/// The value of a digit in base sixteen.
pub open spec fn hex_value(c: char) -> int {
    if '0' <= c <= '9' {
        c as int - '0' as int
    } else {
        c as int - 'A' as int + 10
    }
}

/// The bytes that the text of a string constant stands for.
pub open spec fn unescaped(t: Seq<char>) -> Seq<u8>
    decreases t.len(),
{
    if t.len() == 0 {
        Seq::empty()
    } else if t[0] == '\\' && t.len() >= 3 {
        seq![(hex_value(t[1]) * 16 + hex_value(t[2])) as u8] + unescaped(t.skip(3))
    } else {
        seq![t[0] as u8] + unescaped(t.skip(1))
    }
}

proof fn lemma_unescaped_byte(b: u8, rest: Seq<char>)
    ensures
        unescaped(escaped_byte(b) + rest) == seq![b] + unescaped(rest),
{
    let t = escaped_byte(b) + rest;
    if 0x20 <= b <= 0x7e && b != 0x22 && b != 0x5c {
        assert(t.skip(1) =~= rest);
        assert(t[0] == b as char);
    } else {
        assert(t.skip(3) =~= rest);
        assert(t[0] == '\\' && t[1] == upper_hex(b as int / 16) && t[2] == upper_hex(
            b as int % 16,
        ));
        assert(hex_value(t[1]) * 16 + hex_value(t[2]) == b);
    }
}

proof fn lemma_unescaped(bytes: Seq<u8>, n: nat, rest: Seq<char>)
    requires
        n <= bytes.len(),
    ensures
        unescaped(escaped(bytes, n) + rest) == bytes.take(n as int) + unescaped(rest),
    decreases n,
{
    if n > 0 {
        let b = bytes[n - 1];
        let m = (n - 1) as nat;
        assert(escaped(bytes, n) + rest =~= escaped(bytes, m) + (escaped_byte(b) + rest));
        lemma_unescaped(bytes, m, escaped_byte(b) + rest);
        lemma_unescaped_byte(b, rest);
        assert(bytes.take(m as int) + (seq![b] + unescaped(rest)) =~= bytes.take(n as int)
            + unescaped(rest));
    } else {
        assert(escaped(bytes, n) + rest =~= rest);
        assert(bytes.take(0) + unescaped(rest) =~= unescaped(rest));
    }
}

/// The text of a string constant stands for the bytes of the string and the NUL behind them,
/// so its length is the one that is given with it.
pub proof fn law_constants_read_back(s: Seq<char>)
    ensures
        unescaped(constant_text(s)) == constant_bytes(s),
{
    let bytes = constant_bytes(s);
    lemma_unescaped(bytes, bytes.len(), Seq::empty());
    assert(constant_text(s) + Seq::<char>::empty() =~= constant_text(s));
    assert(bytes.take(bytes.len() as int) + Seq::<u8>::empty() =~= bytes);
}

/// A symbol with `::` for every `$`.
pub open spec fn undollars(t: Seq<char>) -> Seq<char>
    decreases t.len(),
{
    if t.len() == 0 {
        Seq::empty()
    } else if t[0] == '$' {
        seq![':', ':'] + undollars(t.skip(1))
    } else {
        seq![t[0]] + undollars(t.skip(1))
    }
}

proof fn lemma_undollars(s: Seq<char>, from: int)
    requires
        0 <= from <= s.len(),
        !s.contains('$'),
    ensures
        undollars(dollars(s, from)) == s.skip(from),
    decreases s.len() - from,
{
    if from < s.len() {
        let t = dollars(s, from);
        if sep_at(s, from) {
            lemma_undollars(s, from + 2);
            assert(t.skip(1) =~= dollars(s, from + 2));
            assert(seq![':', ':'] + s.skip(from + 2) =~= s.skip(from));
        } else {
            lemma_undollars(s, from + 1);
            assert(s[from] != '$');
            assert(t.skip(1) =~= dollars(s, from + 1));
            assert(seq![s[from]] + s.skip(from + 1) =~= s.skip(from));
        }
    } else {
        assert(s.skip(from) =~= Seq::<char>::empty());
    }
}

/// Functions with different names have different symbols; a name holds no `$`.
pub proof fn law_symbols_differ(a: Seq<char>, b: Seq<char>)
    requires
        !a.contains('$'),
        !b.contains('$'),
        a != b,
    ensures
        dollars(a, 0) != dollars(b, 0),
{
    lemma_undollars(a, 0);
    lemma_undollars(b, 0);
    assert(a.skip(0) =~= a);
    assert(b.skip(0) =~= b);
}

proof fn lemma_dollars(s: Seq<char>, from: int, i: int)
    requires
        0 <= from <= s.len(),
    ensures
        !sep_at(dollars(s, from), i),
        from < s.len() ==> dollars(s, from).len() > 0 && dollars(s, from)[0] == (if sep_at(
            s,
            from,
        ) {
            '$'
        } else {
            s[from]
        }),
    decreases s.len() - from,
{
    if from < s.len() {
        let next = if sep_at(s, from) {
            from + 2
        } else {
            from + 1
        };
        lemma_dollars(s, next, i - 1);
        let rest = dollars(s, next);
        let all = dollars(s, from);
        assert(all.skip(1) =~= rest);
        if sep_at(all, i) {
            if i > 0 {
                assert(rest[i - 1] == all[i] && rest[i] == all[i + 1]);
                assert(sep_at(rest, i - 1));
            } else {
                assert(all[1] == rest[0]);
                lemma_dollars(s, next, 0);
            }
        }
    }
}

/// No `::` is left in a symbol.
pub proof fn law_symbols_have_no_separator(s: Seq<char>, i: int)
    ensures
        !sep_at(dollars(s, 0), i),
{
    lemma_dollars(s, 0, i);
}

} // verus!
