//! Where the code ends the program, and what the texts of types and symbols stand for.
use crate::ast::{FnDef, Sem, TupleField, TyKw, TypeSpec};
use crate::emit::{
    alloca, bind, bound, label, library_call, line, mark, put, reg, start, string_const, GenV,
};
use crate::flow::{
    fork, lemma_begins, lemma_fork_text, lemma_label, lemma_more, lemma_opens_end, one_word, turns,
};
use crate::frames::{begins, law_bound_is_found};
use crate::irtext::{
    array_shape, dollars, elem_suffix, field_index, find_times, named_field, named_llvm, parse_size,
    scalar_ty, times_at,
};
use crate::lower::{
    bind_params_code, bounds_format, checked_at_code, flag_check_code, runtime_error_code,
    table_len_code, ty_code,
};
use crate::llvm::half;
use crate::text::{is_digit, lemma_nat_dec_value, nat_dec, sep_at};
use vstd::prelude::*;

verus! {

// ---------- guards ----------
/// Whether the code ends the program with a complaint where `x` is `bad`, and goes on behind the
/// text where it is not: `k` is where it decides, and at `a` the complaint begins.
pub open spec fn guards(
    text: Seq<char>,
    k: GenV,
    x: Seq<char>,
    bad: bool,
    a: GenV,
    fmt: Seq<char>,
    tail: Seq<char>,
) -> bool {
    &&& begins(text, k.out)
    &&& turns(text, k.out.len() as int, x, !bad, text.len() as int)
    &&& begins(text, runtime_error_code(a, fmt, tail).out)
}

proof fn lemma_complaint_adds(a: GenV, fmt: Seq<char>, tail: Seq<char>)
    ensures
        begins(runtime_error_code(a, fmt, tail).out, a.out),
{
    reveal(put);
    reveal(reg);
    reveal(string_const);
}

/// A call that reports its failure in a flag ends the program where the flag is zero, and only
/// there.
pub proof fn law_flags_are_checked(
    g: GenV,
    name: Seq<char>,
    ok: Seq<char>,
    msg: Seq<char>,
    tail: Seq<char>,
)
    requires
        one_word(name),
    ensures
        ({
            let text = flag_check_code(g, name, ok, msg, tail).out;
            let (h, okv) = reg(g);
            let h = line(h, okv + " = load i8, ptr "@ + ok);
            let (h, zero) = reg(h);
            let k = line(h, zero + " = icmp eq i8 "@ + okv + ", 0"@);
            exists|a: GenV|
                {
                    &&& turns(text, k.out.len() as int, zero, true, a.out.len() as int)
                    &&& #[trigger] guards(text, k, zero, true, a, msg, tail)
                }
        }),
{
    reveal_strlit(".ok");
    reveal_strlit(".err");
    let (h1, okv) = reg(g);
    let h2 = line(h1, okv + " = load i8, ptr "@ + ok);
    let (h3, zero) = reg(h2);
    let k = line(h3, zero + " = icmp eq i8 "@ + okv + ", 0"@);
    let (k1, good) = label(k, name + ".ok"@);
    let (k2, bad) = label(k1, name + ".err"@);
    lemma_label(k, name + ".ok"@);
    lemma_label(k1, name + ".err"@);
    lemma_guard(k, k2, zero, bad, good, msg, tail);
}

proof fn lemma_guard(
    k: GenV,
    k2: GenV,
    x: Seq<char>,
    bad: Seq<char>,
    good: Seq<char>,
    fmt: Seq<char>,
    tail: Seq<char>,
)
    requires
        one_word(bad) && one_word(good),
        k2.out == k.out,
    ensures
        ({
            let u = line(k2, "br i1 "@ + x + ", label %"@ + bad + ", label %"@ + good);
            let a = start(u, bad);
            let text = start(runtime_error_code(a, fmt, tail), good).out;
            &&& turns(text, k.out.len() as int, x, true, a.out.len() as int)
            &&& guards(text, k, x, true, a, fmt, tail)
        }),
{
    let u = line(k2, "br i1 "@ + x + ", label %"@ + bad + ", label %"@ + good);
    lemma_fork_text(k2, x, bad, good);
    let a = start(u, bad);
    let e = runtime_error_code(a, fmt, tail);
    let text = start(e, good).out;
    lemma_complaint_adds(a, fmt, tail);
    lemma_opens_end(e, good, text);
    lemma_begins(a.out, e.out, text);
    lemma_opens_end(u, bad, text);
    lemma_more(k.out, fork(x, bad, good), text);
    assert(turns(text, k.out.len() as int, x, true, a.out.len() as int));
    assert(turns(text, k.out.len() as int, x, false, text.len() as int));
}

/// Where the code of a checked access decides, and by what.
pub open spec fn access_decides(g: GenV, t: Seq<char>, i: Seq<char>, elem: Seq<char>) -> (
    GenV,
    Seq<char>,
) {
    let g = mark(g, "tie_table_at_"@ + elem_suffix(elem));
    let (g, ok) = alloca(g, "i1"@);
    let g = line(g, "store i1 1, ptr "@ + ok);
    let (g, val) = reg(g);
    let g = library_call(
        g,
        val + " = call "@ + elem,
        "tie_table_at_"@ + elem_suffix(elem),
        "ptr "@ + t + ", i64 "@ + i + ", ptr "@ + ok,
    );
    let (g, okv) = reg(g);
    (line(g, okv + " = load i1, ptr "@ + ok), okv)
}

/// A position outside a dynamic table ends the program with the position and the length; any
/// other goes on.
pub proof fn law_positions_are_checked(g: GenV, t: Seq<char>, i: Seq<char>, elem: Seq<char>)
    ensures
        ({
            let text = checked_at_code(g, t, i, elem).0.out;
            let (k, okv) = access_decides(g, t, i, elem);
            exists|b: GenV, a: GenV|
                {
                    &&& #[trigger] turns(text, k.out.len() as int, okv, false, b.out.len() as int)
                    &&& a == table_len_code(b, t).0
                    &&& #[trigger] guards(
                        text,
                        k,
                        okv,
                        false,
                        a,
                        bounds_format(),
                        ", i64 "@ + i + ", i64 "@ + table_len_code(b, t).1,
                    )
                }
        }),
{
    reveal_strlit("table_at.ok");
    reveal_strlit("table_at.err");
    let (k, okv) = access_decides(g, t, i, elem);
    let (k1, good) = label(k, "table_at.ok"@);
    let (k2, bad) = label(k1, "table_at.err"@);
    lemma_label(k, "table_at.ok"@);
    lemma_label(k1, "table_at.err"@);
    let u = line(k2, "br i1 "@ + okv + ", label %"@ + good + ", label %"@ + bad);
    lemma_fork_text(k2, okv, good, bad);
    let b = start(u, bad);
    let (a, len) = table_len_code(b, t);
    assert(begins(a.out, b.out)) by {
        reveal(mark);
        reveal(reg);
        reveal(put);
        reveal(library_call);
    }
    let tail = ", i64 "@ + i + ", i64 "@ + len;
    let e = runtime_error_code(a, bounds_format(), tail);
    let text = start(e, good).out;
    assert(text == checked_at_code(g, t, i, elem).0.out);
    lemma_complaint_adds(a, bounds_format(), tail);
    lemma_opens_end(e, good, text);
    lemma_begins(a.out, e.out, text);
    lemma_begins(b.out, a.out, text);
    lemma_opens_end(u, bad, text);
    lemma_more(k.out, fork(okv, good, bad), text);
    assert(turns(text, k.out.len() as int, okv, true, text.len() as int));
    assert(turns(text, k.out.len() as int, okv, false, b.out.len() as int));
    assert(guards(text, k, okv, false, a, bounds_format(), tail));
}

// ---------- parameters ----------
/// In the body of a function each parameter is a variable of its type; the receiver of a method
/// stays where it is.
pub proof fn law_parameters_code(sem: Sem, g: GenV, f: FnDef, method: bool, n: nat)
    requires
        0 < n <= f.params@.len(),
        bind_params_code(sem, g, f, method, (n - 1) as nat).scopes.len() > 0,
        ({
            let h = bind_params_code(sem, g, f, method, (n - 1) as nat);
            ty_code(sem, h, f.params@[n - 1].ty).0.scopes == h.scopes
        }),
    ensures
        ({
            let p = f.params@[n - 1];
            let before = bind_params_code(sem, g, f, method, (n - 1) as nat);
            let (h, t) = ty_code(sem, before, p.ty);
            let out = bind_params_code(sem, g, f, method, n);
            &&& bound(out, p.name@) matches Some(b) && b.ty == t && (if method && n == 1 {
                b.value == "%"@ + p.name@
            } else {
                b.value == reg(h).1 && out.out == h.out + (reg(h).1 + " = alloca "@ + t + "\n"@) + (
                "store "@ + t + " "@ + ("%"@ + p.name@) + ", ptr "@ + reg(h).1 + "\n"@)
            })
            &&& forall|other: Seq<char>|
                other != p.name@ ==> #[trigger] bound(out, other) == bound(before, other)
        }),
{
    let p = f.params@[n - 1];
    let before = bind_params_code(sem, g, f, method, (n - 1) as nat);
    let (h, t) = ty_code(sem, before, p.ty);
    let out = bind_params_code(sem, g, f, method, n);
    let (k, value) = if method && n == 1 {
        (h, "%"@ + p.name@)
    } else {
        let (h1, slot) = reg(h);
        let h2 = line(h1, slot + " = alloca "@ + t);
        (line(h2, "store "@ + t + " "@ + ("%"@ + p.name@) + ", ptr "@ + slot), slot)
    };
    assert(out == bind(k, p.name@, value, t));
    assert(k.scopes == h.scopes) by {
        reveal(put);
        reveal(reg);
    }
    assert(out.out == k.out) by {
        reveal(bind);
    }
    assert(!(method && n == 1) ==> out.out == h.out + (reg(h).1 + " = alloca "@ + t + "\n"@) + (
    "store "@ + t + " "@ + ("%"@ + p.name@) + ", ptr "@ + reg(h).1 + "\n"@)) by {
        reveal(put);
        reveal(reg);
        if !(method && n == 1) {
            assert(k.out =~= h.out + (reg(h).1 + " = alloca "@ + t + "\n"@) + ("store "@ + t + " "@
                + ("%"@ + p.name@) + ", ptr "@ + reg(h).1 + "\n"@));
        }
    }
    law_bound_is_found(k, p.name@, value, t, p.name@);
    assert forall|other: Seq<char>| other != p.name@ implies #[trigger] bound(out, other) == bound(
        before,
        other,
    ) by {
        law_bound_is_found(k, p.name@, value, t, other);
        reveal(bound);
    }
}

// ---------- texts of types ----------
proof fn lemma_numeral_size(n: nat)
    requires
        n <= usize::MAX,
    ensures
        parse_size(nat_dec(n)) == Some(n as int),
{
    lemma_nat_dec_value(n);
    assert(is_digit(nat_dec(n)[0]));
}

proof fn lemma_first_times(s: Seq<char>, i: int, k: int)
    requires
        0 <= i <= k,
        times_at(s, k),
        forall|j: int| i <= j < k ==> #[trigger] s[j] != ' ',
    ensures
        find_times(s, i) == Some(k),
    decreases k - i,
{
    if i < k {
        assert(s[i] != ' ');
        lemma_first_times(s, i + 1, k);
    }
}

/// The type of a table of fixed length tells its length and the type of its elements.
pub proof fn law_array_types(n: nat, t: Seq<char>)
    requires
        n <= usize::MAX,
        scalar_ty(t),
    ensures
        array_shape("["@ + nat_dec(n) + " x "@ + t + "]"@) == Some((n as int, t)),
{
    reveal_strlit("[");
    reveal_strlit(" x ");
    reveal_strlit("]");
    let d = nat_dec(n);
    let s = "["@ + d + " x "@ + t + "]"@;
    let rest = s.skip(1);
    let k = d.len() as int;
    lemma_nat_dec_value(n);
    assert(rest =~= d + " x "@ + t + "]"@);
    assert forall|j: int| 0 <= j < k implies #[trigger] rest[j] != ' ' by {
        assert(rest[j] == d[j]);
        assert(is_digit(d[j]));
    }
    assert(times_at(rest, k));
    lemma_first_times(rest, 0, k);
    assert(rest.take(k) =~= d);
    lemma_numeral_size(n);
    let tail = rest.skip(k + 3);
    assert(tail =~= t + "]"@);
    assert(tail.drop_last() =~= t);
}

/// A field of a tuple is meant by its position, counted from zero, by `Item` and its position,
/// counted from one, or by its name, which means the first field that has it.
pub proof fn law_fields_of_tuples(ty: TypeSpec, i: nat, access: Seq<char>)
    requires
        ty is Tuple,
        i < usize::MAX,
        ty->Tuple_0@.len() < usize::MAX,
    ensures
        i < ty->Tuple_0@.len() ==> field_index(ty, nat_dec(i)) == Some(i as int),
        i >= ty->Tuple_0@.len() ==> field_index(ty, nat_dec(i)) is None,
        i < ty->Tuple_0@.len() ==> field_index(ty, "Item"@ + nat_dec(i + 1)) == Some(i as int),
{
    reveal_strlit("Item");
    lemma_numeral_size(i);
    lemma_numeral_size(i + 1);
    let a = "Item"@ + nat_dec(i + 1);
    assert(a[0] == 'I');
    assert(a.take(4) =~= "Item"@);
    assert(a.skip(4) =~= nat_dec(i + 1));
    assert(!is_digit(a[0]));
    assert(parse_size(a) is None);
}

/// The name of a field means the first field that has it.
pub proof fn law_named_fields(fields: Seq<TupleField>, access: Seq<char>, from: int)
    requires
        0 <= from,
    ensures
        match named_field(fields, access, from) {
            Some(i) => from <= i < fields.len() && fields[i].name is Some && fields[i].name->0@
                == access && forall|j: int|
                from <= j < i ==> (#[trigger] fields[j]).name is None || fields[j].name->0@
                    != access,
            None => forall|j: int|
                from <= j < fields.len() ==> (#[trigger] fields[j]).name is None
                    || fields[j].name->0@ != access,
        },
    decreases fields.len() - from,
{
    if from < fields.len() && !(fields[from].name is Some && fields[from].name->0@ == access) {
        law_named_fields(fields, access, from + 1);
    }
}

/// The symbol of a function is its name with one sign for each separator of namespaces.
pub proof fn law_symbols(s: Seq<char>, from: int)
    requires
        0 <= from <= s.len(),
    ensures
        (forall|i: int| from <= i < s.len() ==> !sep_at(s, i)) ==> dollars(s, from) == s.skip(from),
        sep_at(s, from) ==> dollars(s, from) == seq!['$'] + dollars(s, from + 2),
        from < s.len() && !sep_at(s, from) ==> dollars(s, from) == seq![s[from]] + dollars(
            s,
            from + 1,
        ),
    decreases s.len() - from,
{
    if from < s.len() {
        law_symbols(s, from + 1);
        assert(s.skip(from) =~= seq![s[from]] + s.skip(from + 1));
    } else {
        assert(s.skip(from) =~= Seq::<char>::empty());
    }
}

/// Each integer type has the width that its name tells, with a sign or without.
pub proof fn law_widths()
    ensures
        named_llvm(TyKw::I8) matches Some(t) && half(t) == 0x80 && named_llvm(TyKw::U8) == Some(t),
        named_llvm(TyKw::I16) matches Some(t) && half(t) == 0x8000 && named_llvm(TyKw::U16) == Some(
            t,
        ),
        named_llvm(TyKw::I32) matches Some(t) && half(t) == 0x8000_0000 && named_llvm(TyKw::U32)
            == Some(t),
        named_llvm(TyKw::I64) matches Some(t) && half(t) == 0x8000_0000_0000_0000 && named_llvm(
            TyKw::U64,
        ) == Some(t),
        named_llvm(TyKw::Bool) == Some("i1"@),
        named_llvm(TyKw::F64) == Some("double"@),
        named_llvm(TyKw::F32) == Some("float"@),
        named_llvm(TyKw::Str) == Some("ptr"@),
{
    reveal_strlit("i8");
    reveal_strlit("i16");
    reveal_strlit("i32");
    reveal_strlit("i64");
    assert("i8"@.len() == 2 && "i16"@.len() == 3 && "i32"@.len() == 3 && "i64"@.len() == 3);
    assert("i16"@[1] == '1' && "i32"@[1] == '3' && "i64"@[1] == '6');
}

} // verus!
