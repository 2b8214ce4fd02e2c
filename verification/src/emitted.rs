//! What the code prints, returns and reads: the values that its lines name.
use crate::ast::{
    dynamic_table, sig_of, typed, BinaryOp, Expr, ExprKind, Exprs, FloatV, Sem, TupleField, TyKw,
    TypeSpec,
};
use crate::compiled::{lemma_step, lemma_step_reg, results};
use crate::emit::{bound, line, put, reg, string_const, GenV};
use crate::flow::{at_depth, code_of};
use crate::frames::begins;
use crate::host::{settled, AfterV, OutcomeV, Reply, RequestV};
use crate::irtext::{array_elem, dollars, field_index};
use crate::llvm::{
    does, lemma_ran_nothing, lemma_registers_differ, line_of, means, ran, register, roomy, with_reg,
    Datum, Deed, State, known,
};
use crate::lower::{
    arg_code, call_args_code, depth, expr_code, index_var_code, literal_code, pow_code,
    print_as_code, print_value_code, promote_code, ret_ty_code, return_stmt_code, returns_named,
    store_cells_code, trit_literal, tuple_field_code, tuple_values_code, ty_code, user_call_code,
};
use crate::semantics::{apply, goto, Ctl, MachineV};
use crate::text::{dec, join};
use crate::value::{comparison, ValueV};
use std::rc::Rc;
use vstd::prelude::*;

verus! {

// ---------- printing ----------
/// Whether the code prints the operand `v` of the type `t`, and nothing else, in the format `fmt`,
/// which a constant holds.
pub open spec fn prints(g: GenV, h: GenV, fmt: Seq<char>, t: Seq<char>, v: Seq<char>) -> bool {
    &&& h.consts.dom().contains(fmt)
    &&& h.out == g.out + ("call i32 (ptr, ...) @printf(ptr @"@ + h.consts[fmt] + ", "@ + t + " "@ + v
        + ")"@ + "\n"@)
}

proof fn lemma_prints(g: GenV, fmt: Seq<char>, t: Seq<char>, v: Seq<char>)
    ensures
        prints(g, print_as_code(g, fmt, t, v), fmt, t, v),
{
    reveal(string_const);
    reveal(put);
    let (h, n) = string_const(g, fmt);
    let text = "call i32 (ptr, ...) @printf(ptr @"@ + n + ", "@ + t + " "@ + v + ")"@;
    assert(h.consts[fmt] == n);
    assert(h.out + text + "\n"@ =~= g.out + (text + "\n"@));
}

/// Each value is printed in the format of its type: numbers with their sign or without, characters
/// as such, texts as they are.
pub proof fn law_formats(g: GenV, v: Seq<char>, nl: Seq<char>, c: bool)
    ensures
        prints(g, print_value_code(g, v, "i64"@, false, c, nl), "%lld"@ + nl, "i64"@, v),
        prints(g, print_value_code(g, v, "i64"@, true, c, nl), "%llu"@ + nl, "i64"@, v),
        prints(g, print_value_code(g, v, "i32"@, false, false, nl), "%d"@ + nl, "i32"@, v),
        prints(g, print_value_code(g, v, "i32"@, true, false, nl), "%u"@ + nl, "i32"@, v),
        prints(g, print_value_code(g, v, "i32"@, false, true, nl), "%c"@ + nl, "i32"@, v),
        prints(g, print_value_code(g, v, "double"@, false, c, nl), "%f"@ + nl, "double"@, v),
        prints(g, print_value_code(g, v, "ptr"@, false, c, nl), "%s"@ + nl, "ptr"@, v),
{
    reveal_strlit("i64");
    reveal_strlit("i32");
    reveal_strlit("i16");
    reveal_strlit("i8");
    reveal_strlit("i1");
    reveal_strlit("ptr");
    reveal_strlit("float");
    reveal_strlit("double");
    assert("i64"@.len() == 3 && "i32"@.len() == 3 && "i16"@.len() == 3 && "ptr"@.len() == 3);
    assert("i8"@.len() == 2 && "i1"@.len() == 2 && "float"@.len() == 5 && "double"@.len() == 6);
    assert("i64"@[1] == '6' && "i32"@[1] == '3' && "i16"@[1] == '1' && "ptr"@[1] == 't');
    lemma_prints(g, "%lld"@ + nl, "i64"@, v);
    lemma_prints(g, "%llu"@ + nl, "i64"@, v);
    lemma_prints(g, "%d"@ + nl, "i32"@, v);
    lemma_prints(g, "%u"@ + nl, "i32"@, v);
    lemma_prints(g, "%c"@ + nl, "i32"@, v);
    lemma_prints(g, "%f"@ + nl, "double"@, v);
    lemma_prints(g, "%s"@ + nl, "ptr"@, v);
}

// ---------- literals ----------
/// The operand of a literal stands for the value that the literal shows; a text's is the constant
/// that holds it.
pub proof fn law_literals_code(g: GenV, e: Expr, s: State)
    ensures
        e.kind matches ExprKind::IntLit(n) ==> means(s, literal_code(g, e).1.v, Datum::Int(n as int)),
        e.kind matches ExprKind::CharLit(c) ==> means(s, literal_code(g, e).1.v, Datum::Int(c as int)),
        e.kind matches ExprKind::TritLit(t) ==> means(s, literal_code(g, e).1.v, Datum::Int(t as int)),
        e.kind matches ExprKind::BoolLit(b) ==> means(
            s,
            literal_code(g, e).1.v,
            Datum::Int(
                if b {
                    1
                } else if typed(e, TyKw::Trit) {
                    -1
                } else {
                    0
                },
            ),
        ),
        e.kind matches ExprKind::StrLit(t) ==> literal_code(g, e).0.consts.dom().contains(t@)
            && literal_code(g, e).1.v == "@"@ + literal_code(g, e).0.consts[t@],
{
    reveal(string_const);
    reveal_strlit("1");
    reveal_strlit("-1");
    reveal_strlit("-");
    reveal_with_fuel(crate::text::nat_dec, 2);
    assert("1"@ =~= dec(1));
    assert("-1"@ =~= dec(-1));
    match e.kind {
        ExprKind::IntLit(n) => {
            assert(means(s, dec(n as int), Datum::Int(n as int)));
        },
        ExprKind::CharLit(c) => {
            assert(means(s, dec(c as int), Datum::Int(c as int)));
        },
        ExprKind::TritLit(t) => {
            assert(means(s, dec(t as int), Datum::Int(t as int)));
        },
        ExprKind::BoolLit(b) => {
            assert(means(s, dec(1), Datum::Int(1)));
            assert(means(s, dec(-1), Datum::Int(-1)));
        },
        _ => {},
    }
}

/// A line behind a new register.
proof fn lemma_line_out(g: GenV, text: Seq<char>)
    ensures
        line(reg(g).0, text).out == g.out + (text + "\n"@),
        line(g, text).out == g.out + (text + "\n"@),
{
    reveal(put);
    reveal(reg);
    assert(g.out + text + "\n"@ =~= g.out + (text + "\n"@));
}

// ---------- returns ----------
/// A `return` hands on the value of its expression.
pub proof fn law_returns_code(sem: Sem, g: GenV, e: Rc<Expr>)
    requires
        trit_literal(returns_named(sem, g.cur_fn, TyKw::Trit), *e) is None,
    ensures
        ({
            let (h, a) = expr_code(sem, g, *e, depth(sem));
            let (k, t) = ret_ty_code(sem, h);
            return_stmt_code(sem, g, Some(e)).out == k.out + ("ret "@ + t + " "@ + a.v + "\n"@)
        }),
{
    reveal(put);
    assert forall|k: GenV, t: Seq<char>, v: Seq<char>|
        #[trigger] line(k, "ret "@ + t + " "@ + v).out == k.out + ("ret "@ + t + " "@ + v
            + "\n"@) by {
        assert(k.out + ("ret "@ + t + " "@ + v) + "\n"@ =~= k.out + ("ret "@ + t + " "@ + v
            + "\n"@));
    }
}

/// The power of two numbers is that of the first argument by the second.
pub proof fn law_powers_code(sem: Sem, g: GenV, e: Expr, d: nat)
    ensures
        ({
            let (h, x) = arg_code(sem, g, e, 0, d);
            let (k, y) = arg_code(sem, h, e, 1, d);
            let (l, a) = promote_code(k, x.v, x.t);
            let (m, b) = promote_code(l, y.v, y.t);
            let code = pow_code(sem, g, e, d);
            code.0.out == m.out + (code.1.v + " = call double @pow(double "@ + a + ", double "@ + b
                + ")"@ + "\n"@)
        }),
{
    let (h, x) = arg_code(sem, g, e, 0, d);
    let (k, y) = arg_code(sem, h, e, 1, d);
    let (l, a) = promote_code(k, x.v, x.t);
    let (m, b) = promote_code(l, y.v, y.t);
    let v = reg(m).1;
    let text = v + " = call double @pow(double "@ + a + ", double "@ + b + ")"@;
    lemma_line_out(m, text);
}

// ---------- elements ----------
/// An element of a table of fixed length is read by its position.
pub proof fn law_elements_are_read(
    sem: Sem,
    g: GenV,
    name: Seq<char>,
    idx: Seq<char>,
    s: State,
    b: int,
    o: int,
    i: int,
    d: Datum,
)
    requires
        roomy(g),
        !dynamic_table(sem, g.cur_fn, name),
        bound(g, name) matches Some(v) && array_elem(v.ty) is Some && means(
            s,
            v.value,
            Datum::Ptr(b, o),
        ),
        means(s, idx, Datum::Int(i)),
        s.slots.dom().contains(Datum::Ptr(b, o + i)),
        s.slots[Datum::Ptr(b, o + i)] == d,
    ensures
        results(
            g,
            index_var_code(sem, g, name, idx, false),
            s,
            d,
            array_elem(bound(g, name)->0.ty)->0,
        ),
{
    let v = bound(g, name)->0;
    let elem = array_elem(v.ty)->0;
    let r1 = register(g.reg + 1);
    let r2 = register(g.reg + 2);
    lemma_registers_differ(g.reg + 1, g.reg + 2);
    let at = Datum::Ptr(b, o + i);
    let d1 = Deed::Element { dst: r1, ty: v.ty, p: v.value, n: idx, b, o, i };
    let s1 = with_reg(s, r1, at);
    assert(does(d1, s, s1));
    lemma_ran_nothing(g, g, s);
    lemma_step_reg(g, g, s, s, d1, s1);
    let h1 = line(reg(g).0, line_of(d1));
    let d2 = Deed::Load { dst: r2, ty: elem, p: r1, at, d };
    let s2 = with_reg(s1, r2, d);
    assert(does(d2, s1, s2));
    lemma_step_reg(g, h1, s, s1, d2, s2);
    let code = index_var_code(sem, g, name, idx, false);
    assert(ran(g, code.0, s, s2));
}

// ---------- floats ----------
/// An operator on floats is asked of the host with the two in their order; a comparison becomes a
/// truth value, anything else a float.
pub proof fn law_floats_are_asked_for(m: MachineV, op: BinaryOp, a: FloatV, b: FloatV, t: bool)
    requires
        op == BinaryOp::Add || op == BinaryOp::Sub || op == BinaryOp::Mul || op == BinaryOp::Div
            || op == BinaryOp::Eq || op == BinaryOp::NotEq || op == BinaryOp::Lt || op
            == BinaryOp::Gt || op == BinaryOp::Le || op == BinaryOp::Ge,
    ensures
        exists|after: AfterV|
            {
                &&& apply(m, op, ValueV::Float(a), ValueV::Float(b)) == #[trigger] goto(
                    m,
                    Ctl::Ask(RequestV::FloatBinary { op, a, b }, after),
                )
                &&& op == BinaryOp::Eq || op == BinaryOp::NotEq || op == BinaryOp::Lt || op
                    == BinaryOp::Gt || op == BinaryOp::Le || op == BinaryOp::Ge ==> settled(
                    after,
                    Reply::Flag(t),
                ) == OutcomeV::Val(ValueV::Bool(t))
                &&& op == BinaryOp::Add || op == BinaryOp::Sub || op == BinaryOp::Mul || op
                    == BinaryOp::Div ==> after == AfterV::Float
            },
{
    let after = if comparison(op) {
        AfterV::Flag
    } else {
        AfterV::Float
    };
    assert(apply(m, op, ValueV::Float(a), ValueV::Float(b)) == goto(
        m,
        Ctl::Ask(RequestV::FloatBinary { op, a, b }, after),
    ));
}

/// The cells of a table literal are stored in their order: each becomes the element with its
/// position, and no other changes.
pub proof fn law_cells_are_stored(
    sem: Sem,
    g: GenV,
    arr: Seq<char>,
    elem: Seq<char>,
    slot: Seq<char>,
    e: Expr,
    cells: Exprs,
    n: usize,
    s: State,
    b: int,
    o: int,
    d: Datum,
)
    requires
        e.kind == (ExprKind::TableLit { cells }),
        0 < n <= cells@.len(),
        ({
            let before = store_cells_code(sem, g, arr, elem, slot, e, (n - 1) as usize);
            let (h, a) = code_of(sem, before, cells@[n - 1]);
            roomy(h) && known(h, a.v) && means(s, a.v, d)
        }),
        means(s, slot, Datum::Ptr(b, o)),
    ensures
        ({
            let before = store_cells_code(sem, g, arr, elem, slot, e, (n - 1) as usize);
            let (h, a) = code_of(sem, before, cells@[n - 1]);
            exists|t: State| #[trigger]
                ran(h, store_cells_code(sem, g, arr, elem, slot, e, n), s, t) && t.slots
                    == s.slots.insert(Datum::Ptr(b, o + (n - 1)), d)
        }),
{
    let before = store_cells_code(sem, g, arr, elem, slot, e, (n - 1) as usize);
    let (h, a) = code_of(sem, before, cells@[n - 1]);
    let i = n - 1;
    let r1 = register(h.reg + 1);
    let at = Datum::Ptr(b, o + i);
    let d1 = Deed::Element { dst: r1, ty: arr, p: slot, n: dec(i), b, o, i };
    let s1 = with_reg(s, r1, at);
    assert(means(s, dec(i), Datum::Int(i)));
    assert(does(d1, s, s1));
    lemma_ran_nothing(h, h, s);
    lemma_step_reg(h, h, s, s, d1, s1);
    let h1 = line(reg(h).0, line_of(d1));
    let d2 = Deed::Store { ty: elem, v: a.v, p: r1, at, d };
    let s2 = State { slots: s1.slots.insert(at, d), ..s1 };
    assert(a.v != r1);
    assert(means(s1, a.v, d));
    assert(does(d2, s1, s2));
    lemma_step(h, h1, s, s1, d2, s2);
    assert(ran(h, store_cells_code(sem, g, arr, elem, slot, e, n), s, s2));
}

// ---------- tuples ----------
/// Whether `text` puts the value `v` of the type `t` into the field `i` of the value `cur`.
pub open spec fn puts_field(
    text: Seq<char>,
    dst: Seq<char>,
    agg: Seq<char>,
    cur: Seq<char>,
    t: Seq<char>,
    v: Seq<char>,
    i: int,
) -> bool {
    text == dst + " = insertvalue "@ + agg + " "@ + cur + ", "@ + t + " "@ + v + ", "@ + dec(i)
        + "\n"@
}

/// Each value of a tuple is put into the field with its position, and the field that an access
/// means is the one that is read.
pub proof fn law_tuples_code(
    sem: Sem,
    g: GenV,
    agg: Seq<char>,
    e: Expr,
    fields: Exprs,
    tys: Rc<Vec<TupleField>>,
    n: usize,
    d: nat,
)
    requires
        e.kind == (ExprKind::TupleLit { fields }),
        e.note.ty == Some(TypeSpec::Tuple(tys)),
        0 < n <= fields@.len(),
        n <= tys@.len(),
    ensures
        ({
            let (h, cur) = tuple_values_code(sem, g, agg, e, (n - 1) as usize, d);
            let (k, a) = at_depth(sem, h, fields@[n - 1], d);
            let (l, t) = ty_code(sem, k, tys@[n - 1].ty);
            let (out, v) = tuple_values_code(sem, g, agg, e, n, d);
            begins(out.out, l.out) && puts_field(
                out.out.skip(l.out.len() as int),
                v,
                agg,
                cur,
                t,
                a.v,
                n - 1,
            )
        }),
{
    let (h, cur) = tuple_values_code(sem, g, agg, e, (n - 1) as usize, d);
    let (k, a) = at_depth(sem, h, fields@[n - 1], d);
    let (l, t) = ty_code(sem, k, tys@[n - 1].ty);
    let (out, v) = tuple_values_code(sem, g, agg, e, n, d);
    let text = v + " = insertvalue "@ + agg + " "@ + cur + ", "@ + t + " "@ + a.v + ", "@ + dec(
        n - 1,
    );
    lemma_line_out(l, text);
    assert(out.out.skip(l.out.len() as int) =~= text + "\n"@);
}

/// Reading a field of a tuple reads the one that the access means.
pub proof fn law_fields_are_read(
    sem: Sem,
    g: GenV,
    v: Seq<char>,
    fields: Rc<Vec<TupleField>>,
    field: Seq<char>,
    i: int,
)
    requires
        field_index(TypeSpec::Tuple(fields), field) == Some(i),
    ensures
        ({
            let t = TypeSpec::Tuple(fields);
            let (h, agg) = ty_code(sem, g, t);
            let (k, f) = ty_code(sem, h, fields@[i].ty);
            let code = tuple_field_code(sem, g, v, t, field);
            code.1.t == f && code.0.out == k.out + (code.1.v + " = extractvalue "@ + agg + " "@ + v
                + ", "@ + dec(i) + "\n"@)
        }),
{
    let t = TypeSpec::Tuple(fields);
    let (h, agg) = ty_code(sem, g, t);
    let (k, f) = ty_code(sem, h, fields@[i].ty);
    let tmp = reg(k).1;
    let text = tmp + " = extractvalue "@ + agg + " "@ + v + ", "@ + dec(i);
    lemma_line_out(k, text);
}

// ---------- calls ----------
/// A call of the program's own function calls its symbol with all its arguments, and gives what it
/// returns.
pub proof fn law_calls_code(sem: Sem, g: GenV, name: Seq<char>, e: Expr, forward: bool, d: nat)
    requires
        sig_of(sem, name) is Some,
    ensures
        ({
            let sig = sig_of(sem, name)->0;
            let (h, vals) = call_args_code(
                sem,
                g,
                name,
                sig,
                e,
                forward,
                sig.param_tys.len(),
                d,
            );
            let (k, ret) = ty_code(sem, h, sig.ret_ty);
            let code = user_call_code(sem, g, name, e, forward, d);
            let call = " @"@ + dollars(name, 0) + "("@ + join(vals, ", "@) + ")"@ + "\n"@;
            if sig.ret_ty.spec_is_void() {
                code.0.out == k.out + ("call void"@ + call)
            } else {
                code.1.t == ret && code.0.out == k.out + (code.1.v + " = call "@ + ret + call)
            }
        }),
{
    let sig = sig_of(sem, name)->0;
    let (h, vals) = call_args_code(sem, g, name, sig, e, forward, sig.param_tys.len(), d);
    let (k, ret) = ty_code(sem, h, sig.ret_ty);
    let tmp = reg(k).1;
    let args = join(vals, ", "@);
    lemma_call_text(dollars(name, 0), args, tmp, ret);
    lemma_line_out(k, "call void @"@ + dollars(name, 0) + "("@ + args + ")"@);
    lemma_line_out(k, tmp + " = call "@ + ret + " @"@ + dollars(name, 0) + "("@ + args + ")"@);
}

proof fn lemma_call_text(symbol: Seq<char>, args: Seq<char>, dst: Seq<char>, ret: Seq<char>)
    ensures
        "call void @"@ + symbol + "("@ + args + ")"@ + "\n"@ == "call void"@ + (" @"@ + symbol
            + "("@ + args + ")"@ + "\n"@),
        dst + " = call "@ + ret + " @"@ + symbol + "("@ + args + ")"@ + "\n"@ == dst + " = call "@
            + ret + (" @"@ + symbol + "("@ + args + ")"@ + "\n"@),
{
    reveal_strlit("call void @");
    reveal_strlit("call void");
    reveal_strlit(" @");
    assert("call void @"@ =~= "call void"@ + " @"@);
    assert("call void @"@ + symbol + "("@ + args + ")"@ + "\n"@ =~= "call void"@ + (" @"@ + symbol
        + "("@ + args + ")"@ + "\n"@));
    assert(dst + " = call "@ + ret + " @"@ + symbol + "("@ + args + ")"@ + "\n"@ =~= dst
        + " = call "@ + ret + (" @"@ + symbol + "("@ + args + ")"@ + "\n"@));
}

} // verus!
