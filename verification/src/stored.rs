//! What the code does with trits, signs and variables when it is executed.
use crate::ast::{
    dynamic_table, typed, unsigned, BinaryOp, Expr, ExprKind, FuncSig, Sem, Stmt, TyKw, UnaryOp,
};
use crate::compiled::{
    integer_ty, law_integer_code, lemma_integer_computes, lemma_one_numeral, lemma_opcode,
    lemma_step, lemma_step_reg, lemma_ty, mn_of, results,
};
use crate::emit::{
    alloca, bind, bound, break_target, continue_target, line, opt_view, put, reg, GenV, OperandV,
};
use crate::flow::{at_depth, jump, lemma_jump_text};
use crate::frames::law_bound_is_found;
use crate::irtable::{mixed_opcode, number_ty, one, predicate, step};
use crate::llvm::{
    computes, does, flag, half, in_type, known, lemma_ran_nothing, lemma_ran_same,
    lemma_registers_differ, line_of, means, mn_text, ran, register, roomy, with_reg, Datum, Deed,
    Mn, State,
};
use crate::lower::{
    arg_value_code, argc, assign_code, binary_code, binary_mixed_code, binary_regs_code,
    binary_trit_code, call_args_code, depth, expr_code, extend_code, fixed_table, inc_dec_code,
    one_arg_code, param_ty_code, read_var_code, stmt_code, store_to_code, trit_arith_code,
    trit_literal, unary_value_code, var_decl_code,
};
use crate::operators::{law_trits, law_trits_beside_integers};
use crate::text::dec;
use crate::value::{binary, BinOutV, ValueV};
use std::rc::Rc;
use vstd::prelude::*;

verus! {

// ---------- texts of lines ----------
/// A line with two operands, where the text between the target and the first operand is written
/// in one.
proof fn lemma_fused(
    dst: Seq<char>,
    fused: Seq<char>,
    m: Mn,
    ty: Seq<char>,
    l: Seq<char>,
    r: Seq<char>,
)
    requires
        fused == " = "@ + (mn_text(m) + " "@ + ty) + " "@,
    ensures
        dst + fused + l + ", "@ + r == dst + " = "@ + (mn_text(m) + " "@ + ty) + " "@ + l + ", "@
            + r,
{
    assert(dst + fused + l + ", "@ + r =~= dst + " = "@ + (mn_text(m) + " "@ + ty) + " "@ + l
        + ", "@ + r);
}

proof fn lemma_fused_texts()
    ensures
        " = icmp slt i8 "@ == " = "@ + ("icmp slt"@ + " "@ + "i8"@) + " "@,
        " = icmp sgt i8 "@ == " = "@ + ("icmp sgt"@ + " "@ + "i8"@) + " "@,
        " = icmp slt i64 "@ == " = "@ + ("icmp slt"@ + " "@ + "i64"@) + " "@,
        " = icmp sgt i64 "@ == " = "@ + ("icmp sgt"@ + " "@ + "i64"@) + " "@,
        " = xor i1 "@ == " = "@ + ("xor"@ + " "@ + "i1"@) + " "@,
{
    reveal_strlit(" = icmp slt i8 ");
    reveal_strlit(" = icmp sgt i8 ");
    reveal_strlit(" = icmp slt i64 ");
    reveal_strlit(" = icmp sgt i64 ");
    reveal_strlit(" = xor i1 ");
    reveal_strlit(" = ");
    reveal_strlit(" ");
    reveal_strlit("icmp slt");
    reveal_strlit("icmp sgt");
    reveal_strlit("xor");
    reveal_strlit("i1");
    reveal_strlit("i8");
    reveal_strlit("i64");
    assert(" = icmp slt i8 "@ =~= " = "@ + ("icmp slt"@ + " "@ + "i8"@) + " "@);
    assert(" = icmp sgt i8 "@ =~= " = "@ + ("icmp sgt"@ + " "@ + "i8"@) + " "@);
    assert(" = icmp slt i64 "@ =~= " = "@ + ("icmp slt"@ + " "@ + "i64"@) + " "@);
    assert(" = icmp sgt i64 "@ =~= " = "@ + ("icmp sgt"@ + " "@ + "i64"@) + " "@);
    assert(" = xor i1 "@ =~= " = "@ + ("xor"@ + " "@ + "i1"@) + " "@);
}

proof fn lemma_wide_text(dst: Seq<char>, v: Seq<char>)
    ensures
        dst + " = sext i8 "@ + v + " to i64"@ == dst + " = sext "@ + "i8"@ + " "@ + v + " to "@
            + "i64"@,
        dst + " = trunc i64 "@ + v + " to i8"@ == dst + " = trunc "@ + "i64"@ + " "@ + v + " to "@
            + "i8"@,
{
    reveal_strlit(" = sext i8 ");
    reveal_strlit(" = sext ");
    reveal_strlit(" = trunc i64 ");
    reveal_strlit(" = trunc ");
    reveal_strlit("i8");
    reveal_strlit("i64");
    reveal_strlit(" ");
    reveal_strlit(" to i64");
    reveal_strlit(" to i8");
    reveal_strlit(" to ");
    assert(dst + " = sext i8 "@ + v + " to i64"@ =~= dst + " = sext "@ + "i8"@ + " "@ + v + " to "@
        + "i64"@);
    assert(dst + " = trunc i64 "@ + v + " to i8"@ =~= dst + " = trunc "@ + "i64"@ + " "@ + v
        + " to "@ + "i8"@);
}

proof fn lemma_select_text(dst: Seq<char>, c: Seq<char>, l: Seq<char>, r: Seq<char>)
    ensures
        dst + " = select i1 "@ + c + ", i8 "@ + l + ", i8 "@ + r == dst + " = select i1 "@ + c
            + ", "@ + "i8"@ + " "@ + l + ", "@ + "i8"@ + " "@ + r,
        dst + " = select i1 "@ + c + ", i64 -1, i64 "@ + r == dst + " = select i1 "@ + c + ", "@
            + "i64"@ + " "@ + dec(-1) + ", "@ + "i64"@ + " "@ + r,
        dst + " = select i1 "@ + c + ", i64 1, i64 "@ + r == dst + " = select i1 "@ + c + ", "@
            + "i64"@ + " "@ + dec(1) + ", "@ + "i64"@ + " "@ + r,
{
    lemma_numerals();
    reveal_strlit(", i8 ");
    reveal_strlit(", i64 -1, i64 ");
    reveal_strlit(", i64 1, i64 ");
    reveal_strlit(", ");
    reveal_strlit(" ");
    reveal_strlit("i8");
    reveal_strlit("i64");
    assert(dst + " = select i1 "@ + c + ", i8 "@ + l + ", i8 "@ + r =~= dst + " = select i1 "@ + c
        + ", "@ + "i8"@ + " "@ + l + ", "@ + "i8"@ + " "@ + r);
    assert(dst + " = select i1 "@ + c + ", i64 -1, i64 "@ + r =~= dst + " = select i1 "@ + c
        + ", "@ + "i64"@ + " "@ + dec(-1) + ", "@ + "i64"@ + " "@ + r);
    assert(dst + " = select i1 "@ + c + ", i64 1, i64 "@ + r =~= dst + " = select i1 "@ + c + ", "@
        + "i64"@ + " "@ + dec(1) + ", "@ + "i64"@ + " "@ + r);
}

proof fn lemma_numerals()
    ensures
        dec(-1) == seq!['-', '1'],
        dec(1) == seq!['1'],
        dec(0) == seq!['0'],
{
    reveal_strlit("-");
    lemma_one_numeral();
    assert(dec(-1) =~= seq!['-', '1']);
}

proof fn lemma_limit_text(dst: Seq<char>, raw: Seq<char>)
    ensures
        dst + " = icmp slt i64 "@ + raw + ", -1"@ == dst + " = "@ + ("icmp slt"@ + " "@ + "i64"@)
            + " "@ + raw + ", "@ + dec(-1),
        dst + " = icmp sgt i64 "@ + raw + ", 1"@ == dst + " = "@ + ("icmp sgt"@ + " "@ + "i64"@)
            + " "@ + raw + ", "@ + dec(1),
{
    lemma_numerals();
    lemma_fused_texts();
    reveal_strlit(", ");
    reveal_strlit(", -1");
    reveal_strlit(", 1");
    assert(", -1"@ =~= ", "@ + dec(-1));
    assert(", 1"@ =~= ", "@ + dec(1));
    lemma_fused(dst, " = icmp slt i64 "@, Mn::Slt, "i64"@, raw, dec(-1));
    lemma_fused(dst, " = icmp sgt i64 "@, Mn::Sgt, "i64"@, raw, dec(1));
    assert(dst + " = icmp slt i64 "@ + raw + ", -1"@ =~= dst + " = icmp slt i64 "@ + raw + ", "@
        + dec(-1));
    assert(dst + " = icmp sgt i64 "@ + raw + ", 1"@ =~= dst + " = icmp sgt i64 "@ + raw + ", "@
        + dec(1));
}

proof fn lemma_opc_text(dst: Seq<char>, opc: Seq<char>, l: Seq<char>, r: Seq<char>)
    ensures
        dst + " = "@ + opc + " i64 "@ + l + ", "@ + r == dst + " = "@ + (opc + " "@ + "i64"@) + " "@
            + l + ", "@ + r,
{
    reveal_strlit(" i64 ");
    reveal_strlit(" ");
    reveal_strlit("i64");
    assert(" i64 "@ =~= " "@ + "i64"@ + " "@);
    assert(dst + " = "@ + opc + " i64 "@ + l + ", "@ + r =~= dst + " = "@ + (opc + " "@ + "i64"@)
        + " "@ + l + ", "@ + r);
}

// ---------- trits ----------
/// The code of `&&` and `||` on trits gives the smaller and the greater of the two.
pub proof fn law_trit_choice_code(
    g: GenV,
    op: BinaryOp,
    l: Seq<char>,
    r: Seq<char>,
    s: State,
    a: i8,
    b: i8,
)
    requires
        roomy(g),
        known(g, l) && known(g, r),
        -1 <= a <= 1 && -1 <= b <= 1,
        means(s, l, Datum::Int(a as int)),
        means(s, r, Datum::Int(b as int)),
        op == BinaryOp::And || op == BinaryOp::Or,
    ensures
        binary(op, ValueV::Trit(a), ValueV::Trit(b)) matches BinOutV::Val(ValueV::Trit(t))
            && results(
            g,
            binary_trit_code(g, op, l, "i8"@, r, "i8"@),
            s,
            Datum::Int(t as int),
            "i8"@,
        ),
{
    law_trits(a, b);
    lemma_fused_texts();
    let m = if op == BinaryOp::And {
        Mn::Slt
    } else {
        Mn::Sgt
    };
    let c = if op == BinaryOp::And {
        a < b
    } else {
        a > b
    };
    let t = if c {
        a
    } else {
        b
    };
    let r1 = register(g.reg + 1);
    let r2 = register(g.reg + 2);
    let d1 = Deed::Two { dst: r1, m, ty: "i8"@, l, r, x: a as int, y: b as int, d: flag(c) };
    let s1 = with_reg(s, r1, Datum::Int(flag(c)));
    assert(does(d1, s, s1));
    lemma_ran_nothing(g, g, s);
    lemma_step_reg(g, g, s, s, d1, s1);
    let h1 = line(reg(g).0, line_of(d1));
    let d2 = Deed::Select { dst: r2, c: r1, ty: "i8"@, l, r, b: c, d: Datum::Int(t as int) };
    let s2 = with_reg(s1, r2, Datum::Int(t as int));
    assert(l != r1 && r != r1);
    assert(means(s1, l, Datum::Int(a as int)) && means(s1, r, Datum::Int(b as int)));
    assert(does(d2, s1, s2));
    lemma_step_reg(g, h1, s, s1, d2, s2);
    let h2 = line(reg(h1).0, line_of(d2));
    lemma_fused(r1, " = icmp slt i8 "@, Mn::Slt, "i8"@, l, r);
    lemma_fused(r1, " = icmp sgt i8 "@, Mn::Sgt, "i8"@, l, r);
    lemma_select_text(r2, r1, l, r);
    let code = binary_trit_code(g, op, l, "i8"@, r, "i8"@);
    assert(code.0 == h2);
    assert(means(s2, code.1.v, Datum::Int(t as int)));
}

/// The code of a comparison of trits compares them as numbers.
pub proof fn law_trit_comparison_code(
    g: GenV,
    op: BinaryOp,
    l: Seq<char>,
    r: Seq<char>,
    s: State,
    a: i8,
    b: i8,
)
    requires
        roomy(g),
        -1 <= a <= 1 && -1 <= b <= 1,
        means(s, l, Datum::Int(a as int)),
        means(s, r, Datum::Int(b as int)),
        op == BinaryOp::Eq || op == BinaryOp::NotEq || op == BinaryOp::Lt || op == BinaryOp::Gt
            || op == BinaryOp::Le || op == BinaryOp::Ge,
    ensures
        binary(op, ValueV::Trit(a), ValueV::Trit(b)) matches BinOutV::Val(ValueV::Bool(t))
            && results(
            g,
            binary_trit_code(g, op, l, "i8"@, r, "i8"@),
            s,
            Datum::Int(flag(t)),
            "i1"@,
        ),
{
    law_trits(a, b);
    let m = match op {
        BinaryOp::Eq => Mn::Eq,
        BinaryOp::NotEq => Mn::Ne,
        BinaryOp::Lt => Mn::Slt,
        BinaryOp::Gt => Mn::Sgt,
        BinaryOp::Le => Mn::Sle,
        _ => Mn::Sge,
    };
    let t = binary(op, ValueV::Trit(a), ValueV::Trit(b))->Val_0->Bool_0;
    let r1 = register(g.reg + 1);
    let d1 = Deed::Two { dst: r1, m, ty: "i8"@, l, r, x: a as int, y: b as int, d: flag(t) };
    let s1 = with_reg(s, r1, Datum::Int(flag(t)));
    assert(does(d1, s, s1));
    lemma_ran_nothing(g, g, s);
    lemma_step_reg(g, g, s, s, d1, s1);
    let h1 = line(reg(g).0, line_of(d1));
    lemma_predicate_text(op, m, r1, l, r);
    let code = binary_trit_code(g, op, l, "i8"@, r, "i8"@);
    assert(code.0 == h1);
    assert(means(s1, code.1.v, Datum::Int(flag(t))));
}

proof fn lemma_predicate_text(op: BinaryOp, m: Mn, dst: Seq<char>, l: Seq<char>, r: Seq<char>)
    requires
        op == BinaryOp::Eq && m == Mn::Eq || op == BinaryOp::NotEq && m == Mn::Ne || op
            == BinaryOp::Lt && m == Mn::Slt || op == BinaryOp::Gt && m == Mn::Sgt || op
            == BinaryOp::Le && m == Mn::Sle || op == BinaryOp::Ge && m == Mn::Sge,
    ensures
        predicate(op) matches Some(p) && dst + " = icmp "@ + p + " i8 "@ + l + ", "@ + r == dst
            + " = "@ + (mn_text(m) + " "@ + "i8"@) + " "@ + l + ", "@ + r,
{
    reveal_strlit(" = icmp ");
    reveal_strlit(" i8 ");
    reveal_strlit(" = ");
    reveal_strlit(" ");
    reveal_strlit("i8");
    reveal_strlit("eq");
    reveal_strlit("ne");
    reveal_strlit("slt");
    reveal_strlit("sgt");
    reveal_strlit("sle");
    reveal_strlit("sge");
    reveal_strlit("icmp eq");
    reveal_strlit("icmp ne");
    reveal_strlit("icmp slt");
    reveal_strlit("icmp sgt");
    reveal_strlit("icmp sle");
    reveal_strlit("icmp sge");
    let p = predicate(op)->0;
    let fused = " = icmp "@ + p + " i8 "@;
    assert(fused =~= " = "@ + (mn_text(m) + " "@ + "i8"@) + " "@);
    lemma_fused(dst, fused, m, "i8"@, l, r);
    assert(dst + " = icmp "@ + p + " i8 "@ + l + ", "@ + r =~= dst + fused + l + ", "@ + r);
}

/// The code of a sum, a difference or a product of trits gives the nearest trit.
#[verifier::rlimit(40)]
pub proof fn law_trit_arithmetic_code(
    g: GenV,
    op: BinaryOp,
    l: Seq<char>,
    r: Seq<char>,
    s: State,
    a: i8,
    b: i8,
)
    requires
        roomy(g),
        known(g, l) && known(g, r),
        -1 <= a <= 1 && -1 <= b <= 1,
        means(s, l, Datum::Int(a as int)),
        means(s, r, Datum::Int(b as int)),
        op == BinaryOp::Add || op == BinaryOp::Sub || op == BinaryOp::Mul,
    ensures
        binary(op, ValueV::Trit(a), ValueV::Trit(b)) matches BinOutV::Val(ValueV::Trit(t))
            && results(
            g,
            binary_trit_code(g, op, l, "i8"@, r, "i8"@),
            s,
            Datum::Int(t as int),
            "i8"@,
        ),
{
    law_trits(a, b);
    lemma_ty("i64"@);
    lemma_ty("i8"@);
    let (opc, m, raw) = if op == BinaryOp::Add {
        ("add"@, Mn::Add, a + b)
    } else if op == BinaryOp::Sub {
        ("sub"@, Mn::Sub, a - b)
    } else {
        ("mul"@, Mn::Mul, a * b)
    };
    let t = binary(op, ValueV::Trit(a), ValueV::Trit(b))->Val_0->Trit_0;
    assert(-2 <= raw <= 2) by {
        if op == BinaryOp::Mul {
            assert(-2 <= a * b <= 2) by (nonlinear_arith)
                requires
                    -1 <= a <= 1,
                    -1 <= b <= 1,
            ;
        }
    }
    let n = g.reg as int;
    let (r1, r2, r3, r4) = (register(n + 1), register(n + 2), register(n + 3), register(n + 4));
    let (r5, r6, r7, r8) = (register(n + 5), register(n + 6), register(n + 7), register(n + 8));
    lemma_registers_differ(n + 1, n + 2);
    lemma_registers_differ(n + 3, n + 4);
    lemma_registers_differ(n + 3, n + 5);
    lemma_registers_differ(n + 4, n + 5);
    lemma_registers_differ(n + 5, n + 6);
    assert(l != r1 && r != r1 && r != r2);
    let d1 = Deed::Wide { dst: r1, signed: true, from: "i8"@, v: l, to: "i64"@, x: a as int };
    let s1 = with_reg(s, r1, Datum::Int(a as int));
    let d2 = Deed::Wide { dst: r2, signed: true, from: "i8"@, v: r, to: "i64"@, x: b as int };
    let s2 = with_reg(s1, r2, Datum::Int(b as int));
    let d3 = Deed::Two { dst: r3, m, ty: "i64"@, l: r1, r: r2, x: a as int, y: b as int, d: raw };
    let s3 = with_reg(s2, r3, Datum::Int(raw));
    let lo = raw < -1;
    let hi = raw > 1;
    let d4 = Deed::Two {
        dst: r4,
        m: Mn::Slt,
        ty: "i64"@,
        l: r3,
        r: dec(-1),
        x: raw,
        y: -1,
        d: flag(lo),
    };
    let s4 = with_reg(s3, r4, Datum::Int(flag(lo)));
    let d5 = Deed::Two {
        dst: r5,
        m: Mn::Sgt,
        ty: "i64"@,
        l: r3,
        r: dec(1),
        x: raw,
        y: 1,
        d: flag(hi),
    };
    let s5 = with_reg(s4, r5, Datum::Int(flag(hi)));
    let low = if lo {
        -1
    } else {
        raw
    };
    let d6 = Deed::Select {
        dst: r6,
        c: r4,
        ty: "i64"@,
        l: dec(-1),
        r: r3,
        b: lo,
        d: Datum::Int(low),
    };
    let s6 = with_reg(s5, r6, Datum::Int(low));
    let high = if hi {
        1
    } else {
        low
    };
    let d7 = Deed::Select {
        dst: r7,
        c: r5,
        ty: "i64"@,
        l: dec(1),
        r: r6,
        b: hi,
        d: Datum::Int(high),
    };
    let s7 = with_reg(s6, r7, Datum::Int(high));
    let d8 = Deed::Cut { dst: r8, from: "i64"@, v: r7, to: "i8"@, x: high };
    let s8 = with_reg(s7, r8, Datum::Int(high));
    assert(high == t);
    assert(does(d1, s, s1));
    assert(means(s1, r, Datum::Int(b as int)));
    assert(does(d2, s1, s2));
    assert(does(d3, s2, s3));
    assert(means(s3, dec(-1), Datum::Int(-1)));
    assert(does(d4, s3, s4));
    assert(means(s4, dec(1), Datum::Int(1)));
    assert(does(d5, s4, s5));
    assert(means(s5, dec(-1), Datum::Int(-1)));
    assert(does(d6, s5, s6));
    assert(means(s6, dec(1), Datum::Int(1)));
    assert(does(d7, s6, s7));
    assert(does(d8, s7, s8));
    lemma_trit_lines(
        g,
        opc,
        l,
        r,
        m,
        d1,
        d2,
        d3,
        d4,
        d5,
        d6,
        d7,
        d8,
        s,
        s1,
        s2,
        s3,
        s4,
        s5,
        s6,
        s7,
        s8,
    );
    let code = binary_trit_code(g, op, l, "i8"@, r, "i8"@);
    assert(code == trit_arith_code(g, opc, l, r));
    assert(means(s8, code.1.v, Datum::Int(t as int)));
}

proof fn lemma_trit_lines(
    g: GenV,
    opc: Seq<char>,
    l: Seq<char>,
    r: Seq<char>,
    m: Mn,
    d1: Deed,
    d2: Deed,
    d3: Deed,
    d4: Deed,
    d5: Deed,
    d6: Deed,
    d7: Deed,
    d8: Deed,
    s: State,
    s1: State,
    s2: State,
    s3: State,
    s4: State,
    s5: State,
    s6: State,
    s7: State,
    s8: State,
)
    requires
        roomy(g),
        mn_text(m) == opc,
        does(d1, s, s1),
        does(d2, s1, s2),
        does(d3, s2, s3),
        does(d4, s3, s4),
        does(d5, s4, s5),
        does(d6, s5, s6),
        does(d7, s6, s7),
        does(d8, s7, s8),
        ({
            let n = g.reg as int;
            let (r1, r2, r3, r4) = (register(n + 1), register(n + 2), register(n + 3), register(n + 4));
            let (r5, r6, r7, r8) = (register(n + 5), register(n + 6), register(n + 7), register(n + 8));
            &&& d1 matches Deed::Wide { dst, signed, from, v, to, .. } && dst == r1 && signed && from
                == "i8"@ && v == l && to == "i64"@
            &&& d2 matches Deed::Wide { dst, signed, from, v, to, .. } && dst == r2 && signed && from
                == "i8"@ && v == r && to == "i64"@
            &&& d3 matches Deed::Two { dst, m: k, ty, l: x, r: y, .. } && dst == r3 && k == m && ty
                == "i64"@ && x == r1 && y == r2
            &&& d4 matches Deed::Two { dst, m: k, ty, l: x, r: y, .. } && dst == r4 && k == Mn::Slt
                && ty == "i64"@ && x == r3 && y == dec(-1)
            &&& d5 matches Deed::Two { dst, m: k, ty, l: x, r: y, .. } && dst == r5 && k == Mn::Sgt
                && ty == "i64"@ && x == r3 && y == dec(1)
            &&& d6 matches Deed::Select { dst, c, ty, l: x, r: y, .. } && dst == r6 && c == r4 && ty
                == "i64"@ && x == dec(-1) && y == r3
            &&& d7 matches Deed::Select { dst, c, ty, l: x, r: y, .. } && dst == r7 && c == r5 && ty
                == "i64"@ && x == dec(1) && y == r6
            &&& d8 matches Deed::Cut { dst, from, v, to, .. } && dst == r8 && from == "i64"@ && v
                == r7 && to == "i8"@
        }),
    ensures
        ran(g, trit_arith_code(g, opc, l, r).0, s, s8),
        trit_arith_code(g, opc, l, r).1 == (OperandV { v: register(g.reg + 8), t: "i8"@ }),
{
    let n = g.reg as int;
    lemma_ran_nothing(g, g, s);
    lemma_step_reg(g, g, s, s, d1, s1);
    lemma_wide_text(register(n + 1), l);
    let h1 = line(reg(g).0, line_of(d1));
    lemma_step_reg(g, h1, s, s1, d2, s2);
    lemma_wide_text(register(n + 2), r);
    let h2 = line(reg(h1).0, line_of(d2));
    lemma_step_reg(g, h2, s, s2, d3, s3);
    lemma_opc_text(register(n + 3), opc, register(n + 1), register(n + 2));
    let h3 = line(reg(h2).0, line_of(d3));
    lemma_step_reg(g, h3, s, s3, d4, s4);
    lemma_limit_text(register(n + 4), register(n + 3));
    let h4 = line(reg(h3).0, line_of(d4));
    lemma_step_reg(g, h4, s, s4, d5, s5);
    lemma_limit_text(register(n + 5), register(n + 3));
    let h5 = line(reg(h4).0, line_of(d5));
    lemma_step_reg(g, h5, s, s5, d6, s6);
    lemma_select_text(register(n + 6), register(n + 4), l, register(n + 3));
    let h6 = line(reg(h5).0, line_of(d6));
    lemma_step_reg(g, h6, s, s6, d7, s7);
    lemma_select_text(register(n + 7), register(n + 5), l, register(n + 6));
    let h7 = line(reg(h6).0, line_of(d7));
    lemma_step_reg(g, h7, s, s7, d8, s8);
    lemma_wide_text(register(n + 8), register(n + 7));
}

proof fn lemma_mixed_text(op: BinaryOp, m: Mn)
    requires
        op == BinaryOp::Add && m == Mn::Add || op == BinaryOp::Sub && m == Mn::Sub || op
            == BinaryOp::Mul && m == Mn::Mul || op == BinaryOp::Eq && m == Mn::Eq || op
            == BinaryOp::NotEq && m == Mn::Ne || op == BinaryOp::Lt && m == Mn::Slt || op
            == BinaryOp::Gt && m == Mn::Sgt || op == BinaryOp::Le && m == Mn::Sle || op
            == BinaryOp::Ge && m == Mn::Sge,
    ensures
        mixed_opcode(op) == Some(mn_text(m) + " "@ + "i64"@),
{
    reveal_strlit(" ");
    reveal_strlit("i64");
    reveal_strlit("add i64");
    reveal_strlit("sub i64");
    reveal_strlit("mul i64");
    reveal_strlit("icmp eq i64");
    reveal_strlit("icmp ne i64");
    reveal_strlit("icmp slt i64");
    reveal_strlit("icmp sgt i64");
    reveal_strlit("icmp sle i64");
    reveal_strlit("icmp sge i64");
    reveal_strlit("add");
    reveal_strlit("sub");
    reveal_strlit("mul");
    reveal_strlit("icmp eq");
    reveal_strlit("icmp ne");
    reveal_strlit("icmp slt");
    reveal_strlit("icmp sgt");
    reveal_strlit("icmp sle");
    reveal_strlit("icmp sge");
    assert(mixed_opcode(op)->0 =~= mn_text(m) + " "@ + "i64"@);
}

/// The code of an operator between a trit and an integer computes what the operator gives, on
/// whichever side the trit stands.
pub proof fn law_mixed_code(
    g: GenV,
    op: BinaryOp,
    l: Seq<char>,
    r: Seq<char>,
    trit_first: bool,
    s: State,
    t: i8,
    n: i64,
)
    requires
        roomy(g),
        known(g, l) && known(g, r),
        -1 <= t <= 1,
        means(s, if trit_first {
            l
        } else {
            r
        }, Datum::Int(t as int)),
        means(s, if trit_first {
            r
        } else {
            l
        }, Datum::Int(n as int)),
    ensures
        ({
            let code = if trit_first {
                binary_trit_code(g, op, l, "i8"@, r, "i64"@)
            } else {
                binary_trit_code(g, op, l, "i64"@, r, "i8"@)
            };
            match (if trit_first {
                binary(op, ValueV::Trit(t), ValueV::Int(n))
            } else {
                binary(op, ValueV::Int(n), ValueV::Trit(t))
            }) {
                BinOutV::Val(ValueV::Int(z)) => results(g, code, s, Datum::Int(z as int), "i64"@),
                BinOutV::Val(ValueV::Bool(b)) => results(g, code, s, Datum::Int(flag(b)), "i1"@),
                _ => true,
            }
        }),
{
    law_trits_beside_integers(op, t, n);
    lemma_ty("i64"@);
    lemma_ty("i8"@);
    reveal_strlit("i8");
    reveal_strlit("i64");
    assert("i8"@.len() == 2 && "i64"@.len() == 3);
    let out = if trit_first {
        binary(op, ValueV::Trit(t), ValueV::Int(n))
    } else {
        binary(op, ValueV::Int(n), ValueV::Trit(t))
    };
    let m = match op {
        BinaryOp::Add => Mn::Add,
        BinaryOp::Sub => Mn::Sub,
        BinaryOp::Mul => Mn::Mul,
        BinaryOp::Eq => Mn::Eq,
        BinaryOp::NotEq => Mn::Ne,
        BinaryOp::Lt => Mn::Slt,
        BinaryOp::Gt => Mn::Sgt,
        BinaryOp::Le => Mn::Sle,
        _ => Mn::Sge,
    };
    if out is Val {
        let d = match out {
            BinOutV::Val(ValueV::Int(z)) => z as int,
            BinOutV::Val(ValueV::Bool(b)) => flag(b),
            _ => 0,
        };
        let (trit, other) = if trit_first {
            (l, r)
        } else {
            (r, l)
        };
        lemma_mixed_text(op, m);
        let r1 = register(g.reg + 1);
        let r2 = register(g.reg + 2);
        let d1 = Deed::Wide {
            dst: r1,
            signed: true,
            from: "i8"@,
            v: trit,
            to: "i64"@,
            x: t as int,
        };
        let s1 = with_reg(s, r1, Datum::Int(t as int));
        assert(does(d1, s, s1));
        lemma_ran_nothing(g, g, s);
        lemma_step_reg(g, g, s, s, d1, s1);
        lemma_wide_text(r1, trit);
        let h1 = line(reg(g).0, line_of(d1));
        let d2 = if trit_first {
            Deed::Two { dst: r2, m, ty: "i64"@, l: r1, r: other, x: t as int, y: n as int, d }
        } else {
            Deed::Two { dst: r2, m, ty: "i64"@, l: other, r: r1, x: n as int, y: t as int, d }
        };
        let s2 = with_reg(s1, r2, Datum::Int(d));
        assert(other != r1);
        assert(means(s1, other, Datum::Int(n as int)));
        assert(does(d2, s1, s2));
        lemma_step_reg(g, h1, s, s1, d2, s2);
        let code = binary_mixed_code(g, op, trit, other, trit_first);
        assert(ran(g, code.0, s, s2));
        assert(means(s2, code.1.v, Datum::Int(d)));
    }
}

// ---------- signs ----------
/// The code of a sign turns a number's sign, that of `!` a truth value, and on a trit both do the
/// same.
pub proof fn law_unary_code(g: GenV, ty: Seq<char>, v: Seq<char>, s: State, x: int, b: bool)
    requires
        roomy(g),
        integer_ty(ty),
        in_type(-x, ty),
    ensures
        means(s, v, Datum::Int(x)) ==> results(
            g,
            unary_value_code(g, UnaryOp::Neg, v, ty),
            s,
            Datum::Int(-x),
            ty,
        ),
        means(s, v, Datum::Int(x)) && ty == "i8"@ ==> results(
            g,
            unary_value_code(g, UnaryOp::Not, v, ty),
            s,
            Datum::Int(-x),
            ty,
        ),
        means(s, v, Datum::Int(flag(b))) ==> results(
            g,
            unary_value_code(g, UnaryOp::Not, v, "i1"@),
            s,
            Datum::Int(flag(!b)),
            "i1"@,
        ),
{
    lemma_ty(ty);
    lemma_ty("i1"@);
    let r1 = register(g.reg + 1);
    lemma_ran_nothing(g, g, s);
    if means(s, v, Datum::Int(x)) {
        let d = Deed::Two { dst: r1, m: Mn::Sub, ty, l: dec(0), r: v, x: 0, y: x, d: -x };
        let t = with_reg(s, r1, Datum::Int(-x));
        assert(means(s, dec(0), Datum::Int(0)));
        assert(does(d, s, t));
        lemma_step_reg(g, g, s, s, d, t);
        lemma_negation_text(r1, ty, v);
        assert(ran(g, unary_value_code(g, UnaryOp::Neg, v, ty).0, s, t));
        if ty == "i8"@ {
            assert(ran(g, unary_value_code(g, UnaryOp::Not, v, ty).0, s, t));
        }
    }
    if means(s, v, Datum::Int(flag(b))) {
        let d = Deed::Two {
            dst: r1,
            m: Mn::Xor,
            ty: "i1"@,
            l: v,
            r: "true"@,
            x: flag(b),
            y: 1,
            d: flag(!b),
        };
        let t = with_reg(s, r1, Datum::Int(flag(!b)));
        assert(means(s, "true"@, Datum::Int(1)));
        assert(does(d, s, t));
        lemma_step_reg(g, g, s, s, d, t);
        lemma_fused_texts();
        lemma_fused(r1, " = xor i1 "@, Mn::Xor, "i1"@, v, "true"@);
        lemma_not_text(r1, v);
        assert(ran(g, unary_value_code(g, UnaryOp::Not, v, "i1"@).0, s, t));
    }
}

proof fn lemma_not_text(dst: Seq<char>, v: Seq<char>)
    ensures
        dst + " = xor i1 "@ + v + ", true"@ == dst + " = xor i1 "@ + v + ", "@ + "true"@,
{
    reveal_strlit(", true");
    reveal_strlit(", ");
    reveal_strlit("true");
    assert(dst + " = xor i1 "@ + v + ", true"@ =~= dst + " = xor i1 "@ + v + ", "@ + "true"@);
}

proof fn lemma_negation_text(dst: Seq<char>, ty: Seq<char>, v: Seq<char>)
    ensures
        dst + " = sub "@ + ty + " 0, "@ + v == dst + " = "@ + ("sub"@ + " "@ + ty) + " "@ + dec(0)
            + ", "@ + v,
        dst + " = sub i8 0, "@ + v == dst + " = "@ + ("sub"@ + " "@ + "i8"@) + " "@ + dec(0) + ", "@
            + v,
{
    lemma_numerals();
    reveal_strlit(" = sub ");
    reveal_strlit(" = sub i8 0, ");
    reveal_strlit(" 0, ");
    reveal_strlit(" = ");
    reveal_strlit("sub");
    reveal_strlit("i8");
    reveal_strlit(" ");
    reveal_strlit(", ");
    assert(dst + " = sub "@ + ty + " 0, "@ + v =~= dst + " = "@ + ("sub"@ + " "@ + ty) + " "@
        + dec(0) + ", "@ + v);
    assert(dst + " = sub i8 0, "@ + v =~= dst + " = "@ + ("sub"@ + " "@ + "i8"@) + " "@ + dec(0)
        + ", "@ + v);
}

// ---------- variables ----------
/// Whether the code leaves a state in which its operand stands for `d` and the variables are
/// `slots`.
pub open spec fn leaves(
    g: GenV,
    code: (GenV, OperandV),
    s: State,
    d: Datum,
    slots: Map<Datum, Datum>,
) -> bool {
    exists|t: State| #[trigger]
        ran(g, code.0, s, t) && means(t, code.1.v, d) && t.slots == slots && t.bytes == s.bytes
}

/// The code that reads a variable gives what the variable holds, and changes none.
pub proof fn law_variables_are_read(
    sem: Sem,
    g: GenV,
    name: Seq<char>,
    s: State,
    p: Datum,
    d: Datum,
)
    requires
        roomy(g),
        bound(g, name) matches Some(b) && means(s, b.value, p),
        s.slots.dom().contains(p),
        s.slots[p] == d,
    ensures
        leaves(g, read_var_code(sem, g, name), s, d, s.slots),
        read_var_code(sem, g, name).1.t == bound(g, name)->0.ty,
{
    let b = bound(g, name)->0;
    let r1 = register(g.reg + 1);
    let load = Deed::Load { dst: r1, ty: b.ty, p: b.value, at: p, d };
    let t = with_reg(s, r1, d);
    assert(does(load, s, t));
    lemma_ran_nothing(g, g, s);
    lemma_step_reg(g, g, s, s, load, t);
    assert(ran(g, read_var_code(sem, g, name).0, s, t));
}

/// `++` adds one to a variable and `--` takes one from it; before the name it gives the new value,
/// behind it the old one.
pub proof fn law_steps_of_variables_code(
    g: GenV,
    op: UnaryOp,
    e: Expr,
    name: String,
    s: State,
    p: Datum,
    x: int,
)
    requires
        roomy(g),
        e.kind == ExprKind::Var(name),
        bound(g, name@) matches Some(b) && integer_ty(b.ty) && means(s, b.value, p) && known(
            g,
            b.value,
        ) && in_type(
            if op == UnaryOp::PreInc || op == UnaryOp::PostInc {
                x + 1
            } else {
                x - 1
            },
            b.ty,
        ),
        op == UnaryOp::PreInc || op == UnaryOp::PostInc || op == UnaryOp::PreDec || op
            == UnaryOp::PostDec,
        s.slots.dom().contains(p),
        s.slots[p] == Datum::Int(x),
    ensures
        ({
            let code = inc_dec_code(g, op, e);
            let slots = |y: int| s.slots.insert(p, Datum::Int(y));
            &&& op == UnaryOp::PreInc ==> leaves(g, code, s, Datum::Int(x + 1), slots(x + 1))
            &&& op == UnaryOp::PostInc ==> leaves(g, code, s, Datum::Int(x), slots(x + 1))
            &&& op == UnaryOp::PreDec ==> leaves(g, code, s, Datum::Int(x - 1), slots(x - 1))
            &&& op == UnaryOp::PostDec ==> leaves(g, code, s, Datum::Int(x), slots(x - 1))
        }),
{
    let b = bound(g, name@)->0;
    let ty = b.ty;
    lemma_ty(ty);
    lemma_number_ty(ty);
    let up = op == UnaryOp::PreInc || op == UnaryOp::PostInc;
    let y = if up {
        x + 1
    } else {
        x - 1
    };
    let m = if up {
        Mn::Add
    } else {
        Mn::Sub
    };
    let r1 = register(g.reg + 1);
    let r2 = register(g.reg + 2);
    lemma_registers_differ(g.reg + 1, g.reg + 2);
    let d1 = Deed::Load { dst: r1, ty, p: b.value, at: p, d: Datum::Int(x) };
    let s1 = with_reg(s, r1, Datum::Int(x));
    assert(does(d1, s, s1));
    lemma_ran_nothing(g, g, s);
    lemma_step_reg(g, g, s, s, d1, s1);
    let h1 = line(reg(g).0, line_of(d1));
    let d2 = Deed::Two { dst: r2, m, ty, l: r1, r: dec(1), x, y: 1, d: y };
    let s2 = with_reg(s1, r2, Datum::Int(y));
    assert(means(s1, dec(1), Datum::Int(1)));
    assert(does(d2, s1, s2));
    lemma_step_reg(g, h1, s, s1, d2, s2);
    lemma_step_text(op, ty, m, r2, r1);
    let h2 = line(reg(h1).0, line_of(d2));
    let d3 = Deed::Store { ty, v: r2, p: b.value, at: p, d: Datum::Int(y) };
    let s3 = State { slots: s2.slots.insert(p, Datum::Int(y)), ..s2 };
    assert(b.value != r1 && b.value != r2);
    assert(means(s2, b.value, p));
    assert(does(d3, s2, s3));
    lemma_step(g, h2, s, s2, d3, s3);
    let code = inc_dec_code(g, op, e);
    assert(ran(g, code.0, s, s3));
    assert(means(s3, r1, Datum::Int(x)) && means(s3, r2, Datum::Int(y)));
}

proof fn lemma_number_ty(ty: Seq<char>)
    requires
        integer_ty(ty),
    ensures
        number_ty(ty),
        one(ty) == dec(1),
{
    lemma_ty(ty);
    lemma_numerals();
    reveal_strlit("i8");
    reveal_strlit("i16");
    reveal_strlit("i32");
    reveal_strlit("i64");
    reveal_strlit("{");
    reveal_strlit("[");
    reveal_strlit("1");
    assert(one(ty) =~= dec(1));
    assert(ty[0] == 'i');
    assert("{"@[0] == '{' && "["@[0] == '[');
}

proof fn lemma_step_text(op: UnaryOp, ty: Seq<char>, m: Mn, dst: Seq<char>, x: Seq<char>)
    requires
        integer_ty(ty),
        m == (if op == UnaryOp::PreInc || op == UnaryOp::PostInc {
            Mn::Add
        } else {
            Mn::Sub
        }),
    ensures
        dst + " = "@ + step(op, ty) + " "@ + ty + " "@ + x + ", "@ + one(ty) == dst + " = "@ + (
        mn_text(m) + " "@ + ty) + " "@ + x + ", "@ + dec(1),
{
    lemma_ty(ty);
    lemma_number_ty(ty);
    assert(step(op, ty) == mn_text(m));
    assert(dst + " = "@ + step(op, ty) + " "@ + ty + " "@ + x + ", "@ + one(ty) =~= dst + " = "@ + (
    mn_text(m) + " "@ + ty) + " "@ + x + ", "@ + dec(1));
}

/// The code that widens an integer to 64 bits keeps its value: by its sign, or without one.
pub proof fn law_widening_code(g: GenV, v: Seq<char>, ty: Seq<char>, u: bool, s: State, x: int)
    requires
        roomy(g),
        integer_ty(ty),
        in_type(x, ty),
        means(s, v, Datum::Int(x)),
    ensures
        exists|t: State| #[trigger]
            ran(g, extend_code(g, v, ty, u).0, s, t) && means(
                t,
                extend_code(g, v, ty, u).1,
                Datum::Int(
                    if u && x < 0 && ty != "i64"@ {
                        x + 2 * half(ty)
                    } else {
                        x
                    },
                ),
            ) && t.slots == s.slots,
{
    lemma_ty(ty);
    if ty == "i64"@ {
        lemma_ran_nothing(g, g, s);
        assert(ran(g, extend_code(g, v, ty, u).0, s, s));
    } else {
        let r1 = register(g.reg + 1);
        let d = Deed::Wide { dst: r1, signed: !u, from: ty, v, to: "i64"@, x };
        let y = if u && x < 0 {
            x + 2 * half(ty)
        } else {
            x
        };
        let t = with_reg(s, r1, Datum::Int(y));
        assert(ty != "i1"@);
        assert(does(d, s, t));
        lemma_ran_nothing(g, g, s);
        lemma_step_reg(g, g, s, s, d, t);
        lemma_extend_text(r1, ty, v);
        assert(ran(g, extend_code(g, v, ty, u).0, s, t));
    }
}

proof fn lemma_extend_text(dst: Seq<char>, ty: Seq<char>, v: Seq<char>)
    ensures
        dst + " = zext "@ + ty + " "@ + v + " to i64"@ == dst + " = zext "@ + ty + " "@ + v
            + " to "@ + "i64"@,
        dst + " = sext "@ + ty + " "@ + v + " to i64"@ == dst + " = sext "@ + ty + " "@ + v
            + " to "@ + "i64"@,
{
    reveal_strlit(" to i64");
    reveal_strlit(" to ");
    reveal_strlit("i64");
    assert(" to i64"@ =~= " to "@ + "i64"@);
    assert(dst + " = zext "@ + ty + " "@ + v + " to i64"@ =~= dst + " = zext "@ + ty + " "@ + v
        + " to "@ + "i64"@);
    assert(dst + " = sext "@ + ty + " "@ + v + " to i64"@ =~= dst + " = sext "@ + ty + " "@ + v
        + " to "@ + "i64"@);
}

// ---------- jumps out of loops ----------
/// A `break` jumps behind its loop, a `continue` to its next round.
pub proof fn law_jumps_of_loops(sem: Sem, g: GenV, tag: Option<String>)
    ensures
        stmt_code(sem, g, Stmt::Break { label: tag }).out == g.out + jump(
            break_target(g, opt_view(tag)),
        ),
        stmt_code(sem, g, Stmt::Continue { label: tag }).out == g.out + jump(
            continue_target(g, opt_view(tag)),
        ),
{
    lemma_jump_text(g, break_target(g, opt_view(tag)));
    lemma_jump_text(g, continue_target(g, opt_view(tag)));
}

// ---------- assignments ----------
/// An assignment leaves the value in the variable, and changes no other.
pub proof fn law_assignments_code(
    sem: Sem,
    g: GenV,
    ty: Seq<char>,
    ptr: Seq<char>,
    value: Expr,
    s: State,
    p: Datum,
    d: Datum,
)
    requires
        means(s, ptr, p),
        means(s, expr_code(sem, g, value, depth(sem)).1.v, d),
    ensures
        exists|t: State| #[trigger]
            ran(
                expr_code(sem, g, value, depth(sem)).0,
                store_to_code(sem, g, ty, ptr, None, value),
                s,
                t,
            ) && t.slots == s.slots.insert(p, d) && t.bytes == s.bytes,
{
    let h = expr_code(sem, g, value, depth(sem)).0;
    let a = expr_code(sem, g, value, depth(sem)).1;
    let store = Deed::Store { ty, v: a.v, p: ptr, at: p, d };
    let t = State { slots: s.slots.insert(p, d), ..s };
    assert(does(store, s, t));
    lemma_ran_nothing(h, h, s);
    lemma_step(h, h, s, s, store, t);
    assert(ran(h, store_to_code(sem, g, ty, ptr, None, value), s, t));
}

/// An assignment with an operator leaves in the variable what the operator gives for the
/// variable's value, on the left, and the value assigned, on the right.
pub proof fn law_compound_assignments_code(
    sem: Sem,
    g: GenV,
    op: BinaryOp,
    ty: Seq<char>,
    ptr: Seq<char>,
    value: Expr,
    s: State,
    p: Datum,
    x: i64,
    y: i64,
    z: i64,
)
    requires
        !unsigned(value),
        integer_ty(ty),
        in_type(x as int, ty) && in_type(y as int, ty) && in_type(z as int, ty),
        op == BinaryOp::Mod ==> !(x == -half(ty) && y == -1),
        op == BinaryOp::BitAnd || op == BinaryOp::BitOr || op == BinaryOp::BitXor || op
            == BinaryOp::Shl || op == BinaryOp::Shr ==> ty == "i64"@,
        binary(op, ValueV::Int(x), ValueV::Int(y)) == BinOutV::Val(ValueV::Int(z)),
        ({
            let (h, a) = expr_code(sem, g, value, depth(sem));
            &&& roomy(h)
            &&& known(h, ptr) && known(h, a.v)
            &&& means(s, a.v, Datum::Int(y as int))
        }),
        means(s, ptr, p),
        s.slots.dom().contains(p),
        s.slots[p] == Datum::Int(x as int),
    ensures
        exists|t: State| #[trigger]
            ran(
                expr_code(sem, g, value, depth(sem)).0,
                store_to_code(sem, g, ty, ptr, Some(op), value),
                s,
                t,
            ) && t.slots == s.slots.insert(p, Datum::Int(z as int)) && t.bytes == s.bytes,
{
    lemma_ty(ty);
    lemma_integer_computes(op, ty, x, y);
    lemma_opcode(op, ty, false);
    let h = expr_code(sem, g, value, depth(sem)).0;
    let a = expr_code(sem, g, value, depth(sem)).1;
    let r1 = register(h.reg + 1);
    let r2 = register(h.reg + 2);
    let d1 = Deed::Load { dst: r1, ty, p: ptr, at: p, d: Datum::Int(x as int) };
    let s1 = with_reg(s, r1, Datum::Int(x as int));
    assert(does(d1, s, s1));
    lemma_ran_nothing(h, h, s);
    lemma_step_reg(h, h, s, s, d1, s1);
    let h1 = line(reg(h).0, line_of(d1));
    let d2 = Deed::Two {
        dst: r2,
        m: mn_of(op, false),
        ty,
        l: r1,
        r: a.v,
        x: x as int,
        y: y as int,
        d: z as int,
    };
    let s2 = with_reg(s1, r2, Datum::Int(z as int));
    assert(a.v != r1);
    assert(means(s1, a.v, Datum::Int(y as int)));
    assert(does(d2, s1, s2));
    lemma_step_reg(h, h1, s, s1, d2, s2);
    let h2 = line(reg(h1).0, line_of(d2));
    let d3 = Deed::Store { ty, v: r2, p: ptr, at: p, d: Datum::Int(z as int) };
    let s3 = State { slots: s2.slots.insert(p, Datum::Int(z as int)), ..s2 };
    assert(ptr != r1 && ptr != r2);
    assert(means(s2, ptr, p));
    assert(does(d3, s2, s3));
    lemma_step(h, h2, s, s2, d3, s3);
    assert(binary_regs_code(h1, op, false, r1, ty, a.v, false).0 == h2);
    assert(ran(h, store_to_code(sem, g, ty, ptr, Some(op), value), s, s3));
}

/// What is assigned to a name is stored where the name is bound.
pub proof fn law_names_are_assigned(
    sem: Sem,
    g: GenV,
    target: Seq<char>,
    op: Option<BinaryOp>,
    value: Expr,
)
    requires
        bound(g, target) is Some,
    ensures
        assign_code(sem, g, target, op, value) == store_to_code(
            sem,
            g,
            bound(g, target)->0.ty,
            bound(g, target)->0.value,
            op,
            value,
        ),
{
}

/// A declaration binds the name to a new variable that holds the value.
pub proof fn law_declarations_code(
    sem: Sem,
    g: GenV,
    name: Seq<char>,
    init: Expr,
    s: State,
    p: Datum,
    d: Datum,
)
    requires
        !dynamic_table(sem, g.cur_fn, name),
        !fixed_table(None, init),
        trit_literal(false, init) is None,
        expr_code(sem, g, init, depth(sem)).0.scopes.len() > 0,
        means(s, expr_code(sem, g, init, depth(sem)).1.v, d),
    ensures
        ({
            let (h, a) = expr_code(sem, g, init, depth(sem));
            let out = var_decl_code(sem, g, name, None, init);
            bound(out, name) matches Some(b) && b.ty == a.t && b.value == reg(h).1 && (means(
                s,
                b.value,
                p,
            ) ==> exists|t: State| #[trigger]
                ran(h, out, s, t) && t.slots == s.slots.insert(p, d) && t.regs == s.regs)
        }),
{
    let h = expr_code(sem, g, init, depth(sem)).0;
    let a = expr_code(sem, g, init, depth(sem)).1;
    let slot = reg(h).1;
    let h1 = alloca(h, a.t).0;
    assert(h1.out == h.out && h1.scopes == h.scopes && alloca(h, a.t).1 == slot) by {
        reveal(alloca);
        reveal(reg);
    }
    let h2 = line(h1, "store "@ + a.t + " "@ + a.v + ", ptr "@ + slot);
    let out = var_decl_code(sem, g, name, None, init);
    assert(out == bind(h2, name, slot, a.t));
    assert(h2.scopes == h.scopes) by {
        reveal(put);
    }
    law_bound_is_found(h2, name, slot, a.t, name);
    if means(s, slot, p) {
        let store = Deed::Store { ty: a.t, v: a.v, p: slot, at: p, d };
        let t = State { slots: s.slots.insert(p, d), ..s };
        assert(does(store, s, t));
        lemma_ran_nothing(h, h1, s);
        lemma_step(h, h1, s, s, store, t);
        assert(out.out == h2.out) by {
            reveal(bind);
        }
        lemma_ran_same(h, h2, out, s, t);
    }
}

/// An operator between integers works on the value of its left expression and that of its right
/// one, in this order.
pub proof fn law_operators_code(
    sem: Sem,
    g: GenV,
    e: Expr,
    op: BinaryOp,
    lhs: Rc<Expr>,
    rhs: Rc<Expr>,
    d: nat,
    s: State,
    x: i64,
    y: i64,
)
    requires
        e.kind == (ExprKind::Binary { op, lhs, rhs }),
        !typed(*lhs, TyKw::Trit) && !typed(*rhs, TyKw::Trit),
        !typed(*lhs, TyKw::Str) && !typed(*rhs, TyKw::Str),
        !unsigned(*lhs),
        ({
            let (h, a) = at_depth(sem, g, lhs, d);
            let (k, b) = at_depth(sem, h, rhs, d);
            &&& roomy(k)
            &&& integer_ty(a.t)
            &&& in_type(x as int, a.t) && in_type(y as int, a.t)
            &&& means(s, a.v, Datum::Int(x as int)) && means(s, b.v, Datum::Int(y as int))
            &&& op == BinaryOp::Mod ==> !(x == -half(a.t) && y == -1)
            &&& op == BinaryOp::BitAnd || op == BinaryOp::BitOr || op == BinaryOp::BitXor || op
                == BinaryOp::Shl || op == BinaryOp::Shr ==> a.t == "i64"@
        }),
    ensures
        ({
            let (h, a) = at_depth(sem, g, lhs, d);
            let (k, b) = at_depth(sem, h, rhs, d);
            match binary(op, ValueV::Int(x), ValueV::Int(y)) {
                BinOutV::Val(ValueV::Int(z)) => in_type(z as int, a.t) ==> results(
                    k,
                    binary_code(sem, g, e, d),
                    s,
                    Datum::Int(z as int),
                    a.t,
                ),
                BinOutV::Val(ValueV::Bool(t)) => results(
                    k,
                    binary_code(sem, g, e, d),
                    s,
                    Datum::Int(flag(t)),
                    "i1"@,
                ),
                _ => true,
            }
        }),
{
    let (h, a) = at_depth(sem, g, lhs, d);
    let (k, b) = at_depth(sem, h, rhs, d);
    law_integer_code(k, op, a.t, a.v, b.v, s, x, y);
}

// ---------- calls ----------
/// The arguments of a call of the program's own function stand in their order: the one for each
/// parameter is the value of the argument with the same position.
pub proof fn law_arguments_code(
    sem: Sem,
    g: GenV,
    name: Seq<char>,
    sig: FuncSig,
    e: Expr,
    n: usize,
    d: nat,
)
    requires
        n <= argc(e),
    ensures
        call_args_code(sem, g, name, sig, e, false, n, d).1.len() == n,
        n > 0 ==> ({
            let (h, before) = call_args_code(sem, g, name, sig, e, false, (n - 1) as usize, d);
            let (k, a) = arg_value_code(sem, h, e, (n - 1) as usize, d);
            let all = call_args_code(sem, g, name, sig, e, false, n, d).1;
            &&& all.drop_last() == before
            &&& exists|ty: Seq<char>| all.last() == #[trigger] (ty + " "@ + a.v)
        }),
    decreases n,
{
    if n > 0 {
        law_arguments_code(sem, g, name, sig, e, (n - 1) as usize, d);
        let (h, before) = call_args_code(sem, g, name, sig, e, false, (n - 1) as usize, d);
        let all = call_args_code(sem, g, name, sig, e, false, n, d).1;
        lemma_one_arg(sem, h, name, sig, e, n, d);
        assert(all == before.push(one_arg_code(sem, h, name, sig, e, false, n, d).1));
        assert(all.drop_last() =~= before);
    }
}

proof fn lemma_one_arg(
    sem: Sem,
    g: GenV,
    name: Seq<char>,
    sig: FuncSig,
    e: Expr,
    n: usize,
    d: nat,
)
    requires
        0 < n <= argc(e),
    ensures
        one_arg_code(sem, g, name, sig, e, false, n, d).1 == param_ty_code(
            sem,
            arg_value_code(sem, g, e, (n - 1) as usize, d).0,
            sig,
            n,
        ).1 + " "@ + arg_value_code(sem, g, e, (n - 1) as usize, d).1.v,
{
}

} // verus!
