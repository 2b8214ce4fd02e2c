//! What the code of expressions computes when it is executed: the values that the interpreter
//! gives for them.
use crate::ast::BinaryOp;
use crate::emit::{line, reg, GenV, OperandV};
use crate::irtable::{opcode, predicate};
use crate::llvm::{
    bytes_before, computes, divided, does, flag, half, in_type, known, lemma_line_text,
    lemma_ran_line, lemma_ran_nothing, lemma_ran_same, lemma_reg, lemma_registers_differ, line_of,
    means, mn_text, plain, ran, register, roomy, with_reg, text_at, Datum, Deed, Mn, State,
};
use crate::lower::{binary_regs_code, binary_str_code};
use crate::operators::law_division;
use crate::text::{dec, nat_dec};
use crate::value::{binary, BinOutV, ValueV};
use vstd::prelude::*;

verus! {

/// Whether the code that a generator writes, executed in the state `s`, leaves a state in which
/// its operand stands for `d` and has the type `ty`.
pub open spec fn results(
    g: GenV,
    code: (GenV, OperandV),
    s: State,
    d: Datum,
    ty: Seq<char>,
) -> bool {
    code.1.t == ty && exists|t: State| #[trigger] ran(g, code.0, s, t) && means(t, code.1.v, d)
}

/// The types of integers.
pub open spec fn integer_ty(ty: Seq<char>) -> bool {
    ty == "i8"@ || ty == "i16"@ || ty == "i32"@ || ty == "i64"@
}

/// The instruction for an operator.
pub open spec fn mn_of(op: BinaryOp, is_unsigned: bool) -> Mn {
    match op {
        BinaryOp::Add => Mn::Add,
        BinaryOp::Sub => Mn::Sub,
        BinaryOp::Mul => Mn::Mul,
        BinaryOp::Div => if is_unsigned {
            Mn::Udiv
        } else {
            Mn::Sdiv
        },
        BinaryOp::Mod => if is_unsigned {
            Mn::Urem
        } else {
            Mn::Srem
        },
        BinaryOp::Eq => Mn::Eq,
        BinaryOp::NotEq => Mn::Ne,
        BinaryOp::Lt => if is_unsigned {
            Mn::Ult
        } else {
            Mn::Slt
        },
        BinaryOp::Gt => if is_unsigned {
            Mn::Ugt
        } else {
            Mn::Sgt
        },
        BinaryOp::Le => if is_unsigned {
            Mn::Ule
        } else {
            Mn::Sle
        },
        BinaryOp::Ge => if is_unsigned {
            Mn::Uge
        } else {
            Mn::Sge
        },
        BinaryOp::And | BinaryOp::BitAnd => Mn::And,
        BinaryOp::Or | BinaryOp::BitOr => Mn::Or,
        BinaryOp::BitXor => Mn::Xor,
        BinaryOp::Shl => Mn::Shl,
        BinaryOp::Shr => if is_unsigned {
            Mn::Lshr
        } else {
            Mn::Ashr
        },
    }
}

pub proof fn lemma_ty(ty: Seq<char>)
    requires
        integer_ty(ty) || ty == "i1"@,
    ensures
        ty != "double"@,
        ty != "float"@,
        ty != "ptr"@,
        ty == "i1"@ ==> !integer_ty(ty),
        ty == "i8"@ ==> half(ty) == 0x80,
        ty == "i16"@ ==> half(ty) == 0x8000,
        ty == "i32"@ ==> half(ty) == 0x8000_0000,
        ty == "i64"@ ==> half(ty) == 0x8000_0000_0000_0000,
        half(ty) > 0,
        half(ty) <= 0x8000_0000_0000_0000,
{
    reveal_strlit("double");
    reveal_strlit("float");
    reveal_strlit("ptr");
    reveal_strlit("i1");
    reveal_strlit("i8");
    reveal_strlit("i16");
    reveal_strlit("i32");
    reveal_strlit("i64");
    assert("i8"@.len() == 2 && "i1"@.len() == 2);
    assert("i16"@.len() == 3 && "i32"@.len() == 3 && "i64"@.len() == 3);
    assert("i8"@[1] == '8' && "i1"@[1] == '1');
    assert("i16"@[1] == '1' && "i32"@[1] == '3' && "i64"@[1] == '6');
}

pub proof fn lemma_opcode(op: BinaryOp, ty: Seq<char>, u: bool)
    requires
        integer_ty(ty) || ty == "i1"@,
        op == BinaryOp::And || op == BinaryOp::Or ==> ty == "i1"@,
    ensures
        opcode(op, ty, u) == mn_text(mn_of(op, u)) + " "@ + ty,
{
    lemma_ty(ty);
    reveal_strlit(" ");
    reveal_strlit("i1");
    match op {
        BinaryOp::Add => {
            reveal_strlit("add ");
            reveal_strlit("add");
        },
        BinaryOp::Sub => {
            reveal_strlit("sub ");
            reveal_strlit("sub");
        },
        BinaryOp::Mul => {
            reveal_strlit("mul ");
            reveal_strlit("mul");
        },
        BinaryOp::Div => {
            reveal_strlit("sdiv ");
            reveal_strlit("sdiv");
            reveal_strlit("udiv ");
            reveal_strlit("udiv");
        },
        BinaryOp::Mod => {
            reveal_strlit("srem ");
            reveal_strlit("srem");
            reveal_strlit("urem ");
            reveal_strlit("urem");
        },
        BinaryOp::Eq => {
            reveal_strlit("icmp eq ");
            reveal_strlit("icmp eq");
        },
        BinaryOp::NotEq => {
            reveal_strlit("icmp ne ");
            reveal_strlit("icmp ne");
        },
        BinaryOp::Lt => {
            reveal_strlit("icmp slt ");
            reveal_strlit("icmp slt");
            reveal_strlit("icmp ult ");
            reveal_strlit("icmp ult");
        },
        BinaryOp::Gt => {
            reveal_strlit("icmp sgt ");
            reveal_strlit("icmp sgt");
            reveal_strlit("icmp ugt ");
            reveal_strlit("icmp ugt");
        },
        BinaryOp::Le => {
            reveal_strlit("icmp sle ");
            reveal_strlit("icmp sle");
            reveal_strlit("icmp ule ");
            reveal_strlit("icmp ule");
        },
        BinaryOp::Ge => {
            reveal_strlit("icmp sge ");
            reveal_strlit("icmp sge");
            reveal_strlit("icmp uge ");
            reveal_strlit("icmp uge");
        },
        BinaryOp::And => {
            reveal_strlit("and i1");
            reveal_strlit("and");
        },
        BinaryOp::Or => {
            reveal_strlit("or i1");
            reveal_strlit("or");
        },
        BinaryOp::BitAnd => {
            reveal_strlit("and ");
            reveal_strlit("and");
        },
        BinaryOp::BitOr => {
            reveal_strlit("or ");
            reveal_strlit("or");
        },
        BinaryOp::BitXor => {
            reveal_strlit("xor ");
            reveal_strlit("xor");
        },
        BinaryOp::Shl => {
            reveal_strlit("shl ");
            reveal_strlit("shl");
        },
        BinaryOp::Shr => {
            reveal_strlit("ashr ");
            reveal_strlit("ashr");
            reveal_strlit("lshr ");
            reveal_strlit("lshr");
        },
    }
    assert(opcode(op, ty, u) =~= mn_text(mn_of(op, u)) + " "@ + ty);
}

/// One instruction with two operands.
proof fn lemma_two(
    g: GenV,
    op: BinaryOp,
    ty: Seq<char>,
    l: Seq<char>,
    r: Seq<char>,
    u: bool,
    s: State,
    x: int,
    y: int,
    d: int,
)
    requires
        roomy(g),
        integer_ty(ty) || ty == "i1"@,
        op == BinaryOp::And || op == BinaryOp::Or ==> ty == "i1"@,
        means(s, l, Datum::Int(x)),
        means(s, r, Datum::Int(y)),
        computes(mn_of(op, u), ty, x, y, d),
    ensures
        ({
            let code = binary_regs_code(g, op, false, l, ty, r, u);
            exists|t: State| #[trigger]
                ran(g, code.0, s, t) && means(t, code.1.v, Datum::Int(d))
        }),
{
    lemma_opcode(op, ty, u);
    lemma_reg(g);
    let (h, tmp) = reg(g);
    let deed = Deed::Two { dst: tmp, m: mn_of(op, u), ty, l, r, x, y, d };
    let t = with_reg(s, tmp, Datum::Int(d));
    lemma_ran_nothing(g, h, s);
    assert(does(deed, s, t));
    lemma_ran_line(g, h, s, s, deed, t);
    let code = binary_regs_code(g, op, false, l, ty, r, u);
    assert(line_of(deed) == tmp + " = "@ + opcode(op, ty, u) + " "@ + l + ", "@ + r);
    assert(ran(g, code.0, s, t));
    assert(means(t, code.1.v, Datum::Int(d)));
}

proof fn lemma_quotient_fits(x: int, y: int, q: int, r: int, h: int)
    requires
        divided(x, y, q, r),
        0 < h,
        -h <= x < h,
        -h <= y < h,
        !(x == -h && y == -1),
    ensures
        -h <= q < h,
{
    let p = q * y;
    assert(p == x - r);
    if x < 0 {
        if r > 0 {
            assert(false);
        }
        if r < x {
            assert(p > 0);
            assert(p < 0 || p <= 0 || (y > 0 && p >= y) || (y < 0 && p >= -y)) by (nonlinear_arith)
                requires
                    p == q * y,
            ;
        }
    }
    assert(-h <= p <= h) by {
        if p > h || p < -h {
            assert((p >= y && y > 0) || (p >= -y && y < 0) || (p <= -y && y > 0) || (p <= y && y
                < 0)) by (nonlinear_arith)
                requires
                    p == q * y,
                    p != 0,
                    y != 0,
            ;
        }
    }
    assert(-h <= q < h) by (nonlinear_arith)
        requires
            p == q * y,
            -h <= p <= h,
            y != 0,
            0 < h,
            y == -1 ==> p != -h,
            y == 1 ==> p < h,
    ;
}

/// The instruction for an operator on signed integers computes what the operator gives.
pub proof fn lemma_integer_computes(op: BinaryOp, ty: Seq<char>, x: i64, y: i64)
    requires
        integer_ty(ty),
        in_type(x as int, ty),
        in_type(y as int, ty),
        op == BinaryOp::Mod ==> !(x == -half(ty) && y == -1),
        op == BinaryOp::BitAnd || op == BinaryOp::BitOr || op == BinaryOp::BitXor || op
            == BinaryOp::Shl || op == BinaryOp::Shr ==> ty == "i64"@,
    ensures
        match binary(op, ValueV::Int(x), ValueV::Int(y)) {
            BinOutV::Val(ValueV::Int(z)) => in_type(z as int, ty) ==> computes(
                mn_of(op, false),
                ty,
                x as int,
                y as int,
                z as int,
            ) && op != BinaryOp::And && op != BinaryOp::Or,
            BinOutV::Val(ValueV::Bool(b)) => computes(
                mn_of(op, false),
                ty,
                x as int,
                y as int,
                flag(b),
            ) && op != BinaryOp::And && op != BinaryOp::Or,
            _ => true,
        },
{
    lemma_ty(ty);
    match binary(op, ValueV::Int(x), ValueV::Int(y)) {
        BinOutV::Val(ValueV::Int(z)) => {
            if in_type(z as int, ty) {
                if op == BinaryOp::Div || op == BinaryOp::Mod {
                    law_division(x, y);
                    let q = binary(BinaryOp::Div, ValueV::Int(x), ValueV::Int(y))->Val_0->Int_0;
                    let m = binary(BinaryOp::Mod, ValueV::Int(x), ValueV::Int(y))->Val_0->Int_0;
                    assert(divided(x as int, y as int, q as int, m as int));
                    if op == BinaryOp::Mod {
                        lemma_quotient_fits(x as int, y as int, q as int, m as int, half(ty));
                    }
                }
            }
        },
        _ => {},
    }
}

/// The code of an operator on signed integers computes what the operator gives, where that is a
/// number of their type.
pub proof fn law_integer_code(
    g: GenV,
    op: BinaryOp,
    ty: Seq<char>,
    l: Seq<char>,
    r: Seq<char>,
    s: State,
    x: i64,
    y: i64,
)
    requires
        roomy(g),
        integer_ty(ty),
        in_type(x as int, ty),
        in_type(y as int, ty),
        means(s, l, Datum::Int(x as int)),
        means(s, r, Datum::Int(y as int)),
        op == BinaryOp::Mod ==> !(x == -half(ty) && y == -1),
        op == BinaryOp::BitAnd || op == BinaryOp::BitOr || op == BinaryOp::BitXor || op
            == BinaryOp::Shl || op == BinaryOp::Shr ==> ty == "i64"@,
    ensures
        match binary(op, ValueV::Int(x), ValueV::Int(y)) {
            BinOutV::Val(ValueV::Int(z)) => in_type(z as int, ty) ==> results(
                g,
                binary_regs_code(g, op, false, l, ty, r, false),
                s,
                Datum::Int(z as int),
                ty,
            ),
            BinOutV::Val(ValueV::Bool(b)) => results(
                g,
                binary_regs_code(g, op, false, l, ty, r, false),
                s,
                Datum::Int(
                    if b {
                        1
                    } else {
                        0
                    },
                ),
                "i1"@,
            ),
            _ => true,
        },
{
    lemma_integer_computes(op, ty, x, y);
    match binary(op, ValueV::Int(x), ValueV::Int(y)) {
        BinOutV::Val(ValueV::Int(z)) => {
            if in_type(z as int, ty) {
                lemma_two(g, op, ty, l, r, false, s, x as int, y as int, z as int);
            }
        },
        BinOutV::Val(ValueV::Bool(b)) => {
            lemma_two(g, op, ty, l, r, false, s, x as int, y as int, flag(b));
        },
        _ => {},
    }
}

/// The code of an operator on unsigned integers computes with their numbers without sign:
/// quotients and remainders, and the order.
pub proof fn law_unsigned_code(
    g: GenV,
    op: BinaryOp,
    ty: Seq<char>,
    l: Seq<char>,
    r: Seq<char>,
    s: State,
    x: int,
    y: int,
    q: int,
    m: int,
)
    requires
        roomy(g),
        integer_ty(ty),
        in_type(x, ty),
        in_type(y, ty),
        in_type(q, ty),
        in_type(m, ty),
        means(s, l, Datum::Int(x)),
        means(s, r, Datum::Int(y)),
        op == BinaryOp::Div || op == BinaryOp::Mod ==> y != 0 && plain(x, ty) == plain(q, ty)
            * plain(y, ty) + plain(m, ty) && plain(m, ty) < plain(y, ty),
    ensures
        ({
            let code = binary_regs_code(g, op, false, l, ty, r, true);
            &&& op == BinaryOp::Div ==> results(g, code, s, Datum::Int(q), ty)
            &&& op == BinaryOp::Mod ==> results(g, code, s, Datum::Int(m), ty)
            &&& op == BinaryOp::Eq ==> results(g, code, s, Datum::Int(flag(x == y)), "i1"@)
            &&& op == BinaryOp::NotEq ==> results(g, code, s, Datum::Int(flag(x != y)), "i1"@)
            &&& op == BinaryOp::Lt ==> results(
                g,
                code,
                s,
                Datum::Int(flag(plain(x, ty) < plain(y, ty))),
                "i1"@,
            )
            &&& op == BinaryOp::Gt ==> results(
                g,
                code,
                s,
                Datum::Int(flag(plain(y, ty) < plain(x, ty))),
                "i1"@,
            )
            &&& op == BinaryOp::Le ==> results(
                g,
                code,
                s,
                Datum::Int(flag(plain(x, ty) <= plain(y, ty))),
                "i1"@,
            )
            &&& op == BinaryOp::Ge ==> results(
                g,
                code,
                s,
                Datum::Int(flag(plain(y, ty) <= plain(x, ty))),
                "i1"@,
            )
        }),
{
    lemma_ty(ty);
    if op == BinaryOp::Div {
        assert(divided(plain(x, ty), plain(y, ty), plain(q, ty), plain(m, ty)));
        lemma_two(g, op, ty, l, r, true, s, x, y, q);
    } else if op == BinaryOp::Mod {
        assert(divided(plain(x, ty), plain(y, ty), plain(q, ty), plain(m, ty)));
        lemma_two(g, op, ty, l, r, true, s, x, y, m);
    } else if op == BinaryOp::Eq {
        lemma_two(g, op, ty, l, r, true, s, x, y, flag(x == y));
    } else if op == BinaryOp::NotEq {
        lemma_two(g, op, ty, l, r, true, s, x, y, flag(x != y));
    } else if op == BinaryOp::Lt {
        lemma_two(g, op, ty, l, r, true, s, x, y, flag(plain(x, ty) < plain(y, ty)));
    } else if op == BinaryOp::Gt {
        lemma_two(g, op, ty, l, r, true, s, x, y, flag(plain(y, ty) < plain(x, ty)));
    } else if op == BinaryOp::Le {
        lemma_two(g, op, ty, l, r, true, s, x, y, flag(plain(x, ty) <= plain(y, ty)));
    } else if op == BinaryOp::Ge {
        lemma_two(g, op, ty, l, r, true, s, x, y, flag(plain(y, ty) <= plain(x, ty)));
    }
}

/// The code of `&&`, `||`, `==` and `!=` on truth values computes what the operators give.
pub proof fn law_truth_code(
    g: GenV,
    op: BinaryOp,
    l: Seq<char>,
    r: Seq<char>,
    u: bool,
    s: State,
    x: bool,
    y: bool,
    b: bool,
)
    requires
        roomy(g),
        means(s, l, Datum::Int(flag(x))),
        means(s, r, Datum::Int(flag(y))),
        binary(op, ValueV::Bool(x), ValueV::Bool(y)) == BinOutV::Val(ValueV::Bool(b)),
    ensures
        results(
            g,
            binary_regs_code(g, op, false, l, "i1"@, r, u),
            s,
            Datum::Int(flag(b)),
            "i1"@,
        ),
{
    lemma_ty("i1"@);
    lemma_two(g, op, "i1"@, l, r, u, s, flag(x), flag(y), flag(b));
}

/// On floats the instructions are those for floats, by the operator's name.
pub proof fn law_float_code(ty: Seq<char>, u: bool)
    requires
        ty == "double"@ || ty == "float"@,
    ensures
        opcode(BinaryOp::Add, ty, u) == "fadd "@ + ty,
        opcode(BinaryOp::Sub, ty, u) == "fsub "@ + ty,
        opcode(BinaryOp::Mul, ty, u) == "fmul "@ + ty,
        opcode(BinaryOp::Div, ty, u) == "fdiv "@ + ty,
        opcode(BinaryOp::Eq, ty, u) == "fcmp oeq "@ + ty,
        opcode(BinaryOp::NotEq, ty, u) == "fcmp one "@ + ty,
        opcode(BinaryOp::Lt, ty, u) == "fcmp olt "@ + ty,
        opcode(BinaryOp::Gt, ty, u) == "fcmp ogt "@ + ty,
        opcode(BinaryOp::Le, ty, u) == "fcmp ole "@ + ty,
        opcode(BinaryOp::Ge, ty, u) == "fcmp oge "@ + ty,
{
}

// ---------- line by line ----------
/// A line that sets a new register.
pub proof fn lemma_step_reg(g: GenV, h: GenV, s: State, a: State, d: Deed, b: State)
    requires
        ran(g, h, s, a),
        h.reg < u32::MAX,
        does(d, a, b),
    ensures
        ran(g, line(reg(h).0, line_of(d)), s, b),
        line(reg(h).0, line_of(d)).reg == h.reg + 1,
        reg(h).1 == register(h.reg + 1),
{
    lemma_reg(h);
    lemma_ran_same(g, h, reg(h).0, s, a);
    lemma_ran_line(g, reg(h).0, s, a, d, b);
    lemma_line_text(reg(h).0, line_of(d));
}

/// A line that sets none.
pub proof fn lemma_step(g: GenV, h: GenV, s: State, a: State, d: Deed, b: State)
    requires
        ran(g, h, s, a),
        does(d, a, b),
    ensures
        ran(g, line(h, line_of(d)), s, b),
        line(h, line_of(d)).reg == h.reg,
{
    lemma_ran_line(g, h, s, a, d, b);
    lemma_line_text(h, line_of(d));
}

pub proof fn lemma_one_numeral()
    ensures
        dec(1) == seq!['1'],
        dec(0) == seq!['0'],
{
    reveal_with_fuel(nat_dec, 2);
    assert(dec(1) =~= seq!['1']);
    assert(dec(0) =~= seq!['0']);
}

proof fn lemma_add_line(dst: Seq<char>, l: Seq<char>, r: Seq<char>)
    ensures
        dst + " = add i64 "@ + l + ", "@ + r == dst + " = "@ + ("add"@ + " "@ + "i64"@) + " "@ + l
            + ", "@ + r,
{
    reveal_strlit(" = add i64 ");
    reveal_strlit(" = ");
    reveal_strlit("add");
    reveal_strlit(" ");
    reveal_strlit("i64");
    assert(" = add i64 "@ =~= " = "@ + ("add"@ + " "@ + "i64"@) + " "@);
    assert(dst + " = add i64 "@ + l + ", "@ + r =~= dst + " = "@ + ("add"@ + " "@ + "i64"@) + " "@
        + l + ", "@ + r);
}

proof fn lemma_add_one_line(dst: Seq<char>, l: Seq<char>)
    ensures
        dst + " = add i64 "@ + l + ", 1"@ == dst + " = "@ + ("add"@ + " "@ + "i64"@) + " "@ + l
            + ", "@ + dec(1),
{
    lemma_add_line(dst, l, dec(1));
    lemma_one_numeral();
    reveal_strlit(", ");
    reveal_strlit(", 1");
    assert(dst + " = add i64 "@ + l + ", 1"@ =~= dst + " = add i64 "@ + l + ", "@ + dec(1));
}

// ---------- texts ----------
proof fn lemma_known(g: GenV, x: Seq<char>, k: int)
    requires
        known(g, x),
        k > g.reg,
    ensures
        x != register(k),
{
}

/// The code of `l + r` on texts makes a new block of memory that holds the bytes of the left
/// text, then those of the right one, and then a zero; the two texts stay as they are.
pub proof fn law_text_code_joins(
    g: GenV,
    l: Seq<char>,
    ty: Seq<char>,
    r: Seq<char>,
    u: bool,
    s: State,
    p: Datum,
    q: Datum,
    t: Seq<int>,
    w: Seq<int>,
)
    requires
        roomy(g),
        known(g, l),
        known(g, r),
        means(s, l, p),
        means(s, r, q),
        text_at(s, p, t),
        text_at(s, q, w),
        exists|b: int| !s.bytes.dom().contains(b),
        t.len() + w.len() < 0x7fff_ffff_ffff_ffff,
    ensures
        ({
            let code = binary_regs_code(g, BinaryOp::Add, true, l, ty, r, u);
            code.1.t == "ptr"@ && exists|o: State, a: Datum| #[trigger]
                ran(g, code.0, s, o) && #[trigger] means(o, code.1.v, a) && text_at(o, a, t + w)
                    && text_at(o, p, t) && text_at(o, q, w)
        }),
{
    let n = g.reg as int;
    let r1 = register(n + 1);
    let r2 = register(n + 2);
    let r3 = register(n + 3);
    let r4 = register(n + 4);
    let r5 = register(n + 5);
    let r6 = register(n + 6);
    let r7 = register(n + 7);
    lemma_registers_differ(n + 1, n + 2);
    lemma_registers_differ(n + 1, n + 3);
    lemma_registers_differ(n + 1, n + 4);
    lemma_registers_differ(n + 1, n + 5);
    lemma_registers_differ(n + 1, n + 6);
    lemma_registers_differ(n + 1, n + 7);
    lemma_registers_differ(n + 2, n + 3);
    lemma_registers_differ(n + 2, n + 4);
    lemma_registers_differ(n + 2, n + 5);
    lemma_registers_differ(n + 2, n + 6);
    lemma_registers_differ(n + 2, n + 7);
    lemma_registers_differ(n + 3, n + 4);
    lemma_registers_differ(n + 3, n + 5);
    lemma_registers_differ(n + 3, n + 6);
    lemma_registers_differ(n + 3, n + 7);
    lemma_registers_differ(n + 4, n + 5);
    lemma_registers_differ(n + 5, n + 6);
    lemma_registers_differ(n + 5, n + 7);
    lemma_registers_differ(n + 6, n + 7);
    lemma_ty("i64"@);
    let block = choose|b: int| !s.bytes.dom().contains(b);
    let k = t.len() as int;
    let m = w.len() as int;
    let (pb, po) = (p->Ptr_0, p->Ptr_1);
    let (qb, qo) = (q->Ptr_0, q->Ptr_1);
    let fill = Seq::new((k + m + 1) as nat, |i: int| 0int);
    // the states, line by line
    let s1 = with_reg(s, r1, Datum::Int(k));
    let s2 = with_reg(s1, r2, Datum::Int(m));
    let s3 = with_reg(s2, r3, Datum::Int(k + m));
    let s4 = with_reg(s3, r4, Datum::Int(k + m + 1));
    let s5 = State {
        regs: s4.regs.insert(r5, Datum::Ptr(block, 0)),
        bytes: s4.bytes.insert(block, fill),
        ..s4
    };
    let first = fill.take(0) + s5.bytes[pb].subrange(po, po + k) + fill.skip(0 + k);
    let s6 = State { bytes: s5.bytes.insert(block, first), ..s5 };
    let s7 = with_reg(s6, r6, Datum::Ptr(block, 0 + k));
    let second = first.take(k) + s7.bytes[qb].subrange(qo, qo + m) + first.skip(k + m);
    let s8 = State { bytes: s7.bytes.insert(block, second), ..s7 };
    let s9 = with_reg(s8, r7, Datum::Ptr(block, 0 + (k + m)));
    let third = second.update(k + m, 0);
    let s10 = State { bytes: s9.bytes.insert(block, third), ..s9 };
    assert(first =~= t + fill.skip(k));
    assert(first.len() == k + m + 1);
    assert(second =~= t + w + fill.skip(k + m)) by {
        assert(first.take(k) =~= t);
        assert(first.skip(k + m) =~= fill.skip(k + m));
    }
    assert(second.len() == k + m + 1);
    // the lines
    let d1 = Deed::Strlen { dst: r1, p: l, at: p, t };
    let d2 = Deed::Strlen { dst: r2, p: r, at: q, t: w };
    let d3 = Deed::Two { dst: r3, m: Mn::Add, ty: "i64"@, l: r1, r: r2, x: k, y: m, d: k + m };
    let d4 = Deed::Two {
        dst: r4,
        m: Mn::Add,
        ty: "i64"@,
        l: r3,
        r: dec(1),
        x: k + m,
        y: 1,
        d: k + m + 1,
    };
    let d5 = Deed::Malloc { dst: r5, n: r4, block, fill };
    let d6 = Deed::Memcpy { to: r5, from: l, n: r1, b: block, o: 0, c: pb, p: po, k };
    let d7 = Deed::Behind { dst: r6, p: r5, n: r1, b: block, o: 0, k };
    let d8 = Deed::Memcpy { to: r6, from: r, n: r2, b: block, o: 0 + k, c: qb, p: qo, k: m };
    let d9 = Deed::Behind { dst: r7, p: r5, n: r3, b: block, o: 0, k: k + m };
    let d10 = Deed::ZeroByte { p: r7, b: block, o: 0 + (k + m) };
    lemma_known(g, l, n + 1);
    lemma_known(g, l, n + 2);
    lemma_known(g, l, n + 3);
    lemma_known(g, l, n + 4);
    lemma_known(g, l, n + 5);
    lemma_known(g, r, n + 1);
    lemma_known(g, r, n + 2);
    lemma_known(g, r, n + 3);
    lemma_known(g, r, n + 4);
    lemma_known(g, r, n + 5);
    lemma_known(g, r, n + 6);
    assert(does(d1, s, s1));
    assert(does(d2, s1, s2)) by {
        assert(means(s1, r, q));
        assert(text_at(s1, q, w));
    }
    assert(does(d3, s2, s3));
    assert(means(s3, dec(1), Datum::Int(1)));
    assert(does(d4, s3, s4));
    assert(does(d5, s4, s5));
    assert(means(s5, l, p));
    assert(does(d6, s5, s6));
    assert(does(d7, s6, s7));
    assert(means(s7, r, q));
    assert(s7.bytes[qb] == s.bytes[qb]);
    assert(does(d8, s7, s8));
    assert(does(d9, s8, s9));
    assert(does(d10, s9, s10));
    lemma_join_lines(
        g,
        l,
        r,
        d1,
        d2,
        d3,
        d4,
        d5,
        d6,
        d7,
        d8,
        d9,
        d10,
        s,
        s1,
        s2,
        s3,
        s4,
        s5,
        s6,
        s7,
        s8,
        s9,
        s10,
    );
    let a = Datum::Ptr(block, 0);
    assert(third.subrange(0, (t + w).len() as int) =~= t + w);
    assert forall|i: int| 0 <= i < (t + w).len() implies #[trigger] (t + w)[i] != 0 by {
        if i < k {
            assert((t + w)[i] == t[i]);
        } else {
            assert((t + w)[i] == w[i - k]);
        }
    }
    assert(text_at(s10, a, t + w));
    assert(s10.bytes[pb] == s.bytes[pb]);
    assert(s10.bytes[qb] == s.bytes[qb]);
    assert(means(s10, r5, a));
}

proof fn lemma_join_lines(
    g: GenV,
    l: Seq<char>,
    r: Seq<char>,
    d1: Deed,
    d2: Deed,
    d3: Deed,
    d4: Deed,
    d5: Deed,
    d6: Deed,
    d7: Deed,
    d8: Deed,
    d9: Deed,
    d10: Deed,
    s: State,
    s1: State,
    s2: State,
    s3: State,
    s4: State,
    s5: State,
    s6: State,
    s7: State,
    s8: State,
    s9: State,
    s10: State,
)
    requires
        roomy(g),
        does(d1, s, s1),
        does(d2, s1, s2),
        does(d3, s2, s3),
        does(d4, s3, s4),
        does(d5, s4, s5),
        does(d6, s5, s6),
        does(d7, s6, s7),
        does(d8, s7, s8),
        does(d9, s8, s9),
        does(d10, s9, s10),
        ({
            let n = g.reg as int;
            let r1 = register(n + 1);
            let r2 = register(n + 2);
            let r3 = register(n + 3);
            let r4 = register(n + 4);
            let r5 = register(n + 5);
            let r6 = register(n + 6);
            let r7 = register(n + 7);
            &&& d1 matches Deed::Strlen { dst, p, .. } && dst == r1 && p == l
            &&& d2 matches Deed::Strlen { dst, p, .. } && dst == r2 && p == r
            &&& d3 matches Deed::Two { dst, m, ty, l: x, r: y, .. } && dst == r3 && m == Mn::Add
                && ty == "i64"@ && x == r1 && y == r2
            &&& d4 matches Deed::Two { dst, m, ty, l: x, r: y, .. } && dst == r4 && m == Mn::Add
                && ty == "i64"@ && x == r3 && y == dec(1)
            &&& d5 matches Deed::Malloc { dst, n, .. } && dst == r5 && n == r4
            &&& d6 matches Deed::Memcpy { to, from, n, .. } && to == r5 && from == l && n == r1
            &&& d7 matches Deed::Behind { dst, p, n, .. } && dst == r6 && p == r5 && n == r1
            &&& d8 matches Deed::Memcpy { to, from, n, .. } && to == r6 && from == r && n == r2
            &&& d9 matches Deed::Behind { dst, p, n, .. } && dst == r7 && p == r5 && n == r3
            &&& d10 matches Deed::ZeroByte { p, .. } && p == r7
        }),
    ensures
        ran(g, binary_str_code(g, BinaryOp::Add, l, r).0, s, s10),
        binary_str_code(g, BinaryOp::Add, l, r).1.v == register(g.reg + 5),
        binary_str_code(g, BinaryOp::Add, l, r).1.t == "ptr"@,
{
    lemma_ran_nothing(g, g, s);
    let a1 = reg(g).1;
    lemma_step_reg(g, g, s, s, d1, s1);
    let h1 = line(reg(g).0, line_of(d1));
    let a2 = reg(h1).1;
    lemma_step_reg(g, h1, s, s1, d2, s2);
    let h2 = line(reg(h1).0, line_of(d2));
    let a3 = reg(h2).1;
    lemma_step_reg(g, h2, s, s2, d3, s3);
    lemma_add_line(a3, a1, a2);
    let h3 = line(reg(h2).0, line_of(d3));
    let a4 = reg(h3).1;
    lemma_step_reg(g, h3, s, s3, d4, s4);
    lemma_add_one_line(a4, a3);
    let h4 = line(reg(h3).0, line_of(d4));
    lemma_step_reg(g, h4, s, s4, d5, s5);
    let h5 = line(reg(h4).0, line_of(d5));
    lemma_step(g, h5, s, s5, d6, s6);
    let h6 = line(h5, line_of(d6));
    lemma_step_reg(g, h6, s, s6, d7, s7);
    let h7 = line(reg(h6).0, line_of(d7));
    lemma_step(g, h7, s, s7, d8, s8);
    let h8 = line(h7, line_of(d8));
    lemma_step_reg(g, h8, s, s8, d9, s9);
    let h9 = line(reg(h8).0, line_of(d9));
    lemma_step(g, h9, s, s9, d10, s10);
}

/// What a comparison says of two texts in memory.
pub open spec fn bytes_compare(op: BinaryOp, t: Seq<int>, w: Seq<int>) -> bool {
    match op {
        BinaryOp::Eq => t == w,
        BinaryOp::NotEq => t != w,
        BinaryOp::Lt => bytes_before(t, w),
        BinaryOp::Gt => bytes_before(w, t),
        BinaryOp::Le => !bytes_before(w, t),
        BinaryOp::Ge => !bytes_before(t, w),
        _ => false,
    }
}

proof fn lemma_bytes_order(t: Seq<int>, w: Seq<int>, i: int)
    requires
        0 <= i <= t.len(),
        i <= w.len(),
        t.take(i) == w.take(i),
    ensures
        t == w || bytes_before(t, w) || bytes_before(w, t),
    decreases t.len() - i,
{
    if i < t.len() && i < w.len() && t[i] == w[i] {
        assert(t.take(i + 1) =~= t.take(i).push(t[i]));
        assert(w.take(i + 1) =~= w.take(i).push(w[i]));
        lemma_bytes_order(t, w, i + 1);
    } else if i == t.len() && i == w.len() {
        assert(t =~= t.take(i));
        assert(w =~= w.take(i));
    }
}

proof fn lemma_bytes_apart(t: Seq<int>, w: Seq<int>)
    ensures
        !(bytes_before(t, w) && bytes_before(w, t)),
        !bytes_before(t, t),
{
    if bytes_before(t, w) && bytes_before(w, t) {
        let i = choose|i: int|
            0 <= i <= t.len() && i < w.len() && #[trigger] t.take(i) == w.take(i) && (i == t.len()
                || t[i] < w[i]);
        let j = choose|j: int|
            0 <= j <= w.len() && j < t.len() && #[trigger] w.take(j) == t.take(j) && (j == w.len()
                || w[j] < t[j]);
        if i < j {
            assert(w.take(j)[i] == w[i] && t.take(j)[i] == t[i]);
        } else if j < i {
            assert(w.take(i)[j] == w[j] && t.take(i)[j] == t[j]);
        }
    }
}

/// Two texts are the same, or one of them stands before the other.
pub proof fn lemma_bytes_ordered(t: Seq<int>, w: Seq<int>)
    ensures
        t == w || bytes_before(t, w) || bytes_before(w, t),
        !(bytes_before(t, w) && bytes_before(w, t)),
        t == w ==> !bytes_before(t, w),
{
    assert(t.take(0) =~= w.take(0));
    lemma_bytes_order(t, w, 0);
    lemma_bytes_apart(t, w);
    lemma_bytes_apart(t, t);
}

/// The code of a comparison of texts compares the left text with the right one, byte by byte.
pub proof fn law_text_code_compares(
    g: GenV,
    op: BinaryOp,
    l: Seq<char>,
    ty: Seq<char>,
    r: Seq<char>,
    u: bool,
    s: State,
    p: Datum,
    q: Datum,
    t: Seq<int>,
    w: Seq<int>,
)
    requires
        roomy(g),
        means(s, l, p),
        means(s, r, q),
        text_at(s, p, t),
        text_at(s, q, w),
        op == BinaryOp::Eq || op == BinaryOp::NotEq || op == BinaryOp::Lt || op == BinaryOp::Gt
            || op == BinaryOp::Le || op == BinaryOp::Ge,
    ensures
        results(
            g,
            binary_regs_code(g, op, true, l, ty, r, u),
            s,
            Datum::Int(
                if bytes_compare(op, t, w) {
                    1
                } else {
                    0
                },
            ),
            "i1"@,
        ),
{
    lemma_bytes_ordered(t, w);
    let n = g.reg as int;
    let r1 = register(n + 1);
    let r2 = register(n + 2);
    lemma_registers_differ(n + 1, n + 2);
    let d = if t == w {
        0int
    } else if bytes_before(t, w) {
        -1int
    } else {
        1int
    };
    let s1 = with_reg(s, r1, Datum::Int(d));
    let d1 = Deed::Order { dst: r1, p: l, q: r, at: p, bt: q, t, u: w, d };
    assert(does(d1, s, s1));
    let m = match op {
        BinaryOp::Eq => Mn::Eq,
        BinaryOp::NotEq => Mn::Ne,
        BinaryOp::Lt => Mn::Slt,
        BinaryOp::Gt => Mn::Sgt,
        BinaryOp::Le => Mn::Sle,
        _ => Mn::Sge,
    };
    let f = flag(bytes_compare(op, t, w));
    let d2 = Deed::Two { dst: r2, m, ty: "i32"@, l: r1, r: dec(0), x: d, y: 0, d: f };
    let s2 = with_reg(s1, r2, Datum::Int(f));
    assert(means(s1, dec(0), Datum::Int(0)));
    assert(does(d2, s1, s2));
    lemma_ran_nothing(g, g, s);
    let a1 = reg(g).1;
    lemma_step_reg(g, g, s, s, d1, s1);
    let h1 = line(reg(g).0, line_of(d1));
    let a2 = reg(h1).1;
    lemma_step_reg(g, h1, s, s1, d2, s2);
    let h2 = line(reg(h1).0, line_of(d2));
    lemma_compare_line(op, m, a2, a1);
    let code = binary_regs_code(g, op, true, l, ty, r, u);
    assert(code.0 == h2);
    assert(means(s2, code.1.v, Datum::Int(f)));
}

proof fn lemma_compare_line(op: BinaryOp, m: Mn, dst: Seq<char>, x: Seq<char>)
    requires
        op == BinaryOp::Eq && m == Mn::Eq || op == BinaryOp::NotEq && m == Mn::Ne || op
            == BinaryOp::Lt && m == Mn::Slt || op == BinaryOp::Gt && m == Mn::Sgt || op
            == BinaryOp::Le && m == Mn::Sle || op == BinaryOp::Ge && m == Mn::Sge,
    ensures
        predicate(op) matches Some(p) && dst + " = icmp "@ + p + " i32 "@ + x + ", 0"@ == dst
            + " = "@ + (mn_text(m) + " "@ + "i32"@) + " "@ + x + ", "@ + dec(0),
{
    reveal_strlit(" = icmp ");
    reveal_strlit(" i32 ");
    reveal_strlit(", 0");
    reveal_strlit(", ");
    reveal_strlit(" = ");
    reveal_strlit(" ");
    reveal_strlit("i32");
    reveal_strlit("eq");
    reveal_strlit("ne");
    reveal_strlit("slt");
    reveal_strlit("sgt");
    reveal_strlit("sle");
    reveal_strlit("sge");
    reveal_strlit("icmp eq");
    reveal_strlit("icmp ne");
    reveal_strlit("icmp slt");
    reveal_strlit("icmp sgt");
    reveal_strlit("icmp sle");
    reveal_strlit("icmp sge");
    lemma_one_numeral();
    let p = predicate(op)->0;
    assert(dst + " = icmp "@ + p + " i32 "@ + x + ", 0"@ =~= dst + " = "@ + (mn_text(m) + " "@
        + "i32"@) + " "@ + x + ", "@ + dec(0));
}

} // verus!
