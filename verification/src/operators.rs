//! What the operators of the language are for: the laws of truth, arithmetic, bits, order and
//! text that their results obey.
use crate::ast::{BinaryOp, FloatV, TyKw, TypeSpec};
use crate::value::{
    binary, kind_name, matches_ty, print_string, remainder, repl_string, str_order, truthy, BinOutV,
    ValueV,
};
use vstd::prelude::*;

verus! {

/// Whether an operation says `b`.
pub open spec fn says(o: BinOutV, b: bool) -> bool {
    o == BinOutV::Val(ValueV::Bool(b))
}

/// Whether an operation gives the integer `n`, or breaks down where that is no 64-bit integer.
pub open spec fn gives_int(o: BinOutV, n: int) -> bool {
    if -0x8000_0000_0000_0000 <= n <= 0x7fff_ffff_ffff_ffff {
        o matches BinOutV::Val(ValueV::Int(x)) && x == n
    } else {
        o == BinOutV::Crash
    }
}

/// Bit `i` of an integer.
pub open spec fn bit(x: i64, i: u64) -> bool {
    (x >> i) & 1 == 1
}

// ---------- truth ----------
/// On truth values, `&&` holds where both sides do, and `||` where one of them does.
pub proof fn law_truth(b: bool)
    ensures
        says(binary(BinaryOp::And, ValueV::Bool(true), ValueV::Bool(b)), b),
        says(binary(BinaryOp::And, ValueV::Bool(false), ValueV::Bool(b)), false),
        says(binary(BinaryOp::And, ValueV::Bool(b), ValueV::Bool(true)), b),
        says(binary(BinaryOp::And, ValueV::Bool(b), ValueV::Bool(false)), false),
        says(binary(BinaryOp::Or, ValueV::Bool(true), ValueV::Bool(b)), true),
        says(binary(BinaryOp::Or, ValueV::Bool(false), ValueV::Bool(b)), b),
        says(binary(BinaryOp::Or, ValueV::Bool(b), ValueV::Bool(true)), true),
        says(binary(BinaryOp::Or, ValueV::Bool(b), ValueV::Bool(false)), b),
        says(binary(BinaryOp::Eq, ValueV::Bool(b), ValueV::Bool(true)), b),
        says(binary(BinaryOp::Eq, ValueV::Bool(b), ValueV::Bool(false)), !b),
        says(binary(BinaryOp::NotEq, ValueV::Bool(b), ValueV::Bool(true)), !b),
        says(binary(BinaryOp::NotEq, ValueV::Bool(b), ValueV::Bool(false)), b),
{
}

/// Truth values are neither ordered nor counted with.
pub proof fn law_truth_is_no_number(op: BinaryOp, a: bool, b: bool)
    ensures
        binary(op, ValueV::Bool(a), ValueV::Bool(b)) is Fail <==> op != BinaryOp::And && op
            != BinaryOp::Or && op != BinaryOp::Eq && op != BinaryOp::NotEq,
{
}

/// A condition holds where it is `true`, does not where it is `false`, and nothing else can
/// stand there.
pub proof fn law_conditions(v: ValueV)
    ensures
        truthy(ValueV::Bool(true)) == Ok::<bool, Seq<char>>(true),
        truthy(ValueV::Bool(false)) == Ok::<bool, Seq<char>>(false),
        !(v is Bool) ==> truthy(v) is Err,
{
}

// ---------- integers ----------
/// Sums, differences and products are those of the integers; one that is no 64-bit integer
/// breaks the interpreter.
pub proof fn law_sums(a: i64, b: i64)
    ensures
        gives_int(binary(BinaryOp::Add, ValueV::Int(a), ValueV::Int(b)), a + b),
        gives_int(binary(BinaryOp::Sub, ValueV::Int(a), ValueV::Int(b)), a - b),
        gives_int(binary(BinaryOp::Mul, ValueV::Int(a), ValueV::Int(b)), a * b),
{
}

/// A quotient times the divisor, and the remainder, make the dividend. The remainder is
/// smaller than the divisor and never of the other sign than the dividend. Nothing is divided
/// by zero.
pub proof fn law_division(a: i64, b: i64)
    ensures
        binary(BinaryOp::Div, ValueV::Int(a), ValueV::Int(b)) is Fail <==> b == 0,
        binary(BinaryOp::Mod, ValueV::Int(a), ValueV::Int(b)) is Fail <==> b == 0,
        binary(BinaryOp::Div, ValueV::Int(a), ValueV::Int(b)) is Crash <==> a == i64::MIN && b
            == -1,
        binary(BinaryOp::Mod, ValueV::Int(a), ValueV::Int(b)) is Crash <==> a == i64::MIN && b
            == -1,
        b != 0 && !(a == i64::MIN && b == -1) ==> {
            &&& binary(BinaryOp::Div, ValueV::Int(a), ValueV::Int(b)) matches BinOutV::Val(
                ValueV::Int(q),
            )
            &&& binary(BinaryOp::Mod, ValueV::Int(a), ValueV::Int(b)) matches BinOutV::Val(
                ValueV::Int(r),
            )
            &&& q * b + r == a
            &&& -b < r < b || b < r < -b
            &&& r == 0 || (r < 0 <==> a < 0)
        },
{
    if b != 0 {
        let x: int = crate::value::abs(a as int);
        let y: int = crate::value::abs(b as int);
        let q0 = x / y;
        let r0 = x % y;
        assert(q0 * y + r0 == x && 0 <= r0 < y && 0 <= q0 <= x) by (nonlinear_arith)
            requires
                y > 0,
                x >= 0,
                q0 == x / y,
                r0 == x % y,
        ;
        let q = crate::value::quotient(a as int, b as int);
        let r = remainder(a as int, b as int);
        if (a < 0) == (b < 0) {
            assert(q == q0);
            if a < 0 {
                assert(q * b + r == a) by (nonlinear_arith)
                    requires
                        q == q0,
                        r == -r0,
                        b == -y,
                        a == -x,
                        q0 * y + r0 == x,
                ;
            }
        } else {
            assert(q == -q0);
            if a < 0 {
                assert(q * b + r == a) by (nonlinear_arith)
                    requires
                        q == -q0,
                        r == -r0,
                        b == y,
                        a == -x,
                        q0 * y + r0 == x,
                ;
            } else {
                assert(q * b + r == a) by (nonlinear_arith)
                    requires
                        q == -q0,
                        r == r0,
                        b == -y,
                        a == x,
                        q0 * y + r0 == x,
                ;
            }
        }
        if q0 > i64::MAX {
            assert(y == 1) by (nonlinear_arith)
                requires
                    q0 * y + r0 == x,
                    0 <= r0,
                    y > 0,
                    x <= 0x8000_0000_0000_0000,
                    q0 > 0x7fff_ffff_ffff_ffff,
            ;
        }
        if a == i64::MIN && b == -1 {
            assert(q0 == x) by (nonlinear_arith)
                requires
                    q0 == x / y,
                    y == 1,
            ;
        } else {
            let p: i64 = q as i64;
            let s: i64 = r as i64;
            assert((p * b) + s == a);
        }
    }
}

/// Integers are compared as numbers.
pub proof fn law_order(a: i64, b: i64)
    ensures
        says(binary(BinaryOp::Eq, ValueV::Int(a), ValueV::Int(b)), a == b),
        says(binary(BinaryOp::NotEq, ValueV::Int(a), ValueV::Int(b)), a != b),
        says(binary(BinaryOp::Lt, ValueV::Int(a), ValueV::Int(b)), a < b),
        says(binary(BinaryOp::Gt, ValueV::Int(a), ValueV::Int(b)), b < a),
        says(binary(BinaryOp::Le, ValueV::Int(a), ValueV::Int(b)), !(b < a)),
        says(binary(BinaryOp::Ge, ValueV::Int(a), ValueV::Int(b)), !(a < b)),
        binary(BinaryOp::And, ValueV::Int(a), ValueV::Int(b)) is Fail,
        binary(BinaryOp::Or, ValueV::Int(a), ValueV::Int(b)) is Fail,
{
}

/// The bits of `&`, `|` and `^`: one where both, one, or exactly one of the operands has one.
pub proof fn law_bits(a: i64, b: i64, i: u64)
    requires
        i < 64,
    ensures
        binary(BinaryOp::BitAnd, ValueV::Int(a), ValueV::Int(b)) matches BinOutV::Val(
            ValueV::Int(x),
        ) && bit(x, i) == (bit(a, i) && bit(b, i)),
        binary(BinaryOp::BitOr, ValueV::Int(a), ValueV::Int(b)) matches BinOutV::Val(
            ValueV::Int(x),
        ) && bit(x, i) == (bit(a, i) || bit(b, i)),
        binary(BinaryOp::BitXor, ValueV::Int(a), ValueV::Int(b)) matches BinOutV::Val(
            ValueV::Int(x),
        ) && bit(x, i) == (bit(a, i) != bit(b, i)),
{
    assert((((a & b) >> i) & 1 == 1) == ((a >> i) & 1 == 1 && (b >> i) & 1 == 1)) by (bit_vector)
        requires
            i < 64,
    ;
    assert((((a | b) >> i) & 1 == 1) == ((a >> i) & 1 == 1 || (b >> i) & 1 == 1)) by (bit_vector)
        requires
            i < 64,
    ;
    assert((((a ^ b) >> i) & 1 == 1) == (((a >> i) & 1 == 1) != ((b >> i) & 1 == 1)))
        by (bit_vector)
        requires
            i < 64,
    ;
}

/// `a << n` moves every bit up by `n` places and fills up with zeros; `a >> n` moves them
/// down and fills up with the sign. Nothing is moved by less than none or by more than there is.
pub proof fn law_shifts(a: i64, n: i64, i: u64)
    requires
        i < 64,
    ensures
        binary(BinaryOp::Shl, ValueV::Int(a), ValueV::Int(n)) is Fail <==> !(0 <= n < 64),
        binary(BinaryOp::Shr, ValueV::Int(a), ValueV::Int(n)) is Fail <==> !(0 <= n < 64),
        0 <= n < 64 ==> {
            &&& binary(BinaryOp::Shl, ValueV::Int(a), ValueV::Int(n)) matches BinOutV::Val(
                ValueV::Int(x),
            ) && bit(x, i) == (i >= n && bit(a, (i - n) as u64))
            &&& binary(BinaryOp::Shr, ValueV::Int(a), ValueV::Int(n)) matches BinOutV::Val(
                ValueV::Int(x),
            ) && bit(
                x,
                i,
            ) == bit(
                a,
                if i + n < 64 {
                    (i + n) as u64
                } else {
                    63
                },
            )
        },
{
    if 0 <= n < 64 {
        let k: u64 = n as u64;
        assert(a << n == a << k);
        assert(a >> n == a >> k);
        if i >= k {
            let j: u64 = (i - k) as u64;
            assert((((a << k) >> i) & 1 == 1) == ((a >> j) & 1 == 1)) by (bit_vector)
                requires
                    i < 64,
                    k < 64,
                    k <= i,
                    j == i - k,
            ;
        } else {
            assert(!(((a << k) >> i) & 1 == 1)) by (bit_vector)
                requires
                    i < 64,
                    k < 64,
                    i < k,
            ;
        }
        if i + k < 64 {
            let j: u64 = (i + k) as u64;
            assert((((a >> k) >> i) & 1 == 1) == ((a >> j) & 1 == 1)) by (bit_vector)
                requires
                    i < 64,
                    k < 64,
                    j == i + k,
                    j < 64,
            ;
        } else {
            assert((((a >> k) >> i) & 1 == 1) == ((a >> 63u64) & 1 == 1)) by (bit_vector)
                requires
                    i < 64,
                    k < 64,
                    i + k >= 64,
            ;
        }
    }
}

// ---------- text ----------
/// `a + b` is the text of `a` with that of `b` behind it.
pub proof fn law_texts_are_joined(a: Seq<char>, b: Seq<char>)
    ensures
        binary(BinaryOp::Add, ValueV::Str(a), ValueV::Str(b)) matches BinOutV::Val(ValueV::Str(s))
            && s.len() == a.len() + b.len() && s.take(a.len() as int) == a && s.skip(
            a.len() as int,
        ) == b,
{
    assert((a + b).take(a.len() as int) =~= a);
    assert((a + b).skip(a.len() as int) =~= b);
}

/// Whether `a` stands before `b` in the order of dictionaries: they agree up to a place where
/// `a` ends or has the smaller character.
pub open spec fn stands_before(a: Seq<char>, b: Seq<char>) -> bool {
    exists|i: int|
        {
            &&& 0 <= i <= a.len()
            &&& i < b.len()
            &&& #[trigger] a.take(i) == b.take(i)
            &&& i == a.len() || a[i] < b[i]
        }
}

proof fn lemma_str_order(a: Seq<char>, b: Seq<char>, i: int)
    requires
        0 <= i <= a.len(),
        i <= b.len(),
        a.take(i) == b.take(i),
    ensures
        str_order(a, b, i) < 0 ==> stands_before(a, b),
        str_order(a, b, i) > 0 ==> stands_before(b, a),
        str_order(a, b, i) == 0 ==> a == b,
    decreases a.len() - i,
{
    if i < a.len() && i < b.len() && a[i] == b[i] {
        assert(a.take(i + 1) =~= a.take(i).push(a[i]));
        assert(b.take(i + 1) =~= b.take(i).push(b[i]));
        lemma_str_order(a, b, i + 1);
    } else if i == a.len() && i == b.len() {
        assert(a =~= a.take(i));
        assert(b =~= b.take(i));
    }
}

proof fn lemma_one_stands_before(a: Seq<char>, b: Seq<char>)
    ensures
        !(stands_before(a, b) && stands_before(b, a)),
        !stands_before(a, a),
{
    if stands_before(a, b) && stands_before(b, a) {
        let i = choose|i: int|
            0 <= i <= a.len() && i < b.len() && #[trigger] a.take(i) == b.take(i) && (i == a.len()
                || a[i] < b[i]);
        let j = choose|j: int|
            0 <= j <= b.len() && j < a.len() && #[trigger] b.take(j) == a.take(j) && (j == b.len()
                || b[j] < a[j]);
        if i < j {
            assert(b.take(j)[i] == b[i] && a.take(j)[i] == a[i]);
        } else if j < i {
            assert(b.take(i)[j] == b[j] && a.take(i)[j] == a[j]);
        }
    }
}

/// Texts are compared in the order of dictionaries, and are equal where they are the same.
pub proof fn law_texts_are_ordered(a: Seq<char>, b: Seq<char>)
    ensures
        says(binary(BinaryOp::Eq, ValueV::Str(a), ValueV::Str(b)), a == b),
        says(binary(BinaryOp::NotEq, ValueV::Str(a), ValueV::Str(b)), a != b),
        says(binary(BinaryOp::Lt, ValueV::Str(a), ValueV::Str(b)), stands_before(a, b)),
        says(binary(BinaryOp::Gt, ValueV::Str(a), ValueV::Str(b)), stands_before(b, a)),
        says(binary(BinaryOp::Le, ValueV::Str(a), ValueV::Str(b)), !stands_before(b, a)),
        says(binary(BinaryOp::Ge, ValueV::Str(a), ValueV::Str(b)), !stands_before(a, b)),
{
    assert(a.take(0) =~= b.take(0));
    lemma_str_order(a, b, 0);
    lemma_one_stands_before(a, b);
    lemma_one_stands_before(a, a);
}

// ---------- trits ----------
/// `&&` gives the smaller of two trits, `||` the larger one; `+`, `-` and `*` give the trit that
/// is nearest to the number. Trits are compared as numbers.
pub proof fn law_trits(a: i8, b: i8)
    requires
        -1 <= a <= 1,
        -1 <= b <= 1,
    ensures
        binary(BinaryOp::And, ValueV::Trit(a), ValueV::Trit(b)) matches BinOutV::Val(
            ValueV::Trit(t),
        ) && t <= a && t <= b && (t == a || t == b),
        binary(BinaryOp::Or, ValueV::Trit(a), ValueV::Trit(b)) matches BinOutV::Val(
            ValueV::Trit(t),
        ) && t >= a && t >= b && (t == a || t == b),
        binary(BinaryOp::Add, ValueV::Trit(a), ValueV::Trit(b)) matches BinOutV::Val(
            ValueV::Trit(t),
        ) && nearest_trit(a + b, t),
        binary(BinaryOp::Sub, ValueV::Trit(a), ValueV::Trit(b)) matches BinOutV::Val(
            ValueV::Trit(t),
        ) && nearest_trit(a - b, t),
        binary(BinaryOp::Mul, ValueV::Trit(a), ValueV::Trit(b)) matches BinOutV::Val(
            ValueV::Trit(t),
        ) && nearest_trit(a * b, t),
        says(binary(BinaryOp::Eq, ValueV::Trit(a), ValueV::Trit(b)), a == b),
        says(binary(BinaryOp::NotEq, ValueV::Trit(a), ValueV::Trit(b)), a != b),
        says(binary(BinaryOp::Lt, ValueV::Trit(a), ValueV::Trit(b)), a < b),
        says(binary(BinaryOp::Gt, ValueV::Trit(a), ValueV::Trit(b)), b < a),
        says(binary(BinaryOp::Le, ValueV::Trit(a), ValueV::Trit(b)), !(b < a)),
        says(binary(BinaryOp::Ge, ValueV::Trit(a), ValueV::Trit(b)), !(a < b)),
        binary(BinaryOp::Div, ValueV::Trit(a), ValueV::Trit(b)) is Fail,
        binary(BinaryOp::Mod, ValueV::Trit(a), ValueV::Trit(b)) is Fail,
{
}

/// Whether `t` is the trit nearest to `n`.
pub open spec fn nearest_trit(n: int, t: i8) -> bool {
    -1 <= t <= 1 && (n == t || (n > 1 && t == 1) || (n < -1 && t == -1))
}

/// A trit beside an integer counts as the integer -1, 0 or 1 in sums, differences, products and
/// comparisons; nothing else is made of the two.
pub proof fn law_trits_beside_integers(op: BinaryOp, t: i8, n: i64)
    requires
        -1 <= t <= 1,
    ensures
        op == BinaryOp::Add || op == BinaryOp::Sub || op == BinaryOp::Mul || op == BinaryOp::Eq
            || op == BinaryOp::NotEq || op == BinaryOp::Lt || op == BinaryOp::Gt || op
            == BinaryOp::Le || op == BinaryOp::Ge ==> binary(op, ValueV::Trit(t), ValueV::Int(n))
            == binary(op, ValueV::Int(t as i64), ValueV::Int(n)) && binary(
            op,
            ValueV::Int(n),
            ValueV::Trit(t),
        ) == binary(op, ValueV::Int(n), ValueV::Int(t as i64)),
        op == BinaryOp::Div || op == BinaryOp::Mod || op == BinaryOp::And || op == BinaryOp::Or
            || op == BinaryOp::BitAnd || op == BinaryOp::BitOr || op == BinaryOp::BitXor || op
            == BinaryOp::Shl || op == BinaryOp::Shr ==> binary(op, ValueV::Trit(t), ValueV::Int(n))
            is Fail && binary(op, ValueV::Int(n), ValueV::Trit(t)) is Fail,
{
}

// ---------- floats, and what goes together ----------
/// The host is asked for the operation on the two floats in the order in which they stand, but
/// for `&&`, `||` and the operators on bits, which are not for floats.
pub proof fn law_floats_are_handed_on(op: BinaryOp, a: FloatV, b: FloatV)
    ensures
        op == BinaryOp::Add || op == BinaryOp::Sub || op == BinaryOp::Mul || op == BinaryOp::Div
            || op == BinaryOp::Mod || op == BinaryOp::Eq || op == BinaryOp::NotEq || op
            == BinaryOp::Lt || op == BinaryOp::Gt || op == BinaryOp::Le || op == BinaryOp::Ge
            ==> binary(op, ValueV::Float(a), ValueV::Float(b)) == BinOutV::Float(op, a, b),
        op == BinaryOp::And || op == BinaryOp::Or || op == BinaryOp::BitAnd || op
            == BinaryOp::BitOr || op == BinaryOp::BitXor || op == BinaryOp::Shl || op
            == BinaryOp::Shr ==> binary(op, ValueV::Float(a), ValueV::Float(b)) is Fail,
{
}

/// Values of different types go together only where one is a trit and the other an integer;
/// characters, ranges, tables and nothing have no operators at all.
pub proof fn law_types_go_together(op: BinaryOp, l: ValueV, r: ValueV)
    ensures
        !(binary(op, l, r) is Fail) ==> {
            ||| l is Int && r is Int
            ||| l is Float && r is Float
            ||| l is Bool && r is Bool
            ||| l is Trit && r is Trit
            ||| l is Str && r is Str
            ||| l is Trit && r is Int
            ||| l is Int && r is Trit
        },
        l is Str && r is Str && !(binary(op, l, r) is Fail) ==> op == BinaryOp::Add || op
            == BinaryOp::Eq || op == BinaryOp::NotEq || op == BinaryOp::Lt || op == BinaryOp::Gt
            || op == BinaryOp::Le || op == BinaryOp::Ge,
        l is Trit && r is Trit && (op == BinaryOp::BitAnd || op == BinaryOp::BitOr || op
            == BinaryOp::BitXor || op == BinaryOp::Shl || op == BinaryOp::Shr) ==> binary(op, l, r)
            is Fail,
{
}

/// The wide types of a `case`: a number is an integer or a float, a text a string or a
/// character, and the rest is neither; every other type has values of its own only.
pub proof fn law_case_types(v: ValueV)
    ensures
        matches_ty(v, TypeSpec::Named(TyKw::Num)) == (matches_ty(v, TypeSpec::Named(TyKw::I64))
            || matches_ty(v, TypeSpec::Named(TyKw::F64))),
        matches_ty(v, TypeSpec::Named(TyKw::Text)) == (matches_ty(v, TypeSpec::Named(TyKw::Str))
            || matches_ty(v, TypeSpec::Named(TyKw::Char))),
        matches_ty(v, TypeSpec::Named(TyKw::Misc)) == !(matches_ty(
            v,
            TypeSpec::Named(TyKw::Num),
        ) || matches_ty(v, TypeSpec::Named(TyKw::Text))),
        v is Int ==> matches_ty(v, TypeSpec::Named(TyKw::I8)) && matches_ty(
            v,
            TypeSpec::Named(TyKw::I16),
        ) && matches_ty(v, TypeSpec::Named(TyKw::I32)) && matches_ty(
            v,
            TypeSpec::Named(TyKw::I64),
        ) && matches_ty(v, TypeSpec::Named(TyKw::U8)) && matches_ty(
            v,
            TypeSpec::Named(TyKw::U16),
        ) && matches_ty(v, TypeSpec::Named(TyKw::U32)) && matches_ty(
            v,
            TypeSpec::Named(TyKw::U64),
        ),
        v is Float ==> matches_ty(v, TypeSpec::Named(TyKw::F32)) && matches_ty(
            v,
            TypeSpec::Named(TyKw::F64),
        ),
        v is Bool <==> matches_ty(v, TypeSpec::Named(TyKw::Bool)),
        v is Trit <==> matches_ty(v, TypeSpec::Named(TyKw::Trit)),
        v is Char <==> matches_ty(v, TypeSpec::Named(TyKw::Char)),
        v is Str <==> matches_ty(v, TypeSpec::Named(TyKw::Str)),
        v is Table <==> matches_ty(v, TypeSpec::Named(TyKw::Table)),
        v is Void <==> matches_ty(v, TypeSpec::Named(TyKw::Void)),
        !(v is Int) ==> !matches_ty(v, TypeSpec::Named(TyKw::I64)) && !matches_ty(
            v,
            TypeSpec::Named(TyKw::U8),
        ) && !matches_ty(v, TypeSpec::Named(TyKw::I8)) && !matches_ty(
            v,
            TypeSpec::Named(TyKw::I16),
        ) && !matches_ty(v, TypeSpec::Named(TyKw::I32)) && !matches_ty(
            v,
            TypeSpec::Named(TyKw::U16),
        ) && !matches_ty(v, TypeSpec::Named(TyKw::U32)) && !matches_ty(
            v,
            TypeSpec::Named(TyKw::U64),
        ),
        !(v is Float) ==> !matches_ty(v, TypeSpec::Named(TyKw::F64)) && !matches_ty(
            v,
            TypeSpec::Named(TyKw::F32),
        ),
        !matches_ty(v, TypeSpec::Named(TyKw::Code)),
{
}

// ---------- how values are shown ----------
/// A string and a character are shown as they are, a truth value as 1 or 0, nothing as nothing;
/// a session shows a truth value by its name and everything else as it is printed.
pub proof fn law_values_are_shown(v: ValueV, s: Seq<char>, c: char)
    ensures
        print_string(ValueV::Str(s)) == s,
        print_string(ValueV::Char(c)) == Seq::<char>::empty().push(c),
        print_string(ValueV::Bool(true)) == Seq::<char>::empty().push('1'),
        print_string(ValueV::Bool(false)) == Seq::<char>::empty().push('0'),
        print_string(ValueV::Void).len() == 0,
        repl_string(ValueV::Bool(true)) == "true"@,
        repl_string(ValueV::Bool(false)) == "false"@,
        !(v is Bool) ==> repl_string(v) == print_string(v),
{
    reveal_strlit("1");
    reveal_strlit("0");
}

/// Tables are shown cell by cell: one more cell adds a comma, a blank and the cell before the
/// closing bracket.
pub proof fn law_tables_are_shown(cells: Seq<ValueV>, v: ValueV)
    ensures
        print_string(ValueV::Table(Seq::empty())) == Seq::<char>::empty().push('[').push(']'),
        print_string(ValueV::Table(Seq::<ValueV>::empty().push(v))) == Seq::<char>::empty().push('[')
            + print_string(v) + Seq::<char>::empty().push(']'),
        cells.len() > 0 ==> print_string(ValueV::Table(cells.push(v))) == print_string(
            ValueV::Table(cells),
        ).drop_last() + Seq::<char>::empty().push(',').push(' ') + print_string(v)
            + Seq::<char>::empty().push(']'),
{
    reveal_strlit("[");
    reveal_strlit("]");
    reveal_strlit(", ");
    let none = Seq::<ValueV>::empty();
    assert(crate::value::print_cells(none, 0) =~= Seq::<char>::empty());
    assert(print_string(ValueV::Table(none)) =~= Seq::<char>::empty().push('[').push(']'));
    assert("["@ =~= Seq::<char>::empty().push('['));
    assert("]"@ =~= Seq::<char>::empty().push(']'));
    assert(", "@ =~= Seq::<char>::empty().push(',').push(' '));
    let one = none.push(v);
    assert(crate::value::print_cells(one, 1) == print_string(one[0]));
    if cells.len() > 0 {
        lemma_cells_prefix(cells, v, cells.len());
        let more = cells.push(v);
        let inner = crate::value::print_cells(cells, cells.len());
        assert(crate::value::print_cells(more, more.len()) == inner + ", "@ + print_string(v));
        assert(("["@ + inner + "]"@).drop_last() =~= "["@ + inner);
        assert("["@ + (inner + ", "@ + print_string(v)) + "]"@ =~= "["@ + inner + ", "@
            + print_string(v) + "]"@);
    }
}

proof fn lemma_cells_prefix(cells: Seq<ValueV>, v: ValueV, n: nat)
    requires
        n <= cells.len(),
    ensures
        crate::value::print_cells(cells.push(v), n) == crate::value::print_cells(cells, n),
    decreases n,
{
    if n > 1 {
        lemma_cells_prefix(cells, v, (n - 1) as nat);
    }
}

/// The types of values have names that differ.
pub proof fn law_type_names_differ(v: ValueV, w: ValueV)
    ensures
        kind_name(v) == kind_name(w) ==> same_type(v, w),
{
    reveal_strlit("整数");
    reveal_strlit("浮点数");
    reveal_strlit("布尔");
    reveal_strlit("trit");
    reveal_strlit("字符");
    reveal_strlit("字符串");
    reveal_strlit("范围");
    reveal_strlit("表");
    reveal_strlit("void");
    if kind_name(v) == kind_name(w) {
        assert(kind_name(v).len() == kind_name(w).len());
        assert(kind_name(v)[0] == kind_name(w)[0]);
    }
}

/// Whether two values are of one type.
pub open spec fn same_type(v: ValueV, w: ValueV) -> bool {
    match v {
        ValueV::Int(_) => w is Int,
        ValueV::Float(_) => w is Float,
        ValueV::Bool(_) => w is Bool,
        ValueV::Trit(_) => w is Trit,
        ValueV::Char(_) => w is Char,
        ValueV::Str(_) => w is Str,
        ValueV::Range(_, _) => w is Range,
        ValueV::Table(_) => w is Table,
        ValueV::Void => w is Void,
    }
}

} // verus!
