//! What the lines of the code do when they are executed: the part of LLVM's meaning that the
//! code of expressions needs.
use crate::emit::{line, put, reg, GenV};
use crate::text::{dec, lemma_nat_dec_value};
use vstd::prelude::*;

verus! {

/// What a register or a place in memory holds: a number, read with its sign, or an address.
pub enum Datum {
    Int(int),
    Ptr(int, int),
}

/// What a running program knows: its registers, the variables at addresses, and the bytes of
/// the blocks of memory.
pub struct State {
    pub regs: Map<Seq<char>, Datum>,
    pub slots: Map<Datum, Datum>,
    pub bytes: Map<int, Seq<int>>,
}

/// Whether the operand `x` stands for `d`: a register for what it holds, a numeral for its
/// number.
pub open spec fn means(s: State, x: Seq<char>, d: Datum) -> bool {
    ||| s.regs.dom().contains(x) && s.regs[x] == d
    ||| exists|n: int| x == #[trigger] dec(n) && d == Datum::Int(n)
    ||| x == "true"@ && d == Datum::Int(1)
    ||| x == "false"@ && d == Datum::Int(0)
}

pub open spec fn with_reg(s: State, x: Seq<char>, d: Datum) -> State {
    State { regs: s.regs.insert(x, d), ..s }
}

// ---------- numbers ----------
/// The number of values of an integer type that are below zero.
pub open spec fn half(ty: Seq<char>) -> int {
    if ty == "i8"@ {
        0x80
    } else if ty == "i16"@ {
        0x8000
    } else if ty == "i32"@ {
        0x8000_0000
    } else {
        0x8000_0000_0000_0000
    }
}

/// Whether a number is one of an integer type, read with its sign.
pub open spec fn in_type(n: int, ty: Seq<char>) -> bool {
    -half(ty) <= n < half(ty)
}

/// A number of an integer type, read without its sign.
pub open spec fn plain(n: int, ty: Seq<char>) -> int {
    if n < 0 {
        n + 2 * half(ty)
    } else {
        n
    }
}

/// The names of the instructions with two operands.
pub enum Mn {
    Add,
    Sub,
    Mul,
    Sdiv,
    Udiv,
    Srem,
    Urem,
    And,
    Or,
    Xor,
    Shl,
    Ashr,
    Lshr,
    Eq,
    Ne,
    Slt,
    Sgt,
    Sle,
    Sge,
    Ult,
    Ugt,
    Ule,
    Uge,
}

pub open spec fn mn_text(m: Mn) -> Seq<char> {
    match m {
        Mn::Add => "add"@,
        Mn::Sub => "sub"@,
        Mn::Mul => "mul"@,
        Mn::Sdiv => "sdiv"@,
        Mn::Udiv => "udiv"@,
        Mn::Srem => "srem"@,
        Mn::Urem => "urem"@,
        Mn::And => "and"@,
        Mn::Or => "or"@,
        Mn::Xor => "xor"@,
        Mn::Shl => "shl"@,
        Mn::Ashr => "ashr"@,
        Mn::Lshr => "lshr"@,
        Mn::Eq => "icmp eq"@,
        Mn::Ne => "icmp ne"@,
        Mn::Slt => "icmp slt"@,
        Mn::Sgt => "icmp sgt"@,
        Mn::Sle => "icmp sle"@,
        Mn::Sge => "icmp sge"@,
        Mn::Ult => "icmp ult"@,
        Mn::Ugt => "icmp ugt"@,
        Mn::Ule => "icmp ule"@,
        Mn::Uge => "icmp uge"@,
    }
}

/// The number for a truth value.
pub open spec fn flag(b: bool) -> int {
    if b {
        1
    } else {
        0
    }
}

/// Whether an instruction on the numbers `x` and `y` of a type gives `d`. Sums, differences and
/// products are given where they are numbers of the type; quotients are rounded towards zero;
/// the instructions on bits are given for truth values and for 64 bits.
pub open spec fn computes(m: Mn, ty: Seq<char>, x: int, y: int, d: int) -> bool {
    match m {
        Mn::Add => in_type(d, ty) && d == x + y,
        Mn::Sub => in_type(d, ty) && d == x - y,
        Mn::Mul => in_type(d, ty) && d == x * y,
        Mn::Sdiv => in_type(d, ty) && exists|r: int| #[trigger]
            divided(x, y, d, r),
        Mn::Srem => exists|q: int| in_type(q, ty) && #[trigger] divided(x, y, q, d),
        Mn::Udiv => exists|r: int| #[trigger]
            divided(plain(x, ty), plain(y, ty), plain(d, ty), r) && in_type(d, ty),
        Mn::Urem => exists|q: int| #[trigger]
            divided(plain(x, ty), plain(y, ty), q, plain(d, ty)) && in_type(d, ty),
        Mn::And => if ty == "i1"@ {
            d == flag(x == 1 && y == 1)
        } else {
            ty == "i64"@ && in_type(x, ty) && in_type(y, ty) && d == (x as i64) & (y as i64)
        },
        Mn::Or => if ty == "i1"@ {
            d == flag(x == 1 || y == 1)
        } else {
            ty == "i64"@ && in_type(x, ty) && in_type(y, ty) && d == (x as i64) | (y as i64)
        },
        Mn::Xor => if ty == "i1"@ {
            d == flag((x == 1) != (y == 1))
        } else {
            ty == "i64"@ && in_type(x, ty) && in_type(y, ty) && d == (x as i64) ^ (y as i64)
        },
        Mn::Shl => ty == "i64"@ && in_type(x, ty) && 0 <= y < 64 && d == (x as i64) << (y as i64),
        Mn::Ashr => ty == "i64"@ && in_type(x, ty) && 0 <= y < 64 && d == (x as i64) >> (y as i64),
        Mn::Lshr => ty == "i64"@ && in_type(x, ty) && 0 <= y < 64 && plain(d, ty) == (plain(
            x,
            ty,
        ) as u64) >> (y as u64) && in_type(d, ty),
        Mn::Eq => d == flag(x == y),
        Mn::Ne => d == flag(x != y),
        Mn::Slt => d == flag(x < y),
        Mn::Sgt => d == flag(x > y),
        Mn::Sle => d == flag(x <= y),
        Mn::Sge => d == flag(x >= y),
        Mn::Ult => d == flag(plain(x, ty) < plain(y, ty)),
        Mn::Ugt => d == flag(plain(x, ty) > plain(y, ty)),
        Mn::Ule => d == flag(plain(x, ty) <= plain(y, ty)),
        Mn::Uge => d == flag(plain(x, ty) >= plain(y, ty)),
    }
}

/// Whether `q` is the quotient of `x` by `y`, rounded towards zero, and `r` what remains.
pub open spec fn divided(x: int, y: int, q: int, r: int) -> bool {
    &&& y != 0
    &&& x == q * y + r
    &&& -y < r < y || y < r < -y
    &&& r == 0 || (r < 0 <==> x < 0)
}

// ---------- texts in memory ----------
/// Whether at the address `p` the bytes `t` stand, none of them zero, and a zero behind them.
pub open spec fn text_at(s: State, p: Datum, t: Seq<int>) -> bool {
    p matches Datum::Ptr(b, o) && s.bytes.dom().contains(b) && 0 <= o && o + t.len()
        < s.bytes[b].len() && s.bytes[b].subrange(o, o + t.len()) == t && s.bytes[b][o + t.len()]
        == 0 && forall|i: int| 0 <= i < t.len() ==> #[trigger] t[i] != 0
}

/// Whether `t` stands before `u`: they agree up to a place where `t` ends or has the smaller
/// byte.
pub open spec fn bytes_before(t: Seq<int>, u: Seq<int>) -> bool {
    exists|i: int|
        {
            &&& 0 <= i <= t.len()
            &&& i < u.len()
            &&& #[trigger] t.take(i) == u.take(i)
            &&& i == t.len() || t[i] < u[i]
        }
}

// ---------- what a line does ----------
/// A line that is executed, with what its operands stand for.
#[allow(inconsistent_fields)]
pub enum Deed {
    /// An instruction with two operands.
    Two { dst: Seq<char>, m: Mn, ty: Seq<char>, l: Seq<char>, r: Seq<char>, x: int, y: int, d: int },
    /// A number is widened: by its sign, or by zeros.
    Wide { dst: Seq<char>, signed: bool, from: Seq<char>, v: Seq<char>, to: Seq<char>, x: int },
    /// A number is cut to a smaller type, of which it is one.
    Cut { dst: Seq<char>, from: Seq<char>, v: Seq<char>, to: Seq<char>, x: int },
    /// One of two values.
    Select { dst: Seq<char>, c: Seq<char>, ty: Seq<char>, l: Seq<char>, r: Seq<char>, b: bool, d: Datum },
    Load { dst: Seq<char>, ty: Seq<char>, p: Seq<char>, at: Datum, d: Datum },
    Store { ty: Seq<char>, v: Seq<char>, p: Seq<char>, at: Datum, d: Datum },
    Strlen { dst: Seq<char>, p: Seq<char>, at: Datum, t: Seq<int> },
    Order { dst: Seq<char>, p: Seq<char>, q: Seq<char>, at: Datum, bt: Datum, t: Seq<int>, u: Seq<int>, d: int },
    Malloc { dst: Seq<char>, n: Seq<char>, block: int, fill: Seq<int> },
    Memcpy { to: Seq<char>, from: Seq<char>, n: Seq<char>, b: int, o: int, c: int, p: int, k: int },
    /// The address some bytes behind another one.
    Behind { dst: Seq<char>, p: Seq<char>, n: Seq<char>, b: int, o: int, k: int },
    ZeroByte { p: Seq<char>, b: int, o: int },
    /// The address of an element of a table of fixed length; such tables are counted in elements.
    Element { dst: Seq<char>, ty: Seq<char>, p: Seq<char>, n: Seq<char>, b: int, o: int, i: int },
}

/// The line, without its end.
pub open spec fn line_of(d: Deed) -> Seq<char> {
    match d {
        Deed::Two { dst, m, ty, l, r, .. } => dst + " = "@ + (mn_text(m) + " "@ + ty) + " "@ + l
            + ", "@ + r,
        Deed::Wide { dst, signed, from, v, to, .. } => dst + (if signed {
            " = sext "@
        } else {
            " = zext "@
        }) + from + " "@ + v + " to "@ + to,
        Deed::Cut { dst, from, v, to, .. } => dst + " = trunc "@ + from + " "@ + v + " to "@ + to,
        Deed::Select { dst, c, ty, l, r, .. } => dst + " = select i1 "@ + c + ", "@ + ty + " "@ + l
            + ", "@ + ty + " "@ + r,
        Deed::Load { dst, ty, p, .. } => dst + " = load "@ + ty + ", ptr "@ + p,
        Deed::Store { ty, v, p, .. } => "store "@ + ty + " "@ + v + ", ptr "@ + p,
        Deed::Strlen { dst, p, .. } => dst + " = call i64 @strlen(ptr "@ + p + ")"@,
        Deed::Order { dst, p, q, .. } => dst + " = call i32 @strcmp(ptr "@ + p + ", ptr "@ + q
            + ")"@,
        Deed::Malloc { dst, n, .. } => dst + " = call ptr @malloc(i64 "@ + n + ")"@,
        Deed::Memcpy { to, from, n, .. } => "call void @llvm.memcpy.p0.p0.i64(ptr "@ + to
            + ", ptr "@ + from + ", i64 "@ + n + ", i1 false)"@,
        Deed::Behind { dst, p, n, .. } => dst + " = getelementptr i8, ptr "@ + p + ", i64 "@ + n,
        Deed::ZeroByte { p, .. } => "store i8 0, ptr "@ + p,
        Deed::Element { dst, ty, p, n, .. } => dst + " = getelementptr "@ + ty + ", ptr "@ + p
            + ", i64 0, i64 "@ + n,
    }
}

/// Whether executing a line in the state `a` leaves the state `b`.
pub open spec fn does(d: Deed, a: State, b: State) -> bool {
    match d {
        Deed::Two { dst, m, ty, l, r, x, y, d } => means(a, l, Datum::Int(x)) && means(
            a,
            r,
            Datum::Int(y),
        ) && computes(m, ty, x, y, d) && b == with_reg(a, dst, Datum::Int(d)),
        Deed::Wide { dst, signed, from, v, to, x } => means(a, v, Datum::Int(x)) && b == with_reg(
            a,
            dst,
            Datum::Int(
                if signed || from == "i1"@ {
                    x
                } else {
                    plain(x, from)
                },
            ),
        ),
        Deed::Cut { dst, from, v, to, x } => means(a, v, Datum::Int(x)) && in_type(x, to) && b
            == with_reg(a, dst, Datum::Int(x)),
        Deed::Select { dst, c, ty, l, r, b: t, d } => means(a, c, Datum::Int(flag(t))) && means(
            a,
            if t {
                l
            } else {
                r
            },
            d,
        ) && b == with_reg(a, dst, d),
        Deed::Load { dst, ty, p, at, d } => means(a, p, at) && a.slots.dom().contains(at)
            && a.slots[at] == d && b == with_reg(a, dst, d),
        Deed::Store { ty, v, p, at, d } => means(a, p, at) && means(a, v, d) && b == (State {
            slots: a.slots.insert(at, d),
            ..a
        }),
        Deed::Strlen { dst, p, at, t } => means(a, p, at) && text_at(a, at, t) && b == with_reg(
            a,
            dst,
            Datum::Int(t.len() as int),
        ),
        Deed::Order { dst, p, q, at, bt, t, u, d } => means(a, p, at) && means(a, q, bt)
            && text_at(a, at, t) && text_at(a, bt, u) && (d < 0 <==> bytes_before(t, u)) && (d > 0
            <==> bytes_before(u, t)) && (d == 0 <==> t == u) && b == with_reg(a, dst, Datum::Int(d)),
        Deed::Malloc { dst, n, block, fill } => means(a, n, Datum::Int(fill.len() as int))
            && !a.bytes.dom().contains(block) && b == (State {
            regs: a.regs.insert(dst, Datum::Ptr(block, 0)),
            bytes: a.bytes.insert(block, fill),
            ..a
        }),
        Deed::Memcpy { to, from, n, b: x, o, c, p, k } => {
            &&& means(a, to, Datum::Ptr(x, o))
            &&& means(a, from, Datum::Ptr(c, p))
            &&& means(a, n, Datum::Int(k))
            &&& x != c
            &&& a.bytes.dom().contains(x) && a.bytes.dom().contains(c)
            &&& 0 <= k && 0 <= o && o + k <= a.bytes[x].len()
            &&& 0 <= p && p + k <= a.bytes[c].len()
            &&& b == (State {
                bytes: a.bytes.insert(
                    x,
                    a.bytes[x].take(o) + a.bytes[c].subrange(p, p + k) + a.bytes[x].skip(o + k),
                ),
                ..a
            })
        },
        Deed::Behind { dst, p, n, b: x, o, k } => means(a, p, Datum::Ptr(x, o)) && means(
            a,
            n,
            Datum::Int(k),
        ) && b == with_reg(a, dst, Datum::Ptr(x, o + k)),
        Deed::ZeroByte { p, b: x, o } => means(a, p, Datum::Ptr(x, o)) && a.bytes.dom().contains(x)
            && 0 <= o < a.bytes[x].len() && b == (State {
            bytes: a.bytes.insert(x, a.bytes[x].update(o, 0)),
            ..a
        }),
        Deed::Element { dst, ty, p, n, b: x, o, i } => means(a, p, Datum::Ptr(x, o)) && means(
            a,
            n,
            Datum::Int(i),
        ) && b == with_reg(a, dst, Datum::Ptr(x, o + i)),
    }
}

/// Lines, each with its end.
pub open spec fn lines_of(ds: Seq<Deed>) -> Seq<char>
    decreases ds.len(),
{
    if ds.len() == 0 {
        Seq::empty()
    } else {
        lines_of(ds.drop_last()) + line_of(ds.last()) + "\n"@
    }
}

/// Whether executing the text in the state `a` leaves the state `b`: it is made of lines, each
/// of which does its part.
pub open spec fn runs(text: Seq<char>, a: State, b: State) -> bool {
    exists|ds: Seq<Deed>, ss: Seq<State>|
        {
            &&& text == #[trigger] lines_of(ds)
            &&& #[trigger] ss.len() == ds.len() + 1
            &&& ss[0] == a
            &&& ss[ds.len() as int] == b
            &&& forall|i: int| 0 <= i < ds.len() ==> does(#[trigger] ds[i], ss[i], ss[i + 1])
        }
}

/// Whether what the generator has written between `g` and `h`, executed in the state `a`, leaves
/// the state `b`.
pub open spec fn ran(g: GenV, h: GenV, a: State, b: State) -> bool {
    exists|text: Seq<char>| h.out == g.out + text && #[trigger] runs(text, a, b)
}

pub proof fn lemma_ran_nothing(g: GenV, h: GenV, a: State)
    requires
        h.out == g.out,
    ensures
        ran(g, h, a, a),
{
    let none = Seq::<Deed>::empty();
    let ss = seq![a];
    assert(lines_of(none) == Seq::<char>::empty());
    assert(ss.len() == none.len() + 1);
    assert(runs(Seq::<char>::empty(), a, a));
    assert(g.out + Seq::<char>::empty() =~= g.out);
}

/// One line more.
pub proof fn lemma_ran_line(g: GenV, h: GenV, a: State, b: State, d: Deed, c: State)
    requires
        ran(g, h, a, b),
        does(d, b, c),
    ensures
        ran(g, line(h, line_of(d)), a, c),
{
    reveal(put);
    let text = choose|text: Seq<char>| h.out == g.out + text && #[trigger] runs(text, a, b);
    let (ds, ss) = choose|ds: Seq<Deed>, ss: Seq<State>|
        {
            &&& text == #[trigger] lines_of(ds)
            &&& #[trigger] ss.len() == ds.len() + 1
            &&& ss[0] == a
            &&& ss[ds.len() as int] == b
            &&& forall|i: int| 0 <= i < ds.len() ==> does(#[trigger] ds[i], ss[i], ss[i + 1])
        };
    let es = ds.push(d);
    let ts = ss.push(c);
    assert(es.drop_last() =~= ds);
    assert(lines_of(es) == text + line_of(d) + "\n"@);
    assert(ts.len() == es.len() + 1);
    assert forall|i: int| 0 <= i < es.len() implies does(#[trigger] es[i], ts[i], ts[i + 1]) by {
        if i < ds.len() {
            assert(does(ds[i], ss[i], ss[i + 1]));
        }
    }
    assert(runs(lines_of(es), a, c));
    assert(g.out + text + line_of(d) + "\n"@ =~= g.out + lines_of(es));
}

/// What writes nothing changes nothing.
pub proof fn lemma_ran_same(g: GenV, h: GenV, k: GenV, a: State, b: State)
    requires
        ran(g, h, a, b),
        k.out == h.out,
    ensures
        ran(g, k, a, b),
{
}

// ---------- registers ----------
/// The register with the number `n`.
pub open spec fn register(n: int) -> Seq<char> {
    "%"@ + dec(n)
}

/// Whether an operand is none of the registers that are still to be taken.
pub open spec fn known(g: GenV, x: Seq<char>) -> bool {
    forall|n: int| n > g.reg ==> x != #[trigger] register(n)
}

/// Whether there are registers left.
pub open spec fn roomy(g: GenV) -> bool {
    g.reg < 0xffff_ff00
}

pub proof fn lemma_registers_differ(i: int, j: int)
    requires
        0 <= i,
        0 <= j,
        i != j,
    ensures
        register(i) != register(j),
{
    lemma_nat_dec_value(i as nat);
    lemma_nat_dec_value(j as nat);
    if register(i) == register(j) {
        assert(register(i).skip("%"@.len() as int) =~= dec(i));
        assert(register(j).skip("%"@.len() as int) =~= dec(j));
    }
}

/// A register that is taken is the next one, and nothing is written.
pub proof fn lemma_reg(g: GenV)
    requires
        g.reg < u32::MAX,
    ensures
        reg(g).1 == register(g.reg + 1),
        reg(g).0.reg == g.reg + 1,
        reg(g).0.out == g.out,
        reg(g).0 == (GenV { reg: (g.reg + 1) as u32, taken: g.taken + 1, ..g }),
{
    reveal(reg);
}

pub proof fn lemma_line_text(g: GenV, text: Seq<char>)
    ensures
        line(g, text).reg == g.reg,
        line(g, text) == (GenV { out: g.out + text + "\n"@, ..g }),
{
    reveal(put);
}

} // verus!
