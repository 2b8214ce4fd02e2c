//! What programs mean in the interpreter: how the value of an expression comes from the values of
//! its parts, and what a statement does from what its parts do. Each law holds whatever waits for
//! the expression or the statement to be done.
use crate::ast::{
    BinaryOp, Block, Expr, ExprKind, Exprs, FnDef, Stmt, SwitchCase, TyKw, TypeSpec, UnaryOp,
};
use crate::builtins::{builtin, is_builtin, CallOutV};
use crate::laws::law_steps_add_up;
use crate::semantics::{
    assign, bit_target, declare, is_declared, is_step, last_text, lookup, ns_of, pop_scope,
    push_scope, put_func, resolve, step, steps, Calling, Ctl, CtlV, EnvV, Finish, Frame, FrameV,
    MachineV, ScopeV, Switch,
};
use crate::text::join;
use crate::value::{binary, matches_ty, print_string, repl_string, BinOutV, ValueV};
use std::rc::Rc;
use vstd::prelude::*;

verus! {

// ---------- what comes of work ----------
/// The state `m` with the work `c` at hand and the frames `fs` waiting.
pub open spec fn placed(m: MachineV, c: CtlV, fs: Seq<FrameV>) -> MachineV {
    MachineV { ctl: c, frames: fs, ..m }
}

/// Whether a state leads to another one in some number of steps.
pub open spec fn reaches(a: MachineV, b: MachineV) -> bool {
    exists|k: nat| #[trigger] steps(a, k) == b
}

/// Whether the work `c`, begun in the state `m`, ends with the outcome `out` in the state `n`,
/// whatever waits for it.
pub open spec fn comes_to(m: MachineV, c: CtlV, out: CtlV, n: MachineV) -> bool {
    forall|fs: Seq<FrameV>| #[trigger] reaches(placed(m, c, fs), placed(n, out, fs))
}

/// Whether the expression `e` has the value `v` in the state `m` and leaves the state `n`.
pub open spec fn evaluates(m: MachineV, e: Rc<Expr>, v: ValueV, n: MachineV) -> bool {
    comes_to(m, Ctl::Eval(e), Ctl::Value(v), n)
}

/// Whether the statement `s`, begun in the state `m`, ends so in the state `n`.
pub open spec fn executes(m: MachineV, s: Rc<Stmt>, out: CtlV, n: MachineV) -> bool {
    comes_to(m, Ctl::Exec(s), out, n)
}

/// Whether the block `b`, begun in the state `m`, ends so in the state `n`.
pub open spec fn runs(m: MachineV, b: Block, out: CtlV, n: MachineV) -> bool {
    comes_to(m, Ctl::Run(b), out, n)
}

proof fn one(a: MachineV)
    ensures
        reaches(a, step(a)),
{
    reveal_with_fuel(steps, 2);
    assert(steps(a, 1) == step(a));
}

proof fn on(a: MachineV, b: MachineV, c: MachineV)
    requires
        reaches(a, b),
        reaches(b, c),
    ensures
        reaches(a, c),
{
    let i = choose|k: nat| #[trigger] steps(a, k) == b;
    let j = choose|k: nat| #[trigger] steps(b, k) == c;
    law_steps_add_up(a, i, j);
    assert(steps(a, i + j) == c);
}

/// One step, and then what the next state leads to.
proof fn then_on(a: MachineV, c: MachineV)
    requires
        reaches(step(a), c),
    ensures
        reaches(a, c),
{
    one(a);
    on(a, step(a), c);
}

proof fn here(a: MachineV)
    ensures
        reaches(a, a),
{
    assert(steps(a, 0) == a);
}

/// Work that is done below one frame more.
proof fn below(m: MachineV, c: CtlV, out: CtlV, n: MachineV, fs: Seq<FrameV>, f: FrameV)
    requires
        comes_to(m, c, out, n),
    ensures
        reaches(placed(m, c, fs.push(f)), placed(n, out, fs.push(f))),
        fs.push(f).drop_last() == fs,
        fs.push(f).last() == f,
{
    assert(fs.push(f).drop_last() =~= fs);
}

// ---------- values ----------
spec fn shows_value(e: Rc<Expr>) -> bool {
    e.kind is IntLit || e.kind is StrLit || e.kind is CharLit || e.kind is BoolLit
        || e.kind is TritLit || e.kind is FloatLit
}

/// A literal has the value that it shows, and changes nothing.
pub proof fn law_literals(m: MachineV, e: Rc<Expr>)
    ensures
        e.kind matches ExprKind::IntLit(n) ==> evaluates(m, e, ValueV::Int(n), m),
        e.kind matches ExprKind::StrLit(s) ==> evaluates(m, e, ValueV::Str(s@), m),
        e.kind matches ExprKind::CharLit(c) ==> evaluates(m, e, ValueV::Char(c), m),
        e.kind matches ExprKind::BoolLit(b) ==> evaluates(m, e, ValueV::Bool(b), m),
        e.kind matches ExprKind::TritLit(t) ==> evaluates(m, e, ValueV::Trit(t), m),
        e.kind matches ExprKind::FloatLit { value, ir } ==> evaluates(
            m,
            e,
            ValueV::Float(value@),
            m,
        ),
{
    let v = match e.kind {
        ExprKind::IntLit(n) => ValueV::Int(n),
        ExprKind::StrLit(s) => ValueV::Str(s@),
        ExprKind::CharLit(c) => ValueV::Char(c),
        ExprKind::BoolLit(b) => ValueV::Bool(b),
        ExprKind::TritLit(t) => ValueV::Trit(t),
        ExprKind::FloatLit { value, ir } => ValueV::Float(value@),
        _ => ValueV::Void,
    };
    if shows_value(e) {
        assert forall|fs: Seq<FrameV>| #[trigger]
            reaches(placed(m, Ctl::Eval(e), fs), placed(m, Ctl::Value(v), fs)) by {
            one(placed(m, Ctl::Eval(e), fs));
        }
    }
}

/// A variable has the value that is found under its name, and reading it changes nothing; one
/// that is not there ends the evaluation with an error.
pub proof fn law_variables(m: MachineV, e: Rc<Expr>, name: String)
    requires
        e.kind == ExprKind::Var(name),
    ensures
        lookup(m, name@) matches Some(v) ==> evaluates(m, e, v, m),
        lookup(m, name@) is None ==> forall|fs: Seq<FrameV>|
            (#[trigger] step(placed(m, Ctl::Eval(e), fs))).ctl matches Ctl::Done(f) && f is Failure,
{
    if let Some(v) = lookup(m, name@) {
        assert forall|fs: Seq<FrameV>| #[trigger]
            reaches(placed(m, Ctl::Eval(e), fs), placed(m, Ctl::Value(v), fs)) by {
            one(placed(m, Ctl::Eval(e), fs));
        }
    }
}

/// `-` gives the number with the other sign; `!` turns true and false around, and the trits.
pub proof fn law_unary(m: MachineV, e: Rc<Expr>, op: UnaryOp, x: Rc<Expr>, v: ValueV, n: MachineV)
    requires
        e.kind == (ExprKind::Unary { op, operand: x }),
        evaluates(m, x, v, n),
    ensures
        op == UnaryOp::Neg && v is Int && v->Int_0 != i64::MIN ==> evaluates(
            m,
            e,
            ValueV::Int((0 - v->Int_0) as i64),
            n,
        ),
        op == UnaryOp::Not && v == ValueV::Bool(true) ==> evaluates(m, e, ValueV::Bool(false), n),
        op == UnaryOp::Not && v == ValueV::Bool(false) ==> evaluates(m, e, ValueV::Bool(true), n),
        op == UnaryOp::Not && v is Trit && v->Trit_0 != i8::MIN ==> evaluates(
            m,
            e,
            ValueV::Trit((0 - v->Trit_0) as i8),
            n,
        ),
{
    let w = match (op, v) {
        (UnaryOp::Neg, ValueV::Int(k)) => ValueV::Int((0 - k) as i64),
        (UnaryOp::Not, ValueV::Bool(b)) => ValueV::Bool(!b),
        (UnaryOp::Not, ValueV::Trit(t)) => ValueV::Trit((0 - t) as i8),
        _ => ValueV::Void,
    };
    if (op == UnaryOp::Neg && v is Int && v->Int_0 != i64::MIN) || (op == UnaryOp::Not && v is Bool)
        || (op == UnaryOp::Not && v is Trit && v->Trit_0 != i8::MIN) {
        assert forall|fs: Seq<FrameV>| #[trigger]
            reaches(placed(m, Ctl::Eval(e), fs), placed(n, Ctl::Value(w), fs)) by {
            let f: FrameV = Frame::Unary { op };
            let a = placed(m, Ctl::Eval(e), fs);
            below(m, Ctl::Eval(x), Ctl::Value(v), n, fs, f);
            assert(step(a) == placed(m, Ctl::Eval(x), fs.push(f)));
            one(placed(n, Ctl::Value(v), fs.push(f)));
            assert(step(placed(n, Ctl::Value(v), fs.push(f))) == placed(n, Ctl::Value(w), fs));
            on(step(a), placed(n, Ctl::Value(v), fs.push(f)), placed(n, Ctl::Value(w), fs));
            then_on(a, placed(n, Ctl::Value(w), fs));
        }
    }
}

/// The state in which the variable `name` has been set to `v`.
pub open spec fn with_var(m: MachineV, name: Seq<char>, v: ValueV) -> MachineV {
    match assign(m, name, v) {
        Some(n) => n,
        None => m,
    }
}

/// `++` and `--` set an integer variable to the next number or the one before it. Before the
/// variable they give the new number, behind it the old one.
pub proof fn law_steps_of_variables(
    m: MachineV,
    e: Rc<Expr>,
    op: UnaryOp,
    x: Rc<Expr>,
    name: String,
    k: i64,
)
    requires
        e.kind == (ExprKind::Unary { op, operand: x }),
        x.kind == ExprKind::Var(name),
        lookup(m, name@) == Some(ValueV::Int(k)),
    ensures
        op == UnaryOp::PreInc && k < i64::MAX ==> evaluates(
            m,
            e,
            ValueV::Int((k + 1) as i64),
            with_var(m, name@, ValueV::Int((k + 1) as i64)),
        ),
        op == UnaryOp::PostInc && k < i64::MAX ==> evaluates(
            m,
            e,
            ValueV::Int(k),
            with_var(m, name@, ValueV::Int((k + 1) as i64)),
        ),
        op == UnaryOp::PreDec && k > i64::MIN ==> evaluates(
            m,
            e,
            ValueV::Int((k - 1) as i64),
            with_var(m, name@, ValueV::Int((k - 1) as i64)),
        ),
        op == UnaryOp::PostDec && k > i64::MIN ==> evaluates(
            m,
            e,
            ValueV::Int(k),
            with_var(m, name@, ValueV::Int((k - 1) as i64)),
        ),
{
    let up = op == UnaryOp::PreInc || op == UnaryOp::PostInc;
    let after = if up {
        (k + 1) as i64
    } else {
        (k - 1) as i64
    };
    let v = if op == UnaryOp::PreInc || op == UnaryOp::PreDec {
        ValueV::Int(after)
    } else {
        ValueV::Int(k)
    };
    if is_step(op) && (up ==> k < i64::MAX) && (!up ==> k > i64::MIN) {
        let n = with_var(m, name@, ValueV::Int(after));
        assert forall|fs: Seq<FrameV>| #[trigger]
            reaches(placed(m, Ctl::Eval(e), fs), placed(n, Ctl::Value(v), fs)) by {
            let a = placed(m, Ctl::Eval(e), fs);
            assert(step(a) == placed(n, Ctl::Value(v), fs));
            one(a);
        }
    }
}

/// The operands are evaluated from left to right, each in the state that the one before it
/// leaves, and the operator is applied to the left value and the right one.
pub proof fn law_operands(
    m: MachineV,
    e: Rc<Expr>,
    op: BinaryOp,
    lhs: Rc<Expr>,
    rhs: Rc<Expr>,
    l: ValueV,
    n: MachineV,
    r: ValueV,
    o: MachineV,
    v: ValueV,
)
    requires
        e.kind == (ExprKind::Binary { op, lhs, rhs }),
        evaluates(m, lhs, l, n),
        evaluates(n, rhs, r, o),
        binary(op, l, r) == BinOutV::Val(v),
    ensures
        evaluates(m, e, v, o),
{
    assert forall|fs: Seq<FrameV>| #[trigger]
        reaches(placed(m, Ctl::Eval(e), fs), placed(o, Ctl::Value(v), fs)) by {
        let f: FrameV = Frame::BinaryRight { op, rhs };
        let g: FrameV = Frame::BinaryApply { op, lhs: l };
        let a = placed(m, Ctl::Eval(e), fs);
        let z = placed(o, Ctl::Value(v), fs);
        below(m, Ctl::Eval(lhs), Ctl::Value(l), n, fs, f);
        below(n, Ctl::Eval(rhs), Ctl::Value(r), o, fs, g);
        assert(step(a) == placed(m, Ctl::Eval(lhs), fs.push(f)));
        let b = placed(n, Ctl::Value(l), fs.push(f));
        assert(step(b) == placed(n, Ctl::Eval(rhs), fs.push(g)));
        let c = placed(o, Ctl::Value(r), fs.push(g));
        assert(step(c) == z);
        one(c);
        on(step(b), c, z);
        then_on(b, z);
        on(step(a), b, z);
        then_on(a, z);
    }
}

/// A conditional expression has the value of its first branch where the condition is true, and
/// of its second one where it is false; the other branch is not evaluated.
pub proof fn law_conditionals(
    m: MachineV,
    e: Rc<Expr>,
    cond: Rc<Expr>,
    yes: Rc<Expr>,
    no: Rc<Expr>,
    n: MachineV,
    v: ValueV,
    o: MachineV,
)
    requires
        e.kind == (ExprKind::Ternary { cond, then_expr: yes, else_expr: no }),
    ensures
        evaluates(m, cond, ValueV::Bool(true), n) && evaluates(n, yes, v, o) ==> evaluates(
            m,
            e,
            v,
            o,
        ),
        evaluates(m, cond, ValueV::Bool(false), n) && evaluates(n, no, v, o) ==> evaluates(
            m,
            e,
            v,
            o,
        ),
{
    if evaluates(m, cond, ValueV::Bool(true), n) && evaluates(n, yes, v, o) {
        lemma_conditional(m, e, cond, yes, no, true, n, v, o);
    }
    if evaluates(m, cond, ValueV::Bool(false), n) && evaluates(n, no, v, o) {
        lemma_conditional(m, e, cond, yes, no, false, n, v, o);
    }
}

proof fn lemma_conditional(
    m: MachineV,
    e: Rc<Expr>,
    cond: Rc<Expr>,
    yes: Rc<Expr>,
    no: Rc<Expr>,
    b: bool,
    n: MachineV,
    v: ValueV,
    o: MachineV,
)
    requires
        e.kind == (ExprKind::Ternary { cond, then_expr: yes, else_expr: no }),
        evaluates(m, cond, ValueV::Bool(b), n),
        b ==> evaluates(n, yes, v, o),
        !b ==> evaluates(n, no, v, o),
    ensures
        evaluates(m, e, v, o),
{
    let x = if b {
        yes
    } else {
        no
    };
    assert forall|fs: Seq<FrameV>| #[trigger]
        reaches(placed(m, Ctl::Eval(e), fs), placed(o, Ctl::Value(v), fs)) by {
        let f: FrameV = Frame::Ternary { then_expr: yes, else_expr: no };
        let a = placed(m, Ctl::Eval(e), fs);
        let z = placed(o, Ctl::Value(v), fs);
        below(m, Ctl::Eval(cond), Ctl::Value(ValueV::Bool(b)), n, fs, f);
        let c = placed(n, Ctl::Value(ValueV::Bool(b)), fs.push(f));
        assert(step(a) == placed(m, Ctl::Eval(cond), fs.push(f)));
        assert(step(c) == placed(n, Ctl::Eval(x), fs));
        assert(reaches(placed(n, Ctl::Eval(x), fs), z));
        then_on(c, z);
        on(step(a), c, z);
        then_on(a, z);
    }
}

/// `a..b` is the range from the value of `a` to that of `b`.
pub proof fn law_ranges(
    m: MachineV,
    e: Rc<Expr>,
    start: Rc<Expr>,
    end: Rc<Expr>,
    i: i64,
    n: MachineV,
    j: i64,
    o: MachineV,
)
    requires
        e.kind == (ExprKind::Range { start, end }),
        evaluates(m, start, ValueV::Int(i), n),
        evaluates(n, end, ValueV::Int(j), o),
    ensures
        evaluates(m, e, ValueV::Range(i, j), o),
{
    assert forall|fs: Seq<FrameV>| #[trigger]
        reaches(placed(m, Ctl::Eval(e), fs), placed(o, Ctl::Value(ValueV::Range(i, j)), fs)) by {
        let f: FrameV = Frame::RangeEnd { end };
        let g: FrameV = Frame::RangeMake { start: i };
        let a = placed(m, Ctl::Eval(e), fs);
        let z = placed(o, Ctl::Value(ValueV::Range(i, j)), fs);
        below(m, Ctl::Eval(start), Ctl::Value(ValueV::Int(i)), n, fs, f);
        below(n, Ctl::Eval(end), Ctl::Value(ValueV::Int(j)), o, fs, g);
        let b = placed(n, Ctl::Value(ValueV::Int(i)), fs.push(f));
        let c = placed(o, Ctl::Value(ValueV::Int(j)), fs.push(g));
        assert(step(a) == placed(m, Ctl::Eval(start), fs.push(f)));
        assert(step(b) == placed(n, Ctl::Eval(end), fs.push(g)));
        assert(step(c) == z);
        one(c);
        on(step(b), c, z);
        then_on(b, z);
        on(step(a), b, z);
        then_on(a, z);
    }
}

/// `t[i]` is the cell of the table at position `i`, counted from zero.
pub proof fn law_elements(
    m: MachineV,
    e: Rc<Expr>,
    base: Rc<Expr>,
    index: Rc<Expr>,
    cells: Seq<ValueV>,
    n: MachineV,
    i: i64,
    o: MachineV,
)
    requires
        e.kind == (ExprKind::Index { base, index }),
        evaluates(m, base, ValueV::Table(cells), n),
        evaluates(n, index, ValueV::Int(i), o),
        0 <= i < cells.len(),
    ensures
        evaluates(m, e, cells[i as int], o),
{
    let v = cells[i as int];
    assert forall|fs: Seq<FrameV>| #[trigger]
        reaches(placed(m, Ctl::Eval(e), fs), placed(o, Ctl::Value(v), fs)) by {
        let f: FrameV = Frame::IndexAt { index };
        let g: FrameV = Frame::IndexRead { table: ValueV::Table(cells) };
        let a = placed(m, Ctl::Eval(e), fs);
        let z = placed(o, Ctl::Value(v), fs);
        below(m, Ctl::Eval(base), Ctl::Value(ValueV::Table(cells)), n, fs, f);
        below(n, Ctl::Eval(index), Ctl::Value(ValueV::Int(i)), o, fs, g);
        let b = placed(n, Ctl::Value(ValueV::Table(cells)), fs.push(f));
        let c = placed(o, Ctl::Value(ValueV::Int(i)), fs.push(g));
        assert(step(a) == placed(m, Ctl::Eval(base), fs.push(f)));
        assert(step(b) == placed(n, Ctl::Eval(index), fs.push(g)));
        assert(step(c) == z);
        one(c);
        on(step(b), c, z);
        then_on(b, z);
        on(step(a), b, z);
        then_on(a, z);
    }
}

/// Whether expressions have the values `vs`, evaluated one after the other through the states
/// `ss`.
pub open spec fn evaluate_all(
    ss: Seq<MachineV>,
    es: Seq<Rc<Expr>>,
    vs: Seq<ValueV>,
) -> bool {
    &&& ss.len() == es.len() + 1
    &&& vs.len() == es.len()
    &&& forall|i: int| 0 <= i < es.len() ==> evaluates(ss[i], #[trigger] es[i], vs[i], ss[i + 1])
}

proof fn lemma_cells(
    ss: Seq<MachineV>,
    cells: Exprs,
    vs: Seq<ValueV>,
    i: int,
    fs: Seq<FrameV>,
)
    requires
        evaluate_all(ss, cells@, vs),
        0 <= i <= cells@.len(),
    ensures
        reaches(
            crate::semantics::eval_cells(placed(ss[i], Ctl::Done(Finish::Crash), fs), cells, vs.take(i)),
            placed(ss.last(), Ctl::Value(ValueV::Table(vs)), fs),
        ),
    decreases cells@.len() - i,
{
    let z = placed(ss.last(), Ctl::Value(ValueV::Table(vs)), fs);
    let a = crate::semantics::eval_cells(
        placed(ss[i], Ctl::Done(Finish::Crash), fs),
        cells,
        vs.take(i),
    );
    if i < cells@.len() {
        lemma_cells(ss, cells, vs, i + 1, fs);
        let f: FrameV = Frame::Cells { cells, done: vs.take(i) };
        assert(evaluates(ss[i], cells@[i], vs[i], ss[i + 1]));
        below(ss[i], Ctl::Eval(cells@[i]), Ctl::Value(vs[i]), ss[i + 1], fs, f);
        assert(a == placed(ss[i], Ctl::Eval(cells@[i]), fs.push(f)));
        let b = placed(ss[i + 1], Ctl::Value(vs[i]), fs.push(f));
        assert(vs.take(i).push(vs[i]) =~= vs.take(i + 1));
        then_on(b, z);
        on(a, b, z);
    } else {
        assert(vs.take(i) =~= vs);
        here(a);
    }
}

/// A table has one cell for each expression, in their order.
pub proof fn law_tables(m: MachineV, e: Rc<Expr>, cells: Exprs, ss: Seq<MachineV>, vs: Seq<ValueV>)
    requires
        e.kind == (ExprKind::TableLit { cells }),
        evaluate_all(ss, cells@, vs),
        ss[0] == m,
    ensures
        evaluates(m, e, ValueV::Table(vs), ss.last()),
{
    let v = ValueV::Table(vs);
    let o = ss.last();
    assert forall|fs: Seq<FrameV>| #[trigger]
        reaches(placed(m, Ctl::Eval(e), fs), placed(o, Ctl::Value(v), fs)) by {
        lemma_cells(ss, cells, vs, 0, fs);
        assert(vs.take(0) =~= Seq::<ValueV>::empty());
        then_on(placed(m, Ctl::Eval(e), fs), placed(o, Ctl::Value(v), fs));
    }
}

// ---------- calls ----------
proof fn lemma_args(
    ss: Seq<MachineV>,
    name: Seq<char>,
    bare: bool,
    args: Exprs,
    vs: Seq<ValueV>,
    i: int,
    out: CtlV,
    n: MachineV,
    fs: Seq<FrameV>,
)
    requires
        evaluate_all(ss, args@, vs),
        0 <= i <= args@.len(),
        bit_target(name, args) is None,
        comes_to(
            ss.last(),
            Ctl::Call {
                name: if bare {
                    resolve(ss.last(), name)
                } else {
                    name
                },
                args: vs,
            },
            out,
            n,
        ),
    ensures
        reaches(
            crate::semantics::eval_args(
                placed(ss[i], Ctl::Done(Finish::Crash), fs),
                name,
                bare,
                args,
                vs.take(i),
            ),
            placed(n, out, fs),
        ),
    decreases args@.len() - i,
{
    let z = placed(n, out, fs);
    let a = crate::semantics::eval_args(
        placed(ss[i], Ctl::Done(Finish::Crash), fs),
        name,
        bare,
        args,
        vs.take(i),
    );
    if i < args@.len() {
        lemma_args(ss, name, bare, args, vs, i + 1, out, n, fs);
        let f: FrameV = Frame::Args { name, bare, args, done: vs.take(i) };
        assert(evaluates(ss[i], args@[i], vs[i], ss[i + 1]));
        below(ss[i], Ctl::Eval(args@[i]), Ctl::Value(vs[i]), ss[i + 1], fs, f);
        assert(a == placed(ss[i], Ctl::Eval(args@[i]), fs.push(f)));
        let b = placed(ss[i + 1], Ctl::Value(vs[i]), fs.push(f));
        assert(vs.take(i).push(vs[i]) =~= vs.take(i + 1));
        then_on(b, z);
        on(a, b, z);
    } else {
        assert(vs.take(i) =~= vs);
        let c: CtlV = Ctl::Call {
            name: if bare {
                resolve(ss.last(), name)
            } else {
                name
            },
            args: vs,
        };
        assert(a == placed(ss.last(), c, fs));
        assert(reaches(placed(ss.last(), c, fs), z));
    }
}

/// The arguments of a call are evaluated from left to right, and the function is called with
/// their values in that order.
pub proof fn law_arguments(
    m: MachineV,
    e: Rc<Expr>,
    name: String,
    args: Exprs,
    ss: Seq<MachineV>,
    vs: Seq<ValueV>,
    v: ValueV,
    n: MachineV,
)
    requires
        e.kind == (ExprKind::Call { name, args }),
        name@ != "table_push"@,
        bit_target(name@, args) is None,
        evaluate_all(ss, args@, vs),
        ss[0] == m,
        comes_to(
            ss.last(),
            Ctl::Call { name: resolve(ss.last(), name@), args: vs },
            Ctl::Value(v),
            n,
        ),
    ensures
        evaluates(m, e, v, n),
{
    assert forall|fs: Seq<FrameV>| #[trigger]
        reaches(placed(m, Ctl::Eval(e), fs), placed(n, Ctl::Value(v), fs)) by {
        lemma_args(ss, name@, true, args, vs, 0, Ctl::Value(v), n, fs);
        assert(vs.take(0) =~= Seq::<ValueV>::empty());
        then_on(placed(m, Ctl::Eval(e), fs), placed(n, Ctl::Value(v), fs));
    }
}

/// A bare name means the function of that name where there is one, else the one in the
/// namespace of the function that runs, where there is one.
pub proof fn law_names_of_functions(m: MachineV, name: Seq<char>)
    ensures
        m.session.funcs.dom().contains(name) || is_builtin(name) || m.env.ns.len() == 0 ==> resolve(
            m,
            name,
        ) == name,
        !m.session.funcs.dom().contains(name) && !is_builtin(name) && m.env.ns.len() > 0
            && m.session.funcs.dom().contains(join(m.env.ns.push(name), "::"@)) ==> resolve(m, name)
            == join(m.env.ns.push(name), "::"@),
{
}

/// A function that the language provides and that needs nobody else gives its value at once.
pub proof fn law_provided_functions(m: MachineV, name: Seq<char>, args: Seq<ValueV>, v: ValueV)
    requires
        builtin(m.msg, m.session.windows, name, args).0 == CallOutV::Val(v),
    ensures
        comes_to(
            m,
            Ctl::Call { name, args },
            Ctl::Value(v),
            MachineV { msg: builtin(m.msg, m.session.windows, name, args).1, ..m },
        ),
{
    let n = MachineV { msg: builtin(m.msg, m.session.windows, name, args).1, ..m };
    assert forall|fs: Seq<FrameV>| #[trigger]
        reaches(placed(m, Ctl::Call { name, args }, fs), placed(n, Ctl::Value(v), fs)) by {
        one(placed(m, Ctl::Call { name, args }, fs));
    }
}

/// The variables of a function when it begins: its first `n` parameters, with the arguments of
/// the same positions.
pub open spec fn given(def: FnDef, args: Seq<ValueV>, n: nat) -> ScopeV
    decreases n,
{
    if n == 0 || n > def.params@.len() {
        Map::empty()
    } else {
        given(def, args, (n - 1) as nat).insert(def.params@[n - 1].name@, args[n - 1])
    }
}

/// The state in which the body of a function begins: the caller's variables are out of reach,
/// and the parameters have the arguments' values.
pub open spec fn inside(m: MachineV, name: Seq<char>, def: FnDef, args: Seq<ValueV>) -> MachineV {
    MachineV {
        env: EnvV {
            scopes: m.env.scopes.push(given(def, args, def.params@.len())),
            ns: ns_of(name),
            base: m.env.scopes.len(),
        },
        msg: builtin(m.msg, m.session.windows, name, args).1,
        ..m
    }
}

/// The state after a call that began in the state `m`, when the body has left the state `n`.
pub open spec fn outside(m: MachineV, n: MachineV) -> MachineV {
    MachineV {
        env: EnvV { scopes: n.env.scopes.drop_last(), ns: m.env.ns, base: m.env.base },
        ..n
    }
}

spec fn the_call(m: MachineV, name: Seq<char>, def: FnDef, args: Seq<ValueV>, i: int) -> Calling<
    Seq<ValueV>,
    Seq<char>,
    Seq<Seq<char>>,
> {
    Calling {
        name,
        def: Rc::new(def),
        args,
        next: i as usize,
        entry: false,
        saved_ns: m.env.ns,
        saved_base: m.env.base as usize,
        base: m.env.scopes.len() as usize,
    }
}

spec fn half_bound(
    m: MachineV,
    name: Seq<char>,
    def: FnDef,
    args: Seq<ValueV>,
    i: int,
) -> MachineV {
    MachineV {
        env: EnvV {
            scopes: m.env.scopes.push(given(def, args, i as nat)),
            ns: ns_of(name),
            base: m.env.base,
        },
        msg: builtin(m.msg, m.session.windows, name, args).1,
        ..m
    }
}

proof fn lemma_bound(
    m: MachineV,
    name: Seq<char>,
    def: FnDef,
    args: Seq<ValueV>,
    i: int,
    fs: Seq<FrameV>,
)
    requires
        0 <= i <= def.params@.len(),
        args.len() == def.params@.len(),
        def.params@.len() <= usize::MAX,
    ensures
        reaches(
            placed(
                half_bound(m, name, def, args, i),
                Ctl::Bind { call: the_call(m, name, def, args, i) },
                fs,
            ),
            placed(
                half_bound(m, name, def, args, def.params@.len() as int),
                Ctl::Bind { call: the_call(m, name, def, args, def.params@.len() as int) },
                fs,
            ),
        ),
    decreases def.params@.len() - i,
{
    let k = def.params@.len() as int;
    let a = placed(
        half_bound(m, name, def, args, i),
        Ctl::Bind { call: the_call(m, name, def, args, i) },
        fs,
    );
    if i < k {
        lemma_bound(m, name, def, args, i + 1, fs);
        let b = placed(
            half_bound(m, name, def, args, i + 1),
            Ctl::Bind { call: the_call(m, name, def, args, i + 1) },
            fs,
        );
        let s = m.env.scopes.push(given(def, args, i as nat));
        assert(s.update(
            s.len() - 1,
            given(def, args, i as nat).insert(def.params@[i].name@, args[i]),
        ) =~= m.env.scopes.push(given(def, args, (i + 1) as nat)));
        assert(step(a) == b);
        then_on(
            a,
            placed(half_bound(m, name, def, args, k), Ctl::Bind { call: the_call(m, name, def, args, k) }, fs),
        );
    } else {
        here(a);
    }
}

proof fn lemma_required(def: FnDef, i: nat)
    requires
        i <= def.params@.len(),
    ensures
        crate::semantics::required(def, i) <= def.params@.len(),
    decreases def.params@.len() - i,
{
    if i < def.params@.len() && !(def.params@[i as int].default is Some) {
        lemma_required(def, i + 1);
    }
}

proof fn lemma_call(
    m: MachineV,
    name: Seq<char>,
    args: Seq<ValueV>,
    out: CtlV,
    v: ValueV,
    n: MachineV,
)
    requires
        builtin(m.msg, m.session.windows, name, args).0 is Unknown,
        m.session.funcs.dom().contains(name),
        args.len() == m.session.funcs[name].params@.len(),
        m.env.base <= m.env.scopes.len() < usize::MAX,
        m.session.funcs[name].params@.len() <= usize::MAX,
        runs(inside(m, name, m.session.funcs[name], args), m.session.funcs[name].body, out, n),
        n.env.scopes.len() > 0,
        match out {
            Ctl::Return(x) => v == x,
            Ctl::Flow(Some(x)) => v == x,
            Ctl::Flow(None) => v == ValueV::Void,
            _ => false,
        },
    ensures
        comes_to(m, Ctl::Call { name, args }, Ctl::Value(v), outside(m, n)),
{
    let def = m.session.funcs[name];
    let k = def.params@.len() as int;
    let o = outside(m, n);
    assert forall|fs: Seq<FrameV>| #[trigger]
        reaches(placed(m, Ctl::Call { name, args }, fs), placed(o, Ctl::Value(v), fs)) by {
        let z = placed(o, Ctl::Value(v), fs);
        let a = placed(m, Ctl::Call { name, args }, fs);
        lemma_required(def, 0);
        let b = placed(
            half_bound(m, name, def, args, 0),
            Ctl::Bind { call: the_call(m, name, def, args, 0) },
            fs,
        );
        assert(step(a) == b);
        lemma_bound(m, name, def, args, 0, fs);
        let c = placed(
            half_bound(m, name, def, args, k),
            Ctl::Bind { call: the_call(m, name, def, args, k) },
            fs,
        );
        let f: FrameV = Frame::CallEnd { saved_ns: m.env.ns, saved_base: m.env.base as usize };
        below(inside(m, name, def, args), Ctl::Run(def.body), out, n, fs, f);
        assert(step(c) == placed(inside(m, name, def, args), Ctl::Run(def.body), fs.push(f)));
        let d = placed(n, out, fs.push(f));
        assert(step(d) == z);
        one(d);
        on(step(c), d, z);
        then_on(c, z);
        on(b, c, z);
        then_on(a, z);
    }
}

/// A function of the program runs its body with its parameters set to the arguments of the same
/// positions. What it returns, or its last expression, is the value of the call; a body without
/// either gives nothing. The caller's scopes and namespace come back.
pub proof fn law_functions(
    m: MachineV,
    name: Seq<char>,
    args: Seq<ValueV>,
    v: ValueV,
    n: MachineV,
)
    requires
        builtin(m.msg, m.session.windows, name, args).0 is Unknown,
        m.session.funcs.dom().contains(name),
        args.len() == m.session.funcs[name].params@.len(),
        m.env.base <= m.env.scopes.len() < usize::MAX,
        m.session.funcs[name].params@.len() <= usize::MAX,
        n.env.scopes.len() > 0,
    ensures
        ({
            let def = m.session.funcs[name];
            let start = inside(m, name, def, args);
            &&& runs(start, def.body, Ctl::Return(v), n) ==> comes_to(
                m,
                Ctl::Call { name, args },
                Ctl::Value(v),
                outside(m, n),
            )
            &&& runs(start, def.body, Ctl::Flow(Some(v)), n) ==> comes_to(
                m,
                Ctl::Call { name, args },
                Ctl::Value(v),
                outside(m, n),
            )
            &&& runs(start, def.body, Ctl::Flow(None), n) ==> comes_to(
                m,
                Ctl::Call { name, args },
                Ctl::Value(ValueV::Void),
                outside(m, n),
            )
        }),
{
    let def = m.session.funcs[name];
    let start = inside(m, name, def, args);
    if runs(start, def.body, Ctl::Return(v), n) {
        lemma_call(m, name, args, Ctl::Return(v), v, n);
    }
    if runs(start, def.body, Ctl::Flow(Some(v)), n) {
        lemma_call(m, name, args, Ctl::Flow(Some(v)), v, n);
    }
    if runs(start, def.body, Ctl::Flow(None), n) {
        lemma_call(m, name, args, Ctl::Flow(None), ValueV::Void, n);
    }
}

/// A parameter has the value of its argument, where no later one has its name.
pub proof fn law_parameters(def: FnDef, args: Seq<ValueV>, i: int, n: nat)
    requires
        0 <= i < n <= def.params@.len(),
        forall|j: int|
            i < j < n ==> (#[trigger] def.params@[j]).name@ != def.params@[i].name@,
    ensures
        given(def, args, n).dom().contains(def.params@[i].name@),
        given(def, args, n)[def.params@[i].name@] == args[i],
    decreases n,
{
    if i < n - 1 {
        law_parameters(def, args, i, (n - 1) as nat);
        assert(def.params@[n - 1].name@ != def.params@[i].name@);
    }
}

/// Too few arguments or too many are refused.
pub proof fn law_wrong_numbers_of_arguments(m: MachineV, name: Seq<char>, args: Seq<ValueV>)
    requires
        builtin(m.msg, m.session.windows, name, args).0 is Unknown,
        !m.session.funcs.dom().contains(name) || args.len()
            > m.session.funcs[name].params@.len() || (args.len()
            < m.session.funcs[name].params@.len() && forall|i: int|
            0 <= i <= args.len() ==> (#[trigger] m.session.funcs[name].params@[i]).default is None),
    ensures
        step(placed(m, Ctl::Call { name, args }, m.frames)).ctl matches Ctl::Done(f) && f
            is Failure,
{
    if m.session.funcs.dom().contains(name) {
        let def = m.session.funcs[name];
        lemma_required(def, 0);
        if args.len() < def.params@.len() {
            lemma_needed(def, args.len(), 0);
        }
    }
}

proof fn lemma_needed(def: FnDef, n: nat, i: nat)
    requires
        i <= n < def.params@.len(),
        forall|j: int| 0 <= j <= n ==> (#[trigger] def.params@[j]).default is None,
    ensures
        crate::semantics::required(def, i) > n,
    decreases n - i,
{
    assert(def.params@[i as int].default is None);
    if i < n {
        lemma_needed(def, n, i + 1);
    } else {
        lemma_required_grows(def, i + 1);
    }
}

proof fn lemma_required_grows(def: FnDef, i: nat)
    ensures
        crate::semantics::required(def, i) >= i,
    decreases def.params@.len() - i,
{
    if i < def.params@.len() && !(def.params@[i as int].default is Some) {
        lemma_required_grows(def, i + 1);
    }
}

/// `table_push(t, x)` puts the value of `x` behind the last cell of the variable `t`.
pub proof fn law_table_push(
    m: MachineV,
    e: Rc<Expr>,
    name: String,
    args: Exprs,
    t: String,
    v: ValueV,
    n: MachineV,
    cells: Seq<ValueV>,
)
    requires
        e.kind == (ExprKind::Call { name, args }),
        name@ == "table_push"@,
        args@.len() == 2,
        args@[0].kind == ExprKind::Var(t),
        evaluates(m, args@[1], v, n),
        lookup(n, t@) == Some(ValueV::Table(cells)),
    ensures
        evaluates(m, e, ValueV::Void, with_var(n, t@, ValueV::Table(cells.push(v)))),
{
    let o = with_var(n, t@, ValueV::Table(cells.push(v)));
    assert forall|fs: Seq<FrameV>| #[trigger]
        reaches(placed(m, Ctl::Eval(e), fs), placed(o, Ctl::Value(ValueV::Void), fs)) by {
        let f: FrameV = Frame::Push { name: t@ };
        let a = placed(m, Ctl::Eval(e), fs);
        let z = placed(o, Ctl::Value(ValueV::Void), fs);
        below(m, Ctl::Eval(args@[1]), Ctl::Value(v), n, fs, f);
        let b = placed(n, Ctl::Value(v), fs.push(f));
        assert(step(a) == placed(m, Ctl::Eval(args@[1]), fs.push(f)));
        assert(step(b) == z);
        one(b);
        on(step(a), b, z);
        then_on(a, z);
    }
}

// ---------- statements ----------
/// A declaration makes a variable with the value of its expression; a truth value becomes a
/// trit where one is declared.
pub proof fn law_declarations(
    m: MachineV,
    s: Rc<Stmt>,
    name: String,
    ty: Option<TypeSpec>,
    init: Rc<Expr>,
    v: ValueV,
    n: MachineV,
)
    requires
        *s == (Stmt::VarDecl { name, ty, init }),
        evaluates(m, init, v, n),
        !is_declared(n, name@),
    ensures
        ({
            let w = if ty == Some(TypeSpec::Named(TyKw::Trit)) && v == ValueV::Bool(true) {
                ValueV::Trit(1i8)
            } else if ty == Some(TypeSpec::Named(TyKw::Trit)) && v == ValueV::Bool(false) {
                ValueV::Trit(-1i8)
            } else {
                v
            };
            executes(m, s, Ctl::Flow(None), declare(n, name@, w))
        }),
{
    let w = if ty == Some(TypeSpec::Named(TyKw::Trit)) && v == ValueV::Bool(true) {
        ValueV::Trit(1i8)
    } else if ty == Some(TypeSpec::Named(TyKw::Trit)) && v == ValueV::Bool(false) {
        ValueV::Trit(-1i8)
    } else {
        v
    };
    let o = declare(n, name@, w);
    assert forall|fs: Seq<FrameV>| #[trigger]
        reaches(placed(m, Ctl::Exec(s), fs), placed(o, Ctl::Flow(None), fs)) by {
        let f: FrameV = Frame::Declare {
            name: name@,
            trit: ty == Some(TypeSpec::Named(TyKw::Trit)),
        };
        let a = placed(m, Ctl::Exec(s), fs);
        let z = placed(o, Ctl::Flow(None), fs);
        below(m, Ctl::Eval(init), Ctl::Value(v), n, fs, f);
        let b = placed(n, Ctl::Value(v), fs.push(f));
        assert(step(a) == placed(m, Ctl::Eval(init), fs.push(f)));
        assert(step(b) == z);
        one(b);
        on(step(a), b, z);
        then_on(a, z);
    }
}

/// An expression that stands alone ends with its value.
pub proof fn law_expressions_alone(m: MachineV, s: Rc<Stmt>, e: Rc<Expr>, v: ValueV, n: MachineV)
    requires
        *s == (Stmt::Expr { expr: e }),
        evaluates(m, e, v, n),
    ensures
        executes(m, s, Ctl::Flow(Some(v)), n),
{
    assert forall|fs: Seq<FrameV>| #[trigger]
        reaches(placed(m, Ctl::Exec(s), fs), placed(n, Ctl::Flow(Some(v)), fs)) by {
        let f: FrameV = Frame::ExprStmt;
        let a = placed(m, Ctl::Exec(s), fs);
        let z = placed(n, Ctl::Flow(Some(v)), fs);
        below(m, Ctl::Eval(e), Ctl::Value(v), n, fs, f);
        let b = placed(n, Ctl::Value(v), fs.push(f));
        assert(step(a) == placed(m, Ctl::Eval(e), fs.push(f)));
        assert(step(b) == z);
        one(b);
        on(step(a), b, z);
        then_on(a, z);
    }
}

/// `x = e` sets the variable to the value of `e`; `x op= e` to the result of the operator on
/// the value that it had before `e` was evaluated and the value of `e`.
pub proof fn law_assignments(
    m: MachineV,
    s: Rc<Stmt>,
    target: String,
    op: Option<BinaryOp>,
    e: Rc<Expr>,
    v: ValueV,
    n: MachineV,
    before: ValueV,
    w: ValueV,
)
    requires
        *s == (Stmt::Assign { target, op, value: e }),
        evaluates(m, e, v, n),
        lookup(m, target@) == Some(before),
        is_declared(n, target@),
    ensures
        op is None ==> executes(m, s, Ctl::Flow(None), with_var(n, target@, v)),
        op is Some && binary(op->0, before, v) == BinOutV::Val(w) ==> executes(
            m,
            s,
            Ctl::Flow(None),
            with_var(n, target@, w),
        ),
{
    if op is None {
        let o = with_var(n, target@, v);
        assert forall|fs: Seq<FrameV>| #[trigger]
            reaches(placed(m, Ctl::Exec(s), fs), placed(o, Ctl::Flow(None), fs)) by {
            let f: FrameV = Frame::Assign { target: target@ };
            let a = placed(m, Ctl::Exec(s), fs);
            let z = placed(o, Ctl::Flow(None), fs);
            below(m, Ctl::Eval(e), Ctl::Value(v), n, fs, f);
            let b = placed(n, Ctl::Value(v), fs.push(f));
            assert(step(a) == placed(m, Ctl::Eval(e), fs.push(f)));
            assert(step(b) == z);
            one(b);
            on(step(a), b, z);
            then_on(a, z);
        }
    } else if binary(op->0, before, v) == BinOutV::Val(w) {
        let o = with_var(n, target@, w);
        assert forall|fs: Seq<FrameV>| #[trigger]
            reaches(placed(m, Ctl::Exec(s), fs), placed(o, Ctl::Flow(None), fs)) by {
            let f: FrameV = Frame::AssignOp { target: target@, op: op->0, before };
            let g: FrameV = Frame::Assign { target: target@ };
            let a = placed(m, Ctl::Exec(s), fs);
            let z = placed(o, Ctl::Flow(None), fs);
            below(m, Ctl::Eval(e), Ctl::Value(v), n, fs, f);
            let b = placed(n, Ctl::Value(v), fs.push(f));
            let c = placed(n, Ctl::Value(w), fs.push(g));
            assert(fs.push(g).drop_last() =~= fs);
            assert(step(a) == placed(m, Ctl::Eval(e), fs.push(f)));
            assert(step(b) == c);
            assert(step(c) == z);
            one(c);
            then_on(b, z);
            on(step(a), b, z);
            then_on(a, z);
        }
    }
}

/// `t[i] = e` sets the cell at position `i` of the table that `t` was before, and leaves the
/// others; `t[i] op= e` sets it to the result of the operator on the cell and the value of `e`.
pub proof fn law_element_assignments(
    m: MachineV,
    s: Rc<Stmt>,
    target: Rc<Expr>,
    op: Option<BinaryOp>,
    e: Rc<Expr>,
    base: Rc<Expr>,
    index: Rc<Expr>,
    name: String,
    cells: Seq<ValueV>,
    i: i64,
    n: MachineV,
    v: ValueV,
    o: MachineV,
    w: ValueV,
)
    requires
        *s == (Stmt::IndexAssign { target, op, value: e }),
        target.kind == (ExprKind::Index { base, index }),
        base.kind == ExprKind::Var(name),
        lookup(m, name@) == Some(ValueV::Table(cells)),
        evaluates(m, index, ValueV::Int(i), n),
        0 <= i < cells.len() <= usize::MAX,
        evaluates(n, e, v, o),
        is_declared(o, name@),
    ensures
        op is None ==> executes(
            m,
            s,
            Ctl::Flow(None),
            with_var(o, name@, ValueV::Table(cells.update(i as int, v))),
        ),
        op is Some && binary(op->0, cells[i as int], v) == BinOutV::Val(w) ==> executes(
            m,
            s,
            Ctl::Flow(None),
            with_var(o, name@, ValueV::Table(cells.update(i as int, w))),
        ),
{
    let f: FrameV = Frame::StoreAt { name: name@, cells, op, value: e };
    if op is None {
        let p = with_var(o, name@, ValueV::Table(cells.update(i as int, v)));
        assert forall|fs: Seq<FrameV>| #[trigger]
            reaches(placed(m, Ctl::Exec(s), fs), placed(p, Ctl::Flow(None), fs)) by {
            let g: FrameV = Frame::Store { name: name@, cells, at: i as usize };
            let a = placed(m, Ctl::Exec(s), fs);
            let z = placed(p, Ctl::Flow(None), fs);
            below(m, Ctl::Eval(index), Ctl::Value(ValueV::Int(i)), n, fs, f);
            below(n, Ctl::Eval(e), Ctl::Value(v), o, fs, g);
            let b = placed(n, Ctl::Value(ValueV::Int(i)), fs.push(f));
            let c = placed(o, Ctl::Value(v), fs.push(g));
            assert(step(a) == placed(m, Ctl::Eval(index), fs.push(f)));
            assert(step(b) == placed(n, Ctl::Eval(e), fs.push(g)));
            assert(step(c) == z);
            one(c);
            on(step(b), c, z);
            then_on(b, z);
            on(step(a), b, z);
            then_on(a, z);
        }
    } else if binary(op->0, cells[i as int], v) == BinOutV::Val(w) {
        let p = with_var(o, name@, ValueV::Table(cells.update(i as int, w)));
        assert forall|fs: Seq<FrameV>| #[trigger]
            reaches(placed(m, Ctl::Exec(s), fs), placed(p, Ctl::Flow(None), fs)) by {
            let g: FrameV = Frame::StoreOp { name: name@, cells, at: i as usize, op: op->0 };
            let h: FrameV = Frame::Store { name: name@, cells, at: i as usize };
            let a = placed(m, Ctl::Exec(s), fs);
            let z = placed(p, Ctl::Flow(None), fs);
            below(m, Ctl::Eval(index), Ctl::Value(ValueV::Int(i)), n, fs, f);
            below(n, Ctl::Eval(e), Ctl::Value(v), o, fs, g);
            let b = placed(n, Ctl::Value(ValueV::Int(i)), fs.push(f));
            let c = placed(o, Ctl::Value(v), fs.push(g));
            let d = placed(o, Ctl::Value(w), fs.push(h));
            assert(fs.push(h).drop_last() =~= fs);
            assert(step(a) == placed(m, Ctl::Eval(index), fs.push(f)));
            assert(step(b) == placed(n, Ctl::Eval(e), fs.push(g)));
            assert(step(c) == d);
            assert(step(d) == z);
            one(d);
            then_on(c, z);
            on(step(b), c, z);
            then_on(b, z);
            on(step(a), b, z);
            then_on(a, z);
        }
    }
}

/// `return e` is on its way out with the value of `e`, `return` with nothing.
pub proof fn law_returns(m: MachineV, s: Rc<Stmt>, e: Option<Rc<Expr>>, v: ValueV, n: MachineV)
    requires
        *s == (Stmt::Return { expr: e }),
    ensures
        e is None ==> executes(m, s, Ctl::Return(ValueV::Void), m),
        e is Some && evaluates(m, e->0, v, n) ==> executes(m, s, Ctl::Return(v), n),
{
    if e is None {
        assert forall|fs: Seq<FrameV>| #[trigger]
            reaches(placed(m, Ctl::Exec(s), fs), placed(m, Ctl::Return(ValueV::Void), fs)) by {
            one(placed(m, Ctl::Exec(s), fs));
        }
    } else if evaluates(m, e->0, v, n) {
        assert forall|fs: Seq<FrameV>| #[trigger]
            reaches(placed(m, Ctl::Exec(s), fs), placed(n, Ctl::Return(v), fs)) by {
            let f: FrameV = Frame::Return;
            let a = placed(m, Ctl::Exec(s), fs);
            let z = placed(n, Ctl::Return(v), fs);
            below(m, Ctl::Eval(e->0), Ctl::Value(v), n, fs, f);
            let b = placed(n, Ctl::Value(v), fs.push(f));
            assert(step(a) == placed(m, Ctl::Eval(e->0), fs.push(f)));
            assert(step(b) == z);
            one(b);
            on(step(a), b, z);
            then_on(a, z);
        }
    }
}

/// An `if` runs its first block where the condition is true, and its second one where it is
/// false, and ends as that block does.
pub proof fn law_branches(
    m: MachineV,
    s: Rc<Stmt>,
    cond: Rc<Expr>,
    yes: Block,
    no: Block,
    n: MachineV,
    out: CtlV,
    o: MachineV,
)
    requires
        *s == (Stmt::If { cond, then_branch: yes, else_branch: no }),
    ensures
        evaluates(m, cond, ValueV::Bool(true), n) && runs(n, yes, out, o) ==> executes(m, s, out, o),
        evaluates(m, cond, ValueV::Bool(false), n) && runs(n, no, out, o) ==> executes(m, s, out, o),
{
    if evaluates(m, cond, ValueV::Bool(true), n) && runs(n, yes, out, o) {
        lemma_branch(m, s, cond, yes, no, true, n, out, o);
    }
    if evaluates(m, cond, ValueV::Bool(false), n) && runs(n, no, out, o) {
        lemma_branch(m, s, cond, yes, no, false, n, out, o);
    }
}

proof fn lemma_branch(
    m: MachineV,
    s: Rc<Stmt>,
    cond: Rc<Expr>,
    yes: Block,
    no: Block,
    t: bool,
    n: MachineV,
    out: CtlV,
    o: MachineV,
)
    requires
        *s == (Stmt::If { cond, then_branch: yes, else_branch: no }),
        evaluates(m, cond, ValueV::Bool(t), n),
        t ==> runs(n, yes, out, o),
        !t ==> runs(n, no, out, o),
    ensures
        executes(m, s, out, o),
{
    let b = if t {
        yes
    } else {
        no
    };
    assert forall|fs: Seq<FrameV>| #[trigger]
        reaches(placed(m, Ctl::Exec(s), fs), placed(o, out, fs)) by {
        let f: FrameV = Frame::If { then_branch: yes, else_branch: no };
        let a = placed(m, Ctl::Exec(s), fs);
        let z = placed(o, out, fs);
        below(m, Ctl::Eval(cond), Ctl::Value(ValueV::Bool(t)), n, fs, f);
        let c = placed(n, Ctl::Value(ValueV::Bool(t)), fs.push(f));
        assert(step(a) == placed(m, Ctl::Eval(cond), fs.push(f)));
        assert(step(c) == placed(n, Ctl::Run(b), fs));
        assert(reaches(placed(n, Ctl::Run(b), fs), z));
        then_on(c, z);
        on(step(a), c, z);
        then_on(a, z);
    }
}

/// Whether statements are executed one after the other through the states `ss`, each to its
/// end, with the values `vs`.
pub open spec fn execute_all(
    ss: Seq<MachineV>,
    b: Seq<Rc<Stmt>>,
    vs: Seq<Option<ValueV>>,
) -> bool {
    &&& ss.len() == b.len() + 1
    &&& vs.len() == b.len()
    &&& forall|i: int|
        0 <= i < b.len() ==> executes(ss[i], #[trigger] b[i], Ctl::Flow(vs[i]), ss[i + 1])
}

/// The value of the last of some statements.
pub open spec fn last_of(vs: Seq<Option<ValueV>>) -> Option<ValueV> {
    if vs.len() == 0 {
        None
    } else {
        vs.last()
    }
}

proof fn lemma_statements(
    ss: Seq<MachineV>,
    b: Block,
    vs: Seq<Option<ValueV>>,
    i: int,
    k: int,
    fs: Seq<FrameV>,
)
    requires
        0 <= i <= k <= b@.len(),
        ss.len() > k,
        vs.len() >= k,
        forall|j: int|
            0 <= j < k ==> executes(ss[j], #[trigger] b@[j], Ctl::Flow(vs[j]), ss[j + 1]),
        b@.len() <= usize::MAX,
    ensures
        reaches(
            placed(
                ss[i],
                Ctl::Flow(last_of(vs.take(i))),
                fs.push(Frame::Body { stmts: b, next: i as usize }),
            ),
            placed(
                ss[k],
                Ctl::Flow(last_of(vs.take(k))),
                fs.push(Frame::Body { stmts: b, next: k as usize }),
            ),
        ),
    decreases k - i,
{
    let f: FrameV = Frame::Body { stmts: b, next: i as usize };
    let a = placed(ss[i], Ctl::Flow(last_of(vs.take(i))), fs.push(f));
    if i < k {
        lemma_statements(ss, b, vs, i + 1, k, fs);
        let g: FrameV = Frame::Body { stmts: b, next: (i + 1) as usize };
        let z = placed(
            ss[k],
            Ctl::Flow(last_of(vs.take(k))),
            fs.push(Frame::Body { stmts: b, next: k as usize }),
        );
        assert(executes(ss[i], b@[i], Ctl::Flow(vs[i]), ss[i + 1]));
        below(ss[i], Ctl::Exec(b@[i]), Ctl::Flow(vs[i]), ss[i + 1], fs, g);
        assert(fs.push(f).drop_last() =~= fs);
        assert(step(a) == placed(ss[i], Ctl::Exec(b@[i]), fs.push(g)));
        assert(vs.take(i + 1).last() == vs[i]);
        let c = placed(ss[i + 1], Ctl::Flow(last_of(vs.take(i + 1))), fs.push(g));
        on(step(a), c, z);
        then_on(a, z);
    } else {
        here(a);
    }
}

/// A block runs its statements in order, in a scope of its own that is gone at the end, and ends
/// with the value of the last one.
pub proof fn law_blocks(
    m: MachineV,
    b: Block,
    ss: Seq<MachineV>,
    vs: Seq<Option<ValueV>>,
)
    requires
        ss.len() > 0,
        ss[0] == push_scope(m, Map::empty()),
        execute_all(ss, b@, vs),
        b@.len() <= usize::MAX,
    ensures
        runs(m, b, Ctl::Flow(last_of(vs)), pop_scope(ss.last())),
{
    let k = b@.len() as int;
    let o = pop_scope(ss.last());
    assert forall|fs: Seq<FrameV>| #[trigger]
        reaches(placed(m, Ctl::Run(b), fs), placed(o, Ctl::Flow(last_of(vs)), fs)) by {
        let a = placed(m, Ctl::Run(b), fs);
        let z = placed(o, Ctl::Flow(last_of(vs)), fs);
        lemma_statements(ss, b, vs, 0, k, fs);
        let f: FrameV = Frame::Body { stmts: b, next: k as usize };
        assert(fs.push(f).drop_last() =~= fs);
        assert(vs.take(k) =~= vs);
        assert(vs.take(0).len() == 0);
        let c = placed(ss[k], Ctl::Flow(last_of(vs)), fs.push(f));
        assert(step(a) == placed(
            ss[0],
            Ctl::Flow(last_of(vs.take(0))),
            fs.push(Frame::Body { stmts: b, next: 0 }),
        ));
        assert(step(c) == z);
        one(c);
        on(step(a), c, z);
        then_on(a, z);
    }
}

/// A `return` in a block ends it: the statements behind it are not executed.
pub proof fn law_returns_end_blocks(
    m: MachineV,
    b: Block,
    ss: Seq<MachineV>,
    vs: Seq<Option<ValueV>>,
    k: int,
    v: ValueV,
    n: MachineV,
)
    requires
        0 <= k < b@.len() <= usize::MAX,
        ss.len() == k + 1,
        vs.len() == k,
        ss[0] == push_scope(m, Map::empty()),
        forall|j: int|
            0 <= j < k ==> executes(ss[j], #[trigger] b@[j], Ctl::Flow(vs[j]), ss[j + 1]),
        executes(ss[k], b@[k], Ctl::Return(v), n),
    ensures
        runs(m, b, Ctl::Return(v), pop_scope(n)),
{
    let o = pop_scope(n);
    assert forall|fs: Seq<FrameV>| #[trigger]
        reaches(placed(m, Ctl::Run(b), fs), placed(o, Ctl::Return(v), fs)) by {
        let a = placed(m, Ctl::Run(b), fs);
        let z = placed(o, Ctl::Return(v), fs);
        lemma_statements(ss, b, vs, 0, k, fs);
        let f: FrameV = Frame::Body { stmts: b, next: k as usize };
        let g: FrameV = Frame::Body { stmts: b, next: (k + 1) as usize };
        assert(fs.push(f).drop_last() =~= fs);
        below(ss[k], Ctl::Exec(b@[k]), Ctl::Return(v), n, fs, g);
        assert(vs.take(0).len() == 0);
        let c = placed(ss[k], Ctl::Flow(last_of(vs.take(k))), fs.push(f));
        assert(step(a) == placed(
            ss[0],
            Ctl::Flow(last_of(vs.take(0))),
            fs.push(Frame::Body { stmts: b, next: 0 }),
        ));
        assert(step(c) == placed(ss[k], Ctl::Exec(b@[k]), fs.push(g)));
        let d = placed(n, Ctl::Return(v), fs.push(g));
        assert(step(d) == z);
        one(d);
        on(step(c), d, z);
        then_on(c, z);
        on(step(a), c, z);
        then_on(a, z);
    }
}

// ---------- loops ----------
/// Whether a loop goes round `k` times: in the state `ss[i]` the condition is true and leaves
/// `ts[i]`, and the body then leaves `ss[i + 1]`.
pub open spec fn goes_round(
    cond: Rc<Expr>,
    body: Block,
    ss: Seq<MachineV>,
    ts: Seq<MachineV>,
    vs: Seq<Option<ValueV>>,
    k: int,
) -> bool {
    &&& ss.len() > k
    &&& ts.len() >= k
    &&& vs.len() == k
    &&& forall|i: int|
        0 <= i < k ==> {
            &&& evaluates(#[trigger] ss[i], cond, ValueV::Bool(true), ts[i])
            &&& runs(ts[i], body, Ctl::Flow(vs[i]), ss[i + 1])
        }
}

proof fn lemma_rounds(
    cond: Rc<Expr>,
    body: Block,
    ss: Seq<MachineV>,
    ts: Seq<MachineV>,
    vs: Seq<Option<ValueV>>,
    k: int,
    i: int,
    fs: Seq<FrameV>,
)
    requires
        0 <= i <= k,
        goes_round(cond, body, ss, ts, vs, k),
    ensures
        reaches(
            placed(
                ss[i],
                Ctl::Eval(cond),
                fs.push(Frame::WhileTest { cond, body, last: last_of(vs.take(i)) }),
            ),
            placed(
                ss[k],
                Ctl::Eval(cond),
                fs.push(Frame::WhileTest { cond, body, last: last_of(vs) }),
            ),
        ),
    decreases k - i,
{
    let f: FrameV = Frame::WhileTest { cond, body, last: last_of(vs.take(i)) };
    let a = placed(ss[i], Ctl::Eval(cond), fs.push(f));
    if i < k {
        lemma_rounds(cond, body, ss, ts, vs, k, i + 1, fs);
        let z = placed(
            ss[k],
            Ctl::Eval(cond),
            fs.push(Frame::WhileTest { cond, body, last: last_of(vs) }),
        );
        assert(evaluates(ss[i], cond, ValueV::Bool(true), ts[i]));
        let g: FrameV = Frame::WhileBody { cond, body };
        let h: FrameV = Frame::WhileTest { cond, body, last: vs[i] };
        below(ss[i], Ctl::Eval(cond), Ctl::Value(ValueV::Bool(true)), ts[i], fs, f);
        below(ts[i], Ctl::Run(body), Ctl::Flow(vs[i]), ss[i + 1], fs, g);
        let b = placed(ts[i], Ctl::Value(ValueV::Bool(true)), fs.push(f));
        assert(step(b) == placed(ts[i], Ctl::Run(body), fs.push(g)));
        let c = placed(ss[i + 1], Ctl::Flow(vs[i]), fs.push(g));
        assert(step(c) == placed(ss[i + 1], Ctl::Eval(cond), fs.push(h)));
        assert(vs.take(i + 1).last() == vs[i]);
        then_on(c, z);
        on(step(b), c, z);
        then_on(b, z);
        on(a, b, z);
    } else {
        assert(vs.take(i) =~= vs);
        here(a);
    }
}

/// A `while` runs its body as long as its condition is true, which it tests before each round,
/// and ends with the value of the last round.
pub proof fn law_while(
    s: Rc<Stmt>,
    label: Option<String>,
    cond: Rc<Expr>,
    body: Block,
    ss: Seq<MachineV>,
    ts: Seq<MachineV>,
    vs: Seq<Option<ValueV>>,
    k: int,
    n: MachineV,
)
    requires
        *s == (Stmt::While { label, cond, body }),
        0 <= k,
        goes_round(cond, body, ss, ts, vs, k),
        evaluates(ss[k], cond, ValueV::Bool(false), n),
    ensures
        executes(ss[0], s, Ctl::Flow(last_of(vs)), n),
{
    let out: CtlV = Ctl::Flow(last_of(vs));
    assert forall|fs: Seq<FrameV>| #[trigger]
        reaches(placed(ss[0], Ctl::Exec(s), fs), placed(n, out, fs)) by {
        let a = placed(ss[0], Ctl::Exec(s), fs);
        let z = placed(n, out, fs);
        lemma_rounds(cond, body, ss, ts, vs, k, 0, fs);
        assert(vs.take(0).len() == 0);
        let f: FrameV = Frame::WhileTest { cond, body, last: last_of(vs) };
        below(ss[k], Ctl::Eval(cond), Ctl::Value(ValueV::Bool(false)), n, fs, f);
        let b = placed(n, Ctl::Value(ValueV::Bool(false)), fs.push(f));
        assert(step(a) == placed(
            ss[0],
            Ctl::Eval(cond),
            fs.push(Frame::WhileTest { cond, body, last: last_of(vs.take(0)) }),
        ));
        assert(step(b) == z);
        one(b);
        let c = placed(ss[k], Ctl::Eval(cond), fs.push(f));
        on(c, b, z);
        on(step(a), c, z);
        then_on(a, z);
    }
}

/// A `return` in the body of a `while` ends the loop.
pub proof fn law_returns_end_while(
    s: Rc<Stmt>,
    label: Option<String>,
    cond: Rc<Expr>,
    body: Block,
    ss: Seq<MachineV>,
    ts: Seq<MachineV>,
    vs: Seq<Option<ValueV>>,
    k: int,
    n: MachineV,
    v: ValueV,
    o: MachineV,
)
    requires
        *s == (Stmt::While { label, cond, body }),
        0 <= k,
        goes_round(cond, body, ss, ts, vs, k),
        evaluates(ss[k], cond, ValueV::Bool(true), n),
        runs(n, body, Ctl::Return(v), o),
    ensures
        executes(ss[0], s, Ctl::Return(v), o),
{
    let out: CtlV = Ctl::Return(v);
    assert forall|fs: Seq<FrameV>| #[trigger]
        reaches(placed(ss[0], Ctl::Exec(s), fs), placed(o, out, fs)) by {
        let a = placed(ss[0], Ctl::Exec(s), fs);
        let z = placed(o, out, fs);
        lemma_rounds(cond, body, ss, ts, vs, k, 0, fs);
        assert(vs.take(0).len() == 0);
        let f: FrameV = Frame::WhileTest { cond, body, last: last_of(vs) };
        let g: FrameV = Frame::WhileBody { cond, body };
        below(ss[k], Ctl::Eval(cond), Ctl::Value(ValueV::Bool(true)), n, fs, f);
        below(n, Ctl::Run(body), out, o, fs, g);
        let b = placed(n, Ctl::Value(ValueV::Bool(true)), fs.push(f));
        assert(step(a) == placed(
            ss[0],
            Ctl::Eval(cond),
            fs.push(Frame::WhileTest { cond, body, last: last_of(vs.take(0)) }),
        ));
        assert(step(b) == placed(n, Ctl::Run(body), fs.push(g)));
        let d = placed(o, out, fs.push(g));
        assert(step(d) == z);
        one(d);
        on(step(b), d, z);
        then_on(b, z);
        let c = placed(ss[k], Ctl::Eval(cond), fs.push(f));
        on(c, b, z);
        on(step(a), c, z);
        then_on(a, z);
    }
}

/// Whether the body of a loop runs once for each of the values `items`, in their order: each
/// time in a scope of its own that holds the loop's variable with the value, and that is gone
/// before the next time.
pub open spec fn runs_for(
    var: Seq<char>,
    body: Block,
    items: Seq<ValueV>,
    ss: Seq<MachineV>,
    ts: Seq<MachineV>,
    vs: Seq<Option<ValueV>>,
) -> bool {
    &&& ss.len() == items.len() + 1
    &&& ts.len() == items.len()
    &&& vs.len() == items.len()
    &&& forall|i: int|
        0 <= i < items.len() ==> {
            &&& runs(
                push_scope(#[trigger] ss[i], Map::empty().insert(var, items[i])),
                body,
                Ctl::Flow(vs[i]),
                ts[i],
            )
            &&& ss[i + 1] == pop_scope(ts[i])
        }
}

/// The numbers from `lo` up to, but not including, `hi`.
pub open spec fn numbers(lo: i64, hi: i64) -> Seq<ValueV> {
    Seq::new(
        if lo < hi {
            (hi - lo) as nat
        } else {
            0
        },
        |i: int| ValueV::Int((lo + i) as i64),
    )
}

proof fn lemma_range(
    var: Seq<char>,
    body: Block,
    lo: i64,
    hi: i64,
    ss: Seq<MachineV>,
    ts: Seq<MachineV>,
    vs: Seq<Option<ValueV>>,
    i: int,
    fs: Seq<FrameV>,
)
    requires
        runs_for(var, body, numbers(lo, hi), ss, ts, vs),
        0 <= i <= numbers(lo, hi).len(),
    ensures
        reaches(
            crate::semantics::for_range(
                placed(ss[i], Ctl::Done(Finish::Crash), fs),
                var,
                body,
                (lo + i) as i64,
                hi,
                last_of(vs.take(i)),
            ),
            placed(ss.last(), Ctl::Flow(last_of(vs)), fs),
        ),
    decreases numbers(lo, hi).len() - i,
{
    let items = numbers(lo, hi);
    let z = placed(ss.last(), Ctl::Flow(last_of(vs)), fs);
    let a = crate::semantics::for_range(
        placed(ss[i], Ctl::Done(Finish::Crash), fs),
        var,
        body,
        (lo + i) as i64,
        hi,
        last_of(vs.take(i)),
    );
    if i < items.len() {
        lemma_range(var, body, lo, hi, ss, ts, vs, i + 1, fs);
        let inner = push_scope(ss[i], Map::empty().insert(var, items[i]));
        let f: FrameV = Frame::ForRange { var, body, next: (lo + i + 1) as i64, end: hi };
        assert(runs(inner, body, Ctl::Flow(vs[i]), ts[i]));
        below(inner, Ctl::Run(body), Ctl::Flow(vs[i]), ts[i], fs, f);
        assert(a == placed(inner, Ctl::Run(body), fs.push(f)));
        let b = placed(ts[i], Ctl::Flow(vs[i]), fs.push(f));
        assert(vs.take(i + 1).last() == vs[i]);
        then_on(b, z);
        on(a, b, z);
    } else {
        assert(vs.take(i) =~= vs);
        here(a);
    }
}

proof fn lemma_items(
    var: Seq<char>,
    body: Block,
    items: Seq<ValueV>,
    ss: Seq<MachineV>,
    ts: Seq<MachineV>,
    vs: Seq<Option<ValueV>>,
    i: int,
    fs: Seq<FrameV>,
)
    requires
        runs_for(var, body, items, ss, ts, vs),
        0 <= i <= items.len() <= usize::MAX,
    ensures
        reaches(
            crate::semantics::for_table(
                placed(ss[i], Ctl::Done(Finish::Crash), fs),
                var,
                body,
                items,
                i as usize,
                last_of(vs.take(i)),
            ),
            placed(ss.last(), Ctl::Flow(last_of(vs)), fs),
        ),
    decreases items.len() - i,
{
    let z = placed(ss.last(), Ctl::Flow(last_of(vs)), fs);
    let a = crate::semantics::for_table(
        placed(ss[i], Ctl::Done(Finish::Crash), fs),
        var,
        body,
        items,
        i as usize,
        last_of(vs.take(i)),
    );
    if i < items.len() {
        lemma_items(var, body, items, ss, ts, vs, i + 1, fs);
        let inner = push_scope(ss[i], Map::empty().insert(var, items[i]));
        let f: FrameV = Frame::ForTable { var, body, items, next: (i + 1) as usize };
        assert(runs(inner, body, Ctl::Flow(vs[i]), ts[i]));
        below(inner, Ctl::Run(body), Ctl::Flow(vs[i]), ts[i], fs, f);
        assert(a == placed(inner, Ctl::Run(body), fs.push(f)));
        let b = placed(ts[i], Ctl::Flow(vs[i]), fs.push(f));
        assert(vs.take(i + 1).last() == vs[i]);
        then_on(b, z);
        on(a, b, z);
    } else {
        assert(vs.take(i) =~= vs);
        here(a);
    }
}

/// A `for` over a range runs its body for each number from the first up to, but not including,
/// the last; over a table for each cell.
pub proof fn law_for(
    m: MachineV,
    s: Rc<Stmt>,
    label: Option<String>,
    var: String,
    iter: Rc<Expr>,
    body: Block,
    v: ValueV,
    items: Seq<ValueV>,
    ss: Seq<MachineV>,
    ts: Seq<MachineV>,
    vs: Seq<Option<ValueV>>,
)
    requires
        *s == (Stmt::For { label, var, iter, body }),
        evaluates(m, iter, v, ss[0]),
        (v matches ValueV::Range(lo, hi) && items == numbers(lo, hi)) || (v == ValueV::Table(items)
            && items.len() <= usize::MAX),
        runs_for(var@, body, items, ss, ts, vs),
    ensures
        executes(m, s, Ctl::Flow(last_of(vs)), ss.last()),
{
    let out: CtlV = Ctl::Flow(last_of(vs));
    let o = ss.last();
    assert forall|fs: Seq<FrameV>| #[trigger]
        reaches(placed(m, Ctl::Exec(s), fs), placed(o, out, fs)) by {
        let a = placed(m, Ctl::Exec(s), fs);
        let z = placed(o, out, fs);
        let f: FrameV = Frame::ForStart { var: var@, body };
        below(m, Ctl::Eval(iter), Ctl::Value(v), ss[0], fs, f);
        let b = placed(ss[0], Ctl::Value(v), fs.push(f));
        assert(step(a) == placed(m, Ctl::Eval(iter), fs.push(f)));
        assert(vs.take(0).len() == 0);
        if let ValueV::Range(lo, hi) = v {
            lemma_range(var@, body, lo, hi, ss, ts, vs, 0, fs);
        } else {
            lemma_items(var@, body, items, ss, ts, vs, 0, fs);
        }
        then_on(b, z);
        on(step(a), b, z);
        then_on(a, z);
    }
}

// ---------- switches ----------
/// A value as a number that a range of a `case` can hold.
pub open spec fn counted(v: ValueV) -> Option<int> {
    match v {
        ValueV::Int(n) => Some(n as int),
        ValueV::Char(c) => Some(c as int),
        _ => None,
    }
}

/// Whether the pattern `p` fits the value `v` (`b`), in the state `m`, which its parts leave as
/// it is. A range fits the numbers from its first up to, but not including, its last; a type the
/// values that belong to it; anything else the value that is equal to it.
pub open spec fn fits(m: MachineV, v: ValueV, p: Rc<Expr>, b: bool) -> bool {
    match p.kind {
        ExprKind::Range { start, end } => exists|x: ValueV, y: ValueV|
            {
                &&& #[trigger] evaluates(m, start, x, m)
                &&& #[trigger] evaluates(m, end, y, m)
                &&& counted(x) is Some
                &&& counted(y) is Some
                &&& b == (counted(v) is Some && counted(x)->0 <= counted(v)->0 < counted(y)->0)
            },
        ExprKind::TypeLit { ty } => b == matches_ty(v, ty),
        _ => exists|x: ValueV| #[trigger]
            evaluates(m, p, x, m) && binary(BinaryOp::Eq, v, x) == BinOutV::Val(ValueV::Bool(b)),
    }
}

/// Whether the guard of a case holds (`b`); one that is not there does.
pub open spec fn guard_holds(m: MachineV, c: SwitchCase, b: bool) -> bool {
    match c.when {
        Some(w) => evaluates(m, w, ValueV::Bool(b), m),
        None => b,
    }
}

/// Whether the patterns of a case up to the one at `p` do not fit, and that one does.
pub open spec fn first_fit(m: MachineV, v: ValueV, c: SwitchCase, p: int) -> bool {
    &&& 0 <= p < c.patterns@.len()
    &&& forall|i: int| 0 <= i < p ==> fits(m, v, #[trigger] c.patterns@[i], false)
    &&& fits(m, v, c.patterns@[p], true)
}

/// Whether a case is the one that a switch takes.
pub open spec fn taken(m: MachineV, v: ValueV, c: SwitchCase) -> bool {
    (exists|p: int| first_fit(m, v, c, p)) && guard_holds(m, c, true)
}

/// Whether a switch passes a case by: no pattern fits, or one does and the guard does not hold.
pub open spec fn passed(m: MachineV, v: ValueV, c: SwitchCase) -> bool {
    ||| forall|i: int| 0 <= i < c.patterns@.len() ==> fits(m, v, #[trigger] c.patterns@[i], false)
    ||| (exists|p: int| first_fit(m, v, c, p)) && c.when is Some && guard_holds(m, c, false)
}

spec fn trying(
    cases: Rc<Vec<SwitchCase>>,
    default_body: Block,
    v: ValueV,
    k: int,
    p: int,
) -> CtlV {
    Ctl::Case {
        sw: Switch { cases, default_body, subject: v, case: k as usize, pattern: p as usize },
    }
}

proof fn lemma_pattern(
    m: MachineV,
    v: ValueV,
    cases: Rc<Vec<SwitchCase>>,
    default_body: Block,
    k: int,
    p: int,
    b: bool,
    fs: Seq<FrameV>,
)
    requires
        0 <= k < cases@.len() <= usize::MAX,
        0 <= p < cases@[k].patterns@.len() <= usize::MAX,
        fits(m, v, cases@[k].patterns@[p], b),
    ensures
        !b ==> reaches(
            placed(m, trying(cases, default_body, v, k, p), fs),
            placed(m, trying(cases, default_body, v, k, p + 1), fs),
        ),
        b && cases@[k].when is None ==> reaches(
            placed(m, trying(cases, default_body, v, k, p), fs),
            placed(m, Ctl::Run(cases@[k].body), fs),
        ),
        b && cases@[k].when is Some ==> reaches(
            placed(m, trying(cases, default_body, v, k, p), fs),
            placed(
                m,
                Ctl::Eval(cases@[k].when->0),
                fs.push(
                    Frame::CaseWhen {
                        sw: Switch {
                            cases,
                            default_body,
                            subject: v,
                            case: k as usize,
                            pattern: p as usize,
                        },
                    },
                ),
            ),
        ),
{
    let sw = Switch { cases, default_body, subject: v, case: k as usize, pattern: p as usize };
    let a = placed(m, trying(cases, default_body, v, k, p), fs);
    let pat = cases@[k].patterns@[p];
    let z = if !b {
        placed(m, trying(cases, default_body, v, k, p + 1), fs)
    } else if cases@[k].when is None {
        placed(m, Ctl::Run(cases@[k].body), fs)
    } else {
        placed(m, Ctl::Eval(cases@[k].when->0), fs.push(Frame::CaseWhen { sw }))
    };
    match pat.kind {
        ExprKind::Range { start, end } => {
            let (x, y) = choose|x: ValueV, y: ValueV|
                {
                    &&& #[trigger] evaluates(m, start, x, m)
                    &&& #[trigger] evaluates(m, end, y, m)
                    &&& counted(x) is Some
                    &&& counted(y) is Some
                    &&& b == (counted(v) is Some && counted(x)->0 <= counted(v)->0
                        < counted(y)->0)
                };
            let f: FrameV = Frame::CaseFrom { sw, end };
            let lo = crate::semantics::case_number(x)->0;
            let g: FrameV = Frame::CaseTo { sw, from: lo };
            below(m, Ctl::Eval(start), Ctl::Value(x), m, fs, f);
            below(m, Ctl::Eval(end), Ctl::Value(y), m, fs, g);
            assert(step(a) == placed(m, Ctl::Eval(start), fs.push(f)));
            let c = placed(m, Ctl::Value(x), fs.push(f));
            assert(step(c) == placed(m, Ctl::Eval(end), fs.push(g)));
            let d = placed(m, Ctl::Value(y), fs.push(g));
            assert(step(d) == z);
            one(d);
            on(step(c), d, z);
            then_on(c, z);
            on(step(a), c, z);
            then_on(a, z);
        },
        ExprKind::TypeLit { ty } => {
            assert(step(a) == z);
            one(a);
        },
        _ => {
            let x = choose|x: ValueV| #[trigger]
                evaluates(m, pat, x, m) && binary(BinaryOp::Eq, v, x) == BinOutV::Val(
                    ValueV::Bool(b),
                );
            let f: FrameV = Frame::CaseLit { sw };
            let g: FrameV = Frame::CaseTest { sw };
            below(m, Ctl::Eval(pat), Ctl::Value(x), m, fs, f);
            assert(step(a) == placed(m, Ctl::Eval(pat), fs.push(f)));
            let c = placed(m, Ctl::Value(x), fs.push(f));
            let d = placed(m, Ctl::Value(ValueV::Bool(b)), fs.push(g));
            assert(fs.push(g).drop_last() =~= fs);
            assert(step(c) == d);
            assert(step(d) == z);
            one(d);
            then_on(c, z);
            on(step(a), c, z);
            then_on(a, z);
        },
    }
}

proof fn lemma_no_fit(
    m: MachineV,
    v: ValueV,
    cases: Rc<Vec<SwitchCase>>,
    default_body: Block,
    k: int,
    q: int,
    p: int,
    fs: Seq<FrameV>,
)
    requires
        0 <= k < cases@.len() <= usize::MAX,
        0 <= q <= p <= cases@[k].patterns@.len() <= usize::MAX,
        forall|i: int| 0 <= i < p ==> fits(m, v, #[trigger] cases@[k].patterns@[i], false),
    ensures
        reaches(
            placed(m, trying(cases, default_body, v, k, q), fs),
            placed(m, trying(cases, default_body, v, k, p), fs),
        ),
    decreases p - q,
{
    if q < p {
        assert(fits(m, v, cases@[k].patterns@[q], false));
        lemma_pattern(m, v, cases, default_body, k, q, false, fs);
        lemma_no_fit(m, v, cases, default_body, k, q + 1, p, fs);
        on(
            placed(m, trying(cases, default_body, v, k, q), fs),
            placed(m, trying(cases, default_body, v, k, q + 1), fs),
            placed(m, trying(cases, default_body, v, k, p), fs),
        );
    } else {
        here(placed(m, trying(cases, default_body, v, k, q), fs));
    }
}

proof fn lemma_case(
    m: MachineV,
    v: ValueV,
    cases: Rc<Vec<SwitchCase>>,
    default_body: Block,
    k: int,
    fs: Seq<FrameV>,
)
    requires
        0 <= k < cases@.len() < usize::MAX,
        cases@[k].patterns@.len() <= usize::MAX,
    ensures
        passed(m, v, cases@[k]) ==> reaches(
            placed(m, trying(cases, default_body, v, k, 0), fs),
            placed(m, trying(cases, default_body, v, k + 1, 0), fs),
        ),
        taken(m, v, cases@[k]) ==> reaches(
            placed(m, trying(cases, default_body, v, k, 0), fs),
            placed(m, Ctl::Run(cases@[k].body), fs),
        ),
{
    let c = cases@[k];
    let a = placed(m, trying(cases, default_body, v, k, 0), fs);
    let y = placed(m, trying(cases, default_body, v, k + 1, 0), fs);
    let z = placed(m, Ctl::Run(cases@[k].body), fs);
    let len = c.patterns@.len() as int;
    if passed(m, v, c) {
        if forall|i: int| 0 <= i < c.patterns@.len() ==> fits(m, v, #[trigger] c.patterns@[i], false) {
            lemma_no_fit(m, v, cases, default_body, k, 0, len, fs);
            let b = placed(m, trying(cases, default_body, v, k, len), fs);
            assert(step(b) == y);
            one(b);
            on(a, b, y);
        } else {
            let p = choose|p: int| first_fit(m, v, c, p);
            lemma_no_fit(m, v, cases, default_body, k, 0, p, fs);
            lemma_pattern(m, v, cases, default_body, k, p, true, fs);
            let sw = Switch {
                cases,
                default_body,
                subject: v,
                case: k as usize,
                pattern: p as usize,
            };
            let f: FrameV = Frame::CaseWhen { sw };
            let w = c.when->0;
            below(m, Ctl::Eval(w), Ctl::Value(ValueV::Bool(false)), m, fs, f);
            let b = placed(m, trying(cases, default_body, v, k, p), fs);
            let d = placed(m, Ctl::Eval(w), fs.push(f));
            let e = placed(m, Ctl::Value(ValueV::Bool(false)), fs.push(f));
            assert(step(e) == y);
            one(e);
            on(d, e, y);
            on(b, d, y);
            on(a, b, y);
        }
    }
    if taken(m, v, c) {
        let p = choose|p: int| first_fit(m, v, c, p);
        lemma_no_fit(m, v, cases, default_body, k, 0, p, fs);
        lemma_pattern(m, v, cases, default_body, k, p, true, fs);
        let b = placed(m, trying(cases, default_body, v, k, p), fs);
        if c.when is Some {
            let sw = Switch {
                cases,
                default_body,
                subject: v,
                case: k as usize,
                pattern: p as usize,
            };
            let f: FrameV = Frame::CaseWhen { sw };
            let w = c.when->0;
            below(m, Ctl::Eval(w), Ctl::Value(ValueV::Bool(true)), m, fs, f);
            let d = placed(m, Ctl::Eval(w), fs.push(f));
            let e = placed(m, Ctl::Value(ValueV::Bool(true)), fs.push(f));
            assert(step(e) == z);
            one(e);
            on(d, e, z);
            on(b, d, z);
        }
        on(a, b, z);
    }
}

proof fn lemma_passed(
    m: MachineV,
    v: ValueV,
    cases: Rc<Vec<SwitchCase>>,
    default_body: Block,
    j: int,
    k: int,
    fs: Seq<FrameV>,
)
    requires
        0 <= j <= k <= cases@.len() < usize::MAX,
        forall|i: int| 0 <= i < cases@.len() ==> (#[trigger] cases@[i]).patterns@.len() <= usize::MAX,
        forall|i: int| 0 <= i < k ==> passed(m, v, #[trigger] cases@[i]),
    ensures
        reaches(
            placed(m, trying(cases, default_body, v, j, 0), fs),
            placed(m, trying(cases, default_body, v, k, 0), fs),
        ),
    decreases k - j,
{
    if j < k {
        assert(passed(m, v, cases@[j]));
        lemma_case(m, v, cases, default_body, j, fs);
        lemma_passed(m, v, cases, default_body, j + 1, k, fs);
        on(
            placed(m, trying(cases, default_body, v, j, 0), fs),
            placed(m, trying(cases, default_body, v, j + 1, 0), fs),
            placed(m, trying(cases, default_body, v, k, 0), fs),
        );
    } else {
        here(placed(m, trying(cases, default_body, v, j, 0), fs));
    }
}

/// A switch runs the body of the first case, in their order, one of whose patterns fits its
/// subject and whose guard holds; where there is no such case, it runs the default.
pub proof fn law_switch(
    m: MachineV,
    s: Rc<Stmt>,
    subject: Rc<Expr>,
    cases: Rc<Vec<SwitchCase>>,
    default_body: Block,
    v: ValueV,
    n: MachineV,
    k: int,
    out: CtlV,
    o: MachineV,
)
    requires
        *s == (Stmt::Switch { subject, cases, default_body }),
        evaluates(m, subject, v, n),
        0 <= k <= cases@.len() < usize::MAX,
        forall|i: int| 0 <= i < cases@.len() ==> (#[trigger] cases@[i]).patterns@.len() <= usize::MAX,
        forall|i: int| 0 <= i < k ==> passed(n, v, #[trigger] cases@[i]),
        k < cases@.len() ==> taken(n, v, cases@[k]) && runs(n, cases@[k].body, out, o),
        k == cases@.len() ==> runs(n, default_body, out, o),
    ensures
        executes(m, s, out, o),
{
    assert forall|fs: Seq<FrameV>| #[trigger]
        reaches(placed(m, Ctl::Exec(s), fs), placed(o, out, fs)) by {
        let a = placed(m, Ctl::Exec(s), fs);
        let z = placed(o, out, fs);
        let f: FrameV = Frame::SwitchStart { cases, default_body };
        below(m, Ctl::Eval(subject), Ctl::Value(v), n, fs, f);
        let b = placed(n, Ctl::Value(v), fs.push(f));
        assert(step(a) == placed(m, Ctl::Eval(subject), fs.push(f)));
        let c = placed(n, trying(cases, default_body, v, 0, 0), fs);
        assert(step(b) == c);
        lemma_passed(n, v, cases, default_body, 0, k, fs);
        let d = placed(n, trying(cases, default_body, v, k, 0), fs);
        if k < cases@.len() {
            lemma_case(n, v, cases, default_body, k, fs);
            let e = placed(n, Ctl::Run(cases@[k].body), fs);
            assert(reaches(e, z));
            on(d, e, z);
        } else {
            let e = placed(n, Ctl::Run(default_body), fs);
            assert(step(d) == e);
            assert(reaches(e, z));
            then_on(d, z);
        }
        on(c, d, z);
        then_on(b, z);
        on(step(a), b, z);
        then_on(a, z);
    }
}

spec fn with_def(m: MachineV, def: Rc<FnDef>) -> MachineV {
    put_func(m, def.name@, *def)
}

/// A function that is defined in a body is there from then on, under its name.
pub proof fn law_definitions(m: MachineV, s: Rc<Stmt>, def: Rc<FnDef>)
    requires
        *s == (Stmt::FnDef { def }),
    ensures
        executes(m, s, Ctl::Flow(None), put_func(m, def.name@, *def)),
        put_func(m, def.name@, *def).session.funcs[def.name@] == *def,
        put_func(m, def.name@, *def).session.funcs.dom().contains(def.name@),
{
    let n = with_def(m, def);
    assert forall|fs: Seq<FrameV>| #[trigger]
        reaches(placed(m, Ctl::Exec(s), fs), placed(n, Ctl::Flow(None), fs)) by {
        one(placed(m, Ctl::Exec(s), fs));
    }
}

// ---------- whole texts ----------
/// The value that the first `i` statements have ended with.
spec fn so_far(vs: Seq<Option<ValueV>>, i: int) -> Option<ValueV> {
    if i <= 0 || i > vs.len() {
        None
    } else {
        vs[i - 1]
    }
}

proof fn lemma_top_body(
    stmts: Block,
    ms: Seq<MachineV>,
    vs: Seq<Option<ValueV>>,
    i: int,
    fs: Seq<FrameV>,
)
    requires
        0 <= i <= stmts@.len() < usize::MAX,
        ms.len() == stmts@.len() + 1,
        vs.len() == stmts@.len(),
        forall|j: int|
            0 <= j < stmts@.len() ==> executes(
                ms[j],
                #[trigger] stmts@[j],
                Ctl::Flow(vs[j]),
                ms[j + 1],
            ),
    ensures
        reaches(
            placed(
                ms[i],
                Ctl::Flow(so_far(vs, i)),
                fs.push(Frame::TopBody { stmts, next: i as usize }),
            ),
            placed(ms[stmts@.len() as int], Ctl::Text(last_text(so_far(vs, vs.len() as int))), fs),
        ),
    decreases stmts@.len() - i,
{
    let n = stmts@.len() as int;
    let f: FrameV = Frame::TopBody { stmts, next: i as usize };
    let a = placed(ms[i], Ctl::Flow(so_far(vs, i)), fs.push(f));
    let z = placed(ms[n], Ctl::Text(last_text(so_far(vs, n))), fs);
    assert(fs.push(f).drop_last() =~= fs);
    if i < n {
        let g: FrameV = Frame::TopBody { stmts, next: (i + 1) as usize };
        assert(executes(ms[i], stmts@[i], Ctl::Flow(vs[i]), ms[i + 1]));
        below(ms[i], Ctl::Exec(stmts@[i]), Ctl::Flow(vs[i]), ms[i + 1], fs, g);
        assert(step(a) == placed(ms[i], Ctl::Exec(stmts@[i]), fs.push(g)));
        lemma_top_body(stmts, ms, vs, i + 1, fs);
        let b = placed(ms[i + 1], Ctl::Flow(vs[i]), fs.push(g));
        on(step(a), b, z);
        then_on(a, z);
    } else {
        assert(step(a) == z);
        one(a);
    }
}

/// The statements of an evaluated text are executed in their order, and the result is the text of
/// the value that the last one ends with.
pub proof fn law_texts_are_executed(
    stmts: Block,
    ms: Seq<MachineV>,
    vs: Seq<Option<ValueV>>,
    fs: Seq<FrameV>,
)
    requires
        0 < stmts@.len() < usize::MAX,
        ms.len() == stmts@.len() + 1,
        vs.len() == stmts@.len(),
        forall|j: int|
            0 <= j < stmts@.len() ==> executes(
                ms[j],
                #[trigger] stmts@[j],
                Ctl::Flow(vs[j]),
                ms[j + 1],
            ),
    ensures
        reaches(
            placed(ms[0], Ctl::Flow(None), fs.push(Frame::TopBody { stmts, next: 0 })),
            placed(
                ms.last(),
                Ctl::Text(
                    match vs.last() {
                        Some(v) => repl_string(v),
                        None => Seq::empty(),
                    },
                ),
                fs,
            ),
        ),
{
    lemma_top_body(stmts, ms, vs, 0, fs);
}

/// The result of an evaluation ends the machine; that of an evaluation within another is a text
/// there, and the variables are again those of the outer one.
pub proof fn law_results_come_back(m: MachineV, text: Seq<char>, env: EnvV)
    ensures
        step(placed(m, Ctl::Text(text), seq![Frame::SessionEnd { outer: None }])) == placed(
            m,
            Ctl::Done(Finish::Result(text)),
            Seq::empty(),
        ),
        step(placed(m, Ctl::Text(text), seq![Frame::SessionEnd { outer: Some(env) }])) == placed(
            MachineV { env, ..m },
            Ctl::Value(ValueV::Str(text)),
            Seq::empty(),
        ),
{
    let f: FrameV = Frame::SessionEnd { outer: None };
    let g: FrameV = Frame::SessionEnd { outer: Some(env) };
    assert(seq![f].drop_last() =~= Seq::<FrameV>::empty());
    assert(seq![g].drop_last() =~= Seq::<FrameV>::empty());
}

/// A truth value is shown as a word; any other value as it is printed.
pub proof fn law_results_are_shown(v: ValueV)
    ensures
        repl_string(ValueV::Bool(true)) == "true"@,
        repl_string(ValueV::Bool(false)) == "false"@,
        !(v is Bool) ==> repl_string(v) == print_string(v),
{
}

} // verus!
