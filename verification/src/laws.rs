//! What holds of every run of the machine, whatever the program and the host do.
use crate::ast::{BinaryOp, Expr, ExprKind, Exprs, FnDef, Stmt};
use crate::builtins::builtin;
use crate::host::{settled, Reply};
use crate::msg::MsgV;
use crate::semantics::{
    assign, bind_step, bit_target, call_fn, call_start, case_step, declare, eval_expr, eval_start,
    exec_stmt, find_scope, flow_step, fresh_env, goto, is_step, lookup, pop_scope, popped,
    register_ns, register_step, resume, return_step, step, steps, taken, text_step, value_step,
    waiting, Ctl, CtlV, EnvV, Frame, FrameV, MachineV, ScopeV, SessionV,
};
use crate::text::{join, views};
use crate::value::{binary, trit_binary, BinOutV, ValueV};
use std::rc::Rc;
use vstd::prelude::*;

verus! {

// ---------- the shape of a state ----------
/// What a piece of work hands to the work below it.
pub enum Kind {
    /// A value.
    Value,
    /// The end of a statement.
    Flow,
    /// The result of an evaluation.
    Text,
    /// A parsed source text.
    Parsed,
}

/// What a frame waits for.
pub open spec fn expects(f: FrameV) -> Kind {
    match f {
        Frame::Body { .. } | Frame::WhileBody { .. } | Frame::ForRange { .. }
        | Frame::ForTable { .. } | Frame::CallEnd { .. } | Frame::EntryEnd { .. }
        | Frame::TopBody { .. } => Kind::Flow,
        Frame::SessionEnd { .. } => Kind::Text,
        Frame::EvalFirst { .. } | Frame::EvalSecond => Kind::Parsed,
        _ => Kind::Value,
    }
}

/// What a frame hands on when it is done.
pub open spec fn produces(f: FrameV) -> Kind {
    match f {
        Frame::Unary { .. } | Frame::BinaryRight { .. } | Frame::BinaryApply { .. }
        | Frame::Ternary { .. } | Frame::RangeEnd { .. } | Frame::RangeMake { .. }
        | Frame::Args { .. } | Frame::IndexAt { .. } | Frame::IndexRead { .. }
        | Frame::Cells { .. } | Frame::Push { .. } | Frame::StepStore { .. }
        | Frame::CallEnd { .. } | Frame::SessionEnd { .. } => Kind::Value,
        Frame::Param { call } => if call.entry {
            Kind::Text
        } else {
            Kind::Value
        },
        Frame::RegisterVar { .. } | Frame::EntryEnd { .. } | Frame::TopBody { .. }
        | Frame::EvalFirst { .. } | Frame::EvalSecond => Kind::Text,
        _ => Kind::Flow,
    }
}

/// Whether what a frame holds fits together.
pub open spec fn frame_ok(f: FrameV) -> bool {
    match f {
        Frame::Unary { op } => !is_step(op),
        Frame::CaseFrom { sw, .. } => sw.case < sw.cases@.len(),
        Frame::CaseTo { sw, .. } => sw.case < sw.cases@.len(),
        Frame::CaseLit { sw } => sw.case < sw.cases@.len(),
        Frame::CaseTest { sw } => sw.case < sw.cases@.len(),
        Frame::CaseWhen { sw } => sw.case < sw.cases@.len(),
        Frame::StoreOp { cells, at, .. } => at < cells.len(),
        Frame::Store { cells, at, .. } => at < cells.len(),
        Frame::Param { call } => call.next < call.def.params@.len(),
        _ => true,
    }
}

/// Whether a frame is the end of the outermost evaluation.
pub open spec fn bottom(f: FrameV) -> bool {
    match f {
        Frame::SessionEnd { outer } => outer is None,
        _ => false,
    }
}

/// Whether the interpreter has broken down.
pub open spec fn broken(m: MachineV) -> bool {
    match m.ctl {
        Ctl::Done(f) => f is Crash,
        _ => false,
    }
}

/// Whether the frames hand on to each other what they wait for, the top one waits for `k`,
/// and the end of the outermost evaluation, alone of its kind, lies at the bottom.
pub open spec fn stack(frames: Seq<FrameV>, k: Kind) -> bool
    decreases frames.len(),
{
    &&& frames.len() > 0
    &&& frame_ok(frames.last())
    &&& expects(frames.last()) == k
    &&& if bottom(frames.last()) {
        frames.len() == 1
    } else {
        stack(frames.drop_last(), produces(frames.last()))
    }
}

/// What the work at hand hands on when it is done.
pub open spec fn gives(c: CtlV) -> Kind {
    match c {
        Ctl::Eval(_) | Ctl::Value(_) | Ctl::Call { .. } | Ctl::Ask(_, _) => Kind::Value,
        Ctl::Exec(_) | Ctl::Run(_) | Ctl::Flow(_) | Ctl::Return(_) | Ctl::Case { .. } => Kind::Flow,
        Ctl::Bind { call } => if call.entry {
            Kind::Text
        } else {
            Kind::Value
        },
        Ctl::Parse(_) => Kind::Parsed,
        Ctl::Text(_) | Ctl::Register { .. } | Ctl::Done(_) => Kind::Text,
    }
}

/// Whether a state fits together.
pub open spec fn sound(m: MachineV) -> bool {
    m.ctl is Done || stack(m.frames, gives(m.ctl))
}

/// Whether the sum, difference, product, quotient or step at hand does not fit its type, or
/// the statement at hand is a `break` or `continue`: the language's two ways to break the
/// interpreter.
pub open spec fn breaks(m: MachineV) -> bool {
    match m.ctl {
        Ctl::Exec(s) => *s is Break || *s is Continue,
        Ctl::Eval(e) => match e.kind {
            ExprKind::Unary { op, operand } => is_step(op) && match operand.kind {
                ExprKind::Var(name) => match lookup(m, name@) {
                    Some(ValueV::Int(n)) => n == i64::MAX || n == i64::MIN,
                    _ => false,
                },
                _ => false,
            },
            _ => false,
        },
        Ctl::Value(v) => m.frames.len() > 0 && match m.frames.last() {
            Frame::Unary { op } => v == ValueV::Int(i64::MIN) || v == ValueV::Trit(i8::MIN),
            Frame::BinaryApply { op, lhs } => binary(op, lhs, v) is Crash,
            Frame::AssignOp { op, before, .. } => binary(op, before, v) is Crash,
            Frame::CaseLit { sw } => binary(BinaryOp::Eq, sw.subject, v) is Crash,
            Frame::StoreOp { cells, at, op, .. } => at < cells.len() && binary(
                op,
                cells[at as int],
                v,
            ) is Crash,
            _ => false,
        },
        _ => false,
    }
}

proof fn lemma_push(frames: Seq<FrameV>, f: FrameV)
    requires
        frame_ok(f),
        stack(frames, produces(f)),
        !bottom(f),
    ensures
        stack(frames.push(f), expects(f)),
{
    assert(frames.push(f).drop_last() =~= frames);
}

/// The move from a state with `frames` and nothing in hand keeps the shape, and does not
/// break down.
pub open spec fn fine(n: MachineV) -> bool {
    sound(n) && !broken(n)
}

broadcast proof fn push_keeps(frames: Seq<FrameV>, f: FrameV, k: Kind)
    requires
        frame_ok(f),
        stack(frames, produces(f)),
        !bottom(f),
        expects(f) == k,
    ensures
        #[trigger] stack(frames.push(f), k),
{
    lemma_push(frames, f);
}

proof fn lemma_eval(m: MachineV, e: Rc<Expr>)
    requires
        stack(m.frames, Kind::Value),
        !breaks(MachineV { ctl: Ctl::Eval(e), ..m }),
    ensures
        fine(eval_expr(m, *e)),
{
    broadcast use push_keeps;

}

proof fn lemma_exec(m: MachineV, s: Rc<Stmt>)
    requires
        stack(m.frames, Kind::Flow),
        !(*s is Break),
        !(*s is Continue),
    ensures
        fine(exec_stmt(m, *s)),
{
    broadcast use push_keeps;

}

proof fn lemma_call(m: MachineV, name: Seq<char>, args: Seq<ValueV>)
    requires
        stack(m.frames, Kind::Value),
    ensures
        fine(call_fn(m, name, args)),
{
    broadcast use push_keeps;

}

proof fn lemma_case(m: MachineV, sw: crate::semantics::Switch<ValueV>)
    requires
        stack(m.frames, Kind::Flow),
    ensures
        fine(case_step(m, sw)),
{
    broadcast use push_keeps;

}

proof fn lemma_bind(m: MachineV, c: crate::semantics::CallingV)
    requires
        stack(
            m.frames,
            if c.entry {
                Kind::Text
            } else {
                Kind::Value
            },
        ),
    ensures
        fine(bind_step(m, c)),
{
    broadcast use push_keeps;

}

proof fn lemma_register(m: MachineV, stmts: crate::ast::Block, next: usize, count: u64)
    requires
        stack(m.frames, Kind::Text),
    ensures
        fine(register_step(m, stmts, next, count)),
{
    broadcast use push_keeps;

}

#[verifier::rlimit(50)]
proof fn lemma_value(m: MachineV, v: ValueV)
    requires
        stack(m.frames, Kind::Value),
        !breaks(MachineV { ctl: Ctl::Value(v), ..m }),
    ensures
        fine(value_step(popped(m), m.frames.last(), v)),
{
    broadcast use push_keeps;

}

proof fn lemma_flow(m: MachineV, v: Option<ValueV>)
    requires
        stack(m.frames, Kind::Flow),
    ensures
        fine(flow_step(popped(m), m.frames.last(), v)),
{
    broadcast use push_keeps;

}

proof fn lemma_return(m: MachineV, v: ValueV)
    requires
        stack(m.frames, Kind::Flow),
    ensures
        fine(return_step(popped(m), m.frames.last(), v)),
{
}

proof fn lemma_text(m: MachineV, text: Seq<char>)
    requires
        stack(m.frames, Kind::Text),
    ensures
        fine(text_step(popped(m), m.frames.last(), text)),
{
}

/// A step takes a sound state to a sound state, and the machine breaks down in no other way
/// than by an integer that does not fit or by a `break` or `continue`.
pub proof fn law_steps_stay_sound(m: MachineV)
    requires
        sound(m),
    ensures
        sound(step(m)),
        broken(step(m)) ==> m.ctl is Done || breaks(m),
{
    if !(m.ctl is Done) && !breaks(m) {
        let n = taken(m);
        match m.ctl {
            Ctl::Eval(e) => {
                assert(forall|name: Seq<char>| lookup(n, name) == lookup(m, name));
                lemma_eval(n, e);
            },
            Ctl::Exec(s) => lemma_exec(n, s),
            Ctl::Run(block) => {
                broadcast use push_keeps;

            },
            Ctl::Value(v) => lemma_value(n, v),
            Ctl::Flow(v) => lemma_flow(n, v),
            Ctl::Return(v) => lemma_return(n, v),
            Ctl::Text(text) => lemma_text(n, text),
            Ctl::Call { name, args } => lemma_call(n, name, args),
            Ctl::Bind { call } => lemma_bind(n, call),
            Ctl::Case { sw } => lemma_case(n, sw),
            Ctl::Register { stmts, next, count } => lemma_register(n, stmts, next, count),
            _ => {},
        }
    } else if breaks(m) {
        match m.ctl {
            Ctl::Exec(s) => {},
            Ctl::Eval(e) => {
                broadcast use push_keeps;

            },
            Ctl::Value(v) => {
                broadcast use push_keeps;

            },
            _ => {},
        }
    }
}

/// Whether an answer is of another kind than the one that was asked for.
pub open spec fn off_topic(m: MachineV, reply: Reply) -> bool {
    match m.ctl {
        Ctl::Parse(_) => !(reply is Parsed),
        Ctl::Ask(_, after) => settled(after, reply) is Crash,
        _ => false,
    }
}

/// An answer takes a sound state to a sound state, and the machine breaks down only on an
/// answer of another kind than the one that was asked for.
pub proof fn law_answers_stay_sound(m: MachineV, reply: Reply)
    requires
        sound(m),
    ensures
        sound(resume(m, reply)),
        broken(resume(m, reply)) ==> m.ctl is Done || off_topic(m, reply),
{
    broadcast use push_keeps;

}

/// Every evaluation and every call by name starts sound.
pub proof fn law_starts_are_sound(
    session: SessionV,
    msg: MsgV,
    code: Seq<char>,
    name: Seq<char>,
    arg: Seq<char>,
)
    ensures
        sound(eval_start(session, msg, code)),
        sound(call_start(session, msg, name, arg)),
        !broken(eval_start(session, msg, code)),
        !broken(call_start(session, msg, name, arg)),
{
    broadcast use push_keeps;

    let bottom_frame: FrameV = Frame::SessionEnd { outer: None };
    assert(stack(seq![bottom_frame], Kind::Text));
}

/// A machine that waits for its host, or has ended, stays as it is.
pub proof fn law_waiting_stays(m: MachineV, n: nat)
    requires
        waiting(m) || m.ctl is Done,
    ensures
        steps(m, n) == m,
    decreases n,
{
    if n > 0 {
        law_waiting_stays(m, (n - 1) as nat);
    }
}

/// Steps add up: it does not matter in which portions a machine is run.
pub proof fn law_steps_add_up(m: MachineV, a: nat, b: nat)
    ensures
        steps(m, a + b) == steps(steps(m, a), b),
    decreases a,
{
    if a > 0 {
        law_steps_add_up(step(m), (a - 1) as nat, b);
        assert((a + b - 1) as nat == (a - 1) as nat + b);
    }
}

// ---------- variables ----------
proof fn lemma_find_scope(scopes: Seq<ScopeV>, base: nat, n: nat, name: Seq<char>)
    ensures
        match find_scope(scopes, base, n, name) {
            Some(i) => base <= i < n && i < scopes.len() && scopes[i].dom().contains(name)
                && forall|j: int| i < j < n ==> !scopes[j].dom().contains(name),
            None => n > scopes.len() || forall|j: int|
                base <= j < n ==> !scopes[j].dom().contains(name),
        },
    decreases n,
{
    if n > base && n <= scopes.len() && !scopes[n - 1].dom().contains(name) {
        lemma_find_scope(scopes, base, (n - 1) as nat, name);
    }
}

proof fn lemma_same_find(a: Seq<ScopeV>, b: Seq<ScopeV>, base: nat, n: nat, name: Seq<char>)
    requires
        n <= a.len(),
        a.len() == b.len(),
        forall|j: int| base <= j < n ==> a[j].dom().contains(name) == b[j].dom().contains(name),
    ensures
        find_scope(a, base, n, name) == find_scope(b, base, n, name),
    decreases n,
{
    if n > base && !a[n - 1].dom().contains(name) {
        lemma_same_find(a, b, base, (n - 1) as nat, name);
    }
}

/// A variable that was declared has the value it was declared with, and every other
/// variable keeps its own.
pub proof fn law_declared_is_found(m: MachineV, name: Seq<char>, v: ValueV, other: Seq<char>)
    requires
        m.env.base < m.env.scopes.len() || m.env.scopes.len() == 0,
        other != name,
    ensures
        lookup(declare(m, name, v), name) == Some(v),
        lookup(declare(m, name, v), other) == lookup(m, other),
{
    let n = declare(m, name, v);
    if m.env.scopes.len() > 0 {
        lemma_find_scope(n.env.scopes, n.env.base, n.env.scopes.len(), name);
        lemma_same_find(m.env.scopes, n.env.scopes, m.env.base, m.env.scopes.len(), other);
        lemma_find_scope(m.env.scopes, m.env.base, m.env.scopes.len(), other);
    }
}

/// An assignment succeeds exactly where the variable is declared; then the variable has the
/// new value, and every other variable keeps its own.
pub proof fn law_assigned_is_found(m: MachineV, name: Seq<char>, v: ValueV, other: Seq<char>)
    requires
        other != name,
    ensures
        (assign(m, name, v) is Some) == (lookup(m, name) is Some),
        assign(m, name, v) matches Some(n) ==> lookup(n, name) == Some(v) && lookup(n, other)
            == lookup(m, other),
{
    lemma_find_scope(m.env.scopes, m.env.base, m.env.scopes.len(), name);
    match assign(m, name, v) {
        Some(n) => {
            lemma_same_find(m.env.scopes, n.env.scopes, m.env.base, m.env.scopes.len(), name);
            lemma_same_find(m.env.scopes, n.env.scopes, m.env.base, m.env.scopes.len(), other);
            lemma_find_scope(m.env.scopes, m.env.base, m.env.scopes.len(), other);
        },
        None => {},
    }
}

/// A function sees its own variables and those of the top level, never those of its callers.
pub proof fn law_callers_are_hidden(a: MachineV, b: MachineV, name: Seq<char>)
    requires
        a.session == b.session,
        a.env.base == b.env.base,
        a.env.scopes.len() == b.env.scopes.len(),
        forall|j: int| a.env.base <= j < a.env.scopes.len() ==> a.env.scopes[j] == b.env.scopes[j],
    ensures
        lookup(a, name) == lookup(b, name),
{
    lemma_same_find(a.env.scopes, b.env.scopes, a.env.base, a.env.scopes.len(), name);
    lemma_find_scope(a.env.scopes, a.env.base, a.env.scopes.len(), name);
}

/// A function changes no variable of its callers.
pub proof fn law_callers_are_untouched(m: MachineV, name: Seq<char>, v: ValueV, j: int)
    requires
        0 <= j < m.env.base,
        m.env.base < m.env.scopes.len(),
    ensures
        assign(m, name, v) matches Some(n) ==> n.env.scopes[j] == m.env.scopes[j],
        declare(m, name, v).env.scopes[j] == m.env.scopes[j],
{
    lemma_find_scope(m.env.scopes, m.env.base, m.env.scopes.len(), name);
}

// ---------- scopes ----------
/// The number of scopes that a frame keeps open.
pub open spec fn scopes_of(f: FrameV) -> nat {
    match f {
        Frame::Body { .. } | Frame::ForRange { .. } | Frame::ForTable { .. } | Frame::CallEnd { .. }
        | Frame::EntryEnd { .. } | Frame::Param { .. } => 1,
        _ => 0,
    }
}

/// The number of scopes that the innermost evaluation keeps open.
pub open spec fn owed(frames: Seq<FrameV>) -> nat
    decreases frames.len(),
{
    if frames.len() == 0 || frames.last() is SessionEnd {
        0
    } else {
        scopes_of(frames.last()) + owed(frames.drop_last())
    }
}

/// The number of the first scope of the function that runs.
pub open spec fn first_scope(frames: Seq<FrameV>) -> nat
    decreases frames.len(),
{
    if frames.len() == 0 || frames.last() is SessionEnd {
        0
    } else if frames.last() is CallEnd || frames.last() is EntryEnd {
        owed(frames.drop_last())
    } else {
        first_scope(frames.drop_last())
    }
}

/// Whether what the frames keep for later fits the frames below them.
pub open spec fn kept(frames: Seq<FrameV>) -> bool
    decreases frames.len(),
{
    frames.len() == 0 || {
        let below = frames.drop_last();
        &&& kept(below)
        &&& match frames.last() {
            Frame::SessionEnd { outer } => outer matches Some(env) ==> env.scopes.len() == owed(
                below,
            ) && env.base == first_scope(below),
            Frame::CallEnd { saved_base, .. } => saved_base == first_scope(below),
            Frame::EntryEnd { saved_base, .. } => saved_base == first_scope(below),
            Frame::Param { call } => call.base == owed(below) && call.saved_base == first_scope(
                below,
            ),
            _ => true,
        }
    }
}

/// Whether the open scopes are those that the frames keep open, and the running function's
/// first scope is the one that its call opened.
pub open spec fn balanced(m: MachineV) -> bool {
    m.ctl is Done || {
        &&& kept(m.frames)
        &&& m.env.base == first_scope(m.frames)
        &&& match m.ctl {
            Ctl::Bind { call } => m.env.scopes.len() == owed(m.frames) + 1 && call.base == owed(
                m.frames,
            ) && call.saved_base == first_scope(m.frames),
            _ => m.env.scopes.len() == owed(m.frames),
        }
    }
}

broadcast proof fn push_owes(frames: Seq<FrameV>, f: FrameV)
    ensures
        #[trigger] owed(frames.push(f)) == (if f is SessionEnd {
            0
        } else {
            scopes_of(f) + owed(frames)
        }),
{
    assert(frames.push(f).drop_last() =~= frames);
}

broadcast proof fn push_starts(frames: Seq<FrameV>, f: FrameV)
    ensures
        #[trigger] first_scope(frames.push(f)) == (if f is SessionEnd {
            0
        } else if f is CallEnd || f is EntryEnd {
            owed(frames)
        } else {
            first_scope(frames)
        }),
{
    assert(frames.push(f).drop_last() =~= frames);
}

broadcast proof fn push_is_kept(frames: Seq<FrameV>, f: FrameV)
    requires
        kept(frames),
        match f {
            Frame::SessionEnd { outer } => outer matches Some(env) ==> env.scopes.len() == owed(
                frames,
            ) && env.base == first_scope(frames),
            Frame::CallEnd { saved_base, .. } => saved_base == first_scope(frames),
            Frame::EntryEnd { saved_base, .. } => saved_base == first_scope(frames),
            Frame::Param { call } => call.base == owed(frames) && call.saved_base == first_scope(
                frames,
            ),
            _ => true,
        },
    ensures
        #[trigger] kept(frames.push(f)),
{
    assert(frames.push(f).drop_last() =~= frames);
}

broadcast proof fn assign_keeps_scopes(m: MachineV, name: Seq<char>, v: ValueV)
    ensures
        (#[trigger] assign(m, name, v)) matches Some(n) ==> n.env.scopes.len()
            == m.env.scopes.len() && n.env.base == m.env.base && n.frames == m.frames,
{
    lemma_find_scope(m.env.scopes, m.env.base, m.env.scopes.len(), name);
}

broadcast group group_scopes {
    assign_keeps_scopes,
    push_owes,
    push_starts,
    push_is_kept,
}

proof fn lemma_first_scope(frames: Seq<FrameV>)
    ensures
        first_scope(frames) < owed(frames) || (first_scope(frames) == 0 && owed(frames) == 0),
    decreases frames.len(),
{
    if frames.len() > 0 {
        lemma_first_scope(frames.drop_last());
    }
}

/// Whether a state with nothing in hand is balanced below the top frame.
spec fn even(m: MachineV) -> bool {
    &&& kept(m.frames)
    &&& m.env.base == first_scope(m.frames)
    &&& m.env.scopes.len() == owed(m.frames)
    &&& m.env.scopes.len() < usize::MAX
}

proof fn lemma_even_eval(m: MachineV, e: Rc<Expr>)
    requires
        even(m),
    ensures
        balanced(eval_expr(m, *e)),
{
    broadcast use group_scopes;

}

proof fn lemma_even_exec(m: MachineV, s: Rc<Stmt>)
    requires
        even(m),
    ensures
        balanced(exec_stmt(m, *s)),
{
    broadcast use group_scopes;

}

proof fn lemma_even_call(m: MachineV, name: Seq<char>, args: Seq<ValueV>)
    requires
        even(m),
    ensures
        balanced(call_fn(m, name, args)),
{
    broadcast use group_scopes;

    lemma_first_scope(m.frames);
}

proof fn lemma_even_case(m: MachineV, sw: crate::semantics::Switch<ValueV>)
    requires
        even(m),
    ensures
        balanced(case_step(m, sw)),
{
    broadcast use group_scopes;

}

proof fn lemma_even_register(m: MachineV, stmts: crate::ast::Block, next: usize, count: u64)
    requires
        even(m),
        m.frames.len() > 0,
        m.frames.last() is SessionEnd,
    ensures
        balanced(register_step(m, stmts, next, count)),
{
    broadcast use group_scopes;

}

proof fn lemma_even_bind(m: MachineV, c: crate::semantics::CallingV)
    requires
        balanced(MachineV { ctl: Ctl::Bind { call: c }, ..m }),
    ensures
        balanced(bind_step(m, c)),
{
    broadcast use group_scopes;

}

#[verifier::rlimit(50)]
proof fn lemma_even_value(m: MachineV, v: ValueV)
    requires
        even(m),
        m.frames.len() > 0,
        expects(m.frames.last()) == Kind::Value,
        m.frames.last() is RegisterVar ==> m.env.scopes.len() == 0,
    ensures
        balanced(value_step(popped(m), m.frames.last(), v)),
{
    broadcast use group_scopes;

}

proof fn lemma_even_flow(m: MachineV, v: Option<ValueV>)
    requires
        even(m),
        m.frames.len() > 0,
        expects(m.frames.last()) == Kind::Flow,
    ensures
        balanced(flow_step(popped(m), m.frames.last(), v)),
{
    broadcast use group_scopes;

}

proof fn lemma_even_return(m: MachineV, v: ValueV)
    requires
        even(m),
        m.frames.len() > 0,
        expects(m.frames.last()) == Kind::Flow,
    ensures
        balanced(return_step(popped(m), m.frames.last(), v)),
{
}

proof fn lemma_even_text(m: MachineV, text: Seq<char>)
    requires
        even(m),
        m.frames.len() > 0,
        m.frames.last() is SessionEnd,
    ensures
        balanced(text_step(popped(m), m.frames.last(), text)),
{
}

proof fn lemma_text_top(frames: Seq<FrameV>)
    requires
        stack(frames, Kind::Text),
    ensures
        frames.len() > 0,
        frames.last() is SessionEnd,
        owed(frames) == 0,
        first_scope(frames) == 0,
{
}

/// Scopes are opened and closed in step with the work that needs them: a block, a round of
/// a loop and a call each close the scope that they opened, and a call gives the running
/// function's scopes back to its caller.
#[verifier::rlimit(50)]
pub proof fn law_scopes_balance(m: MachineV)
    requires
        sound(m),
        balanced(m),
        m.env.scopes.len() < usize::MAX,
    ensures
        balanced(step(m)),
{
    let n = taken(m);
    match m.ctl {
        Ctl::Eval(e) => lemma_even_eval(n, e),
        Ctl::Exec(s) => lemma_even_exec(n, s),
        Ctl::Run(block) => {
            broadcast use group_scopes;

        },
        Ctl::Value(v) => {
            if m.frames.last() is RegisterVar {
                lemma_text_top(m.frames.drop_last());
            }
            lemma_even_value(n, v);
        },
        Ctl::Flow(v) => lemma_even_flow(n, v),
        Ctl::Return(v) => lemma_even_return(n, v),
        Ctl::Text(text) => {
            lemma_text_top(m.frames);
            lemma_even_text(n, text);
        },
        Ctl::Call { name, args } => lemma_even_call(n, name, args),
        Ctl::Bind { call } => lemma_even_bind(n, call),
        Ctl::Case { sw } => lemma_even_case(n, sw),
        Ctl::Register { stmts, next, count } => {
            lemma_text_top(m.frames);
            lemma_even_register(n, stmts, next, count);
        },
        _ => {},
    }
}

/// Answers of the host leave the scopes balanced, and every start is.
pub proof fn law_answers_balance(m: MachineV, reply: Reply)
    requires
        sound(m),
        balanced(m),
    ensures
        balanced(resume(m, reply)),
{
    broadcast use group_scopes;

    if m.ctl is Parse {
        lemma_text_top(m.frames.drop_last());
    }
}

/// Every evaluation and every call by name starts balanced.
pub proof fn law_starts_are_balanced(
    session: SessionV,
    msg: MsgV,
    code: Seq<char>,
    name: Seq<char>,
    arg: Seq<char>,
)
    ensures
        balanced(eval_start(session, msg, code)),
        balanced(call_start(session, msg, name, arg)),
{
    broadcast use group_scopes;

    let bottom_frame: FrameV = Frame::SessionEnd { outer: None };
    assert(seq![bottom_frame].drop_last() =~= Seq::<FrameV>::empty());
    assert(kept(seq![bottom_frame]));
}

/// In a balanced state the running function has a scope of its own, or everything runs at
/// the top level.
pub proof fn law_functions_have_scopes(m: MachineV)
    requires
        balanced(m),
        !(m.ctl is Done),
    ensures
        m.env.base < m.env.scopes.len() || (m.env.base == 0 && m.env.scopes.len() == 0),
{
    lemma_first_scope(m.frames);
}

// ---------- calls ----------
/// What happens to a machine: it makes a step, or its host answers.
pub enum Act {
    Step,
    Answer(Reply),
}

/// The state after one act.
pub open spec fn acted(m: MachineV, a: Act) -> MachineV {
    match a {
        Act::Step => step(m),
        Act::Answer(reply) => resume(m, reply),
    }
}

/// The state after the first `n` of some acts.
pub open spec fn after(m: MachineV, acts: Seq<Act>, n: nat) -> MachineV
    decreases n,
{
    if n == 0 || n > acts.len() {
        m
    } else {
        acted(after(m, acts, (n - 1) as nat), acts[n - 1])
    }
}

/// Whether the call of a function of the program is at hand.
pub open spec fn calling(m: MachineV) -> bool {
    m.ctl matches Ctl::Call { name, args } && builtin(m.msg, m.session.windows, name, args).0
        is Unknown && m.session.funcs.dom().contains(name)
}

/// The variable that the work at hand writes, where it writes one.
pub open spec fn written(m: MachineV) -> Option<Seq<char>> {
    match m.ctl {
        Ctl::Eval(e) => match e.kind {
            ExprKind::Unary { op, operand } => match operand.kind {
                ExprKind::Var(name) => if is_step(op) {
                    Some(name@)
                } else {
                    None
                },
                _ => None,
            },
            _ => None,
        },
        Ctl::Value(_) => if m.frames.len() == 0 {
            None
        } else {
            match m.frames.last() {
                Frame::Push { name } => Some(name),
                Frame::StepStore { name, .. } => Some(name),
                Frame::Assign { target } => Some(target),
                Frame::Store { name, .. } => Some(name),
                Frame::Args { name, bare, args, done } => if bare && done.len() == 2 {
                    bit_target(name, args)
                } else {
                    None
                },
                _ => None,
            }
        },
        _ => None,
    }
}

/// Whether the work at hand writes a variable in one of the first `n` scopes.
pub open spec fn writes_below(m: MachineV, n: nat) -> bool {
    written(m) matches Some(name) && (find_scope(
        m.env.scopes,
        m.env.base,
        m.env.scopes.len(),
        name,
    ) matches Some(i) && i < n)
}

/// Whether in the state `n` a default of the call that began in the state `m` is about to write
/// a variable of the caller.
pub open spec fn spoils(m: MachineV, n: MachineV) -> bool {
    &&& n.frames.len() > m.frames.len()
    &&& n.frames[m.frames.len() as int] is Param
    &&& unsealed(n.frames, m.frames.len())
    &&& writes_below(n, m.env.scopes.len())
}

/// Whether a call that began in the state `m` is still going on in the state `n`.
pub open spec fn going_on(m: MachineV, n: MachineV) -> bool {
    n.frames.len() > m.frames.len() || n.ctl is Bind || n.ctl is Call
}

/// Whether the scopes begin with the scopes `saved`.
pub open spec fn begin_with(scopes: Seq<ScopeV>, saved: Seq<ScopeV>) -> bool {
    saved.len() <= scopes.len() && forall|i: int|
        0 <= i < saved.len() ==> #[trigger] scopes[i] == saved[i]
}

/// Whether no evaluation within the evaluation has begun above frame `d`.
pub open spec fn unsealed(frames: Seq<FrameV>, d: nat) -> bool
    decreases frames.len(),
{
    frames.len() <= d + 1 || (!(frames.last() is SessionEnd) && unsealed(frames.drop_last(), d))
}

/// The variables that the lowest evaluation above frame `d` has put aside.
spec fn set_aside(frames: Seq<FrameV>, d: nat) -> EnvV
    decreases frames.len(),
{
    if frames.len() <= d + 1 {
        fresh_env()
    } else if unsealed(frames.drop_last(), d) {
        match frames.last() {
            Frame::SessionEnd { outer: Some(env) } => env,
            _ => fresh_env(),
        }
    } else {
        set_aside(frames.drop_last(), d)
    }
}

/// Whether the body of the call that frame `d` ends is at work, over the frames `below` and the
/// scopes `saved`.
spec fn at_work(n: MachineV, d: nat, below: Seq<FrameV>, end: FrameV, saved: Seq<ScopeV>) -> bool {
    &&& n.frames.len() > d
    &&& below.len() == d
    &&& begins_with_frames(n.frames, below)
    &&& n.frames[d as int] == end
    &&& if unsealed(n.frames, d) {
        begin_with(n.env.scopes, saved)
    } else {
        begin_with(set_aside(n.frames, d).scopes, saved)
    }
}

spec fn begins_with_frames(frames: Seq<FrameV>, below: Seq<FrameV>) -> bool {
    below.len() <= frames.len() && forall|i: int|
        0 <= i < below.len() ==> #[trigger] frames[i] == below[i]
}

/// Whether there are more scopes than the scopes `saved`, and the work at hand writes none of
/// those.
spec fn above(n: MachineV, d: nat, saved: Seq<ScopeV>) -> bool {
    unsealed(n.frames, d) ==> n.env.scopes.len() > saved.len() && !writes_below(n, saved.len())
}

broadcast proof fn push_seals(frames: Seq<FrameV>, f: FrameV, d: nat)
    requires
        frames.len() > d,
    ensures
        #[trigger] unsealed(frames.push(f), d) == (!(f is SessionEnd) && unsealed(frames, d)),
        set_aside(frames.push(f), d) == (if unsealed(frames, d) {
            match f {
                Frame::SessionEnd { outer: Some(env) } => env,
                _ => fresh_env(),
            }
        } else {
            set_aside(frames, d)
        }),
{
    assert(frames.push(f).drop_last() =~= frames);
}

proof fn lemma_pop_seals(frames: Seq<FrameV>, d: nat)
    requires
        frames.len() > d + 1,
    ensures
        unsealed(frames, d) == (!(frames.last() is SessionEnd) && unsealed(frames.drop_last(), d)),
        unsealed(frames.drop_last(), d) && frames.last() is SessionEnd ==> (frames.last() matches
            Frame::SessionEnd { outer: Some(env) } ==> set_aside(frames, d) == env),
        !unsealed(frames.drop_last(), d) ==> set_aside(frames, d) == set_aside(
            frames.drop_last(),
            d,
        ),
{
}

/// What the frames above a call keep open lies above what the frames below it keep open.
proof fn lemma_above(frames: Seq<FrameV>, below: Seq<FrameV>, d: nat)
    requires
        frames.len() > d,
        below.len() == d,
        begins_with_frames(frames, below),
        frames[d as int] is CallEnd || frames[d as int] is Param,
        unsealed(frames, d),
    ensures
        owed(frames) > owed(below),
        frames[d as int] is CallEnd ==> first_scope(frames) >= owed(below),
    decreases frames.len(),
{
    if frames.len() == d + 1 {
        assert(frames.drop_last() =~= below);
    } else {
        lemma_above(frames.drop_last(), below, d);
    }
}

/// Whether the machine is done or the call's body is still at work.
spec fn done_or_at_work(
    n: MachineV,
    d: nat,
    below: Seq<FrameV>,
    end: FrameV,
    saved: Seq<ScopeV>,
) -> bool {
    n.ctl is Done || at_work(n, d, below, end, saved)
}

broadcast group group_calls {
    push_seals,
    assign_touches_own,
}

broadcast proof fn assign_touches_own(m: MachineV, name: Seq<char>, v: ValueV)
    ensures
        (#[trigger] assign(m, name, v)) matches Some(n) ==> n.frames == m.frames && n.env.base
            == m.env.base && n.env.scopes.len() == m.env.scopes.len() && forall|j: int|
            0 <= j < m.env.scopes.len() && find_scope(
                m.env.scopes,
                m.env.base,
                m.env.scopes.len(),
                name,
            ) != Some(j) ==> #[trigger] n.env.scopes[j] == m.env.scopes[j],
{
    lemma_find_scope(m.env.scopes, m.env.base, m.env.scopes.len(), name);
}

proof fn lemma_work_eval(
    n: MachineV,
    e: Rc<Expr>,
    d: nat,
    below: Seq<FrameV>,
    end: FrameV,
    saved: Seq<ScopeV>,
)
    requires
        at_work(n, d, below, end, saved),
        above(goto(n, Ctl::Eval(e)), d, saved),
    ensures
        done_or_at_work(eval_expr(n, *e), d, below, end, saved),
{
    broadcast use group_calls;

}

proof fn lemma_work_exec(
    n: MachineV,
    s: Rc<Stmt>,
    d: nat,
    below: Seq<FrameV>,
    end: FrameV,
    saved: Seq<ScopeV>,
)
    requires
        at_work(n, d, below, end, saved),
        above(n, d, saved),
    ensures
        done_or_at_work(exec_stmt(n, *s), d, below, end, saved),
{
    broadcast use group_calls;

}

proof fn lemma_work_call(
    n: MachineV,
    name: Seq<char>,
    args: Seq<ValueV>,
    d: nat,
    below: Seq<FrameV>,
    end: FrameV,
    saved: Seq<ScopeV>,
)
    requires
        at_work(n, d, below, end, saved),
        above(n, d, saved),
    ensures
        done_or_at_work(call_fn(n, name, args), d, below, end, saved),
{
    broadcast use group_calls;

}

proof fn lemma_work_case(
    n: MachineV,
    sw: crate::semantics::Switch<ValueV>,
    d: nat,
    below: Seq<FrameV>,
    end: FrameV,
    saved: Seq<ScopeV>,
)
    requires
        at_work(n, d, below, end, saved),
    ensures
        done_or_at_work(case_step(n, sw), d, below, end, saved),
{
    broadcast use group_calls;

}

proof fn lemma_work_bind(
    n: MachineV,
    c: crate::semantics::CallingV,
    d: nat,
    below: Seq<FrameV>,
    end: FrameV,
    saved: Seq<ScopeV>,
)
    requires
        at_work(n, d, below, end, saved),
        above(n, d, saved),
    ensures
        done_or_at_work(bind_step(n, c), d, below, end, saved),
{
    broadcast use group_calls;

}

proof fn lemma_work_register(
    n: MachineV,
    stmts: crate::ast::Block,
    next: usize,
    count: u64,
    d: nat,
    below: Seq<FrameV>,
    end: FrameV,
    saved: Seq<ScopeV>,
)
    requires
        at_work(n, d, below, end, saved),
        !unsealed(n.frames, d),
    ensures
        done_or_at_work(register_step(n, stmts, next, count), d, below, end, saved),
{
    broadcast use group_calls;

}

#[verifier::rlimit(50)]
proof fn lemma_work_value(
    n: MachineV,
    v: ValueV,
    d: nat,
    below: Seq<FrameV>,
    end: FrameV,
    saved: Seq<ScopeV>,
)
    requires
        at_work(n, d, below, end, saved),
        above(goto(n, Ctl::Value(v)), d, saved),
        n.frames.len() > d + 1,
        expects(n.frames.last()) == Kind::Value,
    ensures
        done_or_at_work(value_step(popped(n), n.frames.last(), v), d, below, end, saved),
{
    broadcast use group_calls;

    lemma_pop_seals(n.frames, d);
}

proof fn lemma_work_flow(
    n: MachineV,
    v: Option<ValueV>,
    d: nat,
    below: Seq<FrameV>,
    end: FrameV,
    saved: Seq<ScopeV>,
)
    requires
        at_work(n, d, below, end, saved),
        above(n, d, saved),
        n.frames.len() > d + 1,
        expects(n.frames.last()) == Kind::Flow,
    ensures
        done_or_at_work(flow_step(popped(n), n.frames.last(), v), d, below, end, saved),
{
    broadcast use group_calls;

    lemma_pop_seals(n.frames, d);
}

proof fn lemma_work_return(
    n: MachineV,
    v: ValueV,
    d: nat,
    below: Seq<FrameV>,
    end: FrameV,
    saved: Seq<ScopeV>,
)
    requires
        at_work(n, d, below, end, saved),
        above(n, d, saved),
        n.frames.len() > d + 1,
        expects(n.frames.last()) == Kind::Flow,
    ensures
        done_or_at_work(return_step(popped(n), n.frames.last(), v), d, below, end, saved),
{
    lemma_pop_seals(n.frames, d);
}

proof fn lemma_work_text(
    n: MachineV,
    text: Seq<char>,
    d: nat,
    below: Seq<FrameV>,
    end: FrameV,
    saved: Seq<ScopeV>,
)
    requires
        at_work(n, d, below, end, saved),
        n.frames.len() > d + 1,
        n.frames.last() is SessionEnd,
    ensures
        done_or_at_work(text_step(popped(n), n.frames.last(), text), d, below, end, saved),
{
    lemma_pop_seals(n.frames, d);
}

/// Whether `c` is the call that began in the state `m`.
spec fn begun(m: MachineV, c: crate::semantics::CallingV) -> bool {
    &&& !c.entry
    &&& c.saved_ns == m.env.ns
    &&& c.saved_base == m.env.base
    &&& c.base == m.env.scopes.len()
}

/// Whether the parameters of the call are being bound.
spec fn binding(m: MachineV, n: MachineV) -> bool {
    &&& n.frames == m.frames
    &&& n.ctl matches Ctl::Bind { call } && begun(m, call)
    &&& n.env.scopes.len() == m.env.scopes.len() + 1
    &&& begin_with(n.env.scopes, m.env.scopes)
}

/// Whether a default is being computed for the call.
spec fn defaulting(m: MachineV, n: MachineV) -> bool {
    let d = m.frames.len();
    &&& n.frames.len() > d
    &&& n.frames[d as int] matches Frame::Param { call } && begun(m, call)
    &&& at_work(n, d, m.frames, n.frames[d as int], m.env.scopes)
}

spec fn working(m: MachineV, n: MachineV) -> bool {
    at_work(
        n,
        m.frames.len(),
        m.frames,
        Frame::CallEnd { saved_ns: m.env.ns, saved_base: m.env.base as usize },
        m.env.scopes,
    )
}

spec fn finished(m: MachineV, n: MachineV) -> bool {
    n.ctl is Value && n.frames == m.frames && n.env == m.env
}

/// What a call goes through.
spec fn called(m: MachineV, n: MachineV) -> bool {
    n.ctl is Done || n == m || binding(m, n) || defaulting(m, n) || working(m, n) || finished(m, n)
}

proof fn lemma_call_begins(m: MachineV)
    requires
        sound(m),
        balanced(m),
        calling(m),
        m.env.scopes.len() < usize::MAX,
    ensures
        called(m, step(m)),
{
    lemma_first_scope(m.frames);
}

proof fn lemma_call_binds(m: MachineV, n: MachineV, a: Act)
    requires
        balanced(m),
        balanced(n),
        m.env.scopes.len() < usize::MAX,
        !(m.ctl is Done),
        binding(m, n),
    ensures
        called(m, acted(n, a)),
{
    broadcast use group_calls;

    lemma_first_scope(m.frames);
}

proof fn lemma_call_ends(m: MachineV, n: MachineV)
    requires
        balanced(m),
        balanced(n),
        m.ctl is Call,
        m.env.scopes.len() < usize::MAX,
        working(m, n),
        n.frames.len() == m.frames.len() + 1,
        n.ctl is Flow || n.ctl is Return,
    ensures
        finished(m, step(n)),
{
    lemma_first_scope(m.frames);
    assert(n.frames.drop_last() =~= m.frames);
    assert(pop_scope(n).env.scopes =~= m.env.scopes);
}

/// What is at work above frame `d` stays so until it hands something to that frame.
proof fn lemma_work_goes_on(
    n: MachineV,
    a: Act,
    d: nat,
    below: Seq<FrameV>,
    end: FrameV,
    saved: Seq<ScopeV>,
)
    requires
        sound(n),
        n.env.scopes.len() < usize::MAX,
        !(n.ctl is Done),
        end is CallEnd || end is Param,
        at_work(n, d, below, end, saved),
        above(n, d, saved),
        a is Step && n.frames.len() == d + 1 ==> !(n.ctl is Value || n.ctl is Flow
            || n.ctl is Return),
    ensures
        done_or_at_work(acted(n, a), d, below, end, saved),
{
    let t = taken(n);
    assert(at_work(t, d, below, end, saved));
    assert(above(t, d, saved));
    match a {
        Act::Step => match n.ctl {
            Ctl::Eval(e) => {
                assert(goto(t, Ctl::Eval(e)) == n);
                lemma_work_eval(t, e, d, below, end, saved);
            },
            Ctl::Exec(st) => lemma_work_exec(t, st, d, below, end, saved),
            Ctl::Run(block) => {
                broadcast use group_calls;

            },
            Ctl::Value(v) => {
                assert(goto(t, Ctl::Value(v)) == n);
                lemma_work_value(t, v, d, below, end, saved);
            },
            Ctl::Flow(v) => lemma_work_flow(t, v, d, below, end, saved),
            Ctl::Return(v) => lemma_work_return(t, v, d, below, end, saved),
            Ctl::Text(text) => {
                lemma_text_top(n.frames);
                lemma_work_text(t, text, d, below, end, saved);
            },
            Ctl::Call { name, args } => lemma_work_call(t, name, args, d, below, end, saved),
            Ctl::Bind { call } => lemma_work_bind(t, call, d, below, end, saved),
            Ctl::Case { sw } => lemma_work_case(t, sw, d, below, end, saved),
            Ctl::Register { stmts, next, count } => {
                lemma_text_top(n.frames);
                lemma_work_register(t, stmts, next, count, d, below, end, saved);
            },
            _ => {},
        },
        Act::Answer(reply) => {
            broadcast use group_calls;

            if n.ctl is Parse {
                lemma_text_top(n.frames.drop_last());
                lemma_pop_seals(n.frames, d);
            }
        },
    }
}

proof fn lemma_call_works(m: MachineV, n: MachineV, a: Act)
    requires
        sound(n),
        balanced(m),
        balanced(n),
        m.ctl is Call,
        m.env.scopes.len() < usize::MAX,
        n.env.scopes.len() < usize::MAX,
        working(m, n),
        !(n.ctl is Done),
    ensures
        acted(n, a).ctl is Done || working(m, acted(n, a)) || finished(m, acted(n, a)),
{
    let d = m.frames.len();
    let saved = m.env.scopes;
    let end = Frame::CallEnd { saved_ns: m.env.ns, saved_base: m.env.base as usize };
    if unsealed(n.frames, d) {
        lemma_above(n.frames, m.frames, d);
        if let Some(name) = written(n) {
            lemma_find_scope(n.env.scopes, n.env.base, n.env.scopes.len(), name);
        }
    }
    if a is Step && n.frames.len() == d + 1 && (n.ctl is Flow || n.ctl is Return) {
        lemma_call_ends(m, n);
    } else {
        lemma_work_goes_on(n, a, d, m.frames, end, saved);
    }
}

proof fn lemma_call_defaults(m: MachineV, n: MachineV, a: Act)
    requires
        sound(n),
        balanced(m),
        balanced(n),
        m.ctl is Call,
        m.env.scopes.len() < usize::MAX,
        n.env.scopes.len() < usize::MAX,
        defaulting(m, n),
        !spoils(m, n),
        !(n.ctl is Done),
    ensures
        called(m, acted(n, a)),
{
    let d = m.frames.len();
    let end = n.frames[d as int];
    if unsealed(n.frames, d) {
        lemma_above(n.frames, m.frames, d);
    }
    if a is Step && n.frames.len() == d + 1 && n.ctl is Value {
        assert(n.frames.drop_last() =~= m.frames);
        lemma_first_scope(m.frames);
        assert(binding(m, step(n)) || step(n).ctl is Done);
    } else {
        lemma_work_goes_on(n, a, d, m.frames, end, m.env.scopes);
        let r = acted(n, a);
        assert(r.ctl is Done || r.frames[d as int] == end);
    }
}

proof fn lemma_call_run(m: MachineV, acts: Seq<Act>, n: nat)
    requires
        sound(m),
        balanced(m),
        calling(m),
        n <= acts.len(),
        forall|k: nat| k <= n ==> (#[trigger] after(m, acts, k)).env.scopes.len() < usize::MAX,
        forall|k: nat| k < n ==> going_on(m, #[trigger] after(m, acts, k)),
        forall|k: nat| k < n ==> !spoils(m, #[trigger] after(m, acts, k)),
    ensures
        sound(after(m, acts, n)),
        balanced(after(m, acts, n)),
        called(m, after(m, acts, n)),
    decreases n,
{
    assert(after(m, acts, 0) == m);
    if n > 0 {
        let k = (n - 1) as nat;
        lemma_call_run(m, acts, k);
        let s = after(m, acts, k);
        assert(s.env.scopes.len() < usize::MAX);
        assert(going_on(m, s));
        match acts[n - 1] {
            Act::Step => {
                law_steps_stay_sound(s);
                law_scopes_balance(s);
            },
            Act::Answer(reply) => {
                law_answers_stay_sound(s, reply);
                law_answers_balance(s, reply);
            },
        }
        if s.ctl is Done {
        } else if s == m {
            lemma_call_begins(m);
        } else if binding(m, s) {
            lemma_call_binds(m, s, acts[n - 1]);
        } else if defaulting(m, s) {
            assert(!spoils(m, s));
            lemma_call_defaults(m, s, acts[n - 1]);
        } else {
            lemma_call_works(m, s, acts[n - 1]);
        }
    }
}

/// A call of a function of the program leaves the caller's scopes, the start of its own among
/// them, and its namespace as they were, whatever the function and the host do, where no default
/// writes a variable of the caller on the way: in the first state in which the call no longer
/// goes on, its value is at hand and everything around it is as before.
pub proof fn law_calls_restore(m: MachineV, acts: Seq<Act>, n: nat)
    requires
        sound(m),
        balanced(m),
        calling(m),
        n <= acts.len(),
        forall|k: nat| k <= n ==> (#[trigger] after(m, acts, k)).env.scopes.len() < usize::MAX,
        forall|k: nat| k < n ==> going_on(m, #[trigger] after(m, acts, k)),
        forall|k: nat| k < n ==> !spoils(m, #[trigger] after(m, acts, k)),
        !going_on(m, after(m, acts, n)),
        !(after(m, acts, n).ctl is Done),
    ensures
        after(m, acts, n).ctl is Value,
        after(m, acts, n).frames == m.frames,
        after(m, acts, n).env == m.env,
{
    lemma_call_run(m, acts, n);
}

/// Whether an expression only reads: it neither steps a variable nor calls anything.
pub open spec fn reads(e: Expr) -> bool
    decreases e, 0nat,
{
    match e.kind {
        ExprKind::Unary { op, operand } => !is_step(op) && reads(*operand),
        ExprKind::Binary { lhs, rhs, .. } => reads(*lhs) && reads(*rhs),
        ExprKind::Ternary { cond, then_expr, else_expr } => reads(*cond) && reads(*then_expr)
            && reads(*else_expr),
        ExprKind::Range { start, end } => reads(*start) && reads(*end),
        ExprKind::Index { base, index } => reads(*base) && reads(*index),
        ExprKind::TableLit { cells } => read_all(cells, cells@.len()),
        ExprKind::Call { .. } | ExprKind::MethodCall { .. } => false,
        _ => true,
    }
}

/// Whether the first `n` of some expressions only read.
pub open spec fn read_all(es: Exprs, n: nat) -> bool
    decreases es, n,
{
    n == 0 || n > es@.len() || {
        proof {
            assert(decreases_to!(es => es@));
            assert(decreases_to!(es@ => es@[n - 1]));
        }
        read_all(es, (n - 1) as nat) && reads(*es@[n - 1])
    }
}

proof fn lemma_read_at(es: Exprs, n: nat, i: int)
    requires
        read_all(es, n),
        0 <= i < n <= es@.len(),
    ensures
        reads(*es@[i]),
    decreases n,
{
    if i < n - 1 {
        lemma_read_at(es, (n - 1) as nat, i);
    }
}

/// Whether the defaults of a function's parameters only read.
pub open spec fn plain_defaults(def: FnDef) -> bool {
    forall|i: int|
        0 <= i < def.params@.len() ==> ((#[trigger] def.params@[i]).default matches Some(d)
            ==> reads(*d))
}

/// Whether a frame waits for a part of an expression that only reads.
spec fn light(f: FrameV) -> bool {
    match f {
        Frame::Unary { op } => !is_step(op),
        Frame::BinaryRight { rhs, .. } => reads(*rhs),
        Frame::BinaryApply { .. } | Frame::RangeMake { .. } | Frame::IndexRead { .. } => true,
        Frame::Ternary { then_expr, else_expr } => reads(*then_expr) && reads(*else_expr),
        Frame::RangeEnd { end } => reads(*end),
        Frame::IndexAt { index } => reads(*index),
        Frame::Cells { cells, .. } => read_all(cells, cells@.len()),
        _ => false,
    }
}

/// Whether an expression that only reads is being computed as a default of the call that began
/// in the state `m`.
spec fn reading(m: MachineV, n: MachineV) -> bool {
    let d = m.frames.len();
    &&& n.frames.len() > d
    &&& n.frames[d as int] matches Frame::Param { call } && plain_defaults(*call.def)
    &&& forall|i: int| d < i < n.frames.len() ==> light(#[trigger] n.frames[i])
    &&& begins_with_frames(n.frames, m.frames)
    &&& match n.ctl {
        Ctl::Eval(e) => reads(*e),
        Ctl::Value(_) | Ctl::Ask(_, _) => true,
        _ => false,
    }
}

/// What a call goes through whose defaults only read.
spec fn tidy(m: MachineV, n: MachineV) -> bool {
    ||| n.ctl is Done
    ||| n == m
    ||| n.frames == m.frames && (n.ctl matches Ctl::Bind { call } && plain_defaults(*call.def))
    ||| reading(m, n)
    ||| n.frames.len() > m.frames.len() && n.frames[m.frames.len() as int] is CallEnd
    ||| !going_on(m, n)
}

proof fn lemma_tidy_is_clean(m: MachineV, n: MachineV)
    requires
        tidy(m, n),
    ensures
        !spoils(m, n),
{
}

proof fn lemma_reading_eval(m: MachineV, n: MachineV, e: Rc<Expr>)
    requires
        reading(m, n),
        n.ctl matches Ctl::Eval(x) && x == e,
    ensures
        step(n).ctl is Done || reading(m, step(n)),
{
    if let ExprKind::TableLit { cells } = e.kind {
        if cells@.len() > 0 {
            lemma_read_at(cells, cells@.len(), 0);
        }
    }
}

proof fn lemma_reading_value(m: MachineV, n: MachineV)
    requires
        reading(m, n),
        n.ctl is Value,
        n.frames.len() > m.frames.len() + 1,
    ensures
        step(n).ctl is Done || reading(m, step(n)),
{
    let f = n.frames.last();
    assert(light(n.frames[n.frames.len() - 1]));
    if let Frame::Cells { cells, done } = f {
        if done.len() + 1 < cells@.len() {
            lemma_read_at(cells, cells@.len(), (done.len() + 1) as int);
        }
    }
}

proof fn lemma_tidy_goes_on(m: MachineV, n: MachineV, a: Act)
    requires
        sound(n),
        balanced(m),
        balanced(n),
        calling(m),
        m.ctl matches Ctl::Call { name, .. } ==> plain_defaults(m.session.funcs[name]),
        m.env.scopes.len() < usize::MAX,
        n.env.scopes.len() < usize::MAX,
        called(m, n),
        tidy(m, n),
        going_on(m, n),
    ensures
        tidy(m, acted(n, a)),
{
    let d = m.frames.len();
    if n.ctl is Done {
    } else if n == m {
    } else if n.frames.len() > d && n.frames[d as int] is CallEnd {
        lemma_call_works(m, n, a);
    } else if reading(m, n) {
        match n.ctl {
            Ctl::Eval(e) => lemma_reading_eval(m, n, e),
            Ctl::Value(_) => if n.frames.len() > d + 1 {
                lemma_reading_value(m, n);
            } else {
                assert(n.frames.drop_last() =~= m.frames);
            },
            _ => {},
        }
    }
}

proof fn lemma_tidy_run(m: MachineV, acts: Seq<Act>, n: nat)
    requires
        sound(m),
        balanced(m),
        calling(m),
        m.ctl matches Ctl::Call { name, .. } ==> plain_defaults(m.session.funcs[name]),
        n <= acts.len(),
        forall|k: nat| k <= n ==> (#[trigger] after(m, acts, k)).env.scopes.len() < usize::MAX,
        forall|k: nat| k < n ==> going_on(m, #[trigger] after(m, acts, k)),
    ensures
        tidy(m, after(m, acts, n)),
        forall|k: nat|
            k < n ==> !spoils(m, #[trigger] after(m, acts, k)),
    decreases n,
{
    assert(after(m, acts, 0) == m);
    if n > 0 {
        let k = (n - 1) as nat;
        lemma_tidy_run(m, acts, k);
        lemma_call_run(m, acts, k);
        let s = after(m, acts, k);
        assert(going_on(m, s));
        assert(s.env.scopes.len() < usize::MAX);
        lemma_tidy_goes_on(m, s, acts[n - 1]);
        lemma_tidy_is_clean(m, s);
    }
}

/// Such is every call of a function whose defaults only read.
pub proof fn law_plain_calls_restore(m: MachineV, acts: Seq<Act>, n: nat)
    requires
        sound(m),
        balanced(m),
        calling(m),
        m.ctl matches Ctl::Call { name, .. } ==> plain_defaults(m.session.funcs[name]),
        n <= acts.len(),
        forall|k: nat| k <= n ==> (#[trigger] after(m, acts, k)).env.scopes.len() < usize::MAX,
        forall|k: nat| k < n ==> going_on(m, #[trigger] after(m, acts, k)),
        !going_on(m, after(m, acts, n)),
        !(after(m, acts, n).ctl is Done),
    ensures
        after(m, acts, n).ctl is Value,
        after(m, acts, n).frames == m.frames,
        after(m, acts, n).env == m.env,
{
    lemma_tidy_run(m, acts, n);
    law_calls_restore(m, acts, n);
}

// ---------- what lasts ----------
/// Whether every function and every top-level variable of `a` is there in `b`.
pub open spec fn lasts(a: SessionV, b: SessionV) -> bool {
    &&& forall|k: Seq<char>| #[trigger]
        a.funcs.dom().contains(k) ==> b.funcs.dom().contains(k)
    &&& forall|k: Seq<char>| #[trigger]
        a.globals.dom().contains(k) ==> b.globals.dom().contains(k)
}

/// The functions with one more of the namespace `prefix`.
pub open spec fn with_fn(
    funcs: Map<Seq<char>, FnDef>,
    prefix: Seq<Seq<char>>,
    def: Rc<FnDef>,
) -> Map<Seq<char>, FnDef> {
    funcs.insert(join(prefix.push(def.name@), "::"@), *def)
}

proof fn lemma_register_lasts(
    funcs: Map<Seq<char>, FnDef>,
    stmts: Seq<Rc<Stmt>>,
    i: nat,
    prefix: Seq<Seq<char>>,
    count: u64,
)
    ensures
        forall|k: Seq<char>| #[trigger]
            funcs.dom().contains(k) ==> register_ns(funcs, stmts, i, prefix, count).0.dom().contains(
                k,
            ),
    decreases stmts, stmts.len() - i,
{
    if i < stmts.len() {
        match *stmts[i as int] {
            Stmt::FnDef { def } => {
                let f = with_fn(funcs, prefix, def);
                lemma_register_lasts(f, stmts, i + 1, prefix, count.wrapping_add(1));
                assert forall|k: Seq<char>| #[trigger] funcs.dom().contains(k) implies register_ns(
                    funcs,
                    stmts,
                    i,
                    prefix,
                    count,
                ).0.dom().contains(k) by {
                    assert(f.dom().contains(k));
                }
            },
            Stmt::Namespace { path, body } => {
                lemma_register_lasts(funcs, body@, 0, prefix + views(path@), count);
                let (f, c) = register_ns(funcs, body@, 0, prefix + views(path@), count);
                lemma_register_lasts(f, stmts, i + 1, prefix, c);
                assert forall|k: Seq<char>| #[trigger] funcs.dom().contains(k) implies register_ns(
                    funcs,
                    stmts,
                    i,
                    prefix,
                    count,
                ).0.dom().contains(k) by {
                    assert(f.dom().contains(k));
                }
            },
            _ => {
                lemma_register_lasts(funcs, stmts, i + 1, prefix, count);
            },
        }
    }
}

/// The functions of a namespace are registered under their full names.
pub proof fn law_namespace_functions_are_registered(
    funcs: Map<Seq<char>, FnDef>,
    stmts: Seq<Rc<Stmt>>,
    i: nat,
    prefix: Seq<Seq<char>>,
    count: u64,
    at: int,
    def: Rc<FnDef>,
)
    requires
        i <= at < stmts.len(),
        *stmts[at] == (Stmt::FnDef { def }),
    ensures
        register_ns(funcs, stmts, i, prefix, count).0.dom().contains(
            join(prefix.push(def.name@), "::"@),
        ),
    decreases stmts, at - i,
{
    if i == at {
        let f = with_fn(funcs, prefix, def);
        lemma_register_lasts(f, stmts, i + 1, prefix, count.wrapping_add(1));
        assert(f.dom().contains(join(prefix.push(def.name@), "::"@)));
    } else {
        match *stmts[i as int] {
            Stmt::FnDef { def: d } => {
                let f = with_fn(funcs, prefix, d);
                law_namespace_functions_are_registered(
                    f,
                    stmts,
                    i + 1,
                    prefix,
                    count.wrapping_add(1),
                    at,
                    def,
                );
            },
            Stmt::Namespace { path, body } => {
                let (f, c) = register_ns(funcs, body@, 0, prefix + views(path@), count);
                law_namespace_functions_are_registered(f, stmts, i + 1, prefix, c, at, def);
            },
            _ => {
                law_namespace_functions_are_registered(funcs, stmts, i + 1, prefix, count, at, def);
            },
        }
    }
}

proof fn lemma_lasts_value(m: MachineV, f: FrameV, v: ValueV)
    ensures
        lasts(m.session, value_step(m, f, v).session),
{
}

proof fn lemma_lasts_register(m: MachineV, stmts: crate::ast::Block, next: usize, count: u64)
    ensures
        lasts(m.session, register_step(m, stmts, next, count).session),
{
    if next < stmts@.len() {
        match *stmts@[next as int] {
            Stmt::Namespace { path, body } => {
                lemma_register_lasts(m.session.funcs, body@, 0, views(path@), count);
            },
            _ => {},
        }
    }
}

proof fn lemma_lasts_call(m: MachineV, name: Seq<char>, args: Seq<ValueV>)
    ensures
        lasts(m.session, call_fn(m, name, args).session),
{
}

/// What a session has defined stays defined, whatever runs.
pub proof fn law_definitions_last(m: MachineV, reply: Reply)
    ensures
        lasts(m.session, step(m).session),
        lasts(m.session, resume(m, reply).session),
{
    let n = taken(m);
    match m.ctl {
        Ctl::Value(v) => lemma_lasts_value(popped(n), m.frames.last(), v),
        Ctl::Register { stmts, next, count } => lemma_lasts_register(n, stmts, next, count),
        Ctl::Call { name, args } => lemma_lasts_call(n, name, args),
        _ => {},
    }
}

// ---------- three-valued logic ----------
/// Whether a number is one of the three trits.
pub open spec fn is_trit(t: i8) -> bool {
    -1 <= t <= 1
}

/// The trit that an operation on trits gives.
pub open spec fn trit_of(op: BinaryOp, a: i8, b: i8) -> i8 {
    match trit_binary(op, a, b) {
        BinOutV::Val(ValueV::Trit(t)) => t,
        _ => 0,
    }
}

/// Arithmetic and logic on trits give trits.
pub proof fn law_trits_stay_trits(op: BinaryOp, a: i8, b: i8)
    requires
        is_trit(a),
        is_trit(b),
    ensures
        trit_binary(op, a, b) matches BinOutV::Val(ValueV::Trit(t)) ==> is_trit(t),
        trit_binary(op, a, b) != BinOutV::Crash,
{
}

/// `&&` takes the smaller trit, `||` the larger one, and negation swaps the two.
pub proof fn law_kleene(a: i8, b: i8)
    requires
        is_trit(a),
        is_trit(b),
    ensures
        trit_of(BinaryOp::And, a, b) == trit_of(BinaryOp::And, b, a),
        trit_of(BinaryOp::Or, a, b) == trit_of(BinaryOp::Or, b, a),
        -trit_of(BinaryOp::And, a, b) == trit_of(BinaryOp::Or, (-a) as i8, (-b) as i8),
        -trit_of(BinaryOp::Or, a, b) == trit_of(BinaryOp::And, (-a) as i8, (-b) as i8),
        trit_of(BinaryOp::And, a, b) <= a,
        trit_of(BinaryOp::Or, a, b) >= a,
{
}

/// Sums of trits saturate: they are the integer sum cut to the nearest trit.
pub proof fn law_trit_sums_saturate(a: i8, b: i8)
    requires
        is_trit(a),
        is_trit(b),
    ensures
        trit_of(BinaryOp::Add, a, b) == (if a + b > 1 {
            1
        } else if a + b < -1 {
            -1
        } else {
            a + b
        }),
        trit_of(BinaryOp::Mul, a, b) == a * b,
        trit_of(BinaryOp::Sub, a, b) == trit_of(BinaryOp::Add, a, (-b) as i8),
{
    assert(-1 <= a * b <= 1) by (nonlinear_arith)
        requires
            -1 <= a <= 1,
            -1 <= b <= 1,
    ;
}

} // verus!
