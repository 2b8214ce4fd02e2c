//! The meaning of programs: a machine whose state is what is being worked on, the work
//! put off (`frames`), the variables in reach, and the session; and the function that
//! takes one state to the next.
use crate::ast::{
    BinaryOp, Block, Expr, ExprKind, Exprs, FnDef, Program, Stmt, SwitchCase, TyKw, TypeSpec,
    UnaryOp,
};
use crate::builtins::{bit_written, builtin, cell_at, is_builtin, out_of_range, CallOutV};
use crate::host::{settled, AfterV, OutcomeV, Parsed, Reply, RequestV};
use crate::msg::MsgV;
use crate::text::{dec, has_sep, join, split_path, starts_with, views};
use crate::value::{binary, comparison, kind_name, matches_ty, repl_string, truthy, BinOutV, ValueV};
use std::rc::Rc;
use vstd::prelude::*;

verus! {

/// The variables of one scope.
pub type ScopeV = Map<Seq<char>, ValueV>;

/// What outlives an evaluation: top-level variables, and functions under their full names.
pub struct SessionV {
    pub windows: bool,
    pub globals: ScopeV,
    pub funcs: Map<Seq<char>, FnDef>,
}

/// The variables in reach: the scopes, innermost last, of which those from `base` on belong
/// to the function that runs, and the namespace of that function.
pub struct EnvV {
    pub scopes: Seq<ScopeV>,
    pub ns: Seq<Seq<char>>,
    pub base: nat,
}

/// A switch in progress: the value, the case and the pattern that are next.
pub struct Switch<V> {
    pub cases: Rc<Vec<SwitchCase>>,
    pub default_body: Block,
    pub subject: V,
    pub case: usize,
    pub pattern: usize,
}

/// A call in progress: which function, its arguments, the parameter that is next, and what
/// is to be restored afterwards. `entry` marks a call that a session makes by name.
pub struct Calling<L, N, P> {
    pub name: N,
    pub def: Rc<FnDef>,
    pub args: L,
    pub next: usize,
    pub entry: bool,
    pub saved_ns: P,
    pub saved_base: usize,
    pub base: usize,
}

/// Work put off until something else is done.
#[allow(inconsistent_fields)]
pub enum Frame<V, L, N, P, E> {
    // these wait for a value
    Unary { op: UnaryOp },
    BinaryRight { op: BinaryOp, rhs: Rc<Expr> },
    BinaryApply { op: BinaryOp, lhs: V },
    Ternary { then_expr: Rc<Expr>, else_expr: Rc<Expr> },
    RangeEnd { end: Rc<Expr> },
    RangeMake { start: i64 },
    Args { name: N, bare: bool, args: Exprs, done: L },
    IndexAt { index: Rc<Expr> },
    IndexRead { table: V },
    Cells { cells: Exprs, done: L },
    Push { name: N },
    StepStore { name: N, prefix: bool, before: V },
    Declare { name: N, trit: bool },
    ExprStmt,
    Assign { target: N },
    AssignOp { target: N, op: BinaryOp, before: V },
    Return,
    If { then_branch: Block, else_branch: Block },
    WhileTest { cond: Rc<Expr>, body: Block, last: Option<V> },
    ForStart { var: N, body: Block },
    SwitchStart { cases: Rc<Vec<SwitchCase>>, default_body: Block },
    CaseFrom { sw: Switch<V>, end: Rc<Expr> },
    CaseTo { sw: Switch<V>, from: i64 },
    CaseLit { sw: Switch<V> },
    CaseTest { sw: Switch<V> },
    CaseWhen { sw: Switch<V> },
    StoreAt { name: N, cells: L, op: Option<BinaryOp>, value: Rc<Expr> },
    StoreOp { name: N, cells: L, at: usize, op: BinaryOp },
    Store { name: N, cells: L, at: usize },
    Param { call: Calling<L, N, P> },
    RegisterVar { name: N, stmts: Block, next: usize, count: u64 },
    // these wait for the end of a statement
    Body { stmts: Block, next: usize },
    WhileBody { cond: Rc<Expr>, body: Block },
    ForRange { var: N, body: Block, next: i64, end: i64 },
    ForTable { var: N, body: Block, items: L, next: usize },
    CallEnd { saved_ns: P, saved_base: usize },
    EntryEnd { saved_ns: P, saved_base: usize },
    TopBody { stmts: Block, next: usize },
    // this waits for the result of an evaluation
    SessionEnd { outer: Option<E> },
    // these wait for the parser
    EvalFirst { code: N },
    EvalSecond,
}

/// How an evaluation ended.
pub enum Finish<N> {
    Result(N),
    Failure(N),
    /// The interpreter itself broke down.
    Crash,
}

/// What is being worked on.
#[allow(inconsistent_fields)]
pub enum Ctl<V, L, N, P, Q, A> {
    Eval(Rc<Expr>),
    Exec(Rc<Stmt>),
    /// A block in a scope of its own.
    Run(Block),
    /// A value has been computed.
    Value(V),
    /// A statement has ended, with the value of the last expression statement.
    Flow(Option<V>),
    /// A `return` is on its way out.
    Return(V),
    /// An evaluation has ended.
    Text(N),
    Call { name: N, args: L },
    Bind { call: Calling<L, N, P> },
    Case { sw: Switch<V> },
    Register { stmts: Block, next: usize, count: u64 },
    /// The host is asked to parse a text.
    Parse(N),
    /// The host is asked for something else.
    Ask(Q, A),
    Done(Finish<N>),
}

pub type FrameV = Frame<ValueV, Seq<ValueV>, Seq<char>, Seq<Seq<char>>, EnvV>;

pub type CtlV = Ctl<ValueV, Seq<ValueV>, Seq<char>, Seq<Seq<char>>, RequestV, AfterV>;

pub type CallingV = Calling<Seq<ValueV>, Seq<char>, Seq<Seq<char>>>;

/// A state of the machine.
pub struct MachineV {
    pub ctl: CtlV,
    pub frames: Seq<FrameV>,
    pub env: EnvV,
    pub session: SessionV,
    pub msg: MsgV,
}

// ---------- variables ----------
/// The innermost of the scopes `base..n` that holds `name`.
pub open spec fn find_scope(scopes: Seq<ScopeV>, base: nat, n: nat, name: Seq<char>) -> Option<int>
    decreases n,
{
    if n <= base || n > scopes.len() {
        None
    } else if scopes[n - 1].dom().contains(name) {
        Some(n - 1)
    } else {
        find_scope(scopes, base, (n - 1) as nat, name)
    }
}

/// The value of a variable: from the scopes of the running function, else from the top level.
pub open spec fn lookup(m: MachineV, name: Seq<char>) -> Option<ValueV> {
    match find_scope(m.env.scopes, m.env.base, m.env.scopes.len(), name) {
        Some(i) => Some(m.env.scopes[i][name]),
        None => if m.session.globals.dom().contains(name) {
            Some(m.session.globals[name])
        } else {
            None
        },
    }
}

pub open spec fn is_declared(m: MachineV, name: Seq<char>) -> bool {
    lookup(m, name) is Some
}

/// The state after an assignment to a declared variable; `None` where it is not declared.
pub open spec fn assign(m: MachineV, name: Seq<char>, v: ValueV) -> Option<MachineV> {
    match find_scope(m.env.scopes, m.env.base, m.env.scopes.len(), name) {
        Some(i) => Some(
            MachineV {
                env: EnvV {
                    scopes: m.env.scopes.update(i, m.env.scopes[i].insert(name, v)),
                    ..m.env
                },
                ..m
            },
        ),
        None => if m.session.globals.dom().contains(name) {
            Some(put_global(m, name, v))
        } else {
            None
        },
    }
}

pub open spec fn put_global(m: MachineV, name: Seq<char>, v: ValueV) -> MachineV {
    MachineV {
        session: SessionV { globals: m.session.globals.insert(name, v), ..m.session },
        ..m
    }
}

/// The state after a declaration: in the innermost scope, or at the top level.
pub open spec fn declare(m: MachineV, name: Seq<char>, v: ValueV) -> MachineV {
    if m.env.scopes.len() == 0 {
        put_global(m, name, v)
    } else {
        let i = m.env.scopes.len() - 1;
        MachineV {
            env: EnvV {
                scopes: m.env.scopes.update(i, m.env.scopes[i].insert(name, v)),
                ..m.env
            },
            ..m
        }
    }
}

pub open spec fn push_scope(m: MachineV, s: ScopeV) -> MachineV {
    MachineV { env: EnvV { scopes: m.env.scopes.push(s), ..m.env }, ..m }
}

pub open spec fn pop_scope(m: MachineV) -> MachineV {
    if m.env.scopes.len() == 0 {
        m
    } else {
        MachineV { env: EnvV { scopes: m.env.scopes.drop_last(), ..m.env }, ..m }
    }
}

pub open spec fn fresh_env() -> EnvV {
    EnvV { scopes: Seq::empty(), ns: Seq::empty(), base: 0 }
}

pub open spec fn put_func(m: MachineV, name: Seq<char>, def: FnDef) -> MachineV {
    MachineV { session: SessionV { funcs: m.session.funcs.insert(name, def), ..m.session }, ..m }
}

// ---------- small moves ----------
pub open spec fn goto(m: MachineV, ctl: CtlV) -> MachineV {
    MachineV { ctl, ..m }
}

pub open spec fn put_off(m: MachineV, f: FrameV, ctl: CtlV) -> MachineV {
    MachineV { ctl, frames: m.frames.push(f), ..m }
}

pub open spec fn err(m: MachineV, text: Seq<char>) -> MachineV {
    goto(m, Ctl::Done(Finish::Failure(text)))
}

pub open spec fn crash(m: MachineV) -> MachineV {
    goto(m, Ctl::Done(Finish::Crash))
}

pub open spec fn value(m: MachineV, v: ValueV) -> MachineV {
    goto(m, Ctl::Value(v))
}

pub open spec fn flow(m: MachineV, v: Option<ValueV>) -> MachineV {
    goto(m, Ctl::Flow(v))
}

/// The complaint about a variable that is not declared.
pub open spec fn undeclared(name: Seq<char>) -> Seq<char> {
    "变量 '"@ + name + "' 未声明"@
}

/// Puts a value into a declared variable and goes on, or complains.
pub open spec fn store(m: MachineV, name: Seq<char>, v: ValueV, ctl: CtlV) -> MachineV {
    match assign(m, name, v) {
        Some(n) => goto(n, ctl),
        None => err(m, undeclared(name)),
    }
}

/// Applies a binary operator.
pub open spec fn apply(m: MachineV, op: BinaryOp, l: ValueV, r: ValueV) -> MachineV {
    match binary(op, l, r) {
        BinOutV::Val(v) => value(m, v),
        BinOutV::Fail(text) => err(m, text),
        BinOutV::Float(op, a, b) => goto(
            m,
            Ctl::Ask(
                RequestV::FloatBinary { op, a, b },
                if comparison(op) {
                    AfterV::Flag
                } else {
                    AfterV::Float
                },
            ),
        ),
        BinOutV::Crash => crash(m),
    }
}

// ---------- expressions ----------
/// The name under which a bare call finds its function: the name itself, where the top level
/// or the language has such a function, else the name in the namespace of the running
/// function, where that has one.
pub open spec fn resolve(m: MachineV, name: Seq<char>) -> Seq<char> {
    let full = join(m.env.ns.push(name), "::"@);
    if !m.session.funcs.dom().contains(name) && !is_builtin(name) && m.env.ns.len() > 0
        && m.session.funcs.dom().contains(full) {
        full
    } else {
        name
    }
}

/// The path that a chain of names spells, where no variable is among them.
pub open spec fn ns_segments(m: MachineV, e: Expr) -> Option<Seq<Seq<char>>>
    decreases e,
{
    match e.kind {
        ExprKind::Var(name) => if is_declared(m, name@) {
            None
        } else {
            Some(seq![name@])
        },
        ExprKind::FieldAccess { base, field } => match ns_segments(m, *base) {
            Some(segs) => Some(segs.push(field@)),
            None => None,
        },
        _ => None,
    }
}

/// Whether some function lies in the namespace `segs`.
pub open spec fn has_ns_prefix(m: MachineV, segs: Seq<Seq<char>>) -> bool {
    let p = join(segs, "::"@) + "::"@;
    exists|k: Seq<char>| #[trigger] m.session.funcs.dom().contains(k) && starts_with(k, p)
}

/// The namespace that the receiver of a method call names.
pub open spec fn receiver_ns(m: MachineV, receiver: Expr) -> Option<Seq<Seq<char>>> {
    match receiver.kind {
        ExprKind::Path { segments } => Some(views(segments@)),
        ExprKind::Var(_) | ExprKind::FieldAccess { .. } => match ns_segments(m, receiver) {
            Some(segs) => if has_ns_prefix(m, segs) {
                Some(segs)
            } else {
                None
            },
            None => None,
        },
        _ => None,
    }
}

/// The variable whose table `bit_write` changes.
pub open spec fn bit_target(name: Seq<char>, args: Exprs) -> Option<Seq<char>> {
    if name == "bit_write"@ && args@.len() == 3 {
        match args@[0].kind {
            ExprKind::Var(t) => Some(t@),
            _ => None,
        }
    } else {
        None
    }
}

/// `bit_write(t, i, b)`, which changes the variable `t` itself, once `i` and `b` are known.
pub open spec fn write_bit(m: MachineV, name: Seq<char>, at: ValueV, bit: ValueV) -> MachineV {
    match lookup(m, name) {
        Some(t) => match bit_written(t, at, bit) {
            Ok((cells, ok)) => store(
                m,
                name,
                ValueV::Table(cells),
                Ctl::Value(ValueV::Bool(ok)),
            ),
            Err(text) => err(m, text),
        },
        None => err(m, undeclared(name)),
    }
}

/// Evaluates the arguments of a call that are not done yet, then calls.
pub open spec fn eval_args(
    m: MachineV,
    name: Seq<char>,
    bare: bool,
    args: Exprs,
    done: Seq<ValueV>,
) -> MachineV {
    if done.len() < args@.len() {
        put_off(
            m,
            Frame::Args { name, bare, args, done },
            Ctl::Eval(args@[done.len() as int]),
        )
    } else {
        match bit_target(name, args) {
            Some(t) if bare && done.len() == 3 => write_bit(m, t, done[1], done[2]),
            _ => goto(
                m,
                Ctl::Call {
                    name: if bare {
                        resolve(m, name)
                    } else {
                        name
                    },
                    args: done,
                },
            ),
        }
    }
}

/// Evaluates the cells of a table literal that are not done yet.
pub open spec fn eval_cells(m: MachineV, cells: Exprs, done: Seq<ValueV>) -> MachineV {
    if done.len() < cells@.len() {
        put_off(m, Frame::Cells { cells, done }, Ctl::Eval(cells@[done.len() as int]))
    } else {
        value(m, ValueV::Table(done))
    }
}

pub open spec fn is_step(op: UnaryOp) -> bool {
    op == UnaryOp::PreInc || op == UnaryOp::PreDec || op == UnaryOp::PostInc || op
        == UnaryOp::PostDec
}

/// `++x`, `--x`, `x++`, `x--`: the prefix forms give the new value, the others the old one.
pub open spec fn eval_inc_dec(m: MachineV, op: UnaryOp, operand: Expr) -> MachineV {
    let up = op == UnaryOp::PreInc || op == UnaryOp::PostInc;
    let prefix = op == UnaryOp::PreInc || op == UnaryOp::PreDec;
    match operand.kind {
        ExprKind::Var(name) => match lookup(m, name@) {
            None => err(m, undeclared(name@)),
            Some(ValueV::Int(n)) => {
                let d = if up {
                    n + 1
                } else {
                    n - 1
                };
                if i64::MIN <= d <= i64::MAX {
                    let after = ValueV::Int(d as i64);
                    store(
                        m,
                        name@,
                        after,
                        Ctl::Value(
                            if prefix {
                                after
                            } else {
                                ValueV::Int(n)
                            },
                        ),
                    )
                } else {
                    crash(m)
                }
            },
            Some(ValueV::Float(x)) => put_off(
                m,
                Frame::StepStore { name: name@, prefix, before: ValueV::Float(x) },
                Ctl::Ask(RequestV::FloatStep { x, up }, AfterV::Float),
            ),
            Some(_) => err(m, "自增/自减只能作用于数字"@),
        },
        _ => err(m, "自增/自减只支持变量"@),
    }
}

/// `table_push(t, x)`, which changes the variable `t` itself.
pub open spec fn eval_table_push(m: MachineV, args: Exprs) -> MachineV {
    if args@.len() != 2 {
        err(m, "table_push 需要表与元素参数"@)
    } else {
        match args@[0].kind {
            ExprKind::Var(name) => put_off(m, Frame::Push { name: name@ }, Ctl::Eval(args@[1])),
            _ => err(m, "table_push 的第 1 个参数必须是表变量"@),
        }
    }
}

/// The first step of evaluating an expression.
pub open spec fn eval_expr(m: MachineV, e: Expr) -> MachineV {
    match e.kind {
        ExprKind::IntLit(n) => value(m, ValueV::Int(n)),
        ExprKind::FloatLit { value: f, ir } => value(m, ValueV::Float(f@)),
        ExprKind::StrLit(s) => value(m, ValueV::Str(s@)),
        ExprKind::CharLit(c) => value(m, ValueV::Char(c)),
        ExprKind::BoolLit(b) => value(m, ValueV::Bool(b)),
        ExprKind::TritLit(t) => value(m, ValueV::Trit(t)),
        ExprKind::Var(name) => match lookup(m, name@) {
            Some(v) => value(m, v),
            None => err(m, undeclared(name@)),
        },
        ExprKind::Unary { op, operand } => if is_step(op) {
            eval_inc_dec(m, op, *operand)
        } else {
            put_off(m, Frame::Unary { op }, Ctl::Eval(operand))
        },
        ExprKind::Binary { op, lhs, rhs } => put_off(
            m,
            Frame::BinaryRight { op, rhs },
            Ctl::Eval(lhs),
        ),
        ExprKind::Ternary { cond, then_expr, else_expr } => put_off(
            m,
            Frame::Ternary { then_expr, else_expr },
            Ctl::Eval(cond),
        ),
        ExprKind::Range { start, end } => put_off(m, Frame::RangeEnd { end }, Ctl::Eval(start)),
        ExprKind::TypeLit { ty } => err(m, "类型字面量只能用作 switch 的 case 类型匹配"@),
        ExprKind::Call { name, args } => if name@ == "table_push"@ {
            eval_table_push(m, args)
        } else {
            eval_args(m, name@, true, args, Seq::empty())
        },
        ExprKind::Index { base, index } => put_off(m, Frame::IndexAt { index }, Ctl::Eval(base)),
        ExprKind::TableLit { cells } => eval_cells(m, cells, Seq::empty()),
        ExprKind::TupleLit { fields } => err(m, "REPL v1 暂不支持元组"@),
        ExprKind::FieldAccess { base, field } => err(
            m,
            "REPL v1 暂不支持字段访问（类/元组）"@,
        ),
        ExprKind::MethodCall { receiver, method, args } => match receiver_ns(m, *receiver) {
            Some(segs) => eval_args(
                m,
                join(segs.push(method@), "::"@),
                false,
                args,
                Seq::empty(),
            ),
            None => err(m, "REPL v1 暂不支持 struct 方法调用"@),
        },
        ExprKind::Path { segments } => err(
            m,
            "命名空间路径 '"@ + join(views(segments@), "::"@)
                + "' 不能作为值使用（只能用于调用）"@,
        ),
    }
}

// ---------- statements ----------
/// The first step of executing a statement.
pub open spec fn exec_stmt(m: MachineV, s: Stmt) -> MachineV {
    match s {
        Stmt::VarDecl { name, ty, init } => put_off(
            m,
            Frame::Declare { name: name@, trit: ty == Some(TypeSpec::Named(TyKw::Trit)) },
            Ctl::Eval(init),
        ),
        Stmt::Expr { expr } => put_off(m, Frame::ExprStmt, Ctl::Eval(expr)),
        Stmt::Assign { target, op, value } => match op {
            None => put_off(m, Frame::Assign { target: target@ }, Ctl::Eval(value)),
            Some(op) => match lookup(m, target@) {
                Some(v) => put_off(
                    m,
                    Frame::AssignOp { target: target@, op, before: v },
                    Ctl::Eval(value),
                ),
                None => err(m, undeclared(target@)),
            },
        },
        Stmt::Return { expr } => match expr {
            Some(e) => put_off(m, Frame::Return, Ctl::Eval(e)),
            None => goto(m, Ctl::Return(ValueV::Void)),
        },
        Stmt::If { cond, then_branch, else_branch } => put_off(
            m,
            Frame::If { then_branch, else_branch },
            Ctl::Eval(cond),
        ),
        Stmt::While { label, cond, body } => put_off(
            m,
            Frame::WhileTest { cond, body, last: None },
            Ctl::Eval(cond),
        ),
        Stmt::For { label, var, iter, body } => put_off(
            m,
            Frame::ForStart { var: var@, body },
            Ctl::Eval(iter),
        ),
        Stmt::Switch { subject, cases, default_body } => put_off(
            m,
            Frame::SwitchStart { cases, default_body },
            Ctl::Eval(subject),
        ),
        Stmt::Break { label } => crash(m),
        Stmt::Continue { label } => crash(m),
        Stmt::Import => err(m, "REPL v1 暂不支持 import"@),
        Stmt::Using => flow(m, None),
        Stmt::Struct => err(m, "REPL v1 暂不支持 struct 定义"@),
        Stmt::FnDef { def } => flow(put_func(m, def.name@, *def), None),
        Stmt::Namespace { path, body } => flow(m, None),
        Stmt::FieldAssign { base, field, op, value } => err(
            m,
            "REPL v1 暂不支持字段赋值（类）"@,
        ),
        Stmt::IndexAssign { target, op, value } => exec_index_assign(m, *target, op, value),
    }
}

/// `t[i] = v` and `t[i] += v`: the table is read before the position is worked out.
pub open spec fn exec_index_assign(
    m: MachineV,
    target: Expr,
    op: Option<BinaryOp>,
    value: Rc<Expr>,
) -> MachineV {
    match target.kind {
        ExprKind::Index { base, index } => match base.kind {
            ExprKind::Var(name) => match lookup(m, name@) {
                None => err(m, undeclared(name@)),
                Some(ValueV::Table(cells)) => put_off(
                    m,
                    Frame::StoreAt { name: name@, cells, op, value },
                    Ctl::Eval(index),
                ),
                Some(v) => err(m, "下标赋值的对象必须是表，实际是 "@ + kind_name(v)),
            },
            _ => err(m, "下标赋值暂只支持单层表变量（t[i]）；二维表元素暂不支持写"@),
        },
        _ => err(m, "下标赋值的目标必须是表元素访问（t[i]）"@),
    }
}

/// One round of `for` over a range.
pub open spec fn for_range(
    m: MachineV,
    var: Seq<char>,
    body: Block,
    i: i64,
    end: i64,
    last: Option<ValueV>,
) -> MachineV {
    if i < end {
        put_off(
            push_scope(m, Map::empty().insert(var, ValueV::Int(i))),
            Frame::ForRange { var, body, next: (i + 1) as i64, end },
            Ctl::Run(body),
        )
    } else {
        flow(m, last)
    }
}

/// One round of `for` over a table.
pub open spec fn for_table(
    m: MachineV,
    var: Seq<char>,
    body: Block,
    items: Seq<ValueV>,
    i: usize,
    last: Option<ValueV>,
) -> MachineV {
    if i < items.len() {
        put_off(
            push_scope(m, Map::empty().insert(var, items[i as int])),
            Frame::ForTable { var, body, items, next: (i + 1) as usize },
            Ctl::Run(body),
        )
    } else {
        flow(m, last)
    }
}

/// A value as a bound of a case range.
pub open spec fn case_number(v: ValueV) -> Option<i64> {
    match v {
        ValueV::Int(n) => Some(n),
        ValueV::Char(c) => Some(c as i64),
        _ => None,
    }
}

pub open spec fn next_pattern(sw: Switch<ValueV>) -> CtlV {
    Ctl::Case { sw: Switch { pattern: sw.pattern.wrapping_add(1), ..sw } }
}

pub open spec fn next_case(sw: Switch<ValueV>) -> CtlV {
    Ctl::Case { sw: Switch { case: sw.case.wrapping_add(1), pattern: 0, ..sw } }
}

/// A pattern fits: the guard decides, where there is one.
pub open spec fn case_hit(m: MachineV, sw: Switch<ValueV>) -> MachineV {
    if sw.case < sw.cases@.len() {
        match sw.cases@[sw.case as int].when {
            Some(w) => put_off(m, Frame::CaseWhen { sw }, Ctl::Eval(w)),
            None => goto(m, Ctl::Run(sw.cases@[sw.case as int].body)),
        }
    } else {
        crash(m)
    }
}

/// Tries the next pattern of a switch.
pub open spec fn case_step(m: MachineV, sw: Switch<ValueV>) -> MachineV {
    if sw.case >= sw.cases@.len() {
        goto(m, Ctl::Run(sw.default_body))
    } else {
        let patterns = sw.cases@[sw.case as int].patterns;
        if sw.pattern >= patterns@.len() {
            goto(m, next_case(sw))
        } else {
            let pat = patterns@[sw.pattern as int];
            match pat.kind {
                ExprKind::Range { start, end } => put_off(
                    m,
                    Frame::CaseFrom { sw, end },
                    Ctl::Eval(start),
                ),
                ExprKind::TypeLit { ty } => if matches_ty(sw.subject, ty) {
                    case_hit(m, sw)
                } else {
                    goto(m, next_pattern(sw))
                },
                _ => put_off(m, Frame::CaseLit { sw }, Ctl::Eval(pat)),
            }
        }
    }
}

// ---------- calls ----------
/// The number of parameters before the first that has a default.
pub open spec fn required(def: FnDef, i: nat) -> nat
    decreases def.params@.len() - i,
{
    if i >= def.params@.len() || def.params@[i as int].default is Some {
        i
    } else {
        required(def, i + 1)
    }
}

/// The namespace of the function `name`.
pub open spec fn ns_of(name: Seq<char>) -> Seq<Seq<char>> {
    if has_sep(name) {
        split_path(name).drop_last()
    } else {
        Seq::empty()
    }
}

/// Starts a call of a user function whose arguments have been checked.
pub open spec fn enter(
    m: MachineV,
    name: Seq<char>,
    def: FnDef,
    args: Seq<ValueV>,
    entry: bool,
) -> MachineV {
    goto(
        MachineV {
            env: EnvV {
                scopes: m.env.scopes.push(Map::empty()),
                ns: ns_of(name),
                base: m.env.base,
            },
            ..m
        },
        Ctl::Bind {
            call: Calling {
                name,
                def: Rc::new(def),
                args,
                next: 0,
                entry,
                saved_ns: m.env.ns,
                saved_base: m.env.base as usize,
                base: m.env.scopes.len() as usize,
            },
        },
    )
}

/// Calls a user function.
pub open spec fn call_user(m: MachineV, name: Seq<char>, args: Seq<ValueV>) -> MachineV {
    if m.session.funcs.dom().contains(name) {
        let def = m.session.funcs[name];
        let need = required(def, 0);
        if args.len() < need || args.len() > def.params@.len() {
            err(
                m,
                "函数 '"@ + name + "' 期望 "@ + dec(need as int) + "-"@ + dec(
                    def.params@.len() as int,
                ) + " 个参数，实际 "@ + dec(args.len() as int) + " 个"@,
            )
        } else {
            enter(m, name, def, args, false)
        }
    } else {
        err(m, "未定义的函数 '"@ + name + "'"@)
    }
}

/// Calls a registered function by name with one string, for a session.
pub open spec fn call_entry(m: MachineV, name: Seq<char>, arg: Seq<char>) -> MachineV {
    if m.session.funcs.dom().contains(name) {
        let def = m.session.funcs[name];
        if required(def, 0) > 1 || def.params@.len() < 1 {
            err(
                m,
                "eval_call: 函数 '"@ + name + "' 必须恰好接收 1 个字符串参数（实际形参 "@ + dec(
                    def.params@.len() as int,
                ) + " 个）"@,
            )
        } else {
            enter(m, name, def, seq![ValueV::Str(arg)], true)
        }
    } else {
        err(m, "eval_call: 未定义的函数 '"@ + name + "'"@)
    }
}

/// Leaves the variables in reach aside for an evaluation within the evaluation.
pub open spec fn nest(m: MachineV) -> MachineV {
    MachineV {
        frames: m.frames.push(Frame::SessionEnd { outer: Some(m.env) }),
        env: fresh_env(),
        ..m
    }
}

/// Starts the evaluation of a source text.
pub open spec fn begin_eval(m: MachineV, code: Seq<char>) -> MachineV {
    put_off(m, Frame::EvalFirst { code }, Ctl::Parse(code))
}

/// Calls a function: a built-in one, else one of the user's.
pub open spec fn call_fn(m: MachineV, name: Seq<char>, args: Seq<ValueV>) -> MachineV {
    let (out, msg) = builtin(m.msg, m.session.windows, name, args);
    let n = MachineV { msg, ..m };
    match out {
        CallOutV::Val(v) => value(n, v),
        CallOutV::Fail(text) => err(n, text),
        CallOutV::Ask(q, a) => goto(n, Ctl::Ask(q, a)),
        CallOutV::Eval(code) => begin_eval(nest(n), code),
        CallOutV::EvalCall(f, arg) => call_entry(nest(n), f, arg),
        CallOutV::Unknown => call_user(n, name, args),
    }
}

/// Binds the next parameter of a call: to its argument, else to its default.
pub open spec fn bind_step(m: MachineV, c: CallingV) -> MachineV {
    if c.next >= c.def.params@.len() {
        let n = MachineV { env: EnvV { base: c.base as nat, ..m.env }, ..m };
        put_off(
            n,
            if c.entry {
                Frame::EntryEnd { saved_ns: c.saved_ns, saved_base: c.saved_base }
            } else {
                Frame::CallEnd { saved_ns: c.saved_ns, saved_base: c.saved_base }
            },
            Ctl::Run(c.def.body),
        )
    } else if c.next < c.args.len() {
        bound(m, c, c.args[c.next as int])
    } else {
        match c.def.params@[c.next as int].default {
            Some(d) => put_off(m, Frame::Param { call: c }, Ctl::Eval(d)),
            None => err(
                m,
                (if c.entry {
                    "eval_call: 函数 '"@
                } else {
                    "函数 '"@
                }) + c.name + "' 缺少第 "@ + dec(c.next + 1) + " 个参数且无默认值"@,
            ),
        }
    }
}

/// The state once the next parameter is bound to `v`.
pub open spec fn bound(m: MachineV, c: CallingV, v: ValueV) -> MachineV {
    if c.next < c.def.params@.len() {
        goto(
            declare(m, c.def.params@[c.next as int].name@, v),
            Ctl::Bind { call: Calling { next: (c.next + 1) as usize, ..c } },
        )
    } else {
        crash(m)
    }
}

/// Restores the variables in reach after a call.
pub open spec fn leave_call(m: MachineV, saved_ns: Seq<Seq<char>>, saved_base: usize) -> MachineV {
    let n = pop_scope(m);
    MachineV { env: EnvV { ns: saved_ns, base: saved_base as nat, ..n.env }, ..n }
}

// ---------- registration ----------
/// Registers the functions `stmts[i..]` of a namespace under their full names; `count` is
/// the number registered so far.
pub open spec fn register_ns(
    funcs: Map<Seq<char>, FnDef>,
    stmts: Seq<Rc<Stmt>>,
    i: nat,
    prefix: Seq<Seq<char>>,
    count: u64,
) -> (Map<Seq<char>, FnDef>, u64)
    decreases stmts, stmts.len() - i,
{
    if i >= stmts.len() {
        (funcs, count)
    } else {
        match *stmts[i as int] {
            Stmt::FnDef { def } => register_ns(
                funcs.insert(join(prefix.push(def.name@), "::"@), *def),
                stmts,
                i + 1,
                prefix,
                count.wrapping_add(1),
            ),
            Stmt::Namespace { path, body } => {
                let (f, c) = register_ns(funcs, body@, 0, prefix + views(path@), count);
                register_ns(f, stmts, i + 1, prefix, c)
            },
            _ => register_ns(funcs, stmts, i + 1, prefix, count),
        }
    }
}

/// Registers the next top-level definition.
pub open spec fn register_step(m: MachineV, stmts: Block, next: usize, count: u64) -> MachineV {
    if next >= stmts@.len() {
        goto(m, Ctl::Text("已定义 "@ + dec(count as int) + " 个函数"@))
    } else {
        let after = (next + 1) as usize;
        match *stmts@[next as int] {
            Stmt::FnDef { def } => goto(
                put_func(m, def.name@, *def),
                Ctl::Register { stmts, next: after, count: count.wrapping_add(1) },
            ),
            Stmt::Namespace { path, body } => {
                let (f, c) = register_ns(m.session.funcs, body@, 0, views(path@), count);
                goto(
                    MachineV { session: SessionV { funcs: f, ..m.session }, ..m },
                    Ctl::Register { stmts, next: after, count: c },
                )
            },
            Stmt::VarDecl { name, ty, init } => put_off(
                MachineV { env: fresh_env(), ..m },
                Frame::RegisterVar { name: name@, stmts, next: after, count },
                Ctl::Eval(init),
            ),
            Stmt::Struct => err(m, "REPL v1 暂不支持 struct 定义"@),
            Stmt::Import => err(m, "REPL v1 暂不支持 import"@),
            Stmt::Using => err(m, "REPL v1 暂不支持 using"@),
            _ => err(m, "顶层只允许函数/类/import/using/命名空间/全局变量定义"@),
        }
    }
}

/// The first function `main` among `stmts[i..]`.
pub open spec fn find_main(stmts: Seq<Rc<Stmt>>, i: nat) -> Option<Rc<FnDef>>
    decreases stmts.len() - i,
{
    if i >= stmts.len() {
        None
    } else {
        match *stmts[i as int] {
            Stmt::FnDef { def } => if def.name@ == "main"@ {
                Some(def)
            } else {
                find_main(stmts, i + 1)
            },
            _ => find_main(stmts, i + 1),
        }
    }
}

/// The text that takes `code` as the body of a function.
pub open spec fn wrapped(code: Seq<char>) -> Seq<char> {
    "func main() {\n"@ + code + "\n}"@
}

// ---------- what comes back to a frame ----------
/// A value comes back to the frame `f`, which has been taken off.
pub open spec fn value_step(m: MachineV, f: FrameV, v: ValueV) -> MachineV {
    match f {
        Frame::Unary { op } => match (op, v) {
            (UnaryOp::Neg, ValueV::Int(n)) => if n == i64::MIN {
                crash(m)
            } else {
                value(m, ValueV::Int((-n) as i64))
            },
            (UnaryOp::Neg, ValueV::Float(x)) => goto(
                m,
                Ctl::Ask(RequestV::FloatNeg(x), AfterV::Float),
            ),
            (UnaryOp::Neg, _) => err(m, "一元负号只能作用于数字"@),
            (UnaryOp::Not, ValueV::Bool(b)) => value(m, ValueV::Bool(!b)),
            (UnaryOp::Not, ValueV::Trit(t)) => if t == i8::MIN {
                crash(m)
            } else {
                value(m, ValueV::Trit((-t) as i8))
            },
            (UnaryOp::Not, _) => err(m, "逻辑非只能作用于布尔"@),
            _ => crash(m),
        },
        Frame::BinaryRight { op, rhs } => put_off(
            m,
            Frame::BinaryApply { op, lhs: v },
            Ctl::Eval(rhs),
        ),
        Frame::BinaryApply { op, lhs } => apply(m, op, lhs, v),
        Frame::Ternary { then_expr, else_expr } => match truthy(v) {
            Ok(b) => goto(
                m,
                Ctl::Eval(
                    if b {
                        then_expr
                    } else {
                        else_expr
                    },
                ),
            ),
            Err(text) => err(m, text),
        },
        Frame::RangeEnd { end } => match v {
            ValueV::Int(n) => put_off(m, Frame::RangeMake { start: n }, Ctl::Eval(end)),
            _ => err(m, "范围起点必须是整数"@),
        },
        Frame::RangeMake { start } => match v {
            ValueV::Int(n) => value(m, ValueV::Range(start, n)),
            _ => err(m, "范围终点必须是整数"@),
        },
        Frame::Args { name, bare, args, done } => eval_args(m, name, bare, args, done.push(v)),
        Frame::IndexAt { index } => put_off(m, Frame::IndexRead { table: v }, Ctl::Eval(index)),
        Frame::IndexRead { table } => match v {
            ValueV::Int(i) => match table {
                ValueV::Table(cells) => match cell_at(
                    cells,
                    i,
                    "运行时错误: table_at 下标越界：索引 "@,
                ) {
                    Ok(x) => value(m, x),
                    Err(text) => err(m, text),
                },
                _ => err(m, "下标访问仅支持表"@),
            },
            _ => err(m, "下标必须是整数"@),
        },
        Frame::Cells { cells, done } => eval_cells(m, cells, done.push(v)),
        Frame::Push { name } => match lookup(m, name) {
            None => err(m, undeclared(name)),
            Some(ValueV::Table(cells)) => store(
                m,
                name,
                ValueV::Table(cells.push(v)),
                Ctl::Value(ValueV::Void),
            ),
            Some(_) => err(m, "table_push 的第 1 个参数必须是表"@),
        },
        Frame::StepStore { name, prefix, before } => store(
            m,
            name,
            v,
            Ctl::Value(
                if prefix {
                    v
                } else {
                    before
                },
            ),
        ),
        Frame::Declare { name, trit } => {
            let w = match v {
                ValueV::Bool(b) if trit => ValueV::Trit(
                    if b {
                        1i8
                    } else {
                        -1i8
                    },
                ),
                _ => v,
            };
            if is_declared(m, name) {
                err(m, "变量 '"@ + name + "' 重复声明"@)
            } else {
                flow(declare(m, name, w), None)
            }
        },
        Frame::ExprStmt => flow(m, Some(v)),
        Frame::Assign { target } => store(m, target, v, Ctl::Flow(None)),
        Frame::AssignOp { target, op, before } => apply(
            MachineV { frames: m.frames.push(Frame::Assign { target }), ..m },
            op,
            before,
            v,
        ),
        Frame::Return => goto(m, Ctl::Return(v)),
        Frame::If { then_branch, else_branch } => match truthy(v) {
            Ok(b) => goto(
                m,
                Ctl::Run(
                    if b {
                        then_branch
                    } else {
                        else_branch
                    },
                ),
            ),
            Err(text) => err(m, text),
        },
        Frame::WhileTest { cond, body, last } => match truthy(v) {
            Ok(b) => if b {
                put_off(m, Frame::WhileBody { cond, body }, Ctl::Run(body))
            } else {
                flow(m, last)
            },
            Err(text) => err(m, text),
        },
        Frame::ForStart { var, body } => match v {
            ValueV::Range(a, b) => for_range(m, var, body, a, b, None),
            ValueV::Table(cells) => for_table(m, var, body, cells, 0, None),
            _ => err(m, "for 的迭代对象必须是范围（0..10）"@),
        },
        Frame::SwitchStart { cases, default_body } => goto(
            m,
            Ctl::Case { sw: Switch { cases, default_body, subject: v, case: 0, pattern: 0 } },
        ),
        Frame::CaseFrom { sw, end } => match case_number(v) {
            Some(n) => put_off(m, Frame::CaseTo { sw, from: n }, Ctl::Eval(end)),
            None => err(m, "case 区间起点必须是整数或字符"@),
        },
        Frame::CaseTo { sw, from } => match case_number(v) {
            Some(to) => match case_number(sw.subject) {
                Some(x) => if from <= x && x < to {
                    case_hit(m, sw)
                } else {
                    goto(m, next_pattern(sw))
                },
                None => goto(m, next_pattern(sw)),
            },
            None => err(m, "case 区间终点必须是整数或字符"@),
        },
        Frame::CaseLit { sw } => apply(
            MachineV { frames: m.frames.push(Frame::CaseTest { sw }), ..m },
            BinaryOp::Eq,
            sw.subject,
            v,
        ),
        Frame::CaseTest { sw } => if v == ValueV::Bool(true) {
            case_hit(m, sw)
        } else {
            goto(m, next_pattern(sw))
        },
        Frame::CaseWhen { sw } => match truthy(v) {
            Ok(b) => if b && sw.case < sw.cases@.len() {
                goto(m, Ctl::Run(sw.cases@[sw.case as int].body))
            } else {
                goto(m, next_case(sw))
            },
            Err(text) => err(m, text),
        },
        Frame::StoreAt { name, cells, op, value } => match v {
            ValueV::Int(i) => if 0 <= i < cells.len() {
                put_off(
                    m,
                    match op {
                        Some(op) => Frame::StoreOp { name, cells, at: i as usize, op },
                        None => Frame::Store { name, cells, at: i as usize },
                    },
                    Ctl::Eval(value),
                )
            } else {
                err(
                    m,
                    out_of_range("运行时错误: table_at 下标越界：索引 "@, i, cells.len()),
                )
            },
            _ => err(m, "下标必须是整数"@),
        },
        Frame::StoreOp { name, cells, at, op } => if at < cells.len() {
            apply(
                MachineV { frames: m.frames.push(Frame::Store { name, cells, at }), ..m },
                op,
                cells[at as int],
                v,
            )
        } else {
            crash(m)
        },
        Frame::Store { name, cells, at } => if at < cells.len() {
            store(m, name, ValueV::Table(cells.update(at as int, v)), Ctl::Flow(None))
        } else {
            crash(m)
        },
        Frame::Param { call } => bound(m, call, v),
        Frame::RegisterVar { name, stmts, next, count } => goto(
            put_global(m, name, v),
            Ctl::Register { stmts, next, count },
        ),
        _ => crash(m),
    }
}

/// The text for the value that a body ended with.
pub open spec fn last_text(v: Option<ValueV>) -> Seq<char> {
    match v {
        Some(x) => repl_string(x),
        None => Seq::empty(),
    }
}

/// The end of a statement comes back to the frame `f`.
pub open spec fn flow_step(m: MachineV, f: FrameV, v: Option<ValueV>) -> MachineV {
    match f {
        Frame::Body { stmts, next } => if next < stmts@.len() {
            put_off(
                m,
                Frame::Body { stmts, next: (next + 1) as usize },
                Ctl::Exec(stmts@[next as int]),
            )
        } else {
            flow(pop_scope(m), v)
        },
        Frame::TopBody { stmts, next } => if next < stmts@.len() {
            put_off(
                m,
                Frame::TopBody { stmts, next: (next + 1) as usize },
                Ctl::Exec(stmts@[next as int]),
            )
        } else {
            goto(m, Ctl::Text(last_text(v)))
        },
        Frame::WhileBody { cond, body } => put_off(
            m,
            Frame::WhileTest { cond, body, last: v },
            Ctl::Eval(cond),
        ),
        Frame::ForRange { var, body, next, end } => for_range(
            pop_scope(m),
            var,
            body,
            next,
            end,
            v,
        ),
        Frame::ForTable { var, body, items, next } => for_table(
            pop_scope(m),
            var,
            body,
            items,
            next,
            v,
        ),
        Frame::CallEnd { saved_ns, saved_base } => value(
            leave_call(m, saved_ns, saved_base),
            match v {
                Some(x) => x,
                None => ValueV::Void,
            },
        ),
        Frame::EntryEnd { saved_ns, saved_base } => goto(
            leave_call(m, saved_ns, saved_base),
            Ctl::Text(last_text(v)),
        ),
        _ => crash(m),
    }
}

/// A `return` comes to the frame `f`: blocks and loops give way, calls take the value.
pub open spec fn return_step(m: MachineV, f: FrameV, v: ValueV) -> MachineV {
    match f {
        Frame::Body { .. } | Frame::ForRange { .. } | Frame::ForTable { .. } => goto(
            pop_scope(m),
            Ctl::Return(v),
        ),
        Frame::WhileBody { .. } => goto(m, Ctl::Return(v)),
        Frame::TopBody { .. } => goto(m, Ctl::Text(repl_string(v))),
        Frame::CallEnd { saved_ns, saved_base } => value(leave_call(m, saved_ns, saved_base), v),
        Frame::EntryEnd { saved_ns, saved_base } => goto(
            leave_call(m, saved_ns, saved_base),
            Ctl::Text(repl_string(v)),
        ),
        _ => crash(m),
    }
}

/// The result of an evaluation comes back to the frame `f`.
pub open spec fn text_step(m: MachineV, f: FrameV, text: Seq<char>) -> MachineV {
    match f {
        Frame::SessionEnd { outer } => match outer {
            Some(env) => value(MachineV { env, ..m }, ValueV::Str(text)),
            None => goto(m, Ctl::Done(Finish::Result(text))),
        },
        _ => crash(m),
    }
}

/// What the parser says comes back to the frame `f`.
pub open spec fn parsed_step(m: MachineV, f: FrameV, p: Parsed) -> MachineV {
    match f {
        Frame::EvalFirst { code } => match p {
            Parsed::LexError(text) => err(m, text@),
            Parsed::Program(prog) if prog.stmts@.len() > 0 => goto(
                m,
                Ctl::Register { stmts: prog.stmts, next: 0, count: 0 },
            ),
            _ => put_off(m, Frame::EvalSecond, Ctl::Parse(wrapped(code))),
        },
        Frame::EvalSecond => match p {
            Parsed::LexError(text) => err(m, text@),
            Parsed::SyntaxError(text) => err(m, text@),
            Parsed::Program(prog) => match find_main(prog.stmts@, 0) {
                Some(def) => put_off(
                    MachineV { env: fresh_env(), ..m },
                    Frame::TopBody { stmts: def.body, next: 0 },
                    Ctl::Flow(None),
                ),
                None => err(m, "内部错误: 包装后的 main 未找到"@),
            },
        },
        _ => crash(m),
    }
}

/// Whether the machine waits for its host.
pub open spec fn waiting(m: MachineV) -> bool {
    m.ctl is Parse || m.ctl is Ask
}

/// Whether the machine has come to an end.
pub open spec fn ended(m: MachineV) -> bool {
    m.ctl is Done
}

/// The state with its top frame taken off.
pub open spec fn popped(m: MachineV) -> MachineV {
    MachineV { frames: m.frames.drop_last(), ..m }
}

/// The state with nothing in hand: every move puts something new there.
pub open spec fn taken(m: MachineV) -> MachineV {
    goto(m, Ctl::Done(Finish::Crash))
}

/// One step: a machine that waits or has ended stays as it is.
pub open spec fn step(m: MachineV) -> MachineV {
    let n = taken(m);
    match m.ctl {
        Ctl::Eval(e) => eval_expr(n, *e),
        Ctl::Exec(s) => exec_stmt(n, *s),
        Ctl::Run(block) => put_off(
            push_scope(n, Map::empty()),
            Frame::Body { stmts: block, next: 0 },
            Ctl::Flow(None),
        ),
        Ctl::Value(v) => if m.frames.len() == 0 {
            crash(n)
        } else {
            value_step(popped(n), m.frames.last(), v)
        },
        Ctl::Flow(v) => if m.frames.len() == 0 {
            crash(n)
        } else {
            flow_step(popped(n), m.frames.last(), v)
        },
        Ctl::Return(v) => if m.frames.len() == 0 {
            crash(n)
        } else {
            return_step(popped(n), m.frames.last(), v)
        },
        Ctl::Text(text) => if m.frames.len() == 0 {
            crash(n)
        } else {
            text_step(popped(n), m.frames.last(), text)
        },
        Ctl::Call { name, args } => call_fn(n, name, args),
        Ctl::Bind { call } => bind_step(n, call),
        Ctl::Case { sw } => case_step(n, sw),
        Ctl::Register { stmts, next, count } => register_step(n, stmts, next, count),
        Ctl::Parse(_) => m,
        Ctl::Ask(_, _) => m,
        Ctl::Done(_) => m,
    }
}

/// The state after the host has answered; an answer that nobody waits for changes nothing.
pub open spec fn resume(m: MachineV, reply: Reply) -> MachineV {
    let n = taken(m);
    match m.ctl {
        Ctl::Parse(_) => if m.frames.len() == 0 {
            crash(n)
        } else {
            match reply {
                Reply::Parsed(p) => parsed_step(popped(n), m.frames.last(), p),
                _ => crash(popped(n)),
            }
        },
        Ctl::Ask(_, after) => match settled(after, reply) {
            OutcomeV::Val(v) => value(n, v),
            OutcomeV::Fail(text) => err(n, text),
            OutcomeV::Crash => crash(n),
        },
        _ => m,
    }
}

/// A state with nothing to do.
pub open spec fn idle(session: SessionV, msg: MsgV) -> MachineV {
    MachineV {
        ctl: Ctl::Done(Finish::Crash),
        frames: seq![Frame::SessionEnd { outer: None }],
        env: fresh_env(),
        session,
        msg,
    }
}

/// The state in which the evaluation of `code` starts.
pub open spec fn eval_start(session: SessionV, msg: MsgV, code: Seq<char>) -> MachineV {
    begin_eval(idle(session, msg), code)
}

/// The state in which the call of a registered function by name starts.
pub open spec fn call_start(
    session: SessionV,
    msg: MsgV,
    name: Seq<char>,
    arg: Seq<char>,
) -> MachineV {
    call_entry(idle(session, msg), name, arg)
}

/// The state after `n` steps.
pub open spec fn steps(m: MachineV, n: nat) -> MachineV
    decreases n,
{
    if n == 0 {
        m
    } else {
        steps(step(m), (n - 1) as nat)
    }
}

pub proof fn lemma_steps_snoc(m: MachineV, n: nat)
    ensures
        steps(m, n + 1) == step(steps(m, n)),
    decreases n,
{
    reveal_with_fuel(steps, 2);
    if n > 0 {
        lemma_steps_snoc(step(m), (n - 1) as nat);
    }
}

} // verus!
