//! The interpreter: a session that evaluates source texts step by step, asking its host
//! for everything that lies outside the language.
use crate::ast::{BinaryOp, Block, Expr, ExprKind, Exprs, FnDef, Stmt, TyKw, UnaryOp};
use crate::builtins::{
    bit_write, call_builtin, is_builtin_name, out_of_range_text, read_cell, CallOut,
};
use crate::dict::Dict;
use crate::host::{c_str, c_string, settle, After, Outcome, Parsed, Reply, Request};
use crate::msg::MsgState;
use crate::semantics;
use crate::semantics::{
    Calling, CallingV, Ctl, CtlV, EnvV, Finish, Frame, FrameV, MachineV, ScopeV, SessionV, Switch,
};
use crate::text::{
    cat2, cat3, cat5, contains_sep, dec_u64, dec_usize, join_strings, lit, same, split_path_string,
    views,
};
use crate::value::{
    cells_view, eval_binary, is_comparison, lemma_table_view, value_matches_ty, BinOut, Value,
    ValueV,
};
use std::rc::Rc;
use vstd::prelude::*;

verus! {

/// What outlives an evaluation: top-level variables and functions.
pub struct Session {
    /// Whether paths are written as on Windows.
    pub windows: bool,
    pub globals: Dict<Value>,
    pub funcs: Dict<Rc<FnDef>>,
}

impl View for Session {
    type V = SessionV;

    open spec fn view(&self) -> SessionV {
        SessionV { windows: self.windows, globals: self.globals@, funcs: self.funcs@ }
    }
}

impl Session {
    /// A session with nothing defined, in which paths are written as on Unix.
    pub fn new() -> (s: Session)
        ensures
            !s@.windows,
            s@.globals == Map::<Seq<char>, ValueV>::empty(),
            s@.funcs == Map::<Seq<char>, FnDef>::empty(),
    {
        Session { windows: false, globals: Dict::new(), funcs: Dict::new() }
    }

    /// Starts the evaluation of a source text: definitions are registered, anything else is
    /// run as the body of a function.
    pub fn eval(self, msg: MsgState, code: &str) -> (m: Machine)
        ensures
            m@ == semantics::eval_start(self@, msg@, code@),
    {
        let mut m = Machine::idle(self, msg);
        m.begin_eval(lit(code));
        m
    }

    /// Starts the call of a registered function by its full name, with one string.
    pub fn eval_call(self, msg: MsgState, name: &str, arg: &str) -> (m: Machine)
        ensures
            m@ == semantics::call_start(self@, msg@, name@, arg@),
    {
        let mut m = Machine::idle(self, msg);
        m.call_entry(lit(name), lit(arg));
        m
    }
}

impl Default for Session {
    fn default() -> (s: Session)
        ensures
            !s@.windows,
            s@.globals == Map::<Seq<char>, ValueV>::empty(),
            s@.funcs == Map::<Seq<char>, FnDef>::empty(),
    {
        Session::new()
    }
}

/// The variables in reach.
pub struct Env {
    pub scopes: Vec<Dict<Value>>,
    pub ns: Vec<String>,
    pub base: usize,
}

pub open spec fn scopes_view(s: Seq<Dict<Value>>) -> Seq<ScopeV> {
    s.map_values(|d: Dict<Value>| d@)
}

impl View for Env {
    type V = EnvV;

    open spec fn view(&self) -> EnvV {
        EnvV { scopes: scopes_view(self.scopes@), ns: views(self.ns@), base: self.base as nat }
    }
}

impl Env {
    fn new() -> (e: Env)
        ensures
            e@ == semantics::fresh_env(),
    {
        let e = Env { scopes: Vec::new(), ns: Vec::new(), base: 0 };
        assert(e@.scopes =~= Seq::<ScopeV>::empty());
        assert(e@.ns =~= Seq::<Seq<char>>::empty());
        e
    }
}

pub type XFrame = Frame<Value, Vec<Value>, String, Vec<String>, Env>;

pub type XCtl = Ctl<Value, Vec<Value>, String, Vec<String>, Request, After>;

pub type XCalling = Calling<Vec<Value>, String, Vec<String>>;

pub open spec fn opt_view(v: Option<Value>) -> Option<ValueV> {
    match v {
        Some(x) => Some(x@),
        None => None,
    }
}

pub open spec fn switch_view(s: Switch<Value>) -> Switch<ValueV> {
    Switch {
        cases: s.cases,
        default_body: s.default_body,
        subject: s.subject@,
        case: s.case,
        pattern: s.pattern,
    }
}

pub open spec fn calling_view(c: XCalling) -> CallingV {
    Calling {
        name: c.name@,
        def: c.def,
        args: cells_view(c.args@),
        next: c.next,
        entry: c.entry,
        saved_ns: views(c.saved_ns@),
        saved_base: c.saved_base,
        base: c.base,
    }
}

pub open spec fn frame_view(f: XFrame) -> FrameV {
    match f {
        Frame::Unary { op } => Frame::Unary { op },
        Frame::BinaryRight { op, rhs } => Frame::BinaryRight { op, rhs },
        Frame::BinaryApply { op, lhs } => Frame::BinaryApply { op, lhs: lhs@ },
        Frame::Ternary { then_expr, else_expr } => Frame::Ternary { then_expr, else_expr },
        Frame::RangeEnd { end } => Frame::RangeEnd { end },
        Frame::RangeMake { start } => Frame::RangeMake { start },
        Frame::Args { name, bare, args, done } => Frame::Args {
            name: name@,
            bare,
            args,
            done: cells_view(done@),
        },
        Frame::IndexAt { index } => Frame::IndexAt { index },
        Frame::IndexRead { table } => Frame::IndexRead { table: table@ },
        Frame::Cells { cells, done } => Frame::Cells { cells, done: cells_view(done@) },
        Frame::Push { name } => Frame::Push { name: name@ },
        Frame::StepStore { name, prefix, before } => Frame::StepStore {
            name: name@,
            prefix,
            before: before@,
        },
        Frame::Declare { name, trit } => Frame::Declare { name: name@, trit },
        Frame::ExprStmt => Frame::ExprStmt,
        Frame::Assign { target } => Frame::Assign { target: target@ },
        Frame::AssignOp { target, op, before } => Frame::AssignOp {
            target: target@,
            op,
            before: before@,
        },
        Frame::Return => Frame::Return,
        Frame::If { then_branch, else_branch } => Frame::If { then_branch, else_branch },
        Frame::WhileTest { cond, body, last } => Frame::WhileTest {
            cond,
            body,
            last: opt_view(last),
        },
        Frame::ForStart { var, body } => Frame::ForStart { var: var@, body },
        Frame::SwitchStart { cases, default_body } => Frame::SwitchStart { cases, default_body },
        Frame::CaseFrom { sw, end } => Frame::CaseFrom { sw: switch_view(sw), end },
        Frame::CaseTo { sw, from } => Frame::CaseTo { sw: switch_view(sw), from },
        Frame::CaseLit { sw } => Frame::CaseLit { sw: switch_view(sw) },
        Frame::CaseTest { sw } => Frame::CaseTest { sw: switch_view(sw) },
        Frame::CaseWhen { sw } => Frame::CaseWhen { sw: switch_view(sw) },
        Frame::StoreAt { name, cells, op, value } => Frame::StoreAt {
            name: name@,
            cells: cells_view(cells@),
            op,
            value,
        },
        Frame::StoreOp { name, cells, at, op } => Frame::StoreOp {
            name: name@,
            cells: cells_view(cells@),
            at,
            op,
        },
        Frame::Store { name, cells, at } => Frame::Store {
            name: name@,
            cells: cells_view(cells@),
            at,
        },
        Frame::Param { call } => Frame::Param { call: calling_view(call) },
        Frame::RegisterVar { name, stmts, next, count } => Frame::RegisterVar {
            name: name@,
            stmts,
            next,
            count,
        },
        Frame::Body { stmts, next } => Frame::Body { stmts, next },
        Frame::WhileBody { cond, body } => Frame::WhileBody { cond, body },
        Frame::ForRange { var, body, next, end } => Frame::ForRange { var: var@, body, next, end },
        Frame::ForTable { var, body, items, next } => Frame::ForTable {
            var: var@,
            body,
            items: cells_view(items@),
            next,
        },
        Frame::CallEnd { saved_ns, saved_base } => Frame::CallEnd {
            saved_ns: views(saved_ns@),
            saved_base,
        },
        Frame::EntryEnd { saved_ns, saved_base } => Frame::EntryEnd {
            saved_ns: views(saved_ns@),
            saved_base,
        },
        Frame::TopBody { stmts, next } => Frame::TopBody { stmts, next },
        Frame::SessionEnd { outer } => Frame::SessionEnd {
            outer: match outer {
                Some(e) => Some(e@),
                None => None,
            },
        },
        Frame::EvalFirst { code } => Frame::EvalFirst { code: code@ },
        Frame::EvalSecond => Frame::EvalSecond,
    }
}

pub open spec fn finish_view(f: Finish<String>) -> Finish<Seq<char>> {
    match f {
        Finish::Result(s) => Finish::Result(s@),
        Finish::Failure(s) => Finish::Failure(s@),
        Finish::Crash => Finish::Crash,
    }
}

pub open spec fn ctl_view(c: XCtl) -> CtlV {
    match c {
        Ctl::Eval(e) => Ctl::Eval(e),
        Ctl::Exec(s) => Ctl::Exec(s),
        Ctl::Run(b) => Ctl::Run(b),
        Ctl::Value(v) => Ctl::Value(v@),
        Ctl::Flow(v) => Ctl::Flow(opt_view(v)),
        Ctl::Return(v) => Ctl::Return(v@),
        Ctl::Text(s) => Ctl::Text(s@),
        Ctl::Call { name, args } => Ctl::Call { name: name@, args: cells_view(args@) },
        Ctl::Bind { call } => Ctl::Bind { call: calling_view(call) },
        Ctl::Case { sw } => Ctl::Case { sw: switch_view(sw) },
        Ctl::Register { stmts, next, count } => Ctl::Register { stmts, next, count },
        Ctl::Parse(s) => Ctl::Parse(s@),
        Ctl::Ask(q, a) => Ctl::Ask(q@, a@),
        Ctl::Done(f) => Ctl::Done(finish_view(f)),
    }
}

pub open spec fn frames_view(f: Seq<XFrame>) -> Seq<FrameV> {
    f.map_values(|x: XFrame| frame_view(x))
}

/// An evaluation in progress.
pub struct Machine {
    pub ctl: XCtl,
    pub frames: Vec<XFrame>,
    pub env: Env,
    pub session: Session,
    pub msg: MsgState,
}

impl View for Machine {
    type V = MachineV;

    open spec fn view(&self) -> MachineV {
        MachineV {
            ctl: ctl_view(self.ctl),
            frames: frames_view(self.frames@),
            env: self.env@,
            session: self.session@,
            msg: self.msg@,
        }
    }
}

fn dup_strings(v: &Vec<String>) -> (r: Vec<String>)
    ensures
        views(r@) == views(v@),
{
    let mut r: Vec<String> = Vec::new();
    for i in 0..v.len()
        invariant
            r@.len() == i,
            forall|j: int| 0 <= j < i ==> (#[trigger] r@[j])@ == v@[j]@,
    {
        r.push(v[i].clone());
    }
    assert(views(r@) =~= views(v@));
    r
}

/// The path `v` with one name more, joined.
fn join_with(v: &Vec<String>, name: &str) -> (r: String)
    ensures
        r@ == crate::text::join(views(v@).push(name@), "::"@),
{
    let mut segs = dup_strings(v);
    let ghost before = views(segs@);
    segs.push(lit(name));
    assert(views(segs@) =~= before.push(name@));
    join_strings(&segs, "::")
}

/// The variable whose table `bit_write` changes.
fn bit_target(name: &str, args: &Exprs) -> (r: Option<String>)
    ensures
        match r {
            Some(t) => semantics::bit_target(name@, *args) == Some(t@),
            None => semantics::bit_target(name@, *args) is None,
        },
{
    if !same(name, "bit_write") || args.len() != 3 {
        return None;
    }
    match &args[0].kind {
        ExprKind::Var(t) => Some(t.clone()),
        _ => None,
    }
}

fn undeclared(name: &str) -> (r: String)
    ensures
        r@ == semantics::undeclared(name@),
{
    cat3("变量 '", name, "' 未声明")
}

fn case_number(v: &Value) -> (r: Option<i64>)
    ensures
        r == semantics::case_number(v@),
{
    match v {
        Value::Int(n) => Some(*n),
        Value::Char(c) => Some(*c as u32 as i64),
        _ => None,
    }
}

fn next_pattern(sw: Switch<Value>) -> (c: XCtl)
    ensures
        ctl_view(c) == semantics::next_pattern(switch_view(sw)),
{
    let mut sw = sw;
    sw.pattern = sw.pattern.wrapping_add(1);
    Ctl::Case { sw }
}

fn next_case(sw: Switch<Value>) -> (c: XCtl)
    ensures
        ctl_view(c) == semantics::next_case(switch_view(sw)),
{
    let mut sw = sw;
    sw.case = sw.case.wrapping_add(1);
    sw.pattern = 0;
    Ctl::Case { sw }
}

fn required(def: &FnDef) -> (n: usize)
    ensures
        n == semantics::required(*def, 0),
{
    let mut i: usize = 0;
    while i < def.params.len()
        invariant
            i <= def.params@.len(),
            semantics::required(*def, 0) == semantics::required(*def, i as nat),
        decreases def.params@.len() - i,
    {
        if def.params[i].default.is_some() {
            return i;
        }
        i = i + 1;
    }
    i
}

fn ns_of(name: &str) -> (r: Vec<String>)
    ensures
        views(r@) == semantics::ns_of(name@),
{
    if contains_sep(name) {
        let mut segs = split_path_string(name);
        let ghost before = views(segs@);
        segs.pop();
        assert(views(segs@) =~= before.drop_last());
        segs
    } else {
        let r: Vec<String> = Vec::new();
        assert(views(r@) =~= Seq::<Seq<char>>::empty());
        r
    }
}

fn find_main(stmts: &Block) -> (r: Option<Rc<FnDef>>)
    ensures
        r == semantics::find_main(stmts@, 0),
{
    for i in 0..stmts.len()
        invariant
            semantics::find_main(stmts@, 0) == semantics::find_main(stmts@, i as nat),
    {
        match &*stmts[i] {
            Stmt::FnDef { def } => {
                if same(def.name.as_str(), "main") {
                    return Some(def.clone());
                }
            },
            _ => {},
        }
    }
    None
}

/// Registers the functions of a namespace, and of the namespaces in it, under their full
/// names; returns the number of functions registered so far.
fn register_ns_funcs(
    funcs: &mut Dict<Rc<FnDef>>,
    stmts: &Block,
    prefix: &Vec<String>,
    count: u64,
) -> (r: u64)
    ensures
        (final(funcs)@, r) == semantics::register_ns(
            old(funcs)@,
            stmts@,
            0,
            views(prefix@),
            count,
        ),
    decreases stmts,
{
    let mut total: u64 = count;
    let mut i: usize = 0;
    let n: usize = stmts.len();
    while i < n
        invariant
            n == stmts@.len(),
            i <= n,
            semantics::register_ns(old(funcs)@, stmts@, 0, views(prefix@), count)
                == semantics::register_ns(
                funcs@,
                stmts@,
                i as nat,
                views(prefix@),
                total,
            ),
        decreases n - i,
    {
        match &*stmts[i] {
            Stmt::FnDef { def } => {
                let full = join_with(prefix, def.name.as_str());
                funcs.put(full.as_str(), def.clone());
                total = total.wrapping_add(1);
            },
            Stmt::Namespace { path, body } => {
                let mut segs = dup_strings(prefix);
                let ghost before = views(segs@);
                for k in 0..path.len()
                    invariant
                        views(segs@) == before + views(path@).take(k as int),
                {
                    let ghost mid = views(segs@);
                    segs.push(path[k].clone());
                    assert(views(segs@) =~= mid.push(path@[k as int]@));
                    assert(before + views(path@).take(k + 1) =~= mid.push(path@[k as int]@));
                }
                assert(views(path@).take(path@.len() as int) =~= views(path@));
                proof {
                    assert(decreases_to!(stmts@ => stmts@[i as int]));
                }
                total = register_ns_funcs(funcs, body, &segs, total);
            },
            _ => {},
        }
        i = i + 1;
    }
    total
}

impl Machine {
    // ---------- small moves ----------
    fn goto(&mut self, c: XCtl)
        ensures
            final(self)@ == semantics::goto(old(self)@, ctl_view(c)),
    {
        self.ctl = c;
    }

    fn push_frame(&mut self, f: XFrame)
        ensures
            final(self)@ == (MachineV {
                frames: old(self)@.frames.push(frame_view(f)),
                ..old(self)@
            }),
    {
        let ghost before = self.frames@;
        self.frames.push(f);
        assert(frames_view(self.frames@) =~= frames_view(before).push(frame_view(f)));
    }

    fn put_off(&mut self, f: XFrame, c: XCtl)
        ensures
            final(self)@ == semantics::put_off(old(self)@, frame_view(f), ctl_view(c)),
    {
        self.push_frame(f);
        self.ctl = c;
    }

    fn err(&mut self, text: String)
        ensures
            final(self)@ == semantics::err(old(self)@, text@),
    {
        self.ctl = Ctl::Done(Finish::Failure(text));
    }

    fn crash(&mut self)
        ensures
            final(self)@ == semantics::crash(old(self)@),
    {
        self.ctl = Ctl::Done(Finish::Crash);
    }

    fn value(&mut self, v: Value)
        ensures
            final(self)@ == semantics::value(old(self)@, v@),
    {
        self.ctl = Ctl::Value(v);
    }

    fn flow(&mut self, v: Option<Value>)
        ensures
            final(self)@ == semantics::flow(old(self)@, opt_view(v)),
    {
        self.ctl = Ctl::Flow(v);
    }

    fn pop_frame(&mut self) -> (f: Option<XFrame>)
        ensures
            match f {
                Some(x) => old(self)@.frames.len() > 0 && frame_view(x) == old(self)@.frames.last()
                    && final(self)@ == semantics::popped(old(self)@),
                None => old(self)@.frames.len() == 0 && final(self)@ == old(self)@,
            },
    {
        let ghost before = self.frames@;
        let f = self.frames.pop();
        proof {
            if before.len() > 0 {
                assert(frames_view(self.frames@) =~= frames_view(before).drop_last());
                assert(frames_view(before).last() == frame_view(before.last()));
            }
        }
        f
    }

    // ---------- variables ----------
    fn push_scope(&mut self, s: Dict<Value>)
        ensures
            final(self)@ == semantics::push_scope(old(self)@, s@),
    {
        let ghost before = self.env.scopes@;
        self.env.scopes.push(s);
        assert(scopes_view(self.env.scopes@) =~= scopes_view(before).push(s@));
    }

    fn pop_scope(&mut self)
        ensures
            final(self)@ == semantics::pop_scope(old(self)@),
    {
        let ghost before = self.env.scopes@;
        let gone = self.env.scopes.pop();
        proof {
            if before.len() > 0 {
                assert(scopes_view(self.env.scopes@) =~= scopes_view(before).drop_last());
            } else {
                assert(scopes_view(self.env.scopes@) =~= scopes_view(before));
            }
        }
    }

    /// The innermost scope of the running function that holds `name`.
    fn find_scope(&self, name: &str) -> (r: Option<usize>)
        ensures
            match r {
                Some(i) => i < self.env.scopes@.len() && semantics::find_scope(
                    self@.env.scopes,
                    self@.env.base,
                    self@.env.scopes.len(),
                    name@,
                ) == Some(i as int) && self@.env.scopes[i as int].dom().contains(name@),
                None => semantics::find_scope(
                    self@.env.scopes,
                    self@.env.base,
                    self@.env.scopes.len(),
                    name@,
                ) is None,
            },
    {
        let mut n: usize = self.env.scopes.len();
        while n > self.env.base
            invariant
                n <= self.env.scopes@.len(),
                semantics::find_scope(
                    self@.env.scopes,
                    self@.env.base,
                    self@.env.scopes.len(),
                    name@,
                ) == semantics::find_scope(self@.env.scopes, self@.env.base, n as nat, name@),
            decreases n,
        {
            assert(self@.env.scopes[n - 1] == self.env.scopes@[n - 1]@);
            if self.env.scopes[n - 1].has(name) {
                return Some(n - 1);
            }
            n = n - 1;
        }
        None
    }

    /// The value of a variable: from the scopes of the running function, else from the top
    /// level.
    fn lookup(&self, name: &str) -> (r: Option<Value>)
        ensures
            match r {
                Some(v) => semantics::lookup(self@, name@) == Some(v@),
                None => semantics::lookup(self@, name@) is None,
            },
    {
        match self.find_scope(name) {
            Some(i) => {
                assert(self@.env.scopes[i as int] == self.env.scopes@[i as int]@);
                match self.env.scopes[i].get(name) {
                    Some(v) => Some(v.dup()),
                    None => None,
                }
            },
            None => match self.session.globals.get(name) {
                Some(v) => Some(v.dup()),
                None => None,
            },
        }
    }

    fn is_declared(&self, name: &str) -> (r: bool)
        ensures
            r == semantics::is_declared(self@, name@),
    {
        match self.find_scope(name) {
            Some(_) => true,
            None => self.session.globals.has(name),
        }
    }

    fn put_in_scope(&mut self, i: usize, name: &str, v: Value)
        requires
            i < old(self).env.scopes@.len(),
        ensures
            final(self)@ == (MachineV {
                env: EnvV {
                    scopes: old(self)@.env.scopes.update(
                        i as int,
                        old(self)@.env.scopes[i as int].insert(name@, v@),
                    ),
                    ..old(self)@.env
                },
                ..old(self)@
            }),
    {
        let ghost before = self.env.scopes@;
        self.env.scopes[i].put(name, v);
        assert(scopes_view(self.env.scopes@) =~= scopes_view(before).update(
            i as int,
            before[i as int]@.insert(name@, v@),
        ));
    }

    /// Declares a variable in the innermost scope, or at the top level.
    fn declare(&mut self, name: &str, v: Value)
        ensures
            final(self)@ == semantics::declare(old(self)@, name@, v@),
    {
        let n: usize = self.env.scopes.len();
        if n == 0 {
            self.session.globals.put(name, v);
        } else {
            self.put_in_scope(n - 1, name, v);
        }
    }

    /// Puts a value into a declared variable; `false` where it is not declared.
    fn assign(&mut self, name: &str, v: Value) -> (ok: bool)
        ensures
            match semantics::assign(old(self)@, name@, v@) {
                Some(m) => ok && final(self)@ == m,
                None => !ok && final(self)@ == old(self)@,
            },
    {
        match self.find_scope(name) {
            Some(i) => {
                self.put_in_scope(i, name, v);
                true
            },
            None => {
                if self.session.globals.has(name) {
                    self.session.globals.put(name, v);
                    true
                } else {
                    false
                }
            },
        }
    }

    fn store(&mut self, name: &str, v: Value, c: XCtl)
        ensures
            final(self)@ == semantics::store(old(self)@, name@, v@, ctl_view(c)),
    {
        if self.assign(name, v) {
            self.goto(c);
        } else {
            self.err(undeclared(name));
        }
    }

    fn put_func(&mut self, name: &str, def: Rc<FnDef>)
        ensures
            final(self)@ == semantics::put_func(old(self)@, name@, *def),
    {
        self.session.funcs.put(name, def);
    }

    // ---------- expressions ----------
    fn apply(&mut self, op: BinaryOp, l: &Value, r: &Value)
        ensures
            final(self)@ == semantics::apply(old(self)@, op, l@, r@),
    {
        match eval_binary(op, l, r) {
            BinOut::Val(v) => self.value(v),
            BinOut::Fail(text) => self.err(text),
            BinOut::Float(op, a, b) => {
                let after = if is_comparison(op) {
                    After::Flag
                } else {
                    After::Float
                };
                self.goto(Ctl::Ask(Request::FloatBinary { op, a, b }, after))
            },
            BinOut::Crash => self.crash(),
        }
    }

    /// The name under which a bare call finds its function.
    fn resolve(&self, name: &str) -> (r: String)
        ensures
            r@ == semantics::resolve(self@, name@),
    {
        if self.session.funcs.has(name) || is_builtin_name(name) || self.env.ns.len() == 0 {
            return lit(name);
        }
        let full = join_with(&self.env.ns, name);
        if self.session.funcs.has(full.as_str()) {
            full
        } else {
            lit(name)
        }
    }

    /// The path that a chain of names spells, where no variable is among them.
    fn ns_segments(&self, e: &Expr) -> (r: Option<Vec<String>>)
        ensures
            match r {
                Some(v) => semantics::ns_segments(self@, *e) == Some(views(v@)),
                None => semantics::ns_segments(self@, *e) is None,
            },
        decreases e,
    {
        match &e.kind {
            ExprKind::Var(name) => {
                if self.is_declared(name.as_str()) {
                    None
                } else {
                    let mut v: Vec<String> = Vec::new();
                    v.push(name.clone());
                    assert(views(v@) =~= seq![name@]);
                    Some(v)
                }
            },
            ExprKind::FieldAccess { base, field } => match self.ns_segments(base) {
                Some(v) => {
                    let mut v = v;
                    let ghost before = views(v@);
                    v.push(field.clone());
                    assert(views(v@) =~= before.push(field@));
                    Some(v)
                },
                None => None,
            },
            _ => None,
        }
    }

    /// Whether some function lies in the namespace `segs`.
    fn has_ns_prefix(&self, segs: &Vec<String>) -> (r: bool)
        ensures
            r == semantics::has_ns_prefix(self@, views(segs@)),
    {
        let path = join_strings(segs, "::");
        let p = cat2(path.as_str(), "::");
        let r = self.session.funcs.has_key_prefix(p.as_str());
        proof {
            let funcs = self@.session.funcs;
            assert(funcs == self.session.funcs@);
            if r {
                let k = choose|k: Seq<char>| #[trigger]
                    self.session.funcs@.dom().contains(k) && crate::text::starts_with(k, p@);
                assert(funcs.dom().contains(k));
            }
        }
        r
    }

    /// The namespace that the receiver of a method call names.
    fn receiver_ns(&self, receiver: &Expr) -> (r: Option<Vec<String>>)
        ensures
            match r {
                Some(v) => semantics::receiver_ns(self@, *receiver) == Some(views(v@)),
                None => semantics::receiver_ns(self@, *receiver) is None,
            },
    {
        match &receiver.kind {
            ExprKind::Path { segments } => Some(dup_strings(segments)),
            ExprKind::Var(_) | ExprKind::FieldAccess { .. } => match self.ns_segments(receiver) {
                Some(segs) => {
                    if self.has_ns_prefix(&segs) {
                        Some(segs)
                    } else {
                        None
                    }
                },
                None => None,
            },
            _ => None,
        }
    }

    /// `bit_write(t, i, b)`, which changes the variable `t` itself.
    fn write_bit(&mut self, name: &str, at: &Value, bit: &Value)
        ensures
            final(self)@ == semantics::write_bit(old(self)@, name@, at@, bit@),
    {
        broadcast use lemma_table_view;

        match self.lookup(name) {
            Some(t) => match bit_write(&t, at, bit) {
                Ok((cells, ok)) => self.store(
                    name,
                    Value::Table(cells),
                    Ctl::Value(Value::Bool(ok)),
                ),
                Err(text) => self.err(text),
            },
            None => self.err(undeclared(name)),
        }
    }

    fn eval_args(&mut self, name: String, bare: bool, args: Exprs, done: Vec<Value>)
        ensures
            final(self)@ == semantics::eval_args(
                old(self)@,
                name@,
                bare,
                args,
                cells_view(done@),
            ),
    {
        let n: usize = done.len();
        if n < args.len() {
            let e = args[n].clone();
            self.put_off(Frame::Args { name, bare, args, done }, Ctl::Eval(e));
        } else {
            if bare && n == 3 {
                match bit_target(name.as_str(), &args) {
                    Some(t) => {
                        assert(cells_view(done@)[1] == done@[1]@);
                        assert(cells_view(done@)[2] == done@[2]@);
                        self.write_bit(t.as_str(), &done[1], &done[2]);
                        return ;
                    },
                    None => {},
                }
            }
            let full = if bare {
                self.resolve(name.as_str())
            } else {
                name
            };
            self.goto(Ctl::Call { name: full, args: done });
        }
    }

    fn eval_cells(&mut self, cells: Exprs, done: Vec<Value>)
        ensures
            final(self)@ == semantics::eval_cells(old(self)@, cells, cells_view(done@)),
    {
        broadcast use lemma_table_view;

        let n: usize = done.len();
        if n < cells.len() {
            let e = cells[n].clone();
            self.put_off(Frame::Cells { cells, done }, Ctl::Eval(e));
        } else {
            self.value(Value::Table(done));
        }
    }

    /// `++x`, `--x`, `x++`, `x--`.
    fn eval_inc_dec(&mut self, op: UnaryOp, operand: &Expr)
        ensures
            final(self)@ == semantics::eval_inc_dec(old(self)@, op, *operand),
    {
        let up: bool = matches!(op, UnaryOp::PreInc | UnaryOp::PostInc);
        let prefix: bool = matches!(op, UnaryOp::PreInc | UnaryOp::PreDec);
        match &operand.kind {
            ExprKind::Var(name) => match self.lookup(name.as_str()) {
                None => self.err(undeclared(name.as_str())),
                Some(Value::Int(n)) => {
                    let d: Option<i64> = if up {
                        n.checked_add(1)
                    } else {
                        n.checked_sub(1)
                    };
                    match d {
                        Some(d) => {
                            let back: i64 = if prefix {
                                d
                            } else {
                                n
                            };
                            self.store(
                                name.as_str(),
                                Value::Int(d),
                                Ctl::Value(Value::Int(back)),
                            )
                        },
                        None => self.crash(),
                    }
                },
                Some(Value::Float(x)) => {
                    let before = Value::Float(x.dup());
                    self.put_off(
                        Frame::StepStore { name: name.clone(), prefix, before },
                        Ctl::Ask(Request::FloatStep { x, up }, After::Float),
                    )
                },
                Some(_) => self.err(lit("自增/自减只能作用于数字")),
            },
            _ => self.err(lit("自增/自减只支持变量")),
        }
    }

    /// `table_push(t, x)`, which changes the variable `t` itself.
    fn eval_table_push(&mut self, args: &Exprs)
        ensures
            final(self)@ == semantics::eval_table_push(old(self)@, *args),
    {
        if args.len() != 2 {
            self.err(lit("table_push 需要表与元素参数"));
            return ;
        }
        match &args[0].kind {
            ExprKind::Var(name) => {
                let e = args[1].clone();
                self.put_off(Frame::Push { name: name.clone() }, Ctl::Eval(e))
            },
            _ => self.err(lit("table_push 的第 1 个参数必须是表变量")),
        }
    }

    /// The first step of evaluating an expression.
    fn eval_expr(&mut self, e: &Expr)
        ensures
            final(self)@ == semantics::eval_expr(old(self)@, *e),
    {
        match &e.kind {
            ExprKind::IntLit(n) => self.value(Value::Int(*n)),
            ExprKind::FloatLit { value, ir } => self.value(Value::Float(value.dup())),
            ExprKind::StrLit(s) => self.value(Value::Str(s.clone())),
            ExprKind::CharLit(c) => self.value(Value::Char(*c)),
            ExprKind::BoolLit(b) => self.value(Value::Bool(*b)),
            ExprKind::TritLit(t) => self.value(Value::Trit(*t)),
            ExprKind::Var(name) => match self.lookup(name.as_str()) {
                Some(v) => self.value(v),
                None => self.err(undeclared(name.as_str())),
            },
            ExprKind::Unary { op, operand } => {
                if matches!(
                    op,
                    UnaryOp::PreInc | UnaryOp::PreDec | UnaryOp::PostInc | UnaryOp::PostDec
                ) {
                    self.eval_inc_dec(*op, operand)
                } else {
                    self.put_off(Frame::Unary { op: *op }, Ctl::Eval(operand.clone()))
                }
            },
            ExprKind::Binary { op, lhs, rhs } => self.put_off(
                Frame::BinaryRight { op: *op, rhs: rhs.clone() },
                Ctl::Eval(lhs.clone()),
            ),
            ExprKind::Ternary { cond, then_expr, else_expr } => self.put_off(
                Frame::Ternary { then_expr: then_expr.clone(), else_expr: else_expr.clone() },
                Ctl::Eval(cond.clone()),
            ),
            ExprKind::Range { start, end } => self.put_off(
                Frame::RangeEnd { end: end.clone() },
                Ctl::Eval(start.clone()),
            ),
            ExprKind::TypeLit { ty } => self.err(
                lit("类型字面量只能用作 switch 的 case 类型匹配"),
            ),
            ExprKind::Call { name, args } => {
                if same(name.as_str(), "table_push") {
                    self.eval_table_push(args)
                } else {
                    let done: Vec<Value> = Vec::new();
                    assert(cells_view(done@) =~= Seq::<ValueV>::empty());
                    self.eval_args(name.clone(), true, args.clone(), done)
                }
            },
            ExprKind::Index { base, index } => self.put_off(
                Frame::IndexAt { index: index.clone() },
                Ctl::Eval(base.clone()),
            ),
            ExprKind::TableLit { cells } => {
                let done: Vec<Value> = Vec::new();
                assert(cells_view(done@) =~= Seq::<ValueV>::empty());
                self.eval_cells(cells.clone(), done)
            },
            ExprKind::TupleLit { fields } => self.err(lit("REPL v1 暂不支持元组")),
            ExprKind::FieldAccess { base, field } => self.err(
                lit("REPL v1 暂不支持字段访问（类/元组）"),
            ),
            ExprKind::MethodCall { receiver, method, args } => match self.receiver_ns(receiver) {
                Some(segs) => {
                    let done: Vec<Value> = Vec::new();
                    assert(cells_view(done@) =~= Seq::<ValueV>::empty());
                    let full = join_with(&segs, method.as_str());
                    self.eval_args(full, false, args.clone(), done)
                },
                None => self.err(lit("REPL v1 暂不支持 struct 方法调用")),
            },
            ExprKind::Path { segments } => {
                let path = join_strings(segments, "::");
                self.err(
                    cat3("命名空间路径 '", path.as_str(), "' 不能作为值使用（只能用于调用）"),
                )
            },
        }
    }

    // ---------- statements ----------
    /// The first step of executing a statement.
    fn exec_stmt(&mut self, s: &Stmt)
        ensures
            final(self)@ == semantics::exec_stmt(old(self)@, *s),
    {
        match s {
            Stmt::VarDecl { name, ty, init } => {
                let trit: bool = match ty {
                    Some(t) => t.is_named(TyKw::Trit),
                    None => false,
                };
                self.put_off(
                    Frame::Declare { name: name.clone(), trit },
                    Ctl::Eval(init.clone()),
                )
            },
            Stmt::Expr { expr } => self.put_off(Frame::ExprStmt, Ctl::Eval(expr.clone())),
            Stmt::Assign { target, op, value } => match op {
                None => self.put_off(
                    Frame::Assign { target: target.clone() },
                    Ctl::Eval(value.clone()),
                ),
                Some(op) => match self.lookup(target.as_str()) {
                    Some(v) => self.put_off(
                        Frame::AssignOp { target: target.clone(), op: *op, before: v },
                        Ctl::Eval(value.clone()),
                    ),
                    None => self.err(undeclared(target.as_str())),
                },
            },
            Stmt::Return { expr } => match expr {
                Some(e) => self.put_off(Frame::Return, Ctl::Eval(e.clone())),
                None => self.goto(Ctl::Return(Value::Void)),
            },
            Stmt::If { cond, then_branch, else_branch } => self.put_off(
                Frame::If { then_branch: then_branch.clone(), else_branch: else_branch.clone() },
                Ctl::Eval(cond.clone()),
            ),
            Stmt::While { label, cond, body } => self.put_off(
                Frame::WhileTest { cond: cond.clone(), body: body.clone(), last: None },
                Ctl::Eval(cond.clone()),
            ),
            Stmt::For { label, var, iter, body } => self.put_off(
                Frame::ForStart { var: var.clone(), body: body.clone() },
                Ctl::Eval(iter.clone()),
            ),
            Stmt::Switch { subject, cases, default_body } => self.put_off(
                Frame::SwitchStart { cases: cases.clone(), default_body: default_body.clone() },
                Ctl::Eval(subject.clone()),
            ),
            Stmt::Break { label } => self.crash(),
            Stmt::Continue { label } => self.crash(),
            Stmt::Import => self.err(lit("REPL v1 暂不支持 import")),
            Stmt::Using => self.flow(None),
            Stmt::Struct => self.err(lit("REPL v1 暂不支持 struct 定义")),
            Stmt::FnDef { def } => {
                self.put_func(def.name.as_str(), def.clone());
                self.flow(None)
            },
            Stmt::Namespace { path, body } => self.flow(None),
            Stmt::FieldAssign { base, field, op, value } => self.err(
                lit("REPL v1 暂不支持字段赋值（类）"),
            ),
            Stmt::IndexAssign { target, op, value } => self.exec_index_assign(target, *op, value),
        }
    }

    /// `t[i] = v` and `t[i] += v`.
    fn exec_index_assign(&mut self, target: &Expr, op: Option<BinaryOp>, value: &Rc<Expr>)
        ensures
            final(self)@ == semantics::exec_index_assign(old(self)@, *target, op, *value),
    {
        broadcast use lemma_table_view;

        match &target.kind {
            ExprKind::Index { base, index } => match &base.kind {
                ExprKind::Var(name) => match self.lookup(name.as_str()) {
                    None => self.err(undeclared(name.as_str())),
                    Some(Value::Table(cells)) => self.put_off(
                        Frame::StoreAt { name: name.clone(), cells, op, value: value.clone() },
                        Ctl::Eval(index.clone()),
                    ),
                    Some(v) => self.err(cat2("下标赋值的对象必须是表，实际是 ", v.kind_name())),
                },
                _ => self.err(lit("下标赋值暂只支持单层表变量（t[i]）；二维表元素暂不支持写")),
            },
            _ => self.err(lit("下标赋值的目标必须是表元素访问（t[i]）")),
        }
    }

    fn for_range(&mut self, var: String, body: Block, i: i64, end: i64, last: Option<Value>)
        ensures
            final(self)@ == semantics::for_range(
                old(self)@,
                var@,
                body,
                i,
                end,
                opt_view(last),
            ),
    {
        if i < end {
            let mut scope: Dict<Value> = Dict::new();
            scope.put(var.as_str(), Value::Int(i));
            self.push_scope(scope);
            let b = body.clone();
            self.put_off(Frame::ForRange { var, body, next: i + 1, end }, Ctl::Run(b));
        } else {
            self.flow(last);
        }
    }

    fn for_table(
        &mut self,
        var: String,
        body: Block,
        items: Vec<Value>,
        i: usize,
        last: Option<Value>,
    )
        ensures
            final(self)@ == semantics::for_table(
                old(self)@,
                var@,
                body,
                cells_view(items@),
                i,
                opt_view(last),
            ),
    {
        if i < items.len() {
            let mut scope: Dict<Value> = Dict::new();
            scope.put(var.as_str(), items[i].dup());
            self.push_scope(scope);
            let b = body.clone();
            self.put_off(Frame::ForTable { var, body, items, next: i + 1 }, Ctl::Run(b));
        } else {
            self.flow(last);
        }
    }

    fn case_hit(&mut self, sw: Switch<Value>)
        ensures
            final(self)@ == semantics::case_hit(old(self)@, switch_view(sw)),
    {
        if sw.case < sw.cases.len() {
            let guard: Option<Rc<Expr>> = match &sw.cases[sw.case].when {
                Some(w) => Some(w.clone()),
                None => None,
            };
            match guard {
                Some(w) => self.put_off(Frame::CaseWhen { sw }, Ctl::Eval(w)),
                None => {
                    let body = sw.cases[sw.case].body.clone();
                    self.goto(Ctl::Run(body))
                },
            }
        } else {
            self.crash();
        }
    }

    fn case_step(&mut self, sw: Switch<Value>)
        ensures
            final(self)@ == semantics::case_step(old(self)@, switch_view(sw)),
    {
        if sw.case >= sw.cases.len() {
            self.goto(Ctl::Run(sw.default_body));
            return ;
        }
        let patterns = sw.cases[sw.case].patterns.clone();
        if sw.pattern >= patterns.len() {
            self.goto(next_case(sw));
            return ;
        }
        let pat = patterns[sw.pattern].clone();
        match &pat.kind {
            ExprKind::Range { start, end } => self.put_off(
                Frame::CaseFrom { sw, end: end.clone() },
                Ctl::Eval(start.clone()),
            ),
            ExprKind::TypeLit { ty } => {
                if value_matches_ty(&sw.subject, ty) {
                    self.case_hit(sw)
                } else {
                    self.goto(next_pattern(sw))
                }
            },
            _ => self.put_off(Frame::CaseLit { sw }, Ctl::Eval(pat.clone())),
        }
    }

    // ---------- calls ----------
    fn enter(&mut self, name: String, def: Rc<FnDef>, args: Vec<Value>, entry: bool)
        ensures
            final(self)@ == semantics::enter(
                old(self)@,
                name@,
                *def,
                cells_view(args@),
                entry,
            ),
    {
        let base: usize = self.env.scopes.len();
        let mut saved_ns = ns_of(name.as_str());
        std::mem::swap(&mut saved_ns, &mut self.env.ns);
        self.push_scope(Dict::new());
        let saved_base: usize = self.env.base;
        self.goto(
            Ctl::Bind {
                call: Calling { name, def, args, next: 0, entry, saved_ns, saved_base, base },
            },
        );
    }

    fn call_user(&mut self, name: String, args: Vec<Value>)
        ensures
            final(self)@ == semantics::call_user(old(self)@, name@, cells_view(args@)),
    {
        let def: Rc<FnDef> = match self.session.funcs.get(name.as_str()) {
            Some(d) => d.clone(),
            None => {
                self.err(cat3("未定义的函数 '", name.as_str(), "'"));
                return ;
            },
        };
        let need: usize = required(&def);
        if args.len() < need || args.len() > def.params.len() {
            let a = dec_usize(need);
            let b = dec_usize(def.params.len());
            let c = dec_usize(args.len());
            let mut text = cat5("函数 '", name.as_str(), "' 期望 ", a.as_str(), "-");
            text.append(b.as_str());
            text.append(" 个参数，实际 ");
            text.append(c.as_str());
            text.append(" 个");
            self.err(text);
        } else {
            self.enter(name, def, args, false);
        }
    }

    fn call_entry(&mut self, name: String, arg: String)
        ensures
            final(self)@ == semantics::call_entry(old(self)@, name@, arg@),
    {
        let def: Rc<FnDef> = match self.session.funcs.get(name.as_str()) {
            Some(d) => d.clone(),
            None => {
                self.err(cat3("eval_call: 未定义的函数 '", name.as_str(), "'"));
                return ;
            },
        };
        if required(&def) > 1 || def.params.len() < 1 {
            let n = dec_usize(def.params.len());
            self.err(
                cat5(
                    "eval_call: 函数 '",
                    name.as_str(),
                    "' 必须恰好接收 1 个字符串参数（实际形参 ",
                    n.as_str(),
                    " 个）",
                ),
            );
        } else {
            let mut args: Vec<Value> = Vec::new();
            args.push(Value::Str(arg));
            assert(cells_view(args@) =~= seq![ValueV::Str(arg@)]);
            self.enter(name, def, args, true);
        }
    }

    fn nest(&mut self)
        ensures
            final(self)@ == semantics::nest(old(self)@),
    {
        let mut outer = Env::new();
        std::mem::swap(&mut outer, &mut self.env);
        self.push_frame(Frame::SessionEnd { outer: Some(outer) });
    }

    fn begin_eval(&mut self, code: String)
        ensures
            final(self)@ == semantics::begin_eval(old(self)@, code@),
    {
        let text = code.clone();
        self.put_off(Frame::EvalFirst { code }, Ctl::Parse(text));
    }

    /// Calls a function: a built-in one, else one of the user's.
    fn call_fn(&mut self, name: String, args: Vec<Value>)
        ensures
            final(self)@ == semantics::call_fn(old(self)@, name@, cells_view(args@)),
    {
        match call_builtin(&mut self.msg, self.session.windows, name.as_str(), &args) {
            CallOut::Val(v) => self.value(v),
            CallOut::Fail(text) => self.err(text),
            CallOut::Ask(q, a) => self.goto(Ctl::Ask(q, a)),
            CallOut::Eval(code) => {
                self.nest();
                self.begin_eval(code)
            },
            CallOut::EvalCall(f, arg) => {
                self.nest();
                self.call_entry(f, arg)
            },
            CallOut::Unknown => self.call_user(name, args),
        }
    }

    fn bound(&mut self, call: XCalling, v: Value)
        ensures
            final(self)@ == semantics::bound(old(self)@, calling_view(call), v@),
    {
        if call.next < call.def.params.len() {
            self.declare(call.def.params[call.next].name.as_str(), v);
            let mut call = call;
            call.next = call.next + 1;
            self.goto(Ctl::Bind { call });
        } else {
            self.crash();
        }
    }

    fn bind_step(&mut self, call: XCalling)
        ensures
            final(self)@ == semantics::bind_step(old(self)@, calling_view(call)),
    {
        if call.next >= call.def.params.len() {
            self.env.base = call.base;
            let body = call.def.body.clone();
            let f = if call.entry {
                Frame::EntryEnd { saved_ns: call.saved_ns, saved_base: call.saved_base }
            } else {
                Frame::CallEnd { saved_ns: call.saved_ns, saved_base: call.saved_base }
            };
            self.put_off(f, Ctl::Run(body));
        } else if call.next < call.args.len() {
            let v = call.args[call.next].dup();
            self.bound(call, v);
        } else {
            let default: Option<Rc<Expr>> = match &call.def.params[call.next].default {
                Some(d) => Some(d.clone()),
                None => None,
            };
            match default {
                Some(d) => self.put_off(Frame::Param { call }, Ctl::Eval(d)),
                None => {
                    let n = dec_usize(call.next + 1);
                    let head = if call.entry {
                        "eval_call: 函数 '"
                    } else {
                        "函数 '"
                    };
                    self.err(
                        cat5(
                            head,
                            call.name.as_str(),
                            "' 缺少第 ",
                            n.as_str(),
                            " 个参数且无默认值",
                        ),
                    )
                },
            }
        }
    }

    fn leave_call(&mut self, saved_ns: Vec<String>, saved_base: usize)
        ensures
            final(self)@ == semantics::leave_call(old(self)@, views(saved_ns@), saved_base),
    {
        self.pop_scope();
        self.env.ns = saved_ns;
        self.env.base = saved_base;
    }

    // ---------- registration ----------
    /// Registers the next top-level definition.
    fn register_step(&mut self, stmts: Block, next: usize, count: u64)
        ensures
            final(self)@ == semantics::register_step(old(self)@, stmts, next, count),
    {
        if next >= stmts.len() {
            let n = dec_u64(count);
            self.goto(Ctl::Text(cat3("已定义 ", n.as_str(), " 个函数")));
            return ;
        }
        let stmt = stmts[next].clone();
        let after: usize = next + 1;
        match &*stmt {
            Stmt::FnDef { def } => {
                self.put_func(def.name.as_str(), def.clone());
                self.goto(Ctl::Register { stmts, next: after, count: count.wrapping_add(1) })
            },
            Stmt::Namespace { path, body } => {
                let c = register_ns_funcs(&mut self.session.funcs, body, path, count);
                self.goto(Ctl::Register { stmts, next: after, count: c })
            },
            Stmt::VarDecl { name, ty, init } => {
                self.env = Env::new();
                self.put_off(
                    Frame::RegisterVar { name: name.clone(), stmts, next: after, count },
                    Ctl::Eval(init.clone()),
                )
            },
            Stmt::Struct => self.err(lit("REPL v1 暂不支持 struct 定义")),
            Stmt::Import => self.err(lit("REPL v1 暂不支持 import")),
            Stmt::Using => self.err(lit("REPL v1 暂不支持 using")),
            _ => self.err(lit("顶层只允许函数/类/import/using/命名空间/全局变量定义")),
        }
    }

    // ---------- what comes back to a frame ----------
    /// A value comes back to the frame `f`.
    fn value_step(&mut self, f: XFrame, v: Value)
        ensures
            final(self)@ == semantics::value_step(old(self)@, frame_view(f), v@),
    {
        broadcast use lemma_table_view;

        match f {
            Frame::Unary { op } => match (op, v) {
                (UnaryOp::Neg, Value::Int(n)) => {
                    if n == i64::MIN {
                        self.crash()
                    } else {
                        self.value(Value::Int(-n))
                    }
                },
                (UnaryOp::Neg, Value::Float(x)) => self.goto(
                    Ctl::Ask(Request::FloatNeg(x), After::Float),
                ),
                (UnaryOp::Neg, _) => self.err(lit("一元负号只能作用于数字")),
                (UnaryOp::Not, Value::Bool(b)) => self.value(Value::Bool(!b)),
                (UnaryOp::Not, Value::Trit(t)) => {
                    if t == i8::MIN {
                        self.crash()
                    } else {
                        self.value(Value::Trit(-t))
                    }
                },
                (UnaryOp::Not, _) => self.err(lit("逻辑非只能作用于布尔")),
                _ => self.crash(),
            },
            Frame::BinaryRight { op, rhs } => self.put_off(
                Frame::BinaryApply { op, lhs: v },
                Ctl::Eval(rhs),
            ),
            Frame::BinaryApply { op, lhs } => self.apply(op, &lhs, &v),
            Frame::Ternary { then_expr, else_expr } => match v.is_truthy() {
                Ok(b) => self.goto(
                    Ctl::Eval(
                        if b {
                            then_expr
                        } else {
                            else_expr
                        },
                    ),
                ),
                Err(text) => self.err(text),
            },
            Frame::RangeEnd { end } => match v {
                Value::Int(n) => self.put_off(Frame::RangeMake { start: n }, Ctl::Eval(end)),
                _ => self.err(lit("范围起点必须是整数")),
            },
            Frame::RangeMake { start } => match v {
                Value::Int(n) => self.value(Value::Range(start, n)),
                _ => self.err(lit("范围终点必须是整数")),
            },
            Frame::Args { name, bare, args, done } => {
                let mut done = done;
                let ghost before = cells_view(done@);
                done.push(v);
                assert(cells_view(done@) =~= before.push(v@));
                self.eval_args(name, bare, args, done)
            },
            Frame::IndexAt { index } => self.put_off(
                Frame::IndexRead { table: v },
                Ctl::Eval(index),
            ),
            Frame::IndexRead { table } => match v {
                Value::Int(i) => match table {
                    Value::Table(cells) => match read_cell(
                        &cells,
                        i,
                        "运行时错误: table_at 下标越界：索引 ",
                    ) {
                        Ok(x) => self.value(x),
                        Err(text) => self.err(text),
                    },
                    _ => self.err(lit("下标访问仅支持表")),
                },
                _ => self.err(lit("下标必须是整数")),
            },
            Frame::Cells { cells, done } => {
                let mut done = done;
                let ghost before = cells_view(done@);
                done.push(v);
                assert(cells_view(done@) =~= before.push(v@));
                self.eval_cells(cells, done)
            },
            Frame::Push { name } => match self.lookup(name.as_str()) {
                None => self.err(undeclared(name.as_str())),
                Some(Value::Table(cells)) => {
                    let mut cells = cells;
                    let ghost before = cells_view(cells@);
                    cells.push(v);
                    assert(cells_view(cells@) =~= before.push(v@));
                    self.store(name.as_str(), Value::Table(cells), Ctl::Value(Value::Void))
                },
                Some(_) => self.err(lit("table_push 的第 1 个参数必须是表")),
            },
            Frame::StepStore { name, prefix, before } => {
                let back = if prefix {
                    v.dup()
                } else {
                    before
                };
                self.store(name.as_str(), v, Ctl::Value(back))
            },
            Frame::Declare { name, trit } => {
                let w = match v {
                    Value::Bool(b) => {
                        if trit {
                            Value::Trit(
                                if b {
                                    1
                                } else {
                                    -1
                                },
                            )
                        } else {
                            Value::Bool(b)
                        }
                    },
                    other => other,
                };
                if self.is_declared(name.as_str()) {
                    self.err(cat3("变量 '", name.as_str(), "' 重复声明"))
                } else {
                    self.declare(name.as_str(), w);
                    self.flow(None)
                }
            },
            Frame::ExprStmt => self.flow(Some(v)),
            Frame::Assign { target } => self.store(target.as_str(), v, Ctl::Flow(None)),
            Frame::AssignOp { target, op, before } => {
                self.push_frame(Frame::Assign { target });
                self.apply(op, &before, &v)
            },
            Frame::Return => self.goto(Ctl::Return(v)),
            Frame::If { then_branch, else_branch } => match v.is_truthy() {
                Ok(b) => self.goto(
                    Ctl::Run(
                        if b {
                            then_branch
                        } else {
                            else_branch
                        },
                    ),
                ),
                Err(text) => self.err(text),
            },
            Frame::WhileTest { cond, body, last } => match v.is_truthy() {
                Ok(b) => {
                    if b {
                        let run = body.clone();
                        self.put_off(Frame::WhileBody { cond, body }, Ctl::Run(run))
                    } else {
                        self.flow(last)
                    }
                },
                Err(text) => self.err(text),
            },
            Frame::ForStart { var, body } => match v {
                Value::Range(a, b) => self.for_range(var, body, a, b, None),
                Value::Table(cells) => self.for_table(var, body, cells, 0, None),
                _ => self.err(lit("for 的迭代对象必须是范围（0..10）")),
            },
            Frame::SwitchStart { cases, default_body } => self.goto(
                Ctl::Case { sw: Switch { cases, default_body, subject: v, case: 0, pattern: 0 } },
            ),
            Frame::CaseFrom { sw, end } => match case_number(&v) {
                Some(n) => self.put_off(Frame::CaseTo { sw, from: n }, Ctl::Eval(end)),
                None => self.err(lit("case 区间起点必须是整数或字符")),
            },
            Frame::CaseTo { sw, from } => match case_number(&v) {
                Some(to) => match case_number(&sw.subject) {
                    Some(x) => {
                        if from <= x && x < to {
                            self.case_hit(sw)
                        } else {
                            self.goto(next_pattern(sw))
                        }
                    },
                    None => self.goto(next_pattern(sw)),
                },
                None => self.err(lit("case 区间终点必须是整数或字符")),
            },
            Frame::CaseLit { sw } => {
                let subject = sw.subject.dup();
                self.push_frame(Frame::CaseTest { sw });
                self.apply(BinaryOp::Eq, &subject, &v)
            },
            Frame::CaseTest { sw } => {
                if matches!(v, Value::Bool(true)) {
                    self.case_hit(sw)
                } else {
                    self.goto(next_pattern(sw))
                }
            },
            Frame::CaseWhen { sw } => match v.is_truthy() {
                Ok(b) => {
                    if b && sw.case < sw.cases.len() {
                        let body = sw.cases[sw.case].body.clone();
                        self.goto(Ctl::Run(body))
                    } else {
                        self.goto(next_case(sw))
                    }
                },
                Err(text) => self.err(text),
            },
            Frame::StoreAt { name, cells, op, value } => match v {
                Value::Int(i) => {
                    if i < 0 || i as u64 >= cells.len() as u64 {
                        self.err(
                            out_of_range_text(
                                "运行时错误: table_at 下标越界：索引 ",
                                i,
                                cells.len(),
                            ),
                        )
                    } else {
                        let at: usize = i as usize;
                        let f = match op {
                            Some(op) => Frame::StoreOp { name, cells, at, op },
                            None => Frame::Store { name, cells, at },
                        };
                        self.put_off(f, Ctl::Eval(value))
                    }
                },
                _ => self.err(lit("下标必须是整数")),
            },
            Frame::StoreOp { name, cells, at, op } => {
                if at < cells.len() {
                    let before = cells[at].dup();
                    self.push_frame(Frame::Store { name, cells, at });
                    self.apply(op, &before, &v)
                } else {
                    self.crash()
                }
            },
            Frame::Store { name, cells, at } => {
                if at < cells.len() {
                    let mut cells = cells;
                    let ghost before = cells_view(cells@);
                    cells.set(at, v);
                    assert(cells_view(cells@) =~= before.update(at as int, v@));
                    self.store(name.as_str(), Value::Table(cells), Ctl::Flow(None))
                } else {
                    self.crash()
                }
            },
            Frame::Param { call } => self.bound(call, v),
            Frame::RegisterVar { name, stmts, next, count } => {
                self.session.globals.put(name.as_str(), v);
                self.goto(Ctl::Register { stmts, next, count })
            },
            _ => self.crash(),
        }
    }

    /// The end of a statement comes back to the frame `f`.
    fn flow_step(&mut self, f: XFrame, v: Option<Value>)
        ensures
            final(self)@ == semantics::flow_step(old(self)@, frame_view(f), opt_view(v)),
    {
        match f {
            Frame::Body { stmts, next } => {
                if next < stmts.len() {
                    let s = stmts[next].clone();
                    self.put_off(Frame::Body { stmts, next: next + 1 }, Ctl::Exec(s))
                } else {
                    self.pop_scope();
                    self.flow(v)
                }
            },
            Frame::TopBody { stmts, next } => {
                if next < stmts.len() {
                    let s = stmts[next].clone();
                    self.put_off(Frame::TopBody { stmts, next: next + 1 }, Ctl::Exec(s))
                } else {
                    self.goto(Ctl::Text(last_text(&v)))
                }
            },
            Frame::WhileBody { cond, body } => {
                let e = cond.clone();
                self.put_off(Frame::WhileTest { cond, body, last: v }, Ctl::Eval(e))
            },
            Frame::ForRange { var, body, next, end } => {
                self.pop_scope();
                self.for_range(var, body, next, end, v)
            },
            Frame::ForTable { var, body, items, next } => {
                self.pop_scope();
                self.for_table(var, body, items, next, v)
            },
            Frame::CallEnd { saved_ns, saved_base } => {
                self.leave_call(saved_ns, saved_base);
                self.value(
                    match v {
                        Some(x) => x,
                        None => Value::Void,
                    },
                )
            },
            Frame::EntryEnd { saved_ns, saved_base } => {
                self.leave_call(saved_ns, saved_base);
                self.goto(Ctl::Text(last_text(&v)))
            },
            _ => self.crash(),
        }
    }

    /// A `return` comes to the frame `f`.
    fn return_step(&mut self, f: XFrame, v: Value)
        ensures
            final(self)@ == semantics::return_step(old(self)@, frame_view(f), v@),
    {
        match f {
            Frame::Body { .. } | Frame::ForRange { .. } | Frame::ForTable { .. } => {
                self.pop_scope();
                self.goto(Ctl::Return(v))
            },
            Frame::WhileBody { .. } => self.goto(Ctl::Return(v)),
            Frame::TopBody { .. } => self.goto(Ctl::Text(v.to_repl_string())),
            Frame::CallEnd { saved_ns, saved_base } => {
                self.leave_call(saved_ns, saved_base);
                self.value(v)
            },
            Frame::EntryEnd { saved_ns, saved_base } => {
                self.leave_call(saved_ns, saved_base);
                self.goto(Ctl::Text(v.to_repl_string()))
            },
            _ => self.crash(),
        }
    }

    /// The result of an evaluation comes back to the frame `f`.
    fn text_step(&mut self, f: XFrame, text: String)
        ensures
            final(self)@ == semantics::text_step(old(self)@, frame_view(f), text@),
    {
        match f {
            Frame::SessionEnd { outer } => match outer {
                Some(env) => {
                    self.env = env;
                    self.value(Value::Str(text))
                },
                None => self.goto(Ctl::Done(Finish::Result(text))),
            },
            _ => self.crash(),
        }
    }

    /// What the parser says comes back to the frame `f`.
    fn parsed_step(&mut self, f: XFrame, p: Parsed)
        ensures
            final(self)@ == semantics::parsed_step(old(self)@, frame_view(f), p),
    {
        match f {
            Frame::EvalFirst { code } => {
                let again = cat3("func main() {\n", code.as_str(), "\n}");
                match p {
                    Parsed::LexError(text) => self.err(text),
                    Parsed::SyntaxError(_) => self.put_off(Frame::EvalSecond, Ctl::Parse(again)),
                    Parsed::Program(prog) => {
                        if prog.stmts.len() > 0 {
                            self.goto(Ctl::Register { stmts: prog.stmts, next: 0, count: 0 })
                        } else {
                            self.put_off(Frame::EvalSecond, Ctl::Parse(again))
                        }
                    },
                }
            },
            Frame::EvalSecond => match p {
                Parsed::LexError(text) => self.err(text),
                Parsed::SyntaxError(text) => self.err(text),
                Parsed::Program(prog) => match find_main(&prog.stmts) {
                    Some(def) => {
                        self.env = Env::new();
                        let stmts = def.body.clone();
                        self.put_off(Frame::TopBody { stmts, next: 0 }, Ctl::Flow(None))
                    },
                    None => self.err(lit("内部错误: 包装后的 main 未找到")),
                },
            },
            _ => self.crash(),
        }
    }

    // ---------- running ----------
    fn idle(session: Session, msg: MsgState) -> (m: Machine)
        ensures
            m@ == semantics::idle(session@, msg@),
    {
        let mut m = Machine {
            ctl: Ctl::Done(Finish::Crash),
            frames: Vec::new(),
            env: Env::new(),
            session,
            msg,
        };
        m.frames.push(Frame::SessionEnd { outer: None });
        assert(m@.frames =~= semantics::idle(session@, msg@).frames);
        m
    }

    /// Steps until the machine waits for its host, has ended, or has made `limit` steps;
    /// returns whether it is still going.
    pub fn run(&mut self, limit: u64) -> (going: bool)
        ensures
            going == !(semantics::waiting(final(self)@) || semantics::ended(final(self)@)),
            exists|n: nat|
                n <= limit && final(self)@ == #[trigger] semantics::steps(old(self)@, n),
            going ==> final(self)@ == semantics::steps(old(self)@, limit as nat),
    {
        let mut left: u64 = limit;
        let ghost mut n: nat = 0;
        loop
            invariant
                n + left == limit,
                self@ == semantics::steps(old(self)@, n),
            decreases left,
        {
            if matches!(self.ctl, Ctl::Parse(_) | Ctl::Ask(_, _) | Ctl::Done(_)) {
                return false;
            }
            if left == 0 {
                return true;
            }
            self.step();
            left = left - 1;
            proof {
                semantics::lemma_steps_snoc(old(self)@, n);
                n = n + 1;
            }
        }
    }

    /// One step; a machine that waits for its host or has ended stays as it is.
    pub fn step(&mut self)
        ensures
            final(self)@ == semantics::step(old(self)@),
    {
        if matches!(self.ctl, Ctl::Parse(_) | Ctl::Ask(_, _) | Ctl::Done(_)) {
            return ;
        }
        let mut ctl: XCtl = Ctl::Done(Finish::Crash);
        std::mem::swap(&mut ctl, &mut self.ctl);
        match ctl {
            Ctl::Eval(e) => self.eval_expr(&e),
            Ctl::Exec(s) => self.exec_stmt(&s),
            Ctl::Run(block) => {
                self.push_scope(Dict::new());
                self.put_off(Frame::Body { stmts: block, next: 0 }, Ctl::Flow(None))
            },
            Ctl::Value(v) => match self.pop_frame() {
                Some(f) => self.value_step(f, v),
                None => self.crash(),
            },
            Ctl::Flow(v) => match self.pop_frame() {
                Some(f) => self.flow_step(f, v),
                None => self.crash(),
            },
            Ctl::Return(v) => match self.pop_frame() {
                Some(f) => self.return_step(f, v),
                None => self.crash(),
            },
            Ctl::Text(text) => match self.pop_frame() {
                Some(f) => self.text_step(f, text),
                None => self.crash(),
            },
            Ctl::Call { name, args } => self.call_fn(name, args),
            Ctl::Bind { call } => self.bind_step(call),
            Ctl::Case { sw } => self.case_step(sw),
            Ctl::Register { stmts, next, count } => self.register_step(stmts, next, count),
            _ => self.crash(),
        }
    }

    /// Takes the host's answer; one that nobody waits for changes nothing.
    pub fn resume(&mut self, reply: Reply)
        ensures
            final(self)@ == semantics::resume(old(self)@, reply),
    {
        if !matches!(self.ctl, Ctl::Parse(_) | Ctl::Ask(_, _)) {
            return ;
        }
        let mut ctl: XCtl = Ctl::Done(Finish::Crash);
        std::mem::swap(&mut ctl, &mut self.ctl);
        match ctl {
            Ctl::Parse(_) => match self.pop_frame() {
                Some(f) => match reply {
                    Reply::Parsed(p) => self.parsed_step(f, p),
                    _ => self.crash(),
                },
                None => self.crash(),
            },
            Ctl::Ask(_, after) => match settle(after, reply) {
                Outcome::Val(v) => self.value(v),
                Outcome::Fail(text) => self.err(text),
                Outcome::Crash => self.crash(),
            },
            _ => self.crash(),
        }
    }
}

/// What a caller across the language border gets to see of the end of an evaluation: the
/// result or the message, as a C string.
pub open spec fn border_text(f: Finish<Seq<char>>) -> Seq<char> {
    match f {
        Finish::Result(s) => c_str(s),
        Finish::Failure(s) => c_str(s),
        Finish::Crash => "内部错误: 解释器崩溃"@,
    }
}

/// The text that a caller across the language border gets.
pub fn c_guard(f: Finish<String>) -> (r: String)
    ensures
        r@ == border_text(finish_view(f)),
{
    match f {
        Finish::Result(s) => c_string(s.as_str()),
        Finish::Failure(s) => c_string(s.as_str()),
        Finish::Crash => lit("内部错误: 解释器崩溃"),
    }
}

fn last_text(v: &Option<Value>) -> (r: String)
    ensures
        r@ == semantics::last_text(opt_view(*v)),
{
    match v {
        Some(x) => x.to_repl_string(),
        None => String::new(),
    }
}

} // verus!
