//! The state of the generator of LLVM IR, and the pieces of text it writes.
use crate::dict::Dict;
use crate::irtext::{constant_bytes, constant_text, escape_ir_string};
use crate::numbering::{at, black_from, find_black, is_white, stands_at, white};
use crate::text::{cat2, cat3, cat6, cat7, chars_of, dec, dec_u64, dec_usize, same, string_of, views};
use vstd::prelude::*;

verus! {

/// A value in the code: the text that stands for it and its LLVM type.
pub struct Operand {
    pub v: String,
    pub t: String,
}

/// What an `Operand` is, as characters.
pub struct OperandV {
    pub v: Seq<char>,
    pub t: Seq<char>,
}

impl View for Operand {
    type V = OperandV;

    open spec fn view(&self) -> OperandV {
        OperandV { v: self.v@, t: self.t@ }
    }
}

/// A variable: the address it lives at and its LLVM type.
pub struct Bind {
    pub value: String,
    pub ty: String,
}

/// What a `Bind` is, as characters.
pub struct BindV {
    pub value: Seq<char>,
    pub ty: Seq<char>,
}

impl View for Bind {
    type V = BindV;

    open spec fn view(&self) -> BindV {
        BindV { value: self.value@, ty: self.ty@ }
    }
}

/// A global constant under the text it holds.
pub struct Const {
    pub name: String,
}

impl View for Const {
    type V = Seq<char>;

    open spec fn view(&self) -> Seq<char> {
        self.name@
    }
}

/// A loop around the current statement: its label, and the blocks that `continue` and
/// `break` jump to.
pub struct LoopCtx {
    pub label: Option<String>,
    pub next: String,
    pub exit: String,
}

/// What a `LoopCtx` is, as characters.
pub struct LoopV {
    pub label: Option<Seq<char>>,
    pub next: Seq<char>,
    pub exit: Seq<char>,
}

pub open spec fn opt_view(s: Option<String>) -> Option<Seq<char>> {
    match s {
        Some(x) => Some(x@),
        None => None,
    }
}

impl View for LoopCtx {
    type V = LoopV;

    open spec fn view(&self) -> LoopV {
        LoopV { label: opt_view(self.label), next: self.next@, exit: self.exit@ }
    }
}

/// What the generator has written and what it knows while it writes.
pub struct GenV {
    /// The text so far.
    pub out: Seq<char>,
    /// The global constants so far.
    pub globals: Seq<char>,
    /// The last number given to a register or a label of the current function.
    pub reg: u32,
    /// How many registers and labels the functions took so far.
    pub taken: nat,
    /// The variables in scope, the innermost scope last.
    pub scopes: Seq<Map<Seq<char>, BindV>>,
    /// The number of the last global constant.
    pub str_count: u32,
    /// The texts that have a global constant, with its name.
    pub consts: Map<Seq<char>, Seq<char>>,
    /// The library functions that are listed, in the order in which they came up.
    pub used: Seq<Seq<char>>,
    /// The library functions that the text calls.
    pub called: Set<Seq<char>>,
    /// The full name of the current function.
    pub cur_fn: Seq<char>,
    /// The loops around the current statement, the innermost last.
    pub loops: Seq<LoopV>,
    /// The stack slots that the current function's entry block has to reserve.
    pub allocas: Seq<Seq<char>>,
    /// The first error.
    pub error: Option<Seq<char>>,
    /// Whether the numerals that the program has brought into the text are ordinary.
    pub mild: bool,
    /// Whether the text is at a place where slots may be reserved: outside the bodies of
    /// functions.
    pub free: bool,
    /// Where the bodies of functions lie in the text.
    pub bodies: Seq<(int, int)>,
}

/// The generator's state.
pub struct Gen {
    pub out: Vec<char>,
    pub globals: String,
    pub reg: u32,
    pub taken: Ghost<nat>,
    pub scopes: Vec<Dict<Bind>>,
    pub str_count: u32,
    pub consts: Dict<Const>,
    pub used: Vec<String>,
    pub called: Ghost<Set<Seq<char>>>,
    pub cur_fn: String,
    pub loops: Vec<LoopCtx>,
    pub allocas: Vec<String>,
    pub error: Option<String>,
    pub mild: Ghost<bool>,
    pub free: Ghost<bool>,
    pub bodies: Ghost<Seq<(int, int)>>,
}

pub open spec fn scope_views(s: Seq<Dict<Bind>>) -> Seq<Map<Seq<char>, BindV>> {
    s.map_values(|d: Dict<Bind>| d@)
}

pub open spec fn loop_views(s: Seq<LoopCtx>) -> Seq<LoopV> {
    s.map_values(|l: LoopCtx| l@)
}

impl View for Gen {
    type V = GenV;

    open spec fn view(&self) -> GenV {
        GenV {
            out: self.out@,
            globals: self.globals@,
            reg: self.reg,
            taken: self.taken@,
            scopes: scope_views(self.scopes@),
            str_count: self.str_count,
            consts: self.consts@,
            used: views(self.used@),
            called: self.called@,
            cur_fn: self.cur_fn@,
            loops: loop_views(self.loops@),
            allocas: views(self.allocas@),
            error: opt_view(self.error),
            mild: self.mild@,
            free: self.free@,
            bodies: self.bodies@,
        }
    }
}

// ---------- what each piece writes ----------
/// The generator before it has written anything.
pub open spec fn blank() -> GenV {
    GenV {
        out: Seq::empty(),
        globals: Seq::empty(),
        reg: 0,
        taken: 0,
        scopes: Seq::empty(),
        str_count: 0,
        consts: Map::empty(),
        used: Seq::empty(),
        called: Set::empty(),
        cur_fn: Seq::empty(),
        loops: Seq::empty(),
        allocas: Seq::empty(),
        error: None,
        mild: true,
        free: true,
        bodies: Seq::empty(),
    }
}

/// Whether a name or a numeral is one that a program can have without standing in the way of the
/// code: it has no `@` and no `=`, and does not begin like the functions of the library.
#[verifier::opaque]
pub open spec fn ordinary(name: Seq<char>) -> bool {
    !at(name, 0, "tie_"@) && forall|i: int|
        0 <= i < name.len() ==> #[trigger] name[i] != '@' && name[i] != '='
}

/// Takes note of a numeral that the program brings into the text.
#[verifier::opaque]
pub open spec fn note(g: GenV, name: Seq<char>) -> GenV {
    GenV { mild: g.mild && ordinary(name), ..g }
}

/// Notes an error; the first one counts.
#[verifier::opaque]
pub open spec fn fail(g: GenV, m: Seq<char>) -> GenV {
    match g.error {
        Some(_) => g,
        None => GenV { error: Some(m), ..g },
    }
}

/// Takes the next register.
#[verifier::opaque]
pub open spec fn reg(g: GenV) -> (GenV, Seq<char>) {
    let n = g.reg.wrapping_add(1);
    (GenV { reg: n, taken: g.taken + 1, ..g }, "%"@ + dec(n as int))
}

/// Takes the next label, which begins with `prefix`.
#[verifier::opaque]
pub open spec fn label(g: GenV, prefix: Seq<char>) -> (GenV, Seq<char>) {
    let n = g.reg.wrapping_add(1);
    (GenV { reg: n, taken: g.taken + 1, ..g }, prefix + "."@ + dec(n as int))
}

/// Writes text as it is.
#[verifier::opaque]
pub open spec fn put(g: GenV, text: Seq<char>) -> GenV {
    GenV { out: g.out + text, ..g }
}

/// Writes a line.
pub open spec fn line(g: GenV, text: Seq<char>) -> GenV {
    put(put(g, text), "\n"@)
}

/// Begins the basic block `name`.
pub open spec fn start(g: GenV, name: Seq<char>) -> GenV {
    put(put(g, name), ":\n  "@)
}

/// Reserves a stack slot in the entry block.
#[verifier::opaque]
pub open spec fn alloca(g: GenV, ty: Seq<char>) -> (GenV, Seq<char>) {
    let (g, r) = reg(g);
    (GenV { allocas: g.allocas.push(r + " = alloca "@ + ty), ..g }, r)
}

/// Lists the library function `symbol`.
#[verifier::opaque]
pub open spec fn mark(g: GenV, symbol: Seq<char>) -> GenV {
    if g.used.contains(symbol) {
        g
    } else {
        GenV { used: g.used.push(symbol), ..g }
    }
}

/// Writes a call of the library function `symbol` with the arguments `args`, and lists it;
/// `head` stands before the symbol.
#[verifier::opaque]
pub open spec fn library_call(
    g: GenV,
    head: Seq<char>,
    symbol: Seq<char>,
    args: Seq<char>,
) -> GenV {
    let g = mark(g, symbol);
    line(
        GenV { called: g.called.insert(symbol), ..g },
        head + " @"@ + symbol + "("@ + args + ")"@,
    )
}

/// The definition of the constant `name` that holds `s`, ended by a zero byte.
pub open spec fn constant(name: Seq<char>, s: Seq<char>) -> Seq<char> {
    "@"@ + name + " = private unnamed_addr constant ["@ + dec(constant_bytes(s).len() as int)
        + " x i8] c\""@ + constant_text(s) + "\"\n"@
}

/// The name of the global constant that holds `s`. There is one for each text: it is made
/// where there is none yet.
#[verifier::opaque]
pub open spec fn string_const(g: GenV, s: Seq<char>) -> (GenV, Seq<char>) {
    if g.consts.dom().contains(s) {
        (g, g.consts[s])
    } else {
        let n = g.str_count.wrapping_add(1);
        let name = ".str."@ + dec(n as int);
        (
            GenV {
                str_count: n,
                globals: g.globals + constant(name, s),
                consts: g.consts.insert(s, name),
                ..g
            },
            name,
        )
    }
}

/// The binding of a variable in the innermost of the first `n` scopes that has it.
pub open spec fn bound_in(scopes: Seq<Map<Seq<char>, BindV>>, name: Seq<char>, n: int) -> Option<
    BindV,
>
    decreases n,
{
    if n <= 0 || n > scopes.len() {
        None
    } else if scopes[n - 1].dom().contains(name) {
        Some(scopes[n - 1][name])
    } else {
        bound_in(scopes, name, n - 1)
    }
}

/// The binding of a variable.
#[verifier::opaque]
pub open spec fn bound(g: GenV, name: Seq<char>) -> Option<BindV> {
    bound_in(g.scopes, name, g.scopes.len() as int)
}

/// Binds a variable in the innermost scope.
#[verifier::opaque]
pub open spec fn bind(g: GenV, name: Seq<char>, value: Seq<char>, ty: Seq<char>) -> GenV {
    if g.scopes.len() == 0 {
        g
    } else {
        let inner = g.scopes.last().insert(name, BindV { value, ty });
        GenV { scopes: g.scopes.update(g.scopes.len() - 1, inner), ..g }
    }
}

/// Opens a scope.
#[verifier::opaque]
pub open spec fn open_scope(g: GenV) -> GenV {
    GenV { scopes: g.scopes.push(Map::empty()), ..g }
}

/// Closes the innermost scope.
#[verifier::opaque]
pub open spec fn close_scope(g: GenV) -> GenV {
    if g.scopes.len() == 0 {
        g
    } else {
        GenV { scopes: g.scopes.drop_last(), ..g }
    }
}

/// Enters a loop.
#[verifier::opaque]
pub open spec fn enter_loop(
    g: GenV,
    label: Option<Seq<char>>,
    next: Seq<char>,
    exit: Seq<char>,
) -> GenV {
    GenV { loops: g.loops.push(LoopV { label, next, exit }), ..g }
}

/// Leaves the innermost loop.
#[verifier::opaque]
pub open spec fn leave_loop(g: GenV) -> GenV {
    if g.loops.len() == 0 {
        g
    } else {
        GenV { loops: g.loops.drop_last(), ..g }
    }
}

/// The innermost of the first `n` loops that a jump means: any, or the one with its label.
pub open spec fn loop_in(loops: Seq<LoopV>, label: Option<Seq<char>>, n: int) -> Option<LoopV>
    decreases n,
{
    if n <= 0 || n > loops.len() {
        None
    } else if label is None || loops[n - 1].label == label {
        Some(loops[n - 1])
    } else {
        loop_in(loops, label, n - 1)
    }
}

/// The block that a `break` jumps to.
#[verifier::opaque]
pub open spec fn break_target(g: GenV, label: Option<Seq<char>>) -> Seq<char> {
    match loop_in(g.loops, label, g.loops.len() as int) {
        Some(l) => l.exit,
        None => Seq::empty(),
    }
}

/// The block that a `continue` jumps to.
#[verifier::opaque]
pub open spec fn continue_target(g: GenV, label: Option<Seq<char>>) -> Seq<char> {
    match loop_in(g.loops, label, g.loops.len() as int) {
        Some(l) => l.next,
        None => Seq::empty(),
    }
}

/// The end of the last character before `e` that is no white space.
pub open spec fn black_end(s: Seq<char>, e: int) -> int
    decreases e,
{
    if e <= 0 || e > s.len() {
        0
    } else if white(s[e - 1]) {
        black_end(s, e - 1)
    } else {
        e
    }
}

/// The start of the line that holds position `e`.
pub open spec fn line_start(s: Seq<char>, e: int) -> int
    decreases e,
{
    if e <= 0 || e > s.len() || s[e - 1] == '\n' {
        e
    } else {
        line_start(s, e - 1)
    }
}

/// The last line that holds more than white space, without the white space around it.
pub open spec fn last_line(s: Seq<char>) -> Seq<char> {
    let e = black_end(s, s.len() as int);
    let b = line_start(s, e);
    s.subrange(black_from(s, b, e), e)
}

/// Whether the last instruction leaves the function: it returns, or the program ends there.
#[verifier::opaque]
pub open spec fn returned(g: GenV) -> bool {
    at(last_line(g.out), 0, "ret "@) || at(last_line(g.out), 0, "unreachable"@)
}

/// Whether the last instruction ends its block.
#[verifier::opaque]
pub open spec fn terminated(g: GenV) -> bool {
    let l = last_line(g.out);
    at(l, 0, "ret "@) || at(l, 0, "unreachable"@) || at(l, 0, "br "@)
}

// ---------- writing them ----------
fn find_black_end(v: &Vec<char>) -> (r: usize)
    ensures
        r == black_end(v@, v@.len() as int),
        r <= v@.len(),
{
    let mut e: usize = v.len();
    while e > 0
        invariant
            e <= v@.len(),
            black_end(v@, v@.len() as int) == black_end(v@, e as int),
        decreases e,
    {
        if !is_white(v[e - 1]) {
            return e;
        }
        e = e - 1;
    }
    0
}

fn find_line_start(v: &Vec<char>, to: usize) -> (r: usize)
    requires
        to <= v@.len(),
    ensures
        r == line_start(v@, to as int),
        r <= to,
{
    let mut e: usize = to;
    while e > 0
        invariant
            e <= to <= v@.len(),
            line_start(v@, to as int) == line_start(v@, e as int),
        decreases e,
    {
        if v[e - 1] == '\n' {
            return e;
        }
        e = e - 1;
    }
    0
}

fn last_line_of(v: &Vec<char>) -> (r: Vec<char>)
    ensures
        r@ == last_line(v@),
{
    let e = find_black_end(v);
    let b = find_line_start(v, e);
    let from = find_black(v, b, e);
    let s = string_of(v, from, e);
    chars_of(s.as_str())
}

impl Gen {
    pub fn new() -> (g: Gen)
        ensures
            g@ == blank(),
    {
        let g = Gen {
            out: Vec::new(),
            globals: String::new(),
            reg: 0,
            taken: Ghost(0),
            scopes: Vec::new(),
            str_count: 0,
            consts: Dict::new(),
            used: Vec::new(),
            called: Ghost(Set::empty()),
            cur_fn: String::new(),
            loops: Vec::new(),
            allocas: Vec::new(),
            error: None,
            mild: Ghost(true),
            free: Ghost(true),
            bodies: Ghost(Seq::empty()),
        };
        assert(g@.globals =~= Seq::<char>::empty());
        assert(g@.cur_fn =~= Seq::<char>::empty());
        assert(g@.scopes =~= Seq::<Map<Seq<char>, BindV>>::empty());
        assert(g@.used =~= Seq::<Seq<char>>::empty());
        assert(g@.loops =~= Seq::<LoopV>::empty());
        assert(g@.allocas =~= Seq::<Seq<char>>::empty());
        g
    }

    pub fn fail(&mut self, m: String)
        ensures
            final(self)@ == fail(old(self)@, m@),
    {
        reveal(fail);
        if self.error.is_none() {
            self.error = Some(m);
        }
    }

    pub fn reg(&mut self) -> (r: String)
        ensures
            final(self)@ == reg(old(self)@).0,
            r@ == reg(old(self)@).1,
    {
        reveal(reg);
        self.reg = self.reg.wrapping_add(1);
        self.taken = Ghost(self.taken@ + 1);
        cat2("%", dec_u64(self.reg as u64).as_str())
    }

    pub fn label(&mut self, prefix: &str) -> (r: String)
        ensures
            final(self)@ == label(old(self)@, prefix@).0,
            r@ == label(old(self)@, prefix@).1,
    {
        reveal(label);
        self.reg = self.reg.wrapping_add(1);
        self.taken = Ghost(self.taken@ + 1);
        cat3(prefix, ".", dec_u64(self.reg as u64).as_str())
    }

    pub fn note(&mut self, name: &str)
        ensures
            final(self)@ == note(old(self)@, name@),
    {
        reveal(note);
        let ghost still = self.mild@ && ordinary(name@);
        self.mild = Ghost(still);
    }

    pub fn put(&mut self, text: &str)
        ensures
            final(self)@ == put(old(self)@, text@),
    {
        reveal(put);
        let ghost before = *self;
        let chars = chars_of(text);
        let mut i: usize = 0;
        assert(before.out@ + chars@.take(0) =~= before.out@);
        while i < chars.len()
            invariant
                i <= chars@.len(),
                chars@ == text@,
                self@ == (GenV { out: before.out@ + chars@.take(i as int), ..before@ }),
            decreases chars@.len() - i,
        {
            self.out.push(chars[i]);
            assert(before.out@ + chars@.take(i + 1) =~= (before.out@ + chars@.take(i as int)).push(
                chars@[i as int],
            ));
            i = i + 1;
        }
        assert(chars@.take(i as int) =~= text@);
    }

    pub fn line(&mut self, text: String)
        ensures
            final(self)@ == line(old(self)@, text@),
    {
        self.put(text.as_str());
        self.put("\n");
    }

    pub fn start(&mut self, name: &str)
        ensures
            final(self)@ == start(old(self)@, name@),
    {
        self.put(name);
        self.put(":\n  ");
    }

    pub fn alloca(&mut self, ty: &str) -> (r: String)
        ensures
            final(self)@ == alloca(old(self)@, ty@).0,
            r@ == alloca(old(self)@, ty@).1,
    {
        reveal(alloca);
        let r = self.reg();
        let ghost before = *self;
        self.allocas.push(cat3(r.as_str(), " = alloca ", ty));
        assert(views(self.allocas@) =~= views(before.allocas@).push(r@ + " = alloca "@ + ty@));
        r
    }

    pub fn is_used(&self, symbol: &str) -> (r: bool)
        ensures
            r == self@.used.contains(symbol@),
    {
        for i in 0..self.used.len()
            invariant
                forall|j: int| 0 <= j < i ==> self.used@[j]@ != symbol@,
        {
            if same(self.used[i].as_str(), symbol) {
                assert(self@.used[i as int] == symbol@);
                return true;
            }
        }
        proof {
            if self@.used.contains(symbol@) {
                let j = self@.used.index_of(symbol@);
                assert(self.used@[j]@ == symbol@);
            }
        }
        false
    }

    pub fn mark(&mut self, symbol: String)
        ensures
            final(self)@ == mark(old(self)@, symbol@),
    {
        reveal(mark);
        let ghost before = *self;
        if !self.is_used(symbol.as_str()) {
            self.used.push(symbol);
            assert(views(self.used@) =~= views(before.used@).push(symbol@));
        }
    }

    pub fn library_call(&mut self, head: String, symbol: String, args: String)
        ensures
            final(self)@ == library_call(old(self)@, head@, symbol@, args@),
    {
        reveal(library_call);
        let text = cat6(head.as_str(), " @", symbol.as_str(), "(", args.as_str(), ")");
        let ghost s = symbol@;
        self.mark(symbol);
        self.called = Ghost(self.called@.insert(s));
        self.line(text);
    }

    pub fn string_const(&mut self, s: &str) -> (r: String)
        ensures
            final(self)@ == string_const(old(self)@, s@).0,
            r@ == string_const(old(self)@, s@).1,
    {
        reveal(string_const);
        let known: Option<String> = match self.consts.get(s) {
            Some(c) => Some(c.name.clone()),
            None => None,
        };
        match known {
            Some(name) => name,
            None => {
                self.str_count = self.str_count.wrapping_add(1);
                let name = cat2(".str.", dec_u64(self.str_count as u64).as_str());
                let (len, text) = escape_ir_string(s);
                let def = cat7(
                    "@",
                    name.as_str(),
                    " = private unnamed_addr constant [",
                    dec_usize(len).as_str(),
                    " x i8] c\"",
                    text.as_str(),
                    "\"\n",
                );
                self.globals.append(def.as_str());
                self.consts.put(s, Const { name: name.clone() });
                name
            },
        }
    }

    /// The binding of a variable.
    pub fn bound(&self, name: &str) -> (r: Option<Bind>)
        ensures
            match r {
                Some(b) => bound(self@, name@) == Some(b@),
                None => bound(self@, name@) is None,
            },
    {
        reveal(bound);
        let mut n: usize = self.scopes.len();
        while n > 0
            invariant
                n <= self.scopes@.len(),
                bound(self@, name@) == bound_in(self@.scopes, name@, n as int),
            decreases n,
        {
            assert(self@.scopes[n - 1] == self.scopes@[n - 1]@);
            match self.scopes[n - 1].get(name) {
                Some(b) => {
                    return Some(Bind { value: b.value.clone(), ty: b.ty.clone() });
                },
                None => {},
            }
            n = n - 1;
        }
        None
    }

    pub fn bind(&mut self, name: &str, value: &str, ty: &str)
        ensures
            final(self)@ == bind(old(self)@, name@, value@, ty@),
    {
        reveal(bind);
        let n: usize = self.scopes.len();
        if n > 0 {
            let ghost before = self@.scopes;
            let b = Bind { value: String::from_str(value), ty: String::from_str(ty) };
            self.scopes[n - 1].put(name, b);
            assert(self@.scopes =~= before.update(
                n - 1,
                before.last().insert(name@, BindV { value: value@, ty: ty@ }),
            ));
        }
    }

    pub fn open_scope(&mut self)
        ensures
            final(self)@ == open_scope(old(self)@),
    {
        reveal(open_scope);
        let ghost before = self@.scopes;
        self.scopes.push(Dict::new());
        assert(self@.scopes =~= before.push(Map::empty()));
    }

    pub fn close_scope(&mut self)
        ensures
            final(self)@ == close_scope(old(self)@),
    {
        reveal(close_scope);
        let ghost before = self@.scopes;
        let last = self.scopes.pop();
        if last.is_some() {
            assert(self@.scopes =~= before.drop_last());
        }
    }

    pub fn enter_loop(&mut self, label: &Option<String>, next: &str, exit: &str)
        ensures
            final(self)@ == enter_loop(old(self)@, opt_view(*label), next@, exit@),
    {
        reveal(enter_loop);
        let ghost before = self@.loops;
        let label: Option<String> = match label {
            Some(l) => Some(l.clone()),
            None => None,
        };
        let l = LoopCtx { label, next: String::from_str(next), exit: String::from_str(exit) };
        let ghost lv = l@;
        self.loops.push(l);
        assert(self@.loops =~= before.push(lv));
    }

    pub fn leave_loop(&mut self)
        ensures
            final(self)@ == leave_loop(old(self)@),
    {
        reveal(leave_loop);
        let ghost before = self@.loops;
        let last = self.loops.pop();
        if last.is_some() {
            assert(self@.loops =~= before.drop_last());
        }
    }

    /// The position of the loop that a jump means, plus one.
    fn loop_pos(&self, label: &Option<String>) -> (r: usize)
        ensures
            r <= self.loops@.len(),
            r == 0 ==> loop_in(self@.loops, opt_view(*label), self.loops@.len() as int) is None,
            r > 0 ==> loop_in(self@.loops, opt_view(*label), self.loops@.len() as int) == Some(
                self.loops@[r - 1]@,
            ),
    {
        let mut n: usize = self.loops.len();
        while n > 0
            invariant
                n <= self.loops@.len(),
                loop_in(self@.loops, opt_view(*label), self.loops@.len() as int) == loop_in(
                    self@.loops,
                    opt_view(*label),
                    n as int,
                ),
            decreases n,
        {
            assert(self@.loops[n - 1] == self.loops@[n - 1]@);
            match label {
                None => {
                    return n;
                },
                Some(want) => match &self.loops[n - 1].label {
                    Some(have) => {
                        if same(have.as_str(), want.as_str()) {
                            return n;
                        }
                    },
                    None => {},
                },
            }
            n = n - 1;
        }
        0
    }

    pub fn break_target(&self, label: &Option<String>) -> (r: String)
        ensures
            r@ == break_target(self@, opt_view(*label)),
    {
        reveal(break_target);
        let n = self.loop_pos(label);
        if n > 0 {
            self.loops[n - 1].exit.clone()
        } else {
            let s = String::new();
            assert(s@ =~= Seq::<char>::empty());
            s
        }
    }

    pub fn continue_target(&self, label: &Option<String>) -> (r: String)
        ensures
            r@ == continue_target(self@, opt_view(*label)),
    {
        reveal(continue_target);
        let n = self.loop_pos(label);
        if n > 0 {
            self.loops[n - 1].next.clone()
        } else {
            let s = String::new();
            assert(s@ =~= Seq::<char>::empty());
            s
        }
    }

    pub fn returned(&self) -> (r: bool)
        ensures
            r == returned(self@),
    {
        reveal(returned);
        let l = last_line_of(&self.out);
        stands_at(&l, 0, "ret ") || stands_at(&l, 0, "unreachable")
    }

    pub fn terminated(&self) -> (r: bool)
        ensures
            r == terminated(self@),
    {
        reveal(terminated);
        let l = last_line_of(&self.out);
        stands_at(&l, 0, "ret ") || stands_at(&l, 0, "unreachable") || stands_at(&l, 0, "br ")
    }
}

} // verus!
