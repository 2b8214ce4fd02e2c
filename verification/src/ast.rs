//! The abstract syntax that both back ends read: expressions, statements, types, and
//! the facts that semantic analysis leaves on them.
use crate::text::same;
use std::rc::Rc;
use vstd::prelude::*;

verus! {

/// A type keyword.
#[derive(Clone, Copy, Debug, PartialEq, Eq, Structural)]
pub enum TyKw {
    I8,
    I16,
    I32,
    I64,
    U8,
    U16,
    U32,
    U64,
    F32,
    F64,
    Bool,
    Trit,
    Char,
    Str,
    Table,
    Void,
    Num,
    Text,
    Misc,
    Code,
}

/// A type as written or inferred.
#[derive(Debug)]
pub enum TypeSpec {
    Named(TyKw),
    Tuple(Rc<Vec<TupleField>>),
    Struct(String),
    Table(Rc<TypeSpec>),
}

/// One field of a tuple type.
#[derive(Debug)]
pub struct TupleField {
    pub name: Option<String>,
    pub ty: TypeSpec,
}

#[derive(Clone, Copy, Debug, PartialEq, Eq, Structural)]
pub enum BinaryOp {
    Add,
    Sub,
    Mul,
    Div,
    Mod,
    Eq,
    NotEq,
    Lt,
    Gt,
    Le,
    Ge,
    And,
    Or,
    BitAnd,
    BitOr,
    BitXor,
    Shl,
    Shr,
}

#[derive(Clone, Copy, Debug, PartialEq, Eq, Structural)]
pub enum UnaryOp {
    Neg,
    Not,
    PreInc,
    PreDec,
    PostInc,
    PostDec,
}

/// A floating-point number: its 64 bits and the text it prints as. Whoever makes one
/// keeps the two in step; nothing here computes with it.
#[derive(Debug)]
pub struct Float {
    pub bits: u64,
    pub text: String,
}

/// What a `Float` is, with its text as characters.
pub struct FloatV {
    pub bits: u64,
    pub text: Seq<char>,
}

impl View for Float {
    type V = FloatV;

    open spec fn view(&self) -> FloatV {
        FloatV { bits: self.bits, text: self.text@ }
    }
}

impl Float {
    pub fn dup(&self) -> (r: Float)
        ensures
            r@ == self@,
    {
        Float { bits: self.bits, text: self.text.clone() }
    }
}

/// The layout of a table literal or of a table variable.
#[derive(Debug)]
pub struct TableInfo {
    pub elem_ty: TypeSpec,
    pub len: usize,
    pub dynamic: bool,
}

/// What semantic analysis knows of an expression: its type, the layout of the table it
/// builds, and the full name of the function it calls.
#[derive(Debug)]
pub struct Note {
    pub ty: Option<TypeSpec>,
    pub table: Option<TableInfo>,
    pub resolved: Option<String>,
}

/// An expression with its note.
#[derive(Debug)]
pub struct Expr {
    pub kind: ExprKind,
    pub note: Note,
}

/// A list of expressions.
pub type Exprs = Rc<Vec<Rc<Expr>>>;

#[allow(inconsistent_fields)]
#[derive(Debug)]
pub enum ExprKind {
    IntLit(i64),
    /// A float literal and the text that stands for it in LLVM IR.
    FloatLit { value: Float, ir: String },
    StrLit(String),
    CharLit(char),
    BoolLit(bool),
    TritLit(i8),
    Var(String),
    Unary { op: UnaryOp, operand: Rc<Expr> },
    Binary { op: BinaryOp, lhs: Rc<Expr>, rhs: Rc<Expr> },
    Ternary { cond: Rc<Expr>, then_expr: Rc<Expr>, else_expr: Rc<Expr> },
    Range { start: Rc<Expr>, end: Rc<Expr> },
    TypeLit { ty: TypeSpec },
    Call { name: String, args: Exprs },
    Index { base: Rc<Expr>, index: Rc<Expr> },
    TableLit { cells: Exprs },
    TupleLit { fields: Exprs },
    FieldAccess { base: Rc<Expr>, field: String },
    MethodCall { receiver: Rc<Expr>, method: String, args: Exprs },
    Path { segments: Vec<String> },
}

/// A list of statements.
pub type Block = Rc<Vec<Rc<Stmt>>>;

#[allow(inconsistent_fields)]
#[derive(Debug)]
pub enum Stmt {
    VarDecl { name: String, ty: Option<TypeSpec>, init: Rc<Expr> },
    Expr { expr: Rc<Expr> },
    Assign { target: String, op: Option<BinaryOp>, value: Rc<Expr> },
    Return { expr: Option<Rc<Expr>> },
    If { cond: Rc<Expr>, then_branch: Block, else_branch: Block },
    While { label: Option<String>, cond: Rc<Expr>, body: Block },
    For { label: Option<String>, var: String, iter: Rc<Expr>, body: Block },
    Switch { subject: Rc<Expr>, cases: Rc<Vec<SwitchCase>>, default_body: Block },
    Break { label: Option<String> },
    Continue { label: Option<String> },
    Import,
    Using,
    Struct,
    FnDef { def: Rc<FnDef> },
    Namespace { path: Vec<String>, body: Block },
    FieldAssign { base: Rc<Expr>, field: String, op: Option<BinaryOp>, value: Rc<Expr> },
    IndexAssign { target: Rc<Expr>, op: Option<BinaryOp>, value: Rc<Expr> },
}

/// One `case` of a switch.
#[derive(Debug)]
pub struct SwitchCase {
    pub patterns: Exprs,
    pub when: Option<Rc<Expr>>,
    pub body: Block,
}

#[derive(Debug)]
pub struct Param {
    pub name: String,
    pub ty: TypeSpec,
    pub default: Option<Rc<Expr>>,
}

/// A function definition.
#[derive(Debug)]
pub struct FnDef {
    pub name: String,
    pub params: Vec<Param>,
    pub ret_ty: TypeSpec,
    pub body: Block,
}

impl View for FnDef {
    type V = FnDef;

    open spec fn view(&self) -> FnDef {
        *self
    }
}

/// A parsed source text.
#[derive(Debug)]
pub struct Program {
    pub stmts: Block,
}

/// One field of a struct, its type resolved.
#[derive(Debug)]
pub struct ClassField {
    pub name: String,
    pub ty: TypeSpec,
    pub init: Option<Rc<Expr>>,
}

/// A struct: its fields in memory order.
#[derive(Debug)]
pub struct ClassInfo {
    pub name: String,
    pub fields: Vec<ClassField>,
}

/// A function signature under the function's full name.
#[derive(Debug)]
pub struct FuncSig {
    pub name: String,
    pub param_tys: Vec<TypeSpec>,
    pub param_defaults: Vec<Option<Rc<Expr>>>,
    pub ret_ty: TypeSpec,
}

/// A top-level variable with its type.
#[derive(Debug)]
pub struct GlobalVar {
    pub name: String,
    pub ty: TypeSpec,
}

/// The layout of a table variable of a function.
#[derive(Debug)]
pub struct TableVar {
    pub func: String,
    pub name: String,
    pub info: TableInfo,
}

/// The element type of the table that a function returns.
#[derive(Debug)]
pub struct TableRet {
    pub func: String,
    pub elem_ty: Option<TypeSpec>,
}

/// What semantic analysis knows of a program as a whole. Of two entries under one name
/// the first counts.
#[derive(Debug)]
pub struct Sem {
    pub globals: Vec<GlobalVar>,
    pub classes: Vec<ClassInfo>,
    pub funcs: Vec<FuncSig>,
    pub table_vars: Vec<TableVar>,
    pub table_rets: Vec<TableRet>,
}

impl TypeSpec {
    pub open spec fn spec_is_void(self) -> bool {
        self == TypeSpec::Named(TyKw::Void)
    }

    pub open spec fn spec_is_table(self) -> bool {
        self == TypeSpec::Named(TyKw::Table) || self is Table
    }

    pub open spec fn spec_is_wide(self) -> bool {
        self == TypeSpec::Named(TyKw::Num) || self == TypeSpec::Named(TyKw::Text) || self
            == TypeSpec::Named(TyKw::Misc)
    }

    /// Whether this is the type of functions that return nothing.
    pub fn is_void(&self) -> (r: bool)
        ensures
            r == self.spec_is_void(),
    {
        matches!(self, TypeSpec::Named(TyKw::Void))
    }

    /// Whether this is a table type, with or without its element type.
    pub fn is_table(&self) -> (r: bool)
        ensures
            r == self.spec_is_table(),
    {
        matches!(self, TypeSpec::Named(TyKw::Table) | TypeSpec::Table(_))
    }

    /// Whether this is a category of types that only analysis knows.
    pub fn is_wide(&self) -> (r: bool)
        ensures
            r == self.spec_is_wide(),
    {
        matches!(self, TypeSpec::Named(TyKw::Num) | TypeSpec::Named(TyKw::Text) | TypeSpec::Named(TyKw::Misc))
    }

    /// Whether this is the named type `k`.
    pub fn is_named(&self, k: TyKw) -> (r: bool)
        ensures
            r == (*self == TypeSpec::Named(k)),
    {
        match self {
            TypeSpec::Named(n) => *n == k,
            _ => false,
        }
    }
}

/// Whether the note of `e` gives it the named type `k`.
pub open spec fn typed(e: Expr, k: TyKw) -> bool {
    e.note.ty == Some(TypeSpec::Named(k))
}

pub fn is_typed(e: &Expr, k: TyKw) -> (r: bool)
    ensures
        r == typed(*e, k),
{
    match &e.note.ty {
        Some(t) => t.is_named(k),
        None => false,
    }
}

/// Whether the note of `e` gives it an unsigned integer type.
pub open spec fn unsigned(e: Expr) -> bool {
    typed(e, TyKw::U8) || typed(e, TyKw::U16) || typed(e, TyKw::U32) || typed(e, TyKw::U64)
}

pub fn is_unsigned(e: &Expr) -> (r: bool)
    ensures
        r == unsigned(*e),
{
    is_typed(e, TyKw::U8) || is_typed(e, TyKw::U16) || is_typed(e, TyKw::U32) || is_typed(
        e,
        TyKw::U64,
    )
}

// ---------- lookups ----------
/// The position of the first string equal to `name`, from position `i` on.
pub open spec fn name_pos(names: Seq<Seq<char>>, name: Seq<char>, i: int) -> Option<int>
    decreases names.len() - i,
{
    if i < 0 || i >= names.len() {
        None
    } else if names[i] == name {
        Some(i)
    } else {
        name_pos(names, name, i + 1)
    }
}

pub proof fn lemma_name_pos(names: Seq<Seq<char>>, name: Seq<char>, i: int)
    requires
        0 <= i,
    ensures
        match name_pos(names, name, i) {
            Some(k) => i <= k < names.len() && names[k] == name && forall|j: int|
                i <= j < k ==> names[j] != name,
            None => forall|j: int| i <= j < names.len() ==> names[j] != name,
        },
    decreases names.len() - i,
{
    if i < names.len() && names[i] != name {
        lemma_name_pos(names, name, i + 1);
    }
}

pub open spec fn global_names(sem: Sem) -> Seq<Seq<char>> {
    sem.globals@.map_values(|g: GlobalVar| g.name@)
}

pub open spec fn class_names(sem: Sem) -> Seq<Seq<char>> {
    sem.classes@.map_values(|c: ClassInfo| c.name@)
}

pub open spec fn func_names(sem: Sem) -> Seq<Seq<char>> {
    sem.funcs@.map_values(|f: FuncSig| f.name@)
}

pub open spec fn field_names(c: ClassInfo) -> Seq<Seq<char>> {
    c.fields@.map_values(|f: ClassField| f.name@)
}

/// The type of the top-level variable `name`.
pub open spec fn global_ty(sem: Sem, name: Seq<char>) -> Option<TypeSpec> {
    match name_pos(global_names(sem), name, 0) {
        Some(i) => Some(sem.globals@[i].ty),
        None => None,
    }
}

/// The struct `name`.
pub open spec fn class_of(sem: Sem, name: Seq<char>) -> Option<ClassInfo> {
    match name_pos(class_names(sem), name, 0) {
        Some(i) => Some(sem.classes@[i]),
        None => None,
    }
}

/// The signature of the function `name`.
pub open spec fn sig_of(sem: Sem, name: Seq<char>) -> Option<FuncSig> {
    match name_pos(func_names(sem), name, 0) {
        Some(i) => Some(sem.funcs@[i]),
        None => None,
    }
}

/// The position of the field `name`.
pub open spec fn field_pos(c: ClassInfo, name: Seq<char>) -> Option<int> {
    name_pos(field_names(c), name, 0)
}

/// The layout of the table variable `name` of the function `func`, from entry `i` on.
pub open spec fn table_var_from(sem: Sem, func: Seq<char>, name: Seq<char>, i: int) -> Option<
    TableInfo,
>
    decreases sem.table_vars@.len() - i,
{
    if i < 0 || i >= sem.table_vars@.len() {
        None
    } else if sem.table_vars@[i].func@ == func && sem.table_vars@[i].name@ == name {
        Some(sem.table_vars@[i].info)
    } else {
        table_var_from(sem, func, name, i + 1)
    }
}

pub open spec fn table_var(sem: Sem, func: Seq<char>, name: Seq<char>) -> Option<TableInfo> {
    table_var_from(sem, func, name, 0)
}

/// Whether `name` is a table of `func` that grows at run time.
pub open spec fn dynamic_table(sem: Sem, func: Seq<char>, name: Seq<char>) -> bool {
    match table_var(sem, func, name) {
        Some(info) => info.dynamic,
        None => false,
    }
}

/// The element type of the table that `func` returns, from entry `i` on.
pub open spec fn table_ret_from(sem: Sem, func: Seq<char>, i: int) -> Option<TypeSpec>
    decreases sem.table_rets@.len() - i,
{
    if i < 0 || i >= sem.table_rets@.len() {
        None
    } else if sem.table_rets@[i].func@ == func {
        sem.table_rets@[i].elem_ty
    } else {
        table_ret_from(sem, func, i + 1)
    }
}

impl Sem {
    pub fn global_ty(&self, name: &str) -> (r: Option<&TypeSpec>)
        ensures
            match r {
                Some(t) => global_ty(*self, name@) == Some(*t),
                None => global_ty(*self, name@) is None,
            },
    {
        for i in 0..self.globals.len()
            invariant
                name_pos(global_names(*self), name@, 0) == name_pos(
                    global_names(*self),
                    name@,
                    i as int,
                ),
        {
            if same(self.globals[i].name.as_str(), name) {
                return Some(&self.globals[i].ty);
            }
        }
        None
    }

    pub fn class_of(&self, name: &str) -> (r: Option<&ClassInfo>)
        ensures
            match r {
                Some(c) => class_of(*self, name@) == Some(*c),
                None => class_of(*self, name@) is None,
            },
    {
        for i in 0..self.classes.len()
            invariant
                name_pos(class_names(*self), name@, 0) == name_pos(
                    class_names(*self),
                    name@,
                    i as int,
                ),
        {
            if same(self.classes[i].name.as_str(), name) {
                return Some(&self.classes[i]);
            }
        }
        None
    }

    pub fn sig_of(&self, name: &str) -> (r: Option<&FuncSig>)
        ensures
            match r {
                Some(f) => sig_of(*self, name@) == Some(*f),
                None => sig_of(*self, name@) is None,
            },
    {
        for i in 0..self.funcs.len()
            invariant
                name_pos(func_names(*self), name@, 0) == name_pos(
                    func_names(*self),
                    name@,
                    i as int,
                ),
        {
            if same(self.funcs[i].name.as_str(), name) {
                return Some(&self.funcs[i]);
            }
        }
        None
    }

    pub fn table_var(&self, func: &str, name: &str) -> (r: Option<&TableInfo>)
        ensures
            match r {
                Some(t) => table_var(*self, func@, name@) == Some(*t),
                None => table_var(*self, func@, name@) is None,
            },
    {
        for i in 0..self.table_vars.len()
            invariant
                table_var(*self, func@, name@) == table_var_from(*self, func@, name@, i as int),
        {
            if same(self.table_vars[i].func.as_str(), func) && same(
                self.table_vars[i].name.as_str(),
                name,
            ) {
                return Some(&self.table_vars[i].info);
            }
        }
        None
    }

    pub fn dynamic_table(&self, func: &str, name: &str) -> (r: bool)
        ensures
            r == dynamic_table(*self, func@, name@),
    {
        match self.table_var(func, name) {
            Some(info) => info.dynamic,
            None => false,
        }
    }

    pub fn table_ret(&self, func: &str) -> (r: Option<&TypeSpec>)
        ensures
            match r {
                Some(t) => table_ret_from(*self, func@, 0) == Some(*t),
                None => table_ret_from(*self, func@, 0) is None,
            },
    {
        for i in 0..self.table_rets.len()
            invariant
                table_ret_from(*self, func@, 0) == table_ret_from(*self, func@, i as int),
        {
            if same(self.table_rets[i].func.as_str(), func) {
                return match &self.table_rets[i].elem_ty {
                    Some(t) => Some(t),
                    None => None,
                };
            }
        }
        None
    }
}

impl ClassInfo {
    pub fn field_pos(&self, name: &str) -> (r: Option<usize>)
        ensures
            match r {
                Some(i) => field_pos(*self, name@) == Some(i as int) && i < self.fields@.len(),
                None => field_pos(*self, name@) is None,
            },
    {
        for i in 0..self.fields.len()
            invariant
                field_pos(*self, name@) == name_pos(field_names(*self), name@, i as int),
        {
            if same(self.fields[i].name.as_str(), name) {
                return Some(i);
            }
        }
        None
    }
}

/// The bare expression `kind`, with nothing noted.
pub fn expr(kind: ExprKind) -> (r: Rc<Expr>)
    ensures
        r.kind == kind,
        r.note.ty is None,
        r.note.table is None,
        r.note.resolved is None,
{
    Rc::new(Expr { kind, note: Note { ty: None, table: None, resolved: None } })
}

} // verus!
