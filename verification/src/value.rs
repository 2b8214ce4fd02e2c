//! The interpreter's values: how they print, what they are called, and what the binary
//! and unary operators make of them.
use crate::ast::{BinaryOp, Float, FloatV, TyKw, TypeSpec};
use crate::text::{cat2, cat3, cat5, chars_of, dec, dec_i64, lit};
use vstd::prelude::*;

verus! {

/// A value at run time. Values carry their type.
#[derive(Debug)]
pub enum Value {
    Int(i64),
    Float(Float),
    Bool(bool),
    /// A balanced ternary digit: -1, 0 or 1.
    Trit(i8),
    Char(char),
    Str(String),
    /// `start..end`, as `for` iterates over it.
    Range(i64, i64),
    Table(Vec<Value>),
    Void,
}

/// What a value is.
pub enum ValueV {
    Int(i64),
    Float(FloatV),
    Bool(bool),
    Trit(i8),
    Char(char),
    Str(Seq<char>),
    Range(i64, i64),
    Table(Seq<ValueV>),
    Void,
}

impl View for Value {
    type V = ValueV;

    open spec fn view(&self) -> ValueV {
        value_view(*self)
    }
}

pub open spec fn value_view(v: Value) -> ValueV
    decreases v,
{
    match v {
        Value::Int(n) => ValueV::Int(n),
        Value::Float(f) => ValueV::Float(f@),
        Value::Bool(b) => ValueV::Bool(b),
        Value::Trit(t) => ValueV::Trit(t),
        Value::Char(c) => ValueV::Char(c),
        Value::Str(s) => ValueV::Str(s@),
        Value::Range(a, b) => ValueV::Range(a, b),
        Value::Table(cells) => ValueV::Table(
            Seq::new(
                cells@.len(),
                |i: int|
                    if 0 <= i < cells@.len() {
                        value_view(cells@[i])
                    } else {
                        ValueV::Void
                    },
            ),
        ),
        Value::Void => ValueV::Void,
    }
}

/// The values that a list of values holds.
pub open spec fn cells_view(cells: Seq<Value>) -> Seq<ValueV> {
    Seq::new(cells.len(), |i: int| cells[i]@)
}

pub broadcast proof fn lemma_table_view(cells: Vec<Value>)
    ensures
        #[trigger] value_view(Value::Table(cells)) == ValueV::Table(cells_view(cells@)),
{
    assert(value_view(Value::Table(cells))->Table_0 =~= cells_view(cells@));
}

/// The printed form: what `println` writes.
pub open spec fn print_string(v: ValueV) -> Seq<char>
    decreases v,
{
    match v {
        ValueV::Int(n) => dec(n as int),
        ValueV::Float(f) => f.text,
        ValueV::Bool(b) => if b {
            "1"@
        } else {
            "0"@
        },
        ValueV::Trit(t) => dec(t as int),
        ValueV::Char(c) => seq![c],
        ValueV::Str(s) => s,
        ValueV::Range(a, b) => dec(a as int) + ".."@ + dec(b as int),
        ValueV::Table(cells) => "["@ + print_cells(cells, cells.len()) + "]"@,
        ValueV::Void => Seq::empty(),
    }
}

/// The first `n` cells printed, with `, ` between them.
pub open spec fn print_cells(cells: Seq<ValueV>, n: nat) -> Seq<char>
    decreases cells, n,
{
    if n == 0 || n > cells.len() {
        Seq::empty()
    } else if n == 1 {
        print_string(cells[0])
    } else {
        print_cells(cells, (n - 1) as nat) + ", "@ + print_string(cells[n - 1])
    }
}

/// The form in which a session shows a result.
pub open spec fn repl_string(v: ValueV) -> Seq<char> {
    match v {
        ValueV::Bool(b) => if b {
            "true"@
        } else {
            "false"@
        },
        _ => print_string(v),
    }
}

/// The name of the type of a value, as messages give it.
pub open spec fn kind_name(v: ValueV) -> Seq<char> {
    match v {
        ValueV::Int(_) => "整数"@,
        ValueV::Float(_) => "浮点数"@,
        ValueV::Bool(_) => "布尔"@,
        ValueV::Trit(_) => "trit"@,
        ValueV::Char(_) => "字符"@,
        ValueV::Str(_) => "字符串"@,
        ValueV::Range(_, _) => "范围"@,
        ValueV::Table(_) => "表"@,
        ValueV::Void => "void"@,
    }
}

/// What a condition decides: only a boolean can stand there.
pub open spec fn truthy(v: ValueV) -> Result<bool, Seq<char>> {
    match v {
        ValueV::Bool(b) => Ok(b),
        _ => Err("条件必须是布尔，实际是 "@ + kind_name(v)),
    }
}

/// Whether a value belongs to a type, as `case` asks.
pub open spec fn matches_ty(v: ValueV, ty: TypeSpec) -> bool {
    match ty {
        TypeSpec::Named(k) => match k {
            TyKw::I8 | TyKw::I16 | TyKw::I32 | TyKw::I64 | TyKw::U8 | TyKw::U16 | TyKw::U32
            | TyKw::U64 => v is Int,
            TyKw::F32 | TyKw::F64 => v is Float,
            TyKw::Bool => v is Bool,
            TyKw::Trit => v is Trit,
            TyKw::Char => v is Char,
            TyKw::Str => v is Str,
            TyKw::Table => v is Table,
            TyKw::Void => v is Void,
            TyKw::Num => v is Int || v is Float,
            TyKw::Text => v is Str || v is Char,
            TyKw::Misc => !(v is Int || v is Float || v is Str || v is Char),
            TyKw::Code => false,
        },
        TypeSpec::Table(_) => v is Table,
        TypeSpec::Tuple(_) => false,
        TypeSpec::Struct(_) => false,
    }
}

impl Value {
    /// A copy of the value.
    pub fn dup(&self) -> (r: Value)
        ensures
            r@ == self@,
        decreases self,
    {
        broadcast use lemma_table_view;

        match self {
            Value::Int(n) => Value::Int(*n),
            Value::Float(f) => Value::Float(f.dup()),
            Value::Bool(b) => Value::Bool(*b),
            Value::Trit(t) => Value::Trit(*t),
            Value::Char(c) => Value::Char(*c),
            Value::Str(s) => Value::Str(s.clone()),
            Value::Range(a, b) => Value::Range(*a, *b),
            Value::Table(cells) => Value::Table(Value::dup_cells(cells)),
            Value::Void => Value::Void,
        }
    }

    /// A copy of a list of values.
    pub fn dup_cells(cells: &Vec<Value>) -> (r: Vec<Value>)
        ensures
            cells_view(r@) == cells_view(cells@),
        decreases cells,
    {
        let mut r: Vec<Value> = Vec::new();
        for i in 0..cells.len()
            invariant
                r@.len() == i,
                forall|j: int| 0 <= j < i ==> (#[trigger] r@[j])@ == cells@[j]@,
        {
            assert(decreases_to!(cells => cells@));
            assert(decreases_to!(cells@ => cells@[i as int]));
            r.push(cells[i].dup());
        }
        assert(cells_view(r@) =~= cells_view(cells@));
        r
    }

    /// The name of the value's type.
    pub fn kind_name(&self) -> (r: &'static str)
        ensures
            r@ == kind_name(self@),
    {
        match self {
            Value::Int(_) => "整数",
            Value::Float(_) => "浮点数",
            Value::Bool(_) => "布尔",
            Value::Trit(_) => "trit",
            Value::Char(_) => "字符",
            Value::Str(_) => "字符串",
            Value::Range(_, _) => "范围",
            Value::Table(_) => "表",
            Value::Void => "void",
        }
    }

    /// What the value decides where it stands as a condition.
    pub fn is_truthy(&self) -> (r: Result<bool, String>)
        ensures
            match r {
                Ok(b) => truthy(self@) == Ok::<bool, Seq<char>>(b),
                Err(m) => truthy(self@) == Err::<bool, Seq<char>>(m@),
            },
    {
        match self {
            Value::Bool(b) => Ok(*b),
            _ => Err(cat2("条件必须是布尔，实际是 ", self.kind_name())),
        }
    }

    /// The printed form: booleans as `0` and `1`, tables in square brackets.
    pub fn to_print_string(&self) -> (r: String)
        ensures
            r@ == print_string(self@),
        decreases self,
    {
        broadcast use lemma_table_view;

        match self {
            Value::Int(n) => dec_i64(*n),
            Value::Float(f) => f.text.clone(),
            Value::Bool(b) => lit(
                if *b {
                    "1"
                } else {
                    "0"
                },
            ),
            Value::Trit(t) => dec_i64(*t as i64),
            Value::Char(c) => {
                let mut s = String::new();
                s.push(*c);
                assert(s@ =~= seq![*c]);
                s
            },
            Value::Str(s) => s.clone(),
            Value::Range(a, b) => {
                let x = dec_i64(*a);
                let y = dec_i64(*b);
                cat3(x.as_str(), "..", y.as_str())
            },
            Value::Table(cells) => {
                let inner = Value::print_cells(cells);
                cat3("[", inner.as_str(), "]")
            },
            Value::Void => String::new(),
        }
    }

    /// The cells printed, with `, ` between them.
    fn print_cells(cells: &Vec<Value>) -> (r: String)
        ensures
            r@ == print_cells(cells_view(cells@), cells@.len()),
        decreases cells,
    {
        let mut out = String::new();
        let ghost cv = cells_view(cells@);
        assert(out@ == print_cells(cv, 0));
        for i in 0..cells.len()
            invariant
                cv == cells_view(cells@),
                out@ == print_cells(cv, i as nat),
        {
            assert(decreases_to!(cells => cells@));
            assert(decreases_to!(cells@ => cells@[i as int]));
            let one = cells[i].to_print_string();
            if i == 0 {
                out = one;
            } else {
                out.append(", ");
                out.append(one.as_str());
            }
        }
        out
    }

    /// The form in which a session shows the value: booleans as `true` and `false`.
    pub fn to_repl_string(&self) -> (r: String)
        ensures
            r@ == repl_string(self@),
    {
        match self {
            Value::Bool(b) => lit(
                if *b {
                    "true"
                } else {
                    "false"
                },
            ),
            _ => self.to_print_string(),
        }
    }
}

/// Whether `v` belongs to the type `ty`.
pub fn value_matches_ty(v: &Value, ty: &TypeSpec) -> (r: bool)
    ensures
        r == matches_ty(v@, *ty),
{
    match ty {
        TypeSpec::Named(k) => match k {
            TyKw::I8 | TyKw::I16 | TyKw::I32 | TyKw::I64 | TyKw::U8 | TyKw::U16 | TyKw::U32
            | TyKw::U64 => matches!(v, Value::Int(_)),
            TyKw::F32 | TyKw::F64 => matches!(v, Value::Float(_)),
            TyKw::Bool => matches!(v, Value::Bool(_)),
            TyKw::Trit => matches!(v, Value::Trit(_)),
            TyKw::Char => matches!(v, Value::Char(_)),
            TyKw::Str => matches!(v, Value::Str(_)),
            TyKw::Table => matches!(v, Value::Table(_)),
            TyKw::Void => matches!(v, Value::Void),
            TyKw::Num => matches!(v, Value::Int(_) | Value::Float(_)),
            TyKw::Text => matches!(v, Value::Str(_) | Value::Char(_)),
            TyKw::Misc => !matches!(
                v,
                Value::Int(_) | Value::Float(_) | Value::Str(_) | Value::Char(_)
            ),
            TyKw::Code => false,
        },
        TypeSpec::Table(_) => matches!(v, Value::Table(_)),
        TypeSpec::Tuple(_) => false,
        TypeSpec::Struct(_) => false,
    }
}

// ---------- operators ----------
/// What an operator makes of its operands.
pub enum BinOut {
    Val(Value),
    Fail(String),
    /// A floating-point operation, which the host carries out.
    Float(BinaryOp, Float, Float),
    /// An integer result outside the 64-bit range.
    Crash,
}

pub enum BinOutV {
    Val(ValueV),
    Fail(Seq<char>),
    Float(BinaryOp, FloatV, FloatV),
    Crash,
}

impl View for BinOut {
    type V = BinOutV;

    open spec fn view(&self) -> BinOutV {
        match *self {
            BinOut::Val(v) => BinOutV::Val(v@),
            BinOut::Fail(m) => BinOutV::Fail(m@),
            BinOut::Float(op, a, b) => BinOutV::Float(op, a@, b@),
            BinOut::Crash => BinOutV::Crash,
        }
    }
}

pub open spec fn op_text(op: BinaryOp) -> Seq<char> {
    match op {
        BinaryOp::Add => "+"@,
        BinaryOp::Sub => "-"@,
        BinaryOp::Mul => "*"@,
        BinaryOp::Div => "/"@,
        BinaryOp::Mod => "%"@,
        BinaryOp::Eq => "=="@,
        BinaryOp::NotEq => "!="@,
        BinaryOp::Lt => "<"@,
        BinaryOp::Gt => ">"@,
        BinaryOp::Le => "<="@,
        BinaryOp::Ge => ">="@,
        BinaryOp::And => "&&"@,
        BinaryOp::Or => "||"@,
        BinaryOp::BitAnd => "&"@,
        BinaryOp::BitOr => "|"@,
        BinaryOp::BitXor => "^"@,
        BinaryOp::Shl => "<<"@,
        BinaryOp::Shr => ">>"@,
    }
}

/// The operator as it is written.
pub fn op_display(op: BinaryOp) -> (r: &'static str)
    ensures
        r@ == op_text(op),
{
    match op {
        BinaryOp::Add => "+",
        BinaryOp::Sub => "-",
        BinaryOp::Mul => "*",
        BinaryOp::Div => "/",
        BinaryOp::Mod => "%",
        BinaryOp::Eq => "==",
        BinaryOp::NotEq => "!=",
        BinaryOp::Lt => "<",
        BinaryOp::Gt => ">",
        BinaryOp::Le => "<=",
        BinaryOp::Ge => ">=",
        BinaryOp::And => "&&",
        BinaryOp::Or => "||",
        BinaryOp::BitAnd => "&",
        BinaryOp::BitOr => "|",
        BinaryOp::BitXor => "^",
        BinaryOp::Shl => "<<",
        BinaryOp::Shr => ">>",
    }
}

/// Whether the operator compares.
pub open spec fn comparison(op: BinaryOp) -> bool {
    op == BinaryOp::Eq || op == BinaryOp::NotEq || op == BinaryOp::Lt || op == BinaryOp::Gt || op
        == BinaryOp::Le || op == BinaryOp::Ge
}

pub fn is_comparison(op: BinaryOp) -> (r: bool)
    ensures
        r == comparison(op),
{
    matches!(
        op,
        BinaryOp::Eq | BinaryOp::NotEq | BinaryOp::Lt | BinaryOp::Gt | BinaryOp::Le | BinaryOp::Ge
    )
}

/// Whether the operator works on the bits of integers.
pub open spec fn bitwise(op: BinaryOp) -> bool {
    op == BinaryOp::BitAnd || op == BinaryOp::BitOr || op == BinaryOp::BitXor || op == BinaryOp::Shl
        || op == BinaryOp::Shr
}

pub fn is_bitwise(op: BinaryOp) -> (r: bool)
    ensures
        r == bitwise(op),
{
    matches!(op, BinaryOp::BitAnd | BinaryOp::BitOr | BinaryOp::BitXor | BinaryOp::Shl | BinaryOp::Shr)
}

/// What a comparison says of two numbers in order.
pub open spec fn compare_ints(op: BinaryOp, a: int, b: int) -> bool {
    match op {
        BinaryOp::Eq => a == b,
        BinaryOp::NotEq => a != b,
        BinaryOp::Lt => a < b,
        BinaryOp::Gt => a > b,
        BinaryOp::Le => a <= b,
        BinaryOp::Ge => a >= b,
        _ => false,
    }
}

pub fn compare_i64(op: BinaryOp, a: i64, b: i64) -> (r: bool)
    ensures
        r == compare_ints(op, a as int, b as int),
{
    match op {
        BinaryOp::Eq => a == b,
        BinaryOp::NotEq => a != b,
        BinaryOp::Lt => a < b,
        BinaryOp::Gt => a > b,
        BinaryOp::Le => a <= b,
        BinaryOp::Ge => a >= b,
        _ => false,
    }
}

/// The order of two strings, character by character from position `i` on: negative,
/// zero or positive.
pub open spec fn str_order(a: Seq<char>, b: Seq<char>, i: int) -> int
    decreases a.len() - i,
{
    if i < 0 || i >= a.len() {
        if i < b.len() {
            -1
        } else {
            0
        }
    } else if i >= b.len() {
        1
    } else if a[i] < b[i] {
        -1
    } else if a[i] > b[i] {
        1
    } else {
        str_order(a, b, i + 1)
    }
}

fn order_of(a: &str, b: &str) -> (r: i64)
    ensures
        r == str_order(a@, b@, 0),
{
    let x = chars_of(a);
    let y = chars_of(b);
    let mut i: usize = 0;
    while i < x.len() && i < y.len()
        invariant
            x@ == a@,
            y@ == b@,
            i <= x@.len(),
            i <= y@.len(),
            str_order(a@, b@, 0) == str_order(a@, b@, i as int),
        decreases x@.len() - i,
    {
        if x[i] < y[i] {
            return -1;
        }
        if x[i] > y[i] {
            return 1;
        }
        i = i + 1;
    }
    if i < x.len() {
        1
    } else if i < y.len() {
        -1
    } else {
        0
    }
}

/// An integer result, where it fits.
pub open spec fn fit(n: int) -> BinOutV {
    if i64::MIN <= n <= i64::MAX {
        BinOutV::Val(ValueV::Int(n as i64))
    } else {
        BinOutV::Crash
    }
}

fn fitted(n: Option<i64>, Ghost(m): Ghost<int>) -> (r: BinOut)
    requires
        n == (if i64::MIN <= m <= i64::MAX {
            Some(m as i64)
        } else {
            None
        }),
    ensures
        r@ == fit(m),
{
    match n {
        Some(v) => BinOut::Val(Value::Int(v)),
        None => BinOut::Crash,
    }
}

pub open spec fn abs(a: int) -> int {
    if a < 0 {
        -a
    } else {
        a
    }
}

/// The quotient, rounded towards zero.
pub open spec fn quotient(a: int, b: int) -> int {
    if (a < 0) == (b < 0) {
        abs(a) / abs(b)
    } else {
        -(abs(a) / abs(b))
    }
}

/// The remainder that goes with `quotient`: it has the sign of `a`.
pub open spec fn remainder(a: int, b: int) -> int {
    if a < 0 {
        -(abs(a) % abs(b))
    } else {
        abs(a) % abs(b)
    }
}

fn abs_u64(a: i64) -> (r: u64)
    ensures
        r == abs(a as int),
{
    if a < 0 {
        (-(a as i128)) as u64
    } else {
        a as u64
    }
}

fn divide(a: i64, b: i64) -> (r: BinOut)
    requires
        b != 0,
    ensures
        r@ == fit(quotient(a as int, b as int)),
{
    let x = abs_u64(a);
    let y = abs_u64(b);
    let q: u64 = x / y;
    proof {
        assert(0 <= q <= x) by (nonlinear_arith)
            requires
                y > 0,
                q == x / y,
        ;
    }
    if (a < 0) == (b < 0) {
        if q <= 0x7fff_ffff_ffff_ffffu64 {
            BinOut::Val(Value::Int(q as i64))
        } else {
            BinOut::Crash
        }
    } else {
        BinOut::Val(Value::Int((-(q as i128)) as i64))
    }
}

fn modulo(a: i64, b: i64) -> (r: i64)
    requires
        b != 0,
    ensures
        r == remainder(a as int, b as int),
{
    let x = abs_u64(a);
    let y = abs_u64(b);
    let q: u64 = x % y;
    proof {
        assert(0 <= q <= x && q < y) by (nonlinear_arith)
            requires
                y > 0,
                q == x % y,
        ;
    }
    if a < 0 {
        (-(q as i128)) as i64
    } else {
        q as i64
    }
}

/// What an operator makes of two integers.
pub open spec fn int_binary(op: BinaryOp, a: i64, b: i64) -> BinOutV {
    match op {
        BinaryOp::Add => fit(a + b),
        BinaryOp::Sub => fit(a - b),
        BinaryOp::Mul => fit(a * b),
        BinaryOp::Div => if b == 0 {
            BinOutV::Fail("除零错误"@)
        } else {
            fit(quotient(a as int, b as int))
        },
        BinaryOp::Mod => if b == 0 {
            BinOutV::Fail("除零错误（取模）"@)
        } else if a == i64::MIN && b == -1 {
            BinOutV::Crash
        } else {
            BinOutV::Val(ValueV::Int(remainder(a as int, b as int) as i64))
        },
        BinaryOp::And | BinaryOp::Or => BinOutV::Fail("整数不能做逻辑运算（需布尔）"@),
        BinaryOp::BitAnd => BinOutV::Val(ValueV::Int(a & b)),
        BinaryOp::BitOr => BinOutV::Val(ValueV::Int(a | b)),
        BinaryOp::BitXor => BinOutV::Val(ValueV::Int(a ^ b)),
        BinaryOp::Shl => if 0 <= b < 64 {
            BinOutV::Val(ValueV::Int(a << b))
        } else {
            BinOutV::Fail("左移量必须在 0..64 范围内"@)
        },
        BinaryOp::Shr => if 0 <= b < 64 {
            BinOutV::Val(ValueV::Int(a >> b))
        } else {
            BinOutV::Fail("右移量必须在 0..64 范围内"@)
        },
        _ => BinOutV::Val(ValueV::Bool(compare_ints(op, a as int, b as int))),
    }
}

fn eval_int(op: BinaryOp, a: i64, b: i64) -> (r: BinOut)
    ensures
        r@ == int_binary(op, a, b),
{
    match op {
        BinaryOp::Add => fitted(a.checked_add(b), Ghost(a + b)),
        BinaryOp::Sub => fitted(a.checked_sub(b), Ghost(a - b)),
        BinaryOp::Mul => fitted(a.checked_mul(b), Ghost(a * b)),
        BinaryOp::Div => {
            if b == 0 {
                BinOut::Fail(lit("除零错误"))
            } else {
                divide(a, b)
            }
        },
        BinaryOp::Mod => {
            if b == 0 {
                BinOut::Fail(lit("除零错误（取模）"))
            } else if a == i64::MIN && b == -1 {
                BinOut::Crash
            } else {
                BinOut::Val(Value::Int(modulo(a, b)))
            }
        },
        BinaryOp::And | BinaryOp::Or => BinOut::Fail(lit("整数不能做逻辑运算（需布尔）")),
        BinaryOp::BitAnd => BinOut::Val(Value::Int(a & b)),
        BinaryOp::BitOr => BinOut::Val(Value::Int(a | b)),
        BinaryOp::BitXor => BinOut::Val(Value::Int(a ^ b)),
        BinaryOp::Shl => {
            if 0 <= b && b < 64 {
                BinOut::Val(Value::Int(a << b))
            } else {
                BinOut::Fail(lit("左移量必须在 0..64 范围内"))
            }
        },
        BinaryOp::Shr => {
            if 0 <= b && b < 64 {
                BinOut::Val(Value::Int(a >> b))
            } else {
                BinOut::Fail(lit("右移量必须在 0..64 范围内"))
            }
        },
        _ => BinOut::Val(Value::Bool(compare_i64(op, a, b))),
    }
}

/// What an operator makes of two floats: the host computes, where there is anything to
/// compute.
pub open spec fn float_binary(op: BinaryOp, a: FloatV, b: FloatV) -> BinOutV {
    if op == BinaryOp::And || op == BinaryOp::Or {
        BinOutV::Fail("浮点数不能做逻辑运算（需布尔）"@)
    } else if bitwise(op) {
        BinOutV::Fail("位运算/移位只支持整数"@)
    } else {
        BinOutV::Float(op, a, b)
    }
}

/// What an operator makes of two booleans.
pub open spec fn bool_binary(op: BinaryOp, a: bool, b: bool) -> BinOutV {
    match op {
        BinaryOp::And => BinOutV::Val(ValueV::Bool(a && b)),
        BinaryOp::Or => BinOutV::Val(ValueV::Bool(a || b)),
        BinaryOp::Eq => BinOutV::Val(ValueV::Bool(a == b)),
        BinaryOp::NotEq => BinOutV::Val(ValueV::Bool(a != b)),
        _ => if bitwise(op) {
            BinOutV::Fail("位运算/移位只支持整数"@)
        } else {
            BinOutV::Fail("布尔只能做逻辑运算与相等比较"@)
        },
    }
}

/// An integer cut off to the three ternary digits.
pub open spec fn clamp(v: int) -> i8 {
    if v < -1 {
        -1i8
    } else if v > 1 {
        1i8
    } else {
        v as i8
    }
}

/// Cuts an integer off to the three ternary digits.
pub fn clamp_trit(v: i64) -> (r: i8)
    ensures
        r == clamp(v as int),
        -1 <= r <= 1,
{
    if v < -1 {
        -1
    } else if v > 1 {
        1
    } else {
        v as i8
    }
}

/// What an operator makes of two ternary digits: `&&` and `||` are Kleene's, arithmetic
/// saturates.
pub open spec fn trit_binary(op: BinaryOp, a: i8, b: i8) -> BinOutV {
    match op {
        BinaryOp::And => BinOutV::Val(
            ValueV::Trit(
                if a <= b {
                    a
                } else {
                    b
                },
            ),
        ),
        BinaryOp::Or => BinOutV::Val(
            ValueV::Trit(
                if a >= b {
                    a
                } else {
                    b
                },
            ),
        ),
        BinaryOp::Add => BinOutV::Val(ValueV::Trit(clamp(a + b))),
        BinaryOp::Sub => BinOutV::Val(ValueV::Trit(clamp(a - b))),
        BinaryOp::Mul => BinOutV::Val(ValueV::Trit(clamp(a * b))),
        BinaryOp::Div | BinaryOp::Mod => BinOutV::Fail("trit 不支持除/取模运算（三值无除法）"@),
        _ => if bitwise(op) {
            BinOutV::Fail("位运算/移位只支持整数"@)
        } else {
            BinOutV::Val(ValueV::Bool(compare_ints(op, a as int, b as int)))
        },
    }
}

fn eval_trit(op: BinaryOp, a: i8, b: i8) -> (r: BinOut)
    ensures
        r@ == trit_binary(op, a, b),
{
    let x: i64 = a as i64;
    let y: i64 = b as i64;
    match op {
        BinaryOp::And => BinOut::Val(
            Value::Trit(
                if a <= b {
                    a
                } else {
                    b
                },
            ),
        ),
        BinaryOp::Or => BinOut::Val(
            Value::Trit(
                if a >= b {
                    a
                } else {
                    b
                },
            ),
        ),
        BinaryOp::Add => BinOut::Val(Value::Trit(clamp_trit(x + y))),
        BinaryOp::Sub => BinOut::Val(Value::Trit(clamp_trit(x - y))),
        BinaryOp::Mul => {
            proof {
                assert(-0x8000 <= x * y <= 0x8000) by (nonlinear_arith)
                    requires
                        -128 <= x <= 127,
                        -128 <= y <= 127,
                ;
            }
            BinOut::Val(Value::Trit(clamp_trit(x * y)))
        },
        BinaryOp::Div | BinaryOp::Mod => BinOut::Fail(lit("trit 不支持除/取模运算（三值无除法）")),
        _ => {
            if is_bitwise(op) {
                BinOut::Fail(lit("位运算/移位只支持整数"))
            } else {
                BinOut::Val(Value::Bool(compare_i64(op, x, y)))
            }
        },
    }
}

/// What an operator makes of a ternary digit beside an integer, both taken as integers;
/// `m` names the pair where the operator is not for it.
pub open spec fn mixed_binary(op: BinaryOp, a: i64, b: i64, m: Seq<char>) -> BinOutV {
    if op == BinaryOp::Add || op == BinaryOp::Sub || op == BinaryOp::Mul || comparison(op) {
        int_binary(op, a, b)
    } else {
        BinOutV::Fail(m + op_text(op))
    }
}

fn eval_mixed(op: BinaryOp, a: i64, b: i64, m: &str) -> (r: BinOut)
    ensures
        r@ == mixed_binary(op, a, b, m@),
{
    if matches!(op, BinaryOp::Add | BinaryOp::Sub | BinaryOp::Mul) || is_comparison(op) {
        eval_int(op, a, b)
    } else {
        BinOut::Fail(cat2(m, op_display(op)))
    }
}

/// What an operator makes of two values.
pub open spec fn binary(op: BinaryOp, l: ValueV, r: ValueV) -> BinOutV {
    match (l, r) {
        (ValueV::Str(a), ValueV::Str(b)) => if op == BinaryOp::Add {
            BinOutV::Val(ValueV::Str(a + b))
        } else if comparison(op) {
            BinOutV::Val(ValueV::Bool(compare_ints(op, str_order(a, b, 0), 0)))
        } else {
            mismatch(op, l, r)
        },
        (ValueV::Int(a), ValueV::Int(b)) => int_binary(op, a, b),
        (ValueV::Float(a), ValueV::Float(b)) => float_binary(op, a, b),
        (ValueV::Bool(a), ValueV::Bool(b)) => bool_binary(op, a, b),
        (ValueV::Trit(a), ValueV::Trit(b)) => trit_binary(op, a, b),
        (ValueV::Trit(a), ValueV::Int(b)) => mixed_binary(
            op,
            a as i64,
            b,
            "trit 与 i64 不支持该运算: "@,
        ),
        (ValueV::Int(a), ValueV::Trit(b)) => mixed_binary(
            op,
            a,
            b as i64,
            "i64 与 trit 不支持该运算: "@,
        ),
        _ => mismatch(op, l, r),
    }
}

/// The refusal of operands whose types do not go together.
pub open spec fn mismatch(op: BinaryOp, l: ValueV, r: ValueV) -> BinOutV {
    BinOutV::Fail("类型不匹配: "@ + kind_name(l) + " "@ + op_text(op) + (" "@ + kind_name(r)))
}

fn eval_mismatch(op: BinaryOp, l: &Value, r: &Value) -> (o: BinOut)
    ensures
        o@ == mismatch(op, l@, r@),
{
    let tail = cat2(" ", r.kind_name());
    BinOut::Fail(cat5("类型不匹配: ", l.kind_name(), " ", op_display(op), tail.as_str()))
}

/// Applies a binary operator.
pub fn eval_binary(op: BinaryOp, l: &Value, r: &Value) -> (o: BinOut)
    ensures
        o@ == binary(op, l@, r@),
{
    match (l, r) {
        (Value::Str(a), Value::Str(b)) => {
            if op == BinaryOp::Add {
                BinOut::Val(Value::Str(cat2(a.as_str(), b.as_str())))
            } else if is_comparison(op) {
                BinOut::Val(Value::Bool(compare_i64(op, order_of(a.as_str(), b.as_str()), 0)))
            } else {
                eval_mismatch(op, l, r)
            }
        },
        (Value::Int(a), Value::Int(b)) => eval_int(op, *a, *b),
        (Value::Float(a), Value::Float(b)) => {
            if matches!(op, BinaryOp::And | BinaryOp::Or) {
                BinOut::Fail(lit("浮点数不能做逻辑运算（需布尔）"))
            } else if is_bitwise(op) {
                BinOut::Fail(lit("位运算/移位只支持整数"))
            } else {
                BinOut::Float(op, a.dup(), b.dup())
            }
        },
        (Value::Bool(a), Value::Bool(b)) => match op {
            BinaryOp::And => BinOut::Val(Value::Bool(*a && *b)),
            BinaryOp::Or => BinOut::Val(Value::Bool(*a || *b)),
            BinaryOp::Eq => BinOut::Val(Value::Bool(*a == *b)),
            BinaryOp::NotEq => BinOut::Val(Value::Bool(*a != *b)),
            _ => {
                if is_bitwise(op) {
                    BinOut::Fail(lit("位运算/移位只支持整数"))
                } else {
                    BinOut::Fail(lit("布尔只能做逻辑运算与相等比较"))
                }
            },
        },
        (Value::Trit(a), Value::Trit(b)) => eval_trit(op, *a, *b),
        (Value::Trit(a), Value::Int(b)) => eval_mixed(
            op,
            *a as i64,
            *b,
            "trit 与 i64 不支持该运算: ",
        ),
        (Value::Int(a), Value::Trit(b)) => eval_mixed(
            op,
            *a,
            *b as i64,
            "i64 与 trit 不支持该运算: ",
        ),
        _ => eval_mismatch(op, l, r),
    }
}

} // verus!
