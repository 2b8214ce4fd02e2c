//! What the interpreter asks of its host, what the host answers, and what an answer means.
use crate::ast::{BinaryOp, Float, FloatV, Program};
use crate::table::{rand_in, tie_rand_range};
use crate::text::{lit, views};
use crate::value::{cells_view, lemma_table_view, Value, ValueV};
use vstd::prelude::*;

verus! {

/// A service of the operating system that takes strings.
#[derive(Clone, Copy, Debug, PartialEq, Eq, Structural)]
pub enum HostOp {
    ReadLine,
    FileRead,
    FileWrite,
    FileAppend,
    FileExists,
    FileDelete,
    PrintErr,
    ListDir,
    HttpGet,
    HttpGetFile,
    ExecCode,
    ExecOutput,
    UntarGz,
    Unzip,
    MkdirAll,
    RemoveDirAll,
    CopyDir,
    WalkDir,
    ByteRead,
    PathAbs,
    Cwd,
    GetEnv,
    SetEnv,
    FileCopy,
    FileMove,
    TimeNow,
    ArgCount,
}

/// A function of one float.
#[derive(Clone, Copy, Debug, PartialEq, Eq, Structural)]
pub enum MathFn {
    Sqrt,
    Sin,
    Cos,
    Tan,
    Exp,
    Log,
    Floor,
    Ceil,
    Round,
}

/// A number of either kind, as mathematical functions take it.
#[derive(Debug)]
pub enum Num {
    Int(i64),
    Float(Float),
}

pub enum NumV {
    Int(i64),
    Float(FloatV),
}

impl View for Num {
    type V = NumV;

    open spec fn view(&self) -> NumV {
        match *self {
            Num::Int(n) => NumV::Int(n),
            Num::Float(f) => NumV::Float(f@),
        }
    }
}

/// What the interpreter asks of its host.
#[allow(inconsistent_fields)]
#[derive(Debug)]
pub enum Request {
    /// Tokenize and parse a source text.
    Parse(String),
    /// Write to standard output; `newline` ends the line, else the output is flushed.
    Print { text: String, newline: bool },
    /// A service of the operating system.
    Host { op: HostOp, args: Vec<String> },
    /// Write bytes to a file.
    ByteWrite { path: String, bytes: Vec<u8> },
    /// The command line argument at a position, counted behind the program's name.
    ArgString(i64),
    /// Flush standard output and end the process.
    Exit(i32),
    /// A random number.
    Random,
    FloatBinary { op: BinaryOp, a: Float, b: Float },
    FloatNeg(Float),
    /// One more or one less.
    FloatStep { x: Float, up: bool },
    Math { fun: MathFn, x: Num },
    Pow { x: Num, y: Num },
    ParseFloat(String),
}

#[allow(inconsistent_fields)]
pub enum RequestV {
    Parse(Seq<char>),
    Print { text: Seq<char>, newline: bool },
    Host { op: HostOp, args: Seq<Seq<char>> },
    ByteWrite { path: Seq<char>, bytes: Seq<u8> },
    ArgString(i64),
    Exit(i32),
    Random,
    FloatBinary { op: BinaryOp, a: FloatV, b: FloatV },
    FloatNeg(FloatV),
    FloatStep { x: FloatV, up: bool },
    Math { fun: MathFn, x: NumV },
    Pow { x: NumV, y: NumV },
    ParseFloat(Seq<char>),
}

impl View for Request {
    type V = RequestV;

    open spec fn view(&self) -> RequestV {
        match *self {
            Request::Parse(s) => RequestV::Parse(s@),
            Request::Print { text, newline } => RequestV::Print { text: text@, newline },
            Request::Host { op, args } => RequestV::Host { op, args: views(args@) },
            Request::ByteWrite { path, bytes } => RequestV::ByteWrite {
                path: path@,
                bytes: bytes@,
            },
            Request::ArgString(i) => RequestV::ArgString(i),
            Request::Exit(c) => RequestV::Exit(c),
            Request::Random => RequestV::Random,
            Request::FloatBinary { op, a, b } => RequestV::FloatBinary { op, a: a@, b: b@ },
            Request::FloatNeg(f) => RequestV::FloatNeg(f@),
            Request::FloatStep { x, up } => RequestV::FloatStep { x: x@, up },
            Request::Math { fun, x } => RequestV::Math { fun, x: x@ },
            Request::Pow { x, y } => RequestV::Pow { x: x@, y: y@ },
            Request::ParseFloat(s) => RequestV::ParseFloat(s@),
        }
    }
}

/// What the parser made of a source text.
#[derive(Debug)]
pub enum Parsed {
    /// The text has no tokens; the message says where.
    LexError(String),
    /// The tokens make no program; the message says where.
    SyntaxError(String),
    Program(Program),
}

/// What the host answers.
#[derive(Debug)]
pub enum Reply {
    Done,
    Text(String),
    MaybeText(Option<String>),
    Flag(bool),
    Number(i64),
    Names(Option<Vec<String>>),
    Bytes(Option<Vec<u8>>),
    Float(Float),
    MaybeFloat(Option<Float>),
    Random(u64),
    Parsed(Parsed),
}

/// What an answer is to become.
pub enum After {
    Done,
    Text,
    /// A text; the message is for the case that there is none.
    MaybeText(String),
    Flag,
    Number,
    Names(String),
    Bytes(String),
    Float,
    MaybeFloat(String),
    /// A random number in `min..max`.
    Random { min: i64, max: i64 },
    /// No answer is to come.
    Never,
}

pub enum AfterV {
    Done,
    Text,
    MaybeText(Seq<char>),
    Flag,
    Number,
    Names(Seq<char>),
    Bytes(Seq<char>),
    Float,
    MaybeFloat(Seq<char>),
    Random { min: i64, max: i64 },
    Never,
}

impl View for After {
    type V = AfterV;

    open spec fn view(&self) -> AfterV {
        match *self {
            After::Done => AfterV::Done,
            After::Text => AfterV::Text,
            After::MaybeText(m) => AfterV::MaybeText(m@),
            After::Flag => AfterV::Flag,
            After::Number => AfterV::Number,
            After::Names(m) => AfterV::Names(m@),
            After::Bytes(m) => AfterV::Bytes(m@),
            After::Float => AfterV::Float,
            After::MaybeFloat(m) => AfterV::MaybeFloat(m@),
            After::Random { min, max } => AfterV::Random { min, max },
            After::Never => AfterV::Never,
        }
    }
}

/// A result, a failure with its message, or a breakdown of the interpreter itself.
pub enum Outcome {
    Val(Value),
    Fail(String),
    Crash,
}

pub enum OutcomeV {
    Val(ValueV),
    Fail(Seq<char>),
    Crash,
}

impl View for Outcome {
    type V = OutcomeV;

    open spec fn view(&self) -> OutcomeV {
        match *self {
            Outcome::Val(v) => OutcomeV::Val(v@),
            Outcome::Fail(m) => OutcomeV::Fail(m@),
            Outcome::Crash => OutcomeV::Crash,
        }
    }
}

/// A string as it passes through a C string: one that holds a NUL arrives empty.
pub open spec fn c_str(s: Seq<char>) -> Seq<char> {
    if s.contains('\0') {
        Seq::empty()
    } else {
        s
    }
}

/// Passes a string through a C string.
pub fn c_string(s: &str) -> (r: String)
    ensures
        r@ == c_str(s@),
{
    for c in it: s.chars()
        invariant
            it.seq() == s@,
            forall|j: int| 0 <= j < it.index() ==> s@[j] != '\0',
    {
        if c == '\0' {
            assert(s@[it.index() as int] == '\0');
            return String::new();
        }
    }
    lit(s)
}

/// The names as table cells.
pub open spec fn name_cells(names: Seq<String>) -> Seq<ValueV> {
    Seq::new(names.len(), |i: int| ValueV::Str(c_str(names[i]@)))
}

/// The bytes as table cells.
pub open spec fn byte_cells(bytes: Seq<u8>) -> Seq<ValueV> {
    Seq::new(bytes.len(), |i: int| ValueV::Int(bytes[i] as i64))
}

/// What an answer becomes: an answer of another kind than was asked for is a breakdown.
pub open spec fn settled(after: AfterV, reply: Reply) -> OutcomeV {
    match (after, reply) {
        (AfterV::Done, Reply::Done) => OutcomeV::Val(ValueV::Void),
        (AfterV::Text, Reply::Text(s)) => OutcomeV::Val(ValueV::Str(c_str(s@))),
        (AfterV::MaybeText(m), Reply::MaybeText(o)) => match o {
            Some(s) => OutcomeV::Val(ValueV::Str(c_str(s@))),
            None => OutcomeV::Fail(m),
        },
        (AfterV::Flag, Reply::Flag(b)) => OutcomeV::Val(ValueV::Bool(b)),
        (AfterV::Number, Reply::Number(n)) => OutcomeV::Val(ValueV::Int(n)),
        (AfterV::Names(m), Reply::Names(o)) => match o {
            Some(v) => OutcomeV::Val(ValueV::Table(name_cells(v@))),
            None => OutcomeV::Fail(m),
        },
        (AfterV::Bytes(m), Reply::Bytes(o)) => match o {
            Some(v) => OutcomeV::Val(ValueV::Table(byte_cells(v@))),
            None => OutcomeV::Fail(m),
        },
        (AfterV::Float, Reply::Float(f)) => OutcomeV::Val(ValueV::Float(f@)),
        (AfterV::MaybeFloat(m), Reply::MaybeFloat(o)) => match o {
            Some(f) => OutcomeV::Val(ValueV::Float(f@)),
            None => OutcomeV::Fail(m),
        },
        (AfterV::Random { min, max }, Reply::Random(r)) => match rand_in(min, max, r) {
            Some(v) => OutcomeV::Val(ValueV::Int(v as i64)),
            None => OutcomeV::Fail("运行时错误: rand_range 参数范围无效（max 必须大于 min）"@),
        },
        _ => OutcomeV::Crash,
    }
}

fn name_table(names: &Vec<String>) -> (v: Value)
    ensures
        v@ == ValueV::Table(name_cells(names@)),
{
    broadcast use lemma_table_view;

    let mut cells: Vec<Value> = Vec::new();
    for i in 0..names.len()
        invariant
            cells@.len() == i,
            forall|j: int|
                0 <= j < i ==> (#[trigger] cells@[j])@ == ValueV::Str(c_str(names@[j]@)),
    {
        cells.push(Value::Str(c_string(names[i].as_str())));
    }
    assert(cells_view(cells@) =~= name_cells(names@));
    Value::Table(cells)
}

fn byte_table(bytes: &Vec<u8>) -> (v: Value)
    ensures
        v@ == ValueV::Table(byte_cells(bytes@)),
{
    broadcast use lemma_table_view;

    let mut cells: Vec<Value> = Vec::new();
    for i in 0..bytes.len()
        invariant
            cells@.len() == i,
            forall|j: int|
                0 <= j < i ==> (#[trigger] cells@[j])@ == ValueV::Int(bytes@[j] as i64),
    {
        cells.push(Value::Int(bytes[i] as i64));
    }
    assert(cells_view(cells@) =~= byte_cells(bytes@));
    Value::Table(cells)
}

/// Turns an answer into what was asked for.
pub fn settle(after: After, reply: Reply) -> (o: Outcome)
    ensures
        o@ == settled(after@, reply),
{
    match (after, reply) {
        (After::Done, Reply::Done) => Outcome::Val(Value::Void),
        (After::Text, Reply::Text(s)) => Outcome::Val(Value::Str(c_string(s.as_str()))),
        (After::MaybeText(m), Reply::MaybeText(o)) => match o {
            Some(s) => Outcome::Val(Value::Str(c_string(s.as_str()))),
            None => Outcome::Fail(m),
        },
        (After::Flag, Reply::Flag(b)) => Outcome::Val(Value::Bool(b)),
        (After::Number, Reply::Number(n)) => Outcome::Val(Value::Int(n)),
        (After::Names(m), Reply::Names(o)) => match o {
            Some(v) => Outcome::Val(name_table(&v)),
            None => Outcome::Fail(m),
        },
        (After::Bytes(m), Reply::Bytes(o)) => match o {
            Some(v) => Outcome::Val(byte_table(&v)),
            None => Outcome::Fail(m),
        },
        (After::Float, Reply::Float(f)) => Outcome::Val(Value::Float(f)),
        (After::MaybeFloat(m), Reply::MaybeFloat(o)) => match o {
            Some(f) => Outcome::Val(Value::Float(f)),
            None => Outcome::Fail(m),
        },
        (After::Random { min, max }, Reply::Random(r)) => match tie_rand_range(min, max, r) {
            Some(v) => Outcome::Val(Value::Int(v)),
            None => Outcome::Fail(lit("运行时错误: rand_range 参数范围无效（max 必须大于 min）")),
        },
        _ => Outcome::Crash,
    }
}

} // verus!
