//! The built-in functions: what each takes, what it gives, and what it asks of the host.
use crate::host::{c_str, c_string, After, AfterV, HostOp, MathFn, Num, NumV, Request, RequestV};
use crate::msg::{msg_register, msg_set_lang, msg_t, msg_t_lang, MsgState, MsgV};
use crate::paths::{
    basename, dirname, joined, normalized, tie_path_basename, tie_path_dirname, tie_path_join,
    tie_path_normalize,
};
use crate::pattern::{
    found_text, found_texts, group_text, regex_all, regex_first, regex_matches, regex_replaced,
    regex_valid, tie_regex_find, tie_regex_find_all, tie_regex_group, tie_regex_match,
    tie_regex_replace,
};
use crate::table::{
    bit_at, bit_in, bit_put, table_bytes, tie_bit_read, tie_bit_write, tie_byte_concat, to_byte,
};
use crate::text::{
    cat2, cat3, cat5, chars_of, dec, dec_i64, dec_usize, lit, parse_i64, parse_int, same, views,
};
use crate::value::{cells_view, lemma_table_view, print_string, Value, ValueV};
use vstd::prelude::*;
use vstd::utf8::encode_utf8;

verus! {

/// What a call of a built-in function comes to.
pub enum CallOut {
    Val(Value),
    Fail(String),
    /// The host is to be asked; the second part says what its answer becomes.
    Ask(Request, After),
    /// A source text is to be evaluated.
    Eval(String),
    /// A function is to be called by name with one string.
    EvalCall(String, String),
    /// There is no built-in function of that name.
    Unknown,
}

pub enum CallOutV {
    Val(ValueV),
    Fail(Seq<char>),
    Ask(RequestV, AfterV),
    Eval(Seq<char>),
    EvalCall(Seq<char>, Seq<char>),
    Unknown,
}

impl View for CallOut {
    type V = CallOutV;

    open spec fn view(&self) -> CallOutV {
        match *self {
            CallOut::Val(v) => CallOutV::Val(v@),
            CallOut::Fail(m) => CallOutV::Fail(m@),
            CallOut::Ask(q, a) => CallOutV::Ask(q@, a@),
            CallOut::Eval(c) => CallOutV::Eval(c@),
            CallOut::EvalCall(n, a) => CallOutV::EvalCall(n@, a@),
            CallOut::Unknown => CallOutV::Unknown,
        }
    }
}

fn fail(m: &str) -> (r: CallOut)
    ensures
        r@ == CallOutV::Fail(m@),
{
    CallOut::Fail(lit(m))
}

/// The argument at position `i`, where it is a string.
pub open spec fn str_at(args: Seq<ValueV>, i: int) -> Option<Seq<char>> {
    if 0 <= i < args.len() {
        match args[i] {
            ValueV::Str(s) => Some(s),
            _ => None,
        }
    } else {
        None
    }
}

fn str_arg(args: &Vec<Value>, i: usize) -> (r: Option<&String>)
    ensures
        match r {
            Some(s) => str_at(cells_view(args@), i as int) == Some(s@),
            None => str_at(cells_view(args@), i as int) is None,
        },
{
    if i < args.len() {
        match &args[i] {
            Value::Str(s) => Some(s),
            _ => None,
        }
    } else {
        None
    }
}

/// The argument at position `i`, where it is an integer.
pub open spec fn int_at(args: Seq<ValueV>, i: int) -> Option<i64> {
    if 0 <= i < args.len() {
        match args[i] {
            ValueV::Int(n) => Some(n),
            _ => None,
        }
    } else {
        None
    }
}

fn int_arg(args: &Vec<Value>, i: usize) -> (r: Option<i64>)
    ensures
        r == int_at(cells_view(args@), i as int),
{
    if i < args.len() {
        match &args[i] {
            Value::Int(n) => Some(*n),
            _ => None,
        }
    } else {
        None
    }
}

/// The argument at position `i`, where it is a table.
pub open spec fn table_at(args: Seq<ValueV>, i: int) -> Option<Seq<ValueV>> {
    if 0 <= i < args.len() {
        match args[i] {
            ValueV::Table(c) => Some(c),
            _ => None,
        }
    } else {
        None
    }
}

fn table_arg(args: &Vec<Value>, i: usize) -> (r: Option<&Vec<Value>>)
    ensures
        match r {
            Some(c) => table_at(cells_view(args@), i as int) == Some(cells_view(c@)),
            None => table_at(cells_view(args@), i as int) is None,
        },
{
    broadcast use lemma_table_view;

    if i < args.len() {
        match &args[i] {
            Value::Table(c) => Some(c),
            _ => None,
        }
    } else {
        None
    }
}

/// The argument at position `i`, where it is a number.
pub open spec fn num_at(args: Seq<ValueV>, i: int) -> Option<NumV> {
    if 0 <= i < args.len() {
        match args[i] {
            ValueV::Int(n) => Some(NumV::Int(n)),
            ValueV::Float(f) => Some(NumV::Float(f)),
            _ => None,
        }
    } else {
        None
    }
}

fn num_arg(args: &Vec<Value>, i: usize) -> (r: Option<Num>)
    ensures
        match r {
            Some(n) => num_at(cells_view(args@), i as int) == Some(n@),
            None => num_at(cells_view(args@), i as int) is None,
        },
{
    if i < args.len() {
        match &args[i] {
            Value::Int(n) => Some(Num::Int(*n)),
            Value::Float(f) => Some(Num::Float(f.dup())),
            _ => None,
        }
    } else {
        None
    }
}

// ---------- services of the operating system ----------
/// How a service is called: the number of its string arguments, and whether they pass
/// through C strings.
#[derive(Clone, Copy)]
pub struct HostSig {
    pub op: HostOp,
    pub params: u8,
    pub bridged: bool,
}

/// The service behind a name.
pub open spec fn host_sig(name: Seq<char>) -> Option<HostSig> {
    if name == "file_read"@ {
        Some(HostSig { op: HostOp::FileRead, params: 1, bridged: true })
    } else if name == "file_write"@ {
        Some(HostSig { op: HostOp::FileWrite, params: 2, bridged: false })
    } else if name == "file_append"@ {
        Some(HostSig { op: HostOp::FileAppend, params: 2, bridged: false })
    } else if name == "file_exists"@ {
        Some(HostSig { op: HostOp::FileExists, params: 1, bridged: false })
    } else if name == "file_delete"@ {
        Some(HostSig { op: HostOp::FileDelete, params: 1, bridged: false })
    } else if name == "print_err"@ {
        Some(HostSig { op: HostOp::PrintErr, params: 1, bridged: true })
    } else if name == "list_dir"@ {
        Some(HostSig { op: HostOp::ListDir, params: 1, bridged: true })
    } else if name == "http_get"@ {
        Some(HostSig { op: HostOp::HttpGet, params: 1, bridged: true })
    } else if name == "http_get_file"@ {
        Some(HostSig { op: HostOp::HttpGetFile, params: 2, bridged: true })
    } else if name == "exec_code"@ {
        Some(HostSig { op: HostOp::ExecCode, params: 1, bridged: true })
    } else if name == "exec_output"@ {
        Some(HostSig { op: HostOp::ExecOutput, params: 1, bridged: true })
    } else if name == "untar_gz"@ {
        Some(HostSig { op: HostOp::UntarGz, params: 2, bridged: true })
    } else if name == "unzip"@ {
        Some(HostSig { op: HostOp::Unzip, params: 2, bridged: true })
    } else if name == "mkdir_all"@ {
        Some(HostSig { op: HostOp::MkdirAll, params: 1, bridged: true })
    } else if name == "remove_dir_all"@ {
        Some(HostSig { op: HostOp::RemoveDirAll, params: 1, bridged: true })
    } else if name == "copy_dir"@ {
        Some(HostSig { op: HostOp::CopyDir, params: 2, bridged: true })
    } else if name == "walk_dir"@ {
        Some(HostSig { op: HostOp::WalkDir, params: 1, bridged: true })
    } else if name == "byte_read"@ {
        Some(HostSig { op: HostOp::ByteRead, params: 1, bridged: true })
    } else if name == "path_abs"@ {
        Some(HostSig { op: HostOp::PathAbs, params: 1, bridged: true })
    } else if name == "cwd"@ {
        Some(HostSig { op: HostOp::Cwd, params: 0, bridged: true })
    } else if name == "get_env"@ {
        Some(HostSig { op: HostOp::GetEnv, params: 1, bridged: true })
    } else if name == "set_env"@ {
        Some(HostSig { op: HostOp::SetEnv, params: 2, bridged: true })
    } else if name == "file_copy"@ {
        Some(HostSig { op: HostOp::FileCopy, params: 2, bridged: true })
    } else if name == "file_move"@ {
        Some(HostSig { op: HostOp::FileMove, params: 2, bridged: true })
    } else if name == "time_now"@ {
        Some(HostSig { op: HostOp::TimeNow, params: 0, bridged: true })
    } else if name == "arg_count"@ {
        Some(HostSig { op: HostOp::ArgCount, params: 0, bridged: true })
    } else {
        None
    }
}

fn host_sig_of(name: &str) -> (r: Option<HostSig>)
    ensures
        r == host_sig(name@),
{
    if same(name, "file_read") {
        Some(HostSig { op: HostOp::FileRead, params: 1, bridged: true })
    } else if same(name, "file_write") {
        Some(HostSig { op: HostOp::FileWrite, params: 2, bridged: false })
    } else if same(name, "file_append") {
        Some(HostSig { op: HostOp::FileAppend, params: 2, bridged: false })
    } else if same(name, "file_exists") {
        Some(HostSig { op: HostOp::FileExists, params: 1, bridged: false })
    } else if same(name, "file_delete") {
        Some(HostSig { op: HostOp::FileDelete, params: 1, bridged: false })
    } else if same(name, "print_err") {
        Some(HostSig { op: HostOp::PrintErr, params: 1, bridged: true })
    } else if same(name, "list_dir") {
        Some(HostSig { op: HostOp::ListDir, params: 1, bridged: true })
    } else if same(name, "http_get") {
        Some(HostSig { op: HostOp::HttpGet, params: 1, bridged: true })
    } else if same(name, "http_get_file") {
        Some(HostSig { op: HostOp::HttpGetFile, params: 2, bridged: true })
    } else if same(name, "exec_code") {
        Some(HostSig { op: HostOp::ExecCode, params: 1, bridged: true })
    } else if same(name, "exec_output") {
        Some(HostSig { op: HostOp::ExecOutput, params: 1, bridged: true })
    } else if same(name, "untar_gz") {
        Some(HostSig { op: HostOp::UntarGz, params: 2, bridged: true })
    } else if same(name, "unzip") {
        Some(HostSig { op: HostOp::Unzip, params: 2, bridged: true })
    } else if same(name, "mkdir_all") {
        Some(HostSig { op: HostOp::MkdirAll, params: 1, bridged: true })
    } else if same(name, "remove_dir_all") {
        Some(HostSig { op: HostOp::RemoveDirAll, params: 1, bridged: true })
    } else if same(name, "copy_dir") {
        Some(HostSig { op: HostOp::CopyDir, params: 2, bridged: true })
    } else if same(name, "walk_dir") {
        Some(HostSig { op: HostOp::WalkDir, params: 1, bridged: true })
    } else if same(name, "byte_read") {
        Some(HostSig { op: HostOp::ByteRead, params: 1, bridged: true })
    } else if same(name, "path_abs") {
        Some(HostSig { op: HostOp::PathAbs, params: 1, bridged: true })
    } else if same(name, "cwd") {
        Some(HostSig { op: HostOp::Cwd, params: 0, bridged: true })
    } else if same(name, "get_env") {
        Some(HostSig { op: HostOp::GetEnv, params: 1, bridged: true })
    } else if same(name, "set_env") {
        Some(HostSig { op: HostOp::SetEnv, params: 2, bridged: true })
    } else if same(name, "file_copy") {
        Some(HostSig { op: HostOp::FileCopy, params: 2, bridged: true })
    } else if same(name, "file_move") {
        Some(HostSig { op: HostOp::FileMove, params: 2, bridged: true })
    } else if same(name, "time_now") {
        Some(HostSig { op: HostOp::TimeNow, params: 0, bridged: true })
    } else if same(name, "arg_count") {
        Some(HostSig { op: HostOp::ArgCount, params: 0, bridged: true })
    } else {
        None
    }
}

/// The complaint about a wrong number or kind of arguments.
pub open spec fn usage(name: Seq<char>, params: u8) -> Seq<char> {
    if params == 0 {
        name + " 不需要参数"@
    } else if params == 1 {
        name + " 需要一个字符串参数"@
    } else {
        name + " 需要两个字符串参数"@
    }
}

fn usage_of(name: &str, params: u8) -> (r: String)
    ensures
        r@ == usage(name@, params),
{
    if params == 0 {
        cat2(name, " 不需要参数")
    } else if params == 1 {
        cat2(name, " 需要一个字符串参数")
    } else {
        cat2(name, " 需要两个字符串参数")
    }
}

/// What the answer of a service becomes; `arg` is its first argument.
pub open spec fn host_after(op: HostOp, arg: Seq<char>) -> AfterV {
    match op {
        HostOp::FileRead => AfterV::MaybeText("运行时错误: file_read 无法读取文件 '"@ + arg + "'"@),
        HostOp::HttpGet => AfterV::MaybeText("运行时错误: http_get 无法访问 URL '"@ + arg + "'"@),
        HostOp::ListDir => AfterV::Names("运行时错误: list_dir 无法读取目录 '"@ + arg + "'"@),
        HostOp::WalkDir => AfterV::Names("运行时错误: walk_dir 无法读取目录 '"@ + arg + "'"@),
        HostOp::ByteRead => AfterV::Bytes("运行时错误: byte_read 无法读取文件 '"@ + arg + "'"@),
        HostOp::PrintErr | HostOp::SetEnv => AfterV::Done,
        HostOp::ExecCode | HostOp::TimeNow | HostOp::ArgCount => AfterV::Number,
        HostOp::ReadLine | HostOp::ExecOutput | HostOp::PathAbs | HostOp::Cwd | HostOp::GetEnv => AfterV::Text,
        _ => AfterV::Flag,
    }
}

fn host_after_of(op: HostOp, arg: &str) -> (r: After)
    ensures
        r@ == host_after(op, arg@),
{
    match op {
        HostOp::FileRead => After::MaybeText(cat3("运行时错误: file_read 无法读取文件 '", arg, "'")),
        HostOp::HttpGet => After::MaybeText(cat3("运行时错误: http_get 无法访问 URL '", arg, "'")),
        HostOp::ListDir => After::Names(cat3("运行时错误: list_dir 无法读取目录 '", arg, "'")),
        HostOp::WalkDir => After::Names(cat3("运行时错误: walk_dir 无法读取目录 '", arg, "'")),
        HostOp::ByteRead => After::Bytes(cat3("运行时错误: byte_read 无法读取文件 '", arg, "'")),
        HostOp::PrintErr | HostOp::SetEnv => After::Done,
        HostOp::ExecCode | HostOp::TimeNow | HostOp::ArgCount => After::Number,
        HostOp::ReadLine | HostOp::ExecOutput | HostOp::PathAbs | HostOp::Cwd | HostOp::GetEnv => After::Text,
        _ => After::Flag,
    }
}

/// A string as a service gets it.
pub open spec fn bridged(s: Seq<char>, through_c: bool) -> Seq<char> {
    if through_c {
        c_str(s)
    } else {
        s
    }
}

fn bridge(s: &str, through_c: bool) -> (r: String)
    ensures
        r@ == bridged(s@, through_c),
{
    if through_c {
        c_string(s)
    } else {
        lit(s)
    }
}

/// A call of a service.
pub open spec fn call_host(name: Seq<char>, sig: HostSig, args: Seq<ValueV>) -> CallOutV {
    if args.len() != sig.params {
        CallOutV::Fail(usage(name, sig.params))
    } else if sig.params == 0 {
        CallOutV::Ask(
            RequestV::Host { op: sig.op, args: Seq::empty() },
            host_after(sig.op, Seq::empty()),
        )
    } else if sig.params == 1 {
        match str_at(args, 0) {
            Some(a) => CallOutV::Ask(
                RequestV::Host { op: sig.op, args: seq![bridged(a, sig.bridged)] },
                host_after(sig.op, a),
            ),
            None => CallOutV::Fail(usage(name, sig.params)),
        }
    } else {
        match (str_at(args, 0), str_at(args, 1)) {
            (Some(a), Some(b)) => CallOutV::Ask(
                RequestV::Host {
                    op: sig.op,
                    args: seq![bridged(a, sig.bridged), bridged(b, sig.bridged)],
                },
                host_after(sig.op, a),
            ),
            _ => CallOutV::Fail(usage(name, sig.params)),
        }
    }
}

fn call_host_fn(name: &str, sig: HostSig, args: &Vec<Value>) -> (r: CallOut)
    requires
        sig.params <= 2,
    ensures
        r@ == call_host(name@, sig, cells_view(args@)),
{
    if args.len() != sig.params as usize {
        return CallOut::Fail(usage_of(name, sig.params));
    }
    let mut list: Vec<String> = Vec::new();
    if sig.params == 0 {
        assert(views(list@) =~= Seq::<Seq<char>>::empty());
        let none = String::new();
        return CallOut::Ask(
            Request::Host { op: sig.op, args: list },
            host_after_of(sig.op, none.as_str()),
        );
    }
    let a = match str_arg(args, 0) {
        Some(a) => a,
        None => return CallOut::Fail(usage_of(name, sig.params)),
    };
    list.push(bridge(a.as_str(), sig.bridged));
    if sig.params == 1 {
        assert(views(list@) =~= seq![bridged(a@, sig.bridged)]);
        return CallOut::Ask(
            Request::Host { op: sig.op, args: list },
            host_after_of(sig.op, a.as_str()),
        );
    }
    match str_arg(args, 1) {
        Some(b) => {
            list.push(bridge(b.as_str(), sig.bridged));
            assert(views(list@) =~= seq![bridged(a@, sig.bridged), bridged(b@, sig.bridged)]);
            CallOut::Ask(
                Request::Host { op: sig.op, args: list },
                host_after_of(sig.op, a.as_str()),
            )
        },
        None => CallOut::Fail(usage_of(name, sig.params)),
    }
}

// ---------- texts, numbers and tables ----------
/// The arguments printed one after the other.
pub open spec fn print_all(args: Seq<ValueV>, n: nat) -> Seq<char>
    decreases n,
{
    if n == 0 || n > args.len() {
        Seq::empty()
    } else {
        print_all(args, (n - 1) as nat) + print_string(args[n - 1])
    }
}

fn print_args(args: &Vec<Value>) -> (r: String)
    ensures
        r@ == print_all(cells_view(args@), args@.len()),
{
    let mut out = String::new();
    let ghost av = cells_view(args@);
    for i in 0..args.len()
        invariant
            av == cells_view(args@),
            out@ == print_all(av, i as nat),
    {
        let one = args[i].to_print_string();
        out.append(one.as_str());
    }
    out
}

/// The number of bytes of a string.
pub open spec fn byte_len(s: Seq<char>) -> i64 {
    (encode_utf8(s).len() as usize) as i64
}

/// The refusal of a position outside a table.
pub open spec fn out_of_range(prefix: Seq<char>, i: i64, len: nat) -> Seq<char> {
    prefix + dec(i as int) + " 超出长度 "@ + dec(len as int)
}

pub fn out_of_range_text(prefix: &str, i: i64, len: usize) -> (r: String)
    ensures
        r@ == out_of_range(prefix@, i, len as nat),
{
    let mut s = lit(prefix);
    let a = dec_i64(i);
    let b = dec_usize(len);
    s.append(a.as_str());
    s.append(" 超出长度 ");
    s.append(b.as_str());
    s
}

/// What reading position `i` of a table gives.
pub open spec fn cell_at(cells: Seq<ValueV>, i: i64, prefix: Seq<char>) -> Result<ValueV, Seq<char>> {
    if 0 <= i < cells.len() {
        Ok(cells[i as int])
    } else {
        Err(out_of_range(prefix, i, cells.len()))
    }
}

pub fn read_cell(cells: &Vec<Value>, i: i64, prefix: &str) -> (r: Result<Value, String>)
    ensures
        match r {
            Ok(v) => cell_at(cells_view(cells@), i, prefix@) == Ok::<ValueV, Seq<char>>(v@),
            Err(m) => cell_at(cells_view(cells@), i, prefix@) == Err::<ValueV, Seq<char>>(m@),
        },
{
    if i < 0 || i as u64 >= cells.len() as u64 {
        Err(out_of_range_text(prefix, i, cells.len()))
    } else {
        Ok(cells[i as usize].dup())
    }
}

/// The character at position `i` as a string; nothing where there is none.
pub open spec fn char_text(s: Seq<char>, i: i64) -> Seq<char> {
    if 0 <= i < s.len() {
        seq![s[i as int]]
    } else {
        Seq::empty()
    }
}

/// The character of `s` at position `i`, counted in characters, as a string; the empty
/// string where `i` lies outside.
pub fn tie_str_char(s: &str, i: i64) -> (r: String)
    ensures
        r@ == char_text(s@, i),
{
    let v = chars_of(s);
    let mut out = String::new();
    if i < 0 || i as u64 >= v.len() as u64 {
        return out;
    }
    out.push(v[i as usize]);
    assert(out@ =~= seq![s@[i as int]]);
    out
}

/// The decimal numeral of an integer.
pub fn tie_to_string_i64(v: i64) -> (r: String)
    ensures
        r@ == dec(v as int),
{
    dec_i64(v)
}

/// Parses a 64-bit integer.
pub fn tie_parse_int(s: &str) -> (r: Option<i64>)
    ensures
        r == parse_int(s@),
{
    parse_i64(s)
}

/// The ternary digit that a string denotes.
pub open spec fn parse_trit(s: Seq<char>) -> Option<i8> {
    if s == "-1"@ {
        Some(-1i8)
    } else if s == "0"@ {
        Some(0i8)
    } else if s == "1"@ {
        Some(1i8)
    } else {
        None
    }
}

/// Parses a ternary digit: `-1`, `0` or `1` and nothing else.
pub fn tie_parse_trit(s: &str) -> (r: Option<i8>)
    ensures
        r == parse_trit(s@),
{
    if same(s, "-1") {
        Some(-1)
    } else if same(s, "0") {
        Some(0)
    } else if same(s, "1") {
        Some(1)
    } else {
        None
    }
}

/// Strings, tables and numbers, none of which need the host, but for reading a float.
pub open spec fn call_text(name: Seq<char>, args: Seq<ValueV>) -> CallOutV {
    if name == "len"@ {
        if args.len() != 1 {
            CallOutV::Fail("len 需要一个参数"@)
        } else {
            match args[0] {
                ValueV::Str(s) => CallOutV::Val(ValueV::Int(byte_len(s))),
                ValueV::Table(c) => CallOutV::Val(ValueV::Int(c.len() as i64)),
                _ => CallOutV::Fail("len 只支持字符串或表"@),
            }
        }
    } else if name == "table_new_i64"@ || name == "table_new_f64"@ || name == "table_new_string"@
        || name == "table_new_bool"@ {
        if args.len() != 0 {
            CallOutV::Fail(name + " 不需要参数"@)
        } else {
            CallOutV::Val(ValueV::Table(Seq::empty()))
        }
    } else if name == "table_at"@ {
        match (table_at(args, 0), int_at(args, 1)) {
            (Some(c), Some(i)) => if args.len() != 2 {
                CallOutV::Fail("table_at 需要表与整数下标参数"@)
            } else {
                match cell_at(c, i, "运行时错误: table_at 下标越界：索引 "@) {
                    Ok(v) => CallOutV::Val(v),
                    Err(m) => CallOutV::Fail(m),
                }
            },
            _ => CallOutV::Fail("table_at 需要表与整数下标参数"@),
        }
    } else if name == "str_char"@ {
        match (str_at(args, 0), int_at(args, 1)) {
            (Some(s), Some(i)) => if args.len() != 2 {
                CallOutV::Fail("str_char 需要字符串与整数参数"@)
            } else {
                CallOutV::Val(ValueV::Str(char_text(c_str(s), i)))
            },
            _ => CallOutV::Fail("str_char 需要字符串与整数参数"@),
        }
    } else if name == "to_string"@ {
        if args.len() != 1 {
            CallOutV::Fail("to_string 需要一个数字参数"@)
        } else {
            match args[0] {
                ValueV::Int(n) => CallOutV::Val(ValueV::Str(dec(n as int))),
                ValueV::Float(f) => CallOutV::Val(ValueV::Str(c_str(f.text))),
                ValueV::Trit(t) => CallOutV::Val(ValueV::Str(dec(t as int))),
                _ => CallOutV::Fail("to_string 需要一个数字参数"@),
            }
        }
    } else if name == "parse_int"@ {
        match str_at(args, 0) {
            Some(s) if args.len() == 1 => match parse_int(c_str(s)) {
                Some(n) => CallOutV::Val(ValueV::Int(n)),
                None => CallOutV::Fail("运行时错误: parse_int 参数 '"@ + s + "' 不是合法的整数"@),
            },
            _ => CallOutV::Fail("parse_int 需要一个字符串参数"@),
        }
    } else if name == "parse_float"@ {
        match str_at(args, 0) {
            Some(s) if args.len() == 1 => CallOutV::Ask(
                RequestV::ParseFloat(c_str(s)),
                AfterV::MaybeFloat("运行时错误: parse_float 参数 '"@ + s + "' 不是合法的浮点数"@),
            ),
            _ => CallOutV::Fail("parse_float 需要一个字符串参数"@),
        }
    } else if name == "parse_trit"@ {
        match str_at(args, 0) {
            Some(s) if args.len() == 1 => match parse_trit(c_str(s)) {
                Some(t) => CallOutV::Val(ValueV::Trit(t)),
                None => CallOutV::Fail(
                    "运行时错误: parse_trit 参数 '"@ + s + "' 不是合法的 trit（期望 -1/0/1）"@,
                ),
            },
            _ => CallOutV::Fail("parse_trit 需要一个字符串参数"@),
        }
    } else {
        CallOutV::Unknown
    }
}

fn call_text_fn(name: &str, args: &Vec<Value>) -> (r: CallOut)
    ensures
        r@ == call_text(name@, cells_view(args@)),
{
    broadcast use lemma_table_view;

    let n: usize = args.len();
    if same(name, "len") {
        if n != 1 {
            return fail("len 需要一个参数");
        }
        match &args[0] {
            Value::Str(s) => CallOut::Val(Value::Int(s.as_str().len() as i64)),
            Value::Table(c) => CallOut::Val(Value::Int(c.len() as i64)),
            _ => fail("len 只支持字符串或表"),
        }
    } else if same(name, "table_new_i64") || same(name, "table_new_f64") || same(
        name,
        "table_new_string",
    ) || same(name, "table_new_bool") {
        if n != 0 {
            CallOut::Fail(cat2(name, " 不需要参数"))
        } else {
            let cells: Vec<Value> = Vec::new();
            assert(cells_view(cells@) =~= Seq::<ValueV>::empty());
            CallOut::Val(Value::Table(cells))
        }
    } else if same(name, "table_at") {
        match (table_arg(args, 0), int_arg(args, 1)) {
            (Some(c), Some(i)) => {
                if n != 2 {
                    fail("table_at 需要表与整数下标参数")
                } else {
                    match read_cell(c, i, "运行时错误: table_at 下标越界：索引 ") {
                        Ok(v) => CallOut::Val(v),
                        Err(m) => CallOut::Fail(m),
                    }
                }
            },
            _ => fail("table_at 需要表与整数下标参数"),
        }
    } else if same(name, "str_char") {
        match (str_arg(args, 0), int_arg(args, 1)) {
            (Some(s), Some(i)) => {
                if n != 2 {
                    fail("str_char 需要字符串与整数参数")
                } else {
                    let t = c_string(s.as_str());
                    CallOut::Val(Value::Str(tie_str_char(t.as_str(), i)))
                }
            },
            _ => fail("str_char 需要字符串与整数参数"),
        }
    } else if same(name, "to_string") {
        if n != 1 {
            return fail("to_string 需要一个数字参数");
        }
        match &args[0] {
            Value::Int(v) => CallOut::Val(Value::Str(tie_to_string_i64(*v))),
            Value::Float(f) => CallOut::Val(Value::Str(c_string(f.text.as_str()))),
            Value::Trit(t) => CallOut::Val(Value::Str(dec_i64(*t as i64))),
            _ => fail("to_string 需要一个数字参数"),
        }
    } else if same(name, "parse_int") {
        match str_arg(args, 0) {
            Some(s) => {
                if n != 1 {
                    return fail("parse_int 需要一个字符串参数");
                }
                let t = c_string(s.as_str());
                match tie_parse_int(t.as_str()) {
                    Some(v) => CallOut::Val(Value::Int(v)),
                    None => CallOut::Fail(
                        cat3("运行时错误: parse_int 参数 '", s.as_str(), "' 不是合法的整数"),
                    ),
                }
            },
            None => fail("parse_int 需要一个字符串参数"),
        }
    } else if same(name, "parse_float") {
        match str_arg(args, 0) {
            Some(s) => {
                if n != 1 {
                    return fail("parse_float 需要一个字符串参数");
                }
                CallOut::Ask(
                    Request::ParseFloat(c_string(s.as_str())),
                    After::MaybeFloat(
                        cat3("运行时错误: parse_float 参数 '", s.as_str(), "' 不是合法的浮点数"),
                    ),
                )
            },
            None => fail("parse_float 需要一个字符串参数"),
        }
    } else if same(name, "parse_trit") {
        match str_arg(args, 0) {
            Some(s) => {
                if n != 1 {
                    return fail("parse_trit 需要一个字符串参数");
                }
                let t = c_string(s.as_str());
                match tie_parse_trit(t.as_str()) {
                    Some(v) => CallOut::Val(Value::Trit(v)),
                    None => CallOut::Fail(
                        cat3(
                            "运行时错误: parse_trit 参数 '",
                            s.as_str(),
                            "' 不是合法的 trit（期望 -1/0/1）",
                        ),
                    ),
                }
            },
            None => fail("parse_trit 需要一个字符串参数"),
        }
    } else {
        CallOut::Unknown
    }
}

// ---------- messages ----------
/// The message catalogue.
pub open spec fn call_msg(m: MsgV, name: Seq<char>, args: Seq<ValueV>) -> (CallOutV, MsgV) {
    let a = str_at(args, 0);
    let b = str_at(args, 1);
    let c = str_at(args, 2);
    if name == "msg_set_lang"@ {
        if args.len() == 1 && a is Some {
            (CallOutV::Val(ValueV::Void), msg_set_lang(m, c_str(a->0)))
        } else {
            (CallOutV::Fail("msg_set_lang 需要一个字符串参数"@), m)
        }
    } else if name == "msg_get_lang"@ {
        if args.len() == 0 {
            (CallOutV::Val(ValueV::Str(c_str(m.lang))), m)
        } else {
            (CallOutV::Fail("msg_get_lang 不需要参数"@), m)
        }
    } else if name == "msg_register"@ {
        if args.len() == 3 && a is Some && b is Some && c is Some {
            (
                CallOutV::Val(ValueV::Void),
                msg_register(m, c_str(a->0), c_str(b->0), c_str(c->0)),
            )
        } else {
            (CallOutV::Fail("msg_register 需要三个字符串参数（键, 语言, 文本）"@), m)
        }
    } else if name == "msg_t"@ {
        if args.len() == 1 && a is Some {
            (CallOutV::Val(ValueV::Str(c_str(msg_t(m, c_str(a->0))))), m)
        } else {
            (CallOutV::Fail("msg_t 需要一个字符串参数"@), m)
        }
    } else if name == "msg_t_lang"@ {
        if args.len() == 2 && a is Some && b is Some {
            (CallOutV::Val(ValueV::Str(c_str(msg_t_lang(m, c_str(a->0), c_str(b->0))))), m)
        } else {
            (CallOutV::Fail("msg_t_lang 需要两个字符串参数（键, 语言）"@), m)
        }
    } else {
        (CallOutV::Unknown, m)
    }
}

fn call_msg_fn(m: &mut MsgState, name: &str, args: &Vec<Value>) -> (r: CallOut)
    ensures
        (r@, final(m)@) == call_msg(old(m)@, name@, cells_view(args@)),
{
    let n: usize = args.len();
    let a = str_arg(args, 0);
    let b = str_arg(args, 1);
    let c = str_arg(args, 2);
    if same(name, "msg_set_lang") {
        if let (1, Some(l)) = (n, a) {
            let l = c_string(l.as_str());
            m.tie_msg_set_lang(l.as_str());
            CallOut::Val(Value::Void)
        } else {
            fail("msg_set_lang 需要一个字符串参数")
        }
    } else if same(name, "msg_get_lang") {
        if n == 0 {
            let l = m.tie_msg_get_lang();
            CallOut::Val(Value::Str(c_string(l.as_str())))
        } else {
            fail("msg_get_lang 不需要参数")
        }
    } else if same(name, "msg_register") {
        if let (3, Some(k), Some(l), Some(t)) = (n, a, b, c) {
            let k = c_string(k.as_str());
            let l = c_string(l.as_str());
            let t = c_string(t.as_str());
            m.tie_msg_register(k.as_str(), l.as_str(), t.as_str());
            CallOut::Val(Value::Void)
        } else {
            fail("msg_register 需要三个字符串参数（键, 语言, 文本）")
        }
    } else if same(name, "msg_t") {
        if let (1, Some(k)) = (n, a) {
            let k = c_string(k.as_str());
            let t = m.tie_msg_t(k.as_str());
            CallOut::Val(Value::Str(c_string(t.as_str())))
        } else {
            fail("msg_t 需要一个字符串参数")
        }
    } else if same(name, "msg_t_lang") {
        if let (2, Some(k), Some(l)) = (n, a, b) {
            let k = c_string(k.as_str());
            let l = c_string(l.as_str());
            let t = m.tie_msg_t_lang(k.as_str(), l.as_str());
            CallOut::Val(Value::Str(c_string(t.as_str())))
        } else {
            fail("msg_t_lang 需要两个字符串参数（键, 语言）")
        }
    } else {
        CallOut::Unknown
    }
}

// ---------- bytes and bits ----------
/// The integers among the first `n` cells.
pub open spec fn ints_of(cells: Seq<ValueV>, n: nat) -> Seq<i64>
    decreases n,
{
    if n == 0 || n > cells.len() {
        Seq::empty()
    } else {
        match cells[n - 1] {
            ValueV::Int(v) => ints_of(cells, (n - 1) as nat).push(v),
            _ => ints_of(cells, (n - 1) as nat),
        }
    }
}

fn int_cells(cells: &Vec<Value>) -> (r: Vec<i64>)
    ensures
        r@ == ints_of(cells_view(cells@), cells@.len()),
{
    let mut r: Vec<i64> = Vec::new();
    let ghost cv = cells_view(cells@);
    assert(r@ =~= ints_of(cv, 0));
    for i in 0..cells.len()
        invariant
            cv == cells_view(cells@),
            r@ == ints_of(cv, i as nat),
    {
        match &cells[i] {
            Value::Int(v) => {
                r.push(*v);
            },
            _ => {},
        }
    }
    r
}

/// Integers as table cells.
pub open spec fn int_values(v: Seq<i64>) -> Seq<ValueV> {
    Seq::new(v.len(), |i: int| ValueV::Int(v[i]))
}

fn int_table(v: &Vec<i64>) -> (r: Value)
    ensures
        r@ == ValueV::Table(int_values(v@)),
{
    broadcast use lemma_table_view;

    let mut cells: Vec<Value> = Vec::new();
    for i in 0..v.len()
        invariant
            cells@.len() == i,
            forall|j: int| 0 <= j < i ==> (#[trigger] cells@[j])@ == ValueV::Int(v@[j]),
    {
        cells.push(Value::Int(v[i]));
    }
    assert(cells_view(cells@) =~= int_values(v@));
    Value::Table(cells)
}

pub open spec fn ints(cells: Seq<ValueV>) -> Seq<i64> {
    ints_of(cells, cells.len())
}

/// The first `n` cells with their integers replaced, one after the other, by those of `v`.
pub open spec fn with_ints_of(cells: Seq<ValueV>, v: Seq<i64>, n: nat) -> Seq<ValueV>
    decreases n,
{
    if n == 0 || n > cells.len() {
        Seq::empty()
    } else {
        with_ints_of(cells, v, (n - 1) as nat).push(
            match cells[n - 1] {
                ValueV::Int(_) => ValueV::Int(v[ints_of(cells, (n - 1) as nat).len() as int]),
                c => c,
            },
        )
    }
}

/// The table with the bit at `pos` of its bytes set or cleared.
pub open spec fn cells_with_bit(cells: Seq<ValueV>, pos: i64, bit: i64) -> Seq<ValueV> {
    with_ints_of(cells, bit_put(ints(cells), pos, bit), cells.len())
}

proof fn lemma_ints_grow(cells: Seq<ValueV>, a: nat, b: nat)
    requires
        a <= b <= cells.len(),
    ensures
        ints_of(cells, a).len() <= ints_of(cells, b).len(),
        a < b && cells[a as int] is Int ==> ints_of(cells, a).len() < ints_of(cells, b).len(),
    decreases b - a,
{
    if a < b {
        lemma_ints_grow(cells, a, (b - 1) as nat);
    }
}

fn put_bit(cells: &Vec<Value>, pos: i64, bit: i64) -> (r: (Vec<Value>, bool))
    ensures
        cells_view(r.0@) == cells_with_bit(cells_view(cells@), pos, bit),
        r.1 == bit_in(ints(cells_view(cells@)).len(), pos),
{
    let ghost cv = cells_view(cells@);
    let mut v = int_cells(cells);
    let ok = tie_bit_write(&mut v, pos, bit);
    let len: usize = v.len();
    let mut r: Vec<Value> = Vec::new();
    let mut k: usize = 0;
    assert(cells_view(r@) =~= Seq::<ValueV>::empty());
    for i in 0..cells.len()
        invariant
            cv == cells_view(cells@),
            v@ == bit_put(ints(cv), pos, bit),
            k == ints_of(cv, i as nat).len(),
            k <= len == v@.len(),
            cells_view(r@) == with_ints_of(cv, v@, i as nat),
    {
        let ghost before = cells_view(r@);
        assert(cv[i as int] == cells@[i as int]@);
        proof {
            lemma_ints_grow(cv, i as nat, cv.len());
            lemma_ints_grow(cv, (i + 1) as nat, cv.len());
        }
        let c = match &cells[i] {
            Value::Int(_) => {
                let x = Value::Int(v[k]);
                k = k + 1;
                x
            },
            c => c.dup(),
        };
        let ghost w = c@;
        r.push(c);
        assert(cells_view(r@) =~= before.push(w));
    }
    (r, ok)
}

/// What writing a bit into a table of bytes comes to: the table, and whether it has the bit.
pub open spec fn bit_written(t: ValueV, at: ValueV, bit: ValueV) -> Result<
    (Seq<ValueV>, bool),
    Seq<char>,
> {
    match (t, at, bit) {
        (ValueV::Table(c), ValueV::Int(i), ValueV::Int(b)) => Ok(
            (cells_with_bit(c, i, b), bit_in(ints(c).len(), i)),
        ),
        (ValueV::Table(_), ValueV::Int(_), _) => Err("bit_write 第 3 个参数必须是整数"@),
        (ValueV::Table(_), _, _) => Err("bit_write 第 2 个参数必须是整数"@),
        _ => Err("bit_write 第 1 个参数必须是字节表"@),
    }
}

pub fn bit_write(t: &Value, at: &Value, bit: &Value) -> (r: Result<(Vec<Value>, bool), String>)
    ensures
        match r {
            Ok((c, ok)) => bit_written(t@, at@, bit@) == Ok::<(Seq<ValueV>, bool), Seq<char>>(
                (cells_view(c@), ok),
            ),
            Err(m) => bit_written(t@, at@, bit@) == Err::<(Seq<ValueV>, bool), Seq<char>>(m@),
        },
{
    broadcast use lemma_table_view;

    match (t, at, bit) {
        (Value::Table(c), Value::Int(i), Value::Int(b)) => Ok(put_bit(c, *i, *b)),
        (Value::Table(_), Value::Int(_), _) => Err(lit("bit_write 第 3 个参数必须是整数")),
        (Value::Table(_), _, _) => Err(lit("bit_write 第 2 个参数必须是整数")),
        _ => Err(lit("bit_write 第 1 个参数必须是字节表")),
    }
}

/// Tables of bytes; cells that are no integers do not count. Where `bit_write` is given a
/// variable, the variable is changed too; where not, nobody sees the changed table.
pub open spec fn call_bytes(name: Seq<char>, args: Seq<ValueV>) -> CallOutV {
    if name == "byte_write"@ {
        if args.len() != 2 {
            CallOutV::Fail("byte_write 需要两个参数（路径, 字节表）"@)
        } else {
            match (str_at(args, 0), table_at(args, 1)) {
                (None, _) => CallOutV::Fail("byte_write 第 1 个参数必须是字符串"@),
                (_, None) => CallOutV::Fail("byte_write 第 2 个参数必须是字节表"@),
                (Some(p), Some(c)) => CallOutV::Ask(
                    RequestV::ByteWrite {
                        path: c_str(p),
                        bytes: ints(c).map_values(|x: i64| to_byte(x)),
                    },
                    AfterV::Flag,
                ),
            }
        }
    } else if name == "bit_read"@ {
        if args.len() != 2 {
            CallOutV::Fail("bit_read 需要两个参数（字节表, 位置）"@)
        } else {
            match (table_at(args, 0), int_at(args, 1)) {
                (None, _) => CallOutV::Fail("bit_read 第 1 个参数必须是字节表"@),
                (_, None) => CallOutV::Fail("bit_read 第 2 个参数必须是整数"@),
                (Some(c), Some(p)) => CallOutV::Val(ValueV::Int(bit_at(ints(c), p))),
            }
        }
    } else if name == "bit_write"@ {
        if args.len() != 3 {
            CallOutV::Fail("bit_write 需要三个参数（字节表, 位置, 位值）"@)
        } else {
            match bit_written(args[0], args[1], args[2]) {
                Ok((_, ok)) => CallOutV::Val(ValueV::Bool(ok)),
                Err(text) => CallOutV::Fail(text),
            }
        }
    } else if name == "byte_concat"@ {
        if args.len() != 2 {
            CallOutV::Fail("byte_concat 需要两个字节表参数"@)
        } else {
            match (table_at(args, 0), table_at(args, 1)) {
                (None, _) => CallOutV::Fail("byte_concat 第 1 个参数必须是字节表"@),
                (_, None) => CallOutV::Fail("byte_concat 第 2 个参数必须是字节表"@),
                (Some(a), Some(b)) => CallOutV::Val(
                    ValueV::Table(int_values(ints(a) + ints(b))),
                ),
            }
        }
    } else {
        CallOutV::Unknown
    }
}

fn call_bytes_fn(name: &str, args: &Vec<Value>) -> (r: CallOut)
    ensures
        r@ == call_bytes(name@, cells_view(args@)),
{
    let n: usize = args.len();
    if same(name, "byte_write") {
        if n != 2 {
            return fail("byte_write 需要两个参数（路径, 字节表）");
        }
        match (str_arg(args, 0), table_arg(args, 1)) {
            (None, _) => fail("byte_write 第 1 个参数必须是字符串"),
            (_, None) => fail("byte_write 第 2 个参数必须是字节表"),
            (Some(p), Some(c)) => {
                let v = int_cells(c);
                CallOut::Ask(
                    Request::ByteWrite { path: c_string(p.as_str()), bytes: table_bytes(&v) },
                    After::Flag,
                )
            },
        }
    } else if same(name, "bit_read") {
        if n != 2 {
            return fail("bit_read 需要两个参数（字节表, 位置）");
        }
        match (table_arg(args, 0), int_arg(args, 1)) {
            (None, _) => fail("bit_read 第 1 个参数必须是字节表"),
            (_, None) => fail("bit_read 第 2 个参数必须是整数"),
            (Some(c), Some(p)) => {
                let v = int_cells(c);
                CallOut::Val(Value::Int(tie_bit_read(&v, p)))
            },
        }
    } else if same(name, "bit_write") {
        if n != 3 {
            return fail("bit_write 需要三个参数（字节表, 位置, 位值）");
        }
        match bit_write(&args[0], &args[1], &args[2]) {
            Ok((_, ok)) => CallOut::Val(Value::Bool(ok)),
            Err(text) => CallOut::Fail(text),
        }
    } else if same(name, "byte_concat") {
        if n != 2 {
            return fail("byte_concat 需要两个字节表参数");
        }
        match (table_arg(args, 0), table_arg(args, 1)) {
            (None, _) => fail("byte_concat 第 1 个参数必须是字节表"),
            (_, None) => fail("byte_concat 第 2 个参数必须是字节表"),
            (Some(a), Some(b)) => {
                let x = int_cells(a);
                let y = int_cells(b);
                let z = tie_byte_concat(&x, &y);
                CallOut::Val(int_table(&z))
            },
        }
    } else {
        CallOut::Unknown
    }
}

// ---------- regular expressions ----------
/// The refusal of a pattern.
pub open spec fn bad_pattern(name: Seq<char>, p: Seq<char>) -> CallOutV {
    CallOutV::Fail("运行时错误: "@ + name + " 模式 '"@ + p + "' 非法"@)
}

fn bad_pattern_of(name: &str, p: &str) -> (r: CallOut)
    ensures
        r@ == bad_pattern(name@, p@),
{
    CallOut::Fail(cat5("运行时错误: ", name, " 模式 '", p, "' 非法"))
}

/// What a search for one text answers; `None` is a refused pattern.
pub open spec fn regex_text(name: Seq<char>, p: Seq<char>, found: Option<Seq<char>>) -> CallOutV {
    match found {
        Some(t) => CallOutV::Val(ValueV::Str(t)),
        None => bad_pattern(name, p),
    }
}

/// Turns what a search found into the result of the call; `None` is a refused pattern.
pub fn regex_text_out(name: &str, p: &str, found: Option<String>) -> (r: CallOut)
    ensures
        r@ == regex_text(
            name@,
            p@,
            match found {
                Some(t) => Some(t@),
                None => None,
            },
        ),
{
    match found {
        Some(t) => CallOut::Val(Value::Str(t)),
        None => bad_pattern_of(name, p),
    }
}

/// The texts as table cells.
pub open spec fn text_cells(v: Seq<Seq<char>>) -> Seq<ValueV> {
    v.map_values(|s: Seq<char>| ValueV::Str(s))
}

/// What a search for all matches answers; `None` is a refused pattern.
pub open spec fn regex_texts(name: Seq<char>, p: Seq<char>, found: Option<Seq<Seq<char>>>) -> CallOutV {
    match found {
        Some(v) => CallOutV::Val(ValueV::Table(text_cells(v))),
        None => bad_pattern(name, p),
    }
}

/// Turns the matches found into the result of the call; `None` is a refused pattern.
pub fn regex_texts_out(name: &str, p: &str, found: Option<Vec<String>>) -> (r: CallOut)
    ensures
        r@ == regex_texts(
            name@,
            p@,
            match found {
                Some(v) => Some(views(v@)),
                None => None,
            },
        ),
{
    broadcast use lemma_table_view;

    match found {
        Some(v) => {
            let mut cells: Vec<Value> = Vec::new();
            for i in 0..v.len()
                invariant
                    cells@.len() == i,
                    forall|j: int| 0 <= j < i ==> (#[trigger] cells@[j])@ == ValueV::Str(v@[j]@),
            {
                cells.push(Value::Str(v[i].clone()));
            }
            assert(cells_view(cells@) =~= text_cells(views(v@)));
            CallOut::Val(Value::Table(cells))
        },
        None => bad_pattern_of(name, p),
    }
}

/// `t`, where the pattern is accepted.
pub open spec fn if_valid<T>(p: Seq<char>, t: T) -> Option<T> {
    if regex_valid(p) {
        Some(t)
    } else {
        None
    }
}

/// Regular expressions.
pub open spec fn call_regex(name: Seq<char>, args: Seq<ValueV>) -> CallOutV {
    if name == "regex_match"@ {
        match (str_at(args, 0), str_at(args, 1)) {
            (Some(s), Some(p)) if args.len() == 2 => if regex_valid(c_str(p)) {
                CallOutV::Val(ValueV::Bool(regex_matches(c_str(p), c_str(s))))
            } else {
                bad_pattern(name, c_str(p))
            },
            _ => CallOutV::Fail("regex_match 需要两个字符串参数"@),
        }
    } else if name == "regex_find"@ {
        match (str_at(args, 0), str_at(args, 1)) {
            (Some(s), Some(p)) if args.len() == 2 => regex_text(
                name,
                c_str(p),
                if_valid(c_str(p), found_text(regex_first(c_str(p), c_str(s)))),
            ),
            _ => CallOutV::Fail("regex_find 需要两个字符串参数"@),
        }
    } else if name == "regex_find_all"@ {
        match (str_at(args, 0), str_at(args, 1)) {
            (Some(s), Some(p)) if args.len() == 2 => regex_texts(
                name,
                c_str(p),
                if_valid(c_str(p), found_texts(regex_all(c_str(p), c_str(s)))),
            ),
            _ => CallOutV::Fail("regex_find_all 需要两个字符串参数"@),
        }
    } else if name == "regex_replace"@ {
        match (str_at(args, 0), str_at(args, 1), str_at(args, 2)) {
            (Some(s), Some(p), Some(to)) if args.len() == 3 => regex_text(
                name,
                c_str(p),
                if_valid(
                    c_str(p),
                    found_text(Some(regex_replaced(c_str(p), c_str(s), c_str(to)))),
                ),
            ),
            _ => CallOutV::Fail("regex_replace 需要三个字符串参数"@),
        }
    } else if name == "regex_group"@ {
        match (str_at(args, 0), str_at(args, 1), int_at(args, 2)) {
            (Some(s), Some(p), Some(i)) if args.len() == 3 => regex_text(
                name,
                c_str(p),
                if_valid(c_str(p), found_text(group_text(c_str(p), c_str(s), i))),
            ),
            _ => CallOutV::Fail("regex_group 需要两个字符串参数与一个整数参数"@),
        }
    } else {
        CallOutV::Unknown
    }
}

fn call_regex_fn(name: &str, args: &Vec<Value>) -> (r: CallOut)
    ensures
        r@ == call_regex(name@, cells_view(args@)),
{
    let n: usize = args.len();
    if same(name, "regex_match") {
        match (str_arg(args, 0), str_arg(args, 1)) {
            (Some(s), Some(p)) if n == 2 => {
                let s = c_string(s.as_str());
                let p = c_string(p.as_str());
                match tie_regex_match(s.as_str(), p.as_str()) {
                    Some(b) => CallOut::Val(Value::Bool(b)),
                    None => bad_pattern_of(name, p.as_str()),
                }
            },
            _ => fail("regex_match 需要两个字符串参数"),
        }
    } else if same(name, "regex_find") {
        match (str_arg(args, 0), str_arg(args, 1)) {
            (Some(s), Some(p)) if n == 2 => {
                let s = c_string(s.as_str());
                let p = c_string(p.as_str());
                regex_text_out(name, p.as_str(), tie_regex_find(s.as_str(), p.as_str()))
            },
            _ => fail("regex_find 需要两个字符串参数"),
        }
    } else if same(name, "regex_find_all") {
        match (str_arg(args, 0), str_arg(args, 1)) {
            (Some(s), Some(p)) if n == 2 => {
                let s = c_string(s.as_str());
                let p = c_string(p.as_str());
                regex_texts_out(name, p.as_str(), tie_regex_find_all(s.as_str(), p.as_str()))
            },
            _ => fail("regex_find_all 需要两个字符串参数"),
        }
    } else if same(name, "regex_replace") {
        match (str_arg(args, 0), str_arg(args, 1), str_arg(args, 2)) {
            (Some(s), Some(p), Some(to)) if n == 3 => {
                let s = c_string(s.as_str());
                let p = c_string(p.as_str());
                let to = c_string(to.as_str());
                regex_text_out(
                    name,
                    p.as_str(),
                    tie_regex_replace(s.as_str(), p.as_str(), to.as_str()),
                )
            },
            _ => fail("regex_replace 需要三个字符串参数"),
        }
    } else if same(name, "regex_group") {
        match (str_arg(args, 0), str_arg(args, 1), int_arg(args, 2)) {
            (Some(s), Some(p), Some(i)) if n == 3 => {
                let s = c_string(s.as_str());
                let p = c_string(p.as_str());
                regex_text_out(name, p.as_str(), tie_regex_group(s.as_str(), p.as_str(), i))
            },
            _ => fail("regex_group 需要两个字符串参数与一个整数参数"),
        }
    } else {
        CallOut::Unknown
    }
}

// ---------- output, evaluation, mathematics ----------
/// The function of one float behind a name.
pub open spec fn math_fn(name: Seq<char>) -> Option<MathFn> {
    if name == "sqrt"@ {
        Some(MathFn::Sqrt)
    } else if name == "sin"@ {
        Some(MathFn::Sin)
    } else if name == "cos"@ {
        Some(MathFn::Cos)
    } else if name == "tan"@ {
        Some(MathFn::Tan)
    } else if name == "exp"@ {
        Some(MathFn::Exp)
    } else if name == "log"@ {
        Some(MathFn::Log)
    } else if name == "floor"@ {
        Some(MathFn::Floor)
    } else if name == "ceil"@ {
        Some(MathFn::Ceil)
    } else if name == "round"@ {
        Some(MathFn::Round)
    } else {
        None
    }
}

fn math_fn_of(name: &str) -> (r: Option<MathFn>)
    ensures
        r == math_fn(name@),
{
    if same(name, "sqrt") {
        Some(MathFn::Sqrt)
    } else if same(name, "sin") {
        Some(MathFn::Sin)
    } else if same(name, "cos") {
        Some(MathFn::Cos)
    } else if same(name, "tan") {
        Some(MathFn::Tan)
    } else if same(name, "exp") {
        Some(MathFn::Exp)
    } else if same(name, "log") {
        Some(MathFn::Log)
    } else if same(name, "floor") {
        Some(MathFn::Floor)
    } else if same(name, "ceil") {
        Some(MathFn::Ceil)
    } else if same(name, "round") {
        Some(MathFn::Round)
    } else {
        None
    }
}

/// What the answer of a mathematical function becomes: only the logarithm can have none.
pub open spec fn math_after(f: MathFn) -> AfterV {
    if f == MathFn::Log {
        AfterV::MaybeFloat("运行时错误: log 参数必须大于 0"@)
    } else {
        AfterV::Float
    }
}

pub open spec fn call_system(name: Seq<char>, args: Seq<ValueV>) -> CallOutV {
    if name == "println"@ {
        CallOutV::Ask(
            RequestV::Print { text: print_all(args, args.len()), newline: true },
            AfterV::Done,
        )
    } else if name == "print"@ {
        CallOutV::Ask(
            RequestV::Print { text: print_all(args, args.len()), newline: false },
            AfterV::Done,
        )
    } else if name == "read_line"@ {
        CallOutV::Ask(
            RequestV::Host { op: HostOp::ReadLine, args: Seq::empty() },
            AfterV::Text,
        )
    } else if name == "eval"@ {
        match str_at(args, 0) {
            Some(s) if args.len() == 1 => CallOutV::Eval(s),
            _ => CallOutV::Fail("eval 需要一个字符串参数"@),
        }
    } else if name == "eval_call"@ {
        match (str_at(args, 0), str_at(args, 1)) {
            (Some(f), Some(a)) if args.len() == 2 => CallOutV::EvalCall(f, a),
            _ => CallOutV::Fail("eval_call 需要两个字符串参数（函数名, 参数）"@),
        }
    } else if name == "exit"@ {
        match int_at(args, 0) {
            Some(c) if args.len() == 1 => CallOutV::Ask(RequestV::Exit(c as i32), AfterV::Never),
            _ => CallOutV::Fail("exit 需要一个整数参数"@),
        }
    } else if name == "rand_range"@ {
        match (int_at(args, 0), int_at(args, 1)) {
            (Some(a), Some(b)) if args.len() == 2 => if b <= a {
                CallOutV::Fail("运行时错误: rand_range 参数范围无效（max 必须大于 min）"@)
            } else {
                CallOutV::Ask(RequestV::Random, AfterV::Random { min: a, max: b })
            },
            _ => CallOutV::Fail("rand_range 需要两个整数参数"@),
        }
    } else if name == "arg_string"@ {
        if args.len() != 1 {
            CallOutV::Fail("arg_string 需要 1 个整数参数"@)
        } else {
            match int_at(args, 0) {
                Some(i) => CallOutV::Ask(RequestV::ArgString(i), AfterV::Text),
                None => CallOutV::Fail("arg_string 需要一个整数参数"@),
            }
        }
    } else if name == "pow"@ {
        match (num_at(args, 0), num_at(args, 1)) {
            (Some(x), Some(y)) if args.len() == 2 => CallOutV::Ask(
                RequestV::Pow { x, y },
                AfterV::Float,
            ),
            _ => CallOutV::Fail("pow 需要两个数字参数"@),
        }
    } else {
        match math_fn(name) {
            Some(f) => match num_at(args, 0) {
                Some(x) if args.len() == 1 => CallOutV::Ask(
                    RequestV::Math { fun: f, x },
                    math_after(f),
                ),
                _ => CallOutV::Fail(name + " 需要一个数字参数"@),
            },
            None => CallOutV::Unknown,
        }
    }
}

fn call_system_fn(name: &str, args: &Vec<Value>) -> (r: CallOut)
    ensures
        r@ == call_system(name@, cells_view(args@)),
{
    let n: usize = args.len();
    if same(name, "println") {
        CallOut::Ask(Request::Print { text: print_args(args), newline: true }, After::Done)
    } else if same(name, "print") {
        CallOut::Ask(Request::Print { text: print_args(args), newline: false }, After::Done)
    } else if same(name, "read_line") {
        let list: Vec<String> = Vec::new();
        assert(views(list@) =~= Seq::<Seq<char>>::empty());
        CallOut::Ask(Request::Host { op: HostOp::ReadLine, args: list }, After::Text)
    } else if same(name, "eval") {
        match str_arg(args, 0) {
            Some(s) if n == 1 => CallOut::Eval(s.clone()),
            _ => fail("eval 需要一个字符串参数"),
        }
    } else if same(name, "eval_call") {
        match (str_arg(args, 0), str_arg(args, 1)) {
            (Some(f), Some(a)) if n == 2 => CallOut::EvalCall(f.clone(), a.clone()),
            _ => fail("eval_call 需要两个字符串参数（函数名, 参数）"),
        }
    } else if same(name, "exit") {
        match int_arg(args, 0) {
            Some(c) if n == 1 => CallOut::Ask(
                Request::Exit(#[verifier::truncate] (c as i32)),
                After::Never,
            ),
            _ => fail("exit 需要一个整数参数"),
        }
    } else if same(name, "rand_range") {
        match (int_arg(args, 0), int_arg(args, 1)) {
            (Some(a), Some(b)) if n == 2 => {
                if b <= a {
                    fail("运行时错误: rand_range 参数范围无效（max 必须大于 min）")
                } else {
                    CallOut::Ask(Request::Random, After::Random { min: a, max: b })
                }
            },
            _ => fail("rand_range 需要两个整数参数"),
        }
    } else if same(name, "arg_string") {
        if n != 1 {
            return fail("arg_string 需要 1 个整数参数");
        }
        match int_arg(args, 0) {
            Some(i) => CallOut::Ask(Request::ArgString(i), After::Text),
            None => fail("arg_string 需要一个整数参数"),
        }
    } else if same(name, "pow") {
        match (num_arg(args, 0), num_arg(args, 1)) {
            (Some(x), Some(y)) if n == 2 => CallOut::Ask(Request::Pow { x, y }, After::Float),
            _ => fail("pow 需要两个数字参数"),
        }
    } else {
        match math_fn_of(name) {
            Some(f) => match num_arg(args, 0) {
                Some(x) if n == 1 => {
                    let after = match f {
                        MathFn::Log => After::MaybeFloat(lit("运行时错误: log 参数必须大于 0")),
                        _ => After::Float,
                    };
                    CallOut::Ask(Request::Math { fun: f, x }, after)
                },
                _ => CallOut::Fail(cat2(name, " 需要一个数字参数")),
            },
            None => CallOut::Unknown,
        }
    }
}

// ---------- paths ----------
/// A call with one path.
pub open spec fn on_path(name: Seq<char>, args: Seq<ValueV>, f: spec_fn(Seq<char>) -> Seq<char>) -> CallOutV {
    match str_at(args, 0) {
        Some(a) if args.len() == 1 => CallOutV::Val(ValueV::Str(c_str(f(c_str(a))))),
        _ => CallOutV::Fail(usage(name, 1)),
    }
}

/// A call of one of the functions on the text of paths.
pub open spec fn call_path(windows: bool, name: Seq<char>, args: Seq<ValueV>) -> CallOutV {
    if name == "path_join"@ {
        match (str_at(args, 0), str_at(args, 1)) {
            (Some(a), Some(b)) if args.len() == 2 => CallOutV::Val(
                ValueV::Str(c_str(joined(c_str(a), c_str(b), windows))),
            ),
            _ => CallOutV::Fail(usage(name, 2)),
        }
    } else if name == "path_basename"@ {
        on_path(name, args, |p: Seq<char>| basename(p, windows))
    } else if name == "path_dirname"@ {
        on_path(name, args, |p: Seq<char>| dirname(p, windows))
    } else if name == "path_normalize"@ {
        on_path(name, args, |p: Seq<char>| normalized(p, windows))
    } else {
        CallOutV::Unknown
    }
}

fn call_path_fn(windows: bool, name: &str, args: &Vec<Value>) -> (r: CallOut)
    ensures
        r@ == call_path(windows, name@, cells_view(args@)),
{
    let n: usize = args.len();
    if same(name, "path_join") {
        match (str_arg(args, 0), str_arg(args, 1)) {
            (Some(a), Some(b)) if n == 2 => {
                let a = c_string(a.as_str());
                let b = c_string(b.as_str());
                let t = tie_path_join(a.as_str(), b.as_str(), windows);
                CallOut::Val(Value::Str(c_string(t.as_str())))
            },
            _ => CallOut::Fail(usage_of(name, 2)),
        }
    } else if same(name, "path_basename") || same(name, "path_dirname") || same(
        name,
        "path_normalize",
    ) {
        match str_arg(args, 0) {
            Some(a) if n == 1 => {
                let a = c_string(a.as_str());
                let t = if same(name, "path_basename") {
                    tie_path_basename(a.as_str(), windows)
                } else if same(name, "path_dirname") {
                    tie_path_dirname(a.as_str(), windows)
                } else {
                    tie_path_normalize(a.as_str(), windows)
                };
                CallOut::Val(Value::Str(c_string(t.as_str())))
            },
            _ => CallOut::Fail(usage_of(name, 1)),
        }
    } else {
        CallOut::Unknown
    }
}

// ---------- all together ----------
/// A call of a built-in function, and the message catalogue after it; `windows` says how
/// paths are written.
pub open spec fn builtin(m: MsgV, windows: bool, name: Seq<char>, args: Seq<ValueV>) -> (
    CallOutV,
    MsgV,
) {
    if !(call_text(name, args) is Unknown) {
        (call_text(name, args), m)
    } else if !(call_system(name, args) is Unknown) {
        (call_system(name, args), m)
    } else if !(call_bytes(name, args) is Unknown) {
        (call_bytes(name, args), m)
    } else if !(call_regex(name, args) is Unknown) {
        (call_regex(name, args), m)
    } else {
        match host_sig(name) {
            Some(sig) => (call_host(name, sig, args), m),
            None => if !(call_path(windows, name, args) is Unknown) {
                (call_path(windows, name, args), m)
            } else {
                call_msg(m, name, args)
            },
        }
    }
}

/// Whether the language has a function of that name.
pub open spec fn is_builtin(name: Seq<char>) -> bool {
    name == "len"@ || name == "table_new_i64"@ || name == "table_new_f64"@
        || name == "table_new_string"@ || name == "table_new_bool"@ || name == "table_at"@
        || name == "str_char"@ || name == "to_string"@ || name == "parse_int"@
        || name == "parse_float"@ || name == "parse_trit"@ || name == "println"@ || name == "print"@
        || name == "read_line"@ || name == "eval"@ || name == "eval_call"@ || name == "exit"@
        || name == "rand_range"@ || name == "arg_string"@ || name == "pow"@ || name == "byte_write"@
        || name == "bit_read"@ || name == "bit_write"@ || name == "byte_concat"@
        || name == "regex_match"@ || name == "regex_find"@ || name == "regex_find_all"@
        || name == "regex_replace"@ || name == "regex_group"@ || name == "file_read"@
        || name == "file_write"@ || name == "file_append"@ || name == "file_exists"@
        || name == "file_delete"@ || name == "print_err"@ || name == "list_dir"@
        || name == "http_get"@ || name == "http_get_file"@ || name == "exec_code"@
        || name == "exec_output"@ || name == "untar_gz"@ || name == "unzip"@ || name == "mkdir_all"@
        || name == "remove_dir_all"@ || name == "copy_dir"@ || name == "walk_dir"@
        || name == "byte_read"@ || name == "path_join"@ || name == "path_basename"@
        || name == "path_dirname"@ || name == "path_abs"@ || name == "path_normalize"@
        || name == "cwd"@ || name == "get_env"@ || name == "set_env"@ || name == "file_copy"@
        || name == "file_move"@ || name == "time_now"@ || name == "arg_count"@ || name == "sqrt"@
        || name == "sin"@ || name == "cos"@ || name == "tan"@ || name == "exp"@ || name == "log"@
        || name == "floor"@ || name == "ceil"@ || name == "round"@ || name == "msg_set_lang"@
        || name == "msg_get_lang"@ || name == "msg_register"@ || name == "msg_t"@
        || name == "msg_t_lang"@
}

pub fn is_builtin_name(name: &str) -> (r: bool)
    ensures
        r == is_builtin(name@),
{
    same(name, "len") || same(name, "table_new_i64") || same(name, "table_new_f64")
        || same(name, "table_new_string") || same(name, "table_new_bool") || same(name, "table_at")
        || same(name, "str_char") || same(name, "to_string") || same(name, "parse_int")
        || same(name, "parse_float") || same(name, "parse_trit") || same(name, "println")
        || same(name, "print") || same(name, "read_line") || same(name, "eval")
        || same(name, "eval_call") || same(name, "exit") || same(name, "rand_range")
        || same(name, "arg_string") || same(name, "pow") || same(name, "byte_write")
        || same(name, "bit_read") || same(name, "bit_write") || same(name, "byte_concat")
        || same(name, "regex_match") || same(name, "regex_find") || same(name, "regex_find_all")
        || same(name, "regex_replace") || same(name, "regex_group") || same(name, "file_read")
        || same(name, "file_write") || same(name, "file_append") || same(name, "file_exists")
        || same(name, "file_delete") || same(name, "print_err") || same(name, "list_dir")
        || same(name, "http_get") || same(name, "http_get_file") || same(name, "exec_code")
        || same(name, "exec_output") || same(name, "untar_gz") || same(name, "unzip")
        || same(name, "mkdir_all") || same(name, "remove_dir_all") || same(name, "copy_dir")
        || same(name, "walk_dir") || same(name, "byte_read") || same(name, "path_join")
        || same(name, "path_basename") || same(name, "path_dirname") || same(name, "path_abs")
        || same(name, "path_normalize") || same(name, "cwd") || same(name, "get_env")
        || same(name, "set_env") || same(name, "file_copy") || same(name, "file_move")
        || same(name, "time_now") || same(name, "arg_count") || same(name, "sqrt")
        || same(name, "sin") || same(name, "cos") || same(name, "tan") || same(name, "exp")
        || same(name, "log") || same(name, "floor") || same(name, "ceil") || same(name, "round")
        || same(name, "msg_set_lang") || same(name, "msg_get_lang") || same(name, "msg_register")
        || same(name, "msg_t") || same(name, "msg_t_lang")
}

/// The names of the functions that the language has are the names that calls know.
pub proof fn law_builtins_are_known(m: MsgV, windows: bool, name: Seq<char>, args: Seq<ValueV>)
    ensures
        is_builtin(name) == !(builtin(m, windows, name, args).0 is Unknown),
{
}

/// Calls the built-in function `name`; `Unknown` where there is none.
pub fn call_builtin(m: &mut MsgState, windows: bool, name: &str, args: &Vec<Value>) -> (r: CallOut)
    ensures
        (r@, final(m)@) == builtin(old(m)@, windows, name@, cells_view(args@)),
{
    let r = call_text_fn(name, args);
    if !matches!(r, CallOut::Unknown) {
        return r;
    }
    let r = call_system_fn(name, args);
    if !matches!(r, CallOut::Unknown) {
        return r;
    }
    let r = call_bytes_fn(name, args);
    if !matches!(r, CallOut::Unknown) {
        return r;
    }
    let r = call_regex_fn(name, args);
    if !matches!(r, CallOut::Unknown) {
        return r;
    }
    match host_sig_of(name) {
        Some(sig) => call_host_fn(name, sig, args),
        None => {
            let r = call_path_fn(windows, name, args);
            if !matches!(r, CallOut::Unknown) {
                return r;
            }
            call_msg_fn(m, name, args)
        },
    }
}

} // verus!
