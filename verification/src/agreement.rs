//! What interpreted and compiled programs have in common: the functions that the language
//! provides, and what is said when they fail.
use crate::ast::{BinaryOp, Expr, FloatV, Sem};
use crate::builtins::{builtin, out_of_range, parse_trit, CallOutV};
use crate::emit::GenV;
use crate::host::{c_str, AfterV};
use crate::irtable::{bridge, fail_tail, math_fn, Fails};
use crate::irtext::elem_size;
use crate::lower::{bounds_format, call_code, log_refusal, range_refusal, user_call_code};
use crate::msg::MsgV;
use crate::pattern::regex_valid;
use crate::semantics::{value_step, Ctl, Finish, Frame, MachineV};
use crate::text::{dec, parse_int};
use crate::value::ValueV;
use std::rc::Rc;
use vstd::prelude::*;

verus! {

/// Whether compiled programs know `name` as a function that the language provides.
pub open spec fn provided(name: Seq<char>) -> bool {
    name == "println"@ || name == "print"@ || name == "len"@ || name == "table_push"@ || name
        == "table_at"@ || name == "file_write"@ || name == "file_append"@ || name
        == "file_exists"@ || name == "file_delete"@ || name == "to_string"@ || name == "exit"@
        || name == "pow"@ || name == "rand_range"@ || math_fn(name) || elem_size(name) is Some
        || bridge(name) is Some
}

/// Any other name is taken for a function of the program.
pub proof fn law_other_calls_are_the_programs(
    sem: Sem,
    g: GenV,
    name: Seq<char>,
    e: Expr,
    forward: bool,
    d: nat,
)
    requires
        !provided(name),
    ensures
        call_code(sem, g, name, e, forward, d) == user_call_code(sem, g, name, e, forward, d),
{
}

/// The interpreter and compiled programs provide the same functions. `table_push` changes
/// its argument and is no call in the interpreter; `str_len` is for compiled programs only.
pub proof fn law_same_functions(m: MsgV, windows: bool, name: Seq<char>, args: Seq<ValueV>)
    requires
        name != "table_push"@,
        name != "str_len"@,
    ensures
        provided(name) == !(builtin(m, windows, name, args).0 is Unknown),
{
}

/// What an interpreted call of `name` with one string says when it fails; `None` where it
/// cannot fail.
pub open spec fn complaint(m: MsgV, windows: bool, name: Seq<char>, s: Seq<char>) -> Option<Seq<char>> {
    match builtin(m, windows, name, seq![ValueV::Str(s)]).0 {
        CallOutV::Fail(text) => Some(text),
        CallOutV::Ask(_, AfterV::MaybeText(text)) => Some(text),
        CallOutV::Ask(_, AfterV::Names(text)) => Some(text),
        CallOutV::Ask(_, AfterV::Bytes(text)) => Some(text),
        CallOutV::Ask(_, AfterV::MaybeFloat(text)) => Some(text),
        _ => None,
    }
}

/// Whether `text` is what `printf` makes of `fmt` and one string.
pub open spec fn printed(fmt: Seq<char>, s: Seq<char>, text: Seq<char>) -> bool {
    exists|head: Seq<char>, tail: Seq<char>|
        fmt == #[trigger] (head + "%s"@ + tail) && text == head + s + tail
}

/// Whether `text` is what `printf` makes of `fmt` and two numbers.
pub open spec fn printed_numbers(fmt: Seq<char>, a: int, b: int, text: Seq<char>) -> bool {
    exists|head: Seq<char>, middle: Seq<char>, tail: Seq<char>|
        fmt == #[trigger] (head + "%lld"@ + middle + "%lld"@ + tail) && text == head + dec(a)
            + middle + dec(b) + tail
}

proof fn lemma_formats()
    ensures
        "运行时错误: "@ + "file_read"@ + " 无法读取文件 '%s'"@
            == "运行时错误: file_read 无法读取文件 '"@ + "%s"@ + "'"@,
        "运行时错误: "@ + "byte_read"@ + " 无法读取文件 '%s'"@
            == "运行时错误: byte_read 无法读取文件 '"@ + "%s"@ + "'"@,
        "运行时错误: "@ + "list_dir"@ + " 无法读取目录 '%s'"@
            == "运行时错误: list_dir 无法读取目录 '"@ + "%s"@ + "'"@,
        "运行时错误: "@ + "walk_dir"@ + " 无法读取目录 '%s'"@
            == "运行时错误: walk_dir 无法读取目录 '"@ + "%s"@ + "'"@,
        "运行时错误: "@ + "http_get"@ + " 无法访问 URL '%s'"@
            == "运行时错误: http_get 无法访问 URL '"@ + "%s"@ + "'"@,
        "运行时错误: "@ + "parse_int"@ + " 参数 '%s' 不是合法的整数"@
            == "运行时错误: parse_int 参数 '"@ + "%s"@ + "' 不是合法的整数"@,
        "运行时错误: "@ + "parse_float"@ + " 参数 '%s' 不是合法的浮点数"@
            == "运行时错误: parse_float 参数 '"@ + "%s"@ + "' 不是合法的浮点数"@,
        "运行时错误: "@ + "parse_trit"@ + " 参数 '%s' 不是合法的 trit（期望 -1/0/1）"@
            == "运行时错误: parse_trit 参数 '"@ + "%s"@ + "' 不是合法的 trit（期望 -1/0/1）"@,
{
    reveal_strlit("运行时错误: ");
    reveal_strlit("%s");
    reveal_strlit("file_read");
    reveal_strlit(" 无法读取文件 '%s'");
    reveal_strlit("运行时错误: file_read 无法读取文件 '");
    reveal_strlit("'");
    reveal_strlit("byte_read");
    reveal_strlit("运行时错误: byte_read 无法读取文件 '");
    reveal_strlit("list_dir");
    reveal_strlit(" 无法读取目录 '%s'");
    reveal_strlit("运行时错误: list_dir 无法读取目录 '");
    reveal_strlit("walk_dir");
    reveal_strlit("运行时错误: walk_dir 无法读取目录 '");
    reveal_strlit("http_get");
    reveal_strlit(" 无法访问 URL '%s'");
    reveal_strlit("运行时错误: http_get 无法访问 URL '");
    reveal_strlit("parse_int");
    reveal_strlit(" 参数 '%s' 不是合法的整数");
    reveal_strlit("运行时错误: parse_int 参数 '");
    reveal_strlit("' 不是合法的整数");
    reveal_strlit("parse_float");
    reveal_strlit(" 参数 '%s' 不是合法的浮点数");
    reveal_strlit("运行时错误: parse_float 参数 '");
    reveal_strlit("' 不是合法的浮点数");
    reveal_strlit("parse_trit");
    reveal_strlit(" 参数 '%s' 不是合法的 trit（期望 -1/0/1）");
    reveal_strlit("运行时错误: parse_trit 参数 '");
    reveal_strlit("' 不是合法的 trit（期望 -1/0/1）");
}

proof fn lemma_services(m: MsgV, windows: bool, s: Seq<char>)
    ensures
        complaint(m, windows, "file_read"@, s) == Some("运行时错误: file_read 无法读取文件 '"@ + s + "'"@),
        complaint(m, windows, "byte_read"@, s) == Some("运行时错误: byte_read 无法读取文件 '"@ + s + "'"@),
        complaint(m, windows, "list_dir"@, s) == Some("运行时错误: list_dir 无法读取目录 '"@ + s + "'"@),
        complaint(m, windows, "walk_dir"@, s) == Some("运行时错误: walk_dir 无法读取目录 '"@ + s + "'"@),
        complaint(m, windows, "http_get"@, s) == Some("运行时错误: http_get 无法访问 URL '"@ + s + "'"@),
{
    reveal_strlit("arg_count");
    reveal_strlit("arg_string");
    reveal_strlit("bit_read");
    reveal_strlit("bit_write");
    reveal_strlit("byte_concat");
    reveal_strlit("byte_read");
    reveal_strlit("byte_write");
    reveal_strlit("ceil");
    reveal_strlit("copy_dir");
    reveal_strlit("cos");
    reveal_strlit("cwd");
    reveal_strlit("eval");
    reveal_strlit("eval_call");
    reveal_strlit("exec_code");
    reveal_strlit("exec_output");
    reveal_strlit("exit");
    reveal_strlit("exp");
    reveal_strlit("file_append");
    reveal_strlit("file_copy");
    reveal_strlit("file_delete");
    reveal_strlit("file_exists");
    reveal_strlit("file_move");
    reveal_strlit("file_read");
    reveal_strlit("file_write");
    reveal_strlit("floor");
    reveal_strlit("get_env");
    reveal_strlit("http_get");
    reveal_strlit("http_get_file");
    reveal_strlit("len");
    reveal_strlit("list_dir");
    reveal_strlit("log");
    reveal_strlit("mkdir_all");
    reveal_strlit("parse_float");
    reveal_strlit("parse_int");
    reveal_strlit("parse_trit");
    reveal_strlit("path_abs");
    reveal_strlit("path_basename");
    reveal_strlit("path_dirname");
    reveal_strlit("path_join");
    reveal_strlit("path_normalize");
    reveal_strlit("pow");
    reveal_strlit("print");
    reveal_strlit("print_err");
    reveal_strlit("println");
    reveal_strlit("rand_range");
    reveal_strlit("read_line");
    reveal_strlit("regex_find");
    reveal_strlit("regex_find_all");
    reveal_strlit("regex_group");
    reveal_strlit("regex_match");
    reveal_strlit("regex_replace");
    reveal_strlit("remove_dir_all");
    reveal_strlit("round");
    reveal_strlit("set_env");
    reveal_strlit("sin");
    reveal_strlit("sqrt");
    reveal_strlit("str_char");
    reveal_strlit("table_at");
    reveal_strlit("table_new_bool");
    reveal_strlit("table_new_f64");
    reveal_strlit("table_new_i64");
    reveal_strlit("table_new_string");
    reveal_strlit("tan");
    reveal_strlit("time_now");
    reveal_strlit("to_string");
    reveal_strlit("untar_gz");
    reveal_strlit("unzip");
    reveal_strlit("walk_dir");
    assert("file_read"@[0] != "arg_count"@[0]);
    assert("file_read"@[0] != "bit_write"@[0]);
    assert("file_read"@[0] != "byte_read"@[0]);
    assert("file_read"@[0] != "eval_call"@[0]);
    assert("file_read"@[0] != "exec_code"@[0]);
    assert("file_read"@[5] != "file_copy"@[5]);
    assert("file_read"@[5] != "file_move"@[5]);
    assert("file_read"@[0] != "mkdir_all"@[0]);
    assert("file_read"@[0] != "parse_int"@[0]);
    assert("file_read"@[0] != "path_join"@[0]);
    assert("file_read"@[0] != "print_err"@[0]);
    assert("file_read"@[0] != "read_line"@[0]);
    assert("file_read"@[0] != "to_string"@[0]);
    assert("byte_read"@[0] != "arg_count"@[0]);
    assert("byte_read"@[1] != "bit_write"@[1]);
    assert("byte_read"@[0] != "eval_call"@[0]);
    assert("byte_read"@[0] != "exec_code"@[0]);
    assert("byte_read"@[0] != "file_copy"@[0]);
    assert("byte_read"@[0] != "file_move"@[0]);
    assert("byte_read"@[0] != "file_read"@[0]);
    assert("byte_read"@[0] != "mkdir_all"@[0]);
    assert("byte_read"@[0] != "parse_int"@[0]);
    assert("byte_read"@[0] != "path_join"@[0]);
    assert("byte_read"@[0] != "print_err"@[0]);
    assert("byte_read"@[0] != "read_line"@[0]);
    assert("byte_read"@[0] != "to_string"@[0]);
    assert("list_dir"@[0] != "bit_read"@[0]);
    assert("list_dir"@[0] != "copy_dir"@[0]);
    assert("list_dir"@[0] != "http_get"@[0]);
    assert("list_dir"@[0] != "path_abs"@[0]);
    assert("list_dir"@[0] != "str_char"@[0]);
    assert("list_dir"@[0] != "table_at"@[0]);
    assert("list_dir"@[0] != "time_now"@[0]);
    assert("list_dir"@[0] != "untar_gz"@[0]);
    assert("list_dir"@[0] != "walk_dir"@[0]);
    assert("walk_dir"@[0] != "bit_read"@[0]);
    assert("walk_dir"@[0] != "copy_dir"@[0]);
    assert("walk_dir"@[0] != "http_get"@[0]);
    assert("walk_dir"@[0] != "list_dir"@[0]);
    assert("walk_dir"@[0] != "path_abs"@[0]);
    assert("walk_dir"@[0] != "str_char"@[0]);
    assert("walk_dir"@[0] != "table_at"@[0]);
    assert("walk_dir"@[0] != "time_now"@[0]);
    assert("walk_dir"@[0] != "untar_gz"@[0]);
    assert("http_get"@[0] != "bit_read"@[0]);
    assert("http_get"@[0] != "copy_dir"@[0]);
    assert("http_get"@[0] != "list_dir"@[0]);
    assert("http_get"@[0] != "path_abs"@[0]);
    assert("http_get"@[0] != "str_char"@[0]);
    assert("http_get"@[0] != "table_at"@[0]);
    assert("http_get"@[0] != "time_now"@[0]);
    assert("http_get"@[0] != "untar_gz"@[0]);
    assert("http_get"@[0] != "walk_dir"@[0]);
}

proof fn lemma_parsers(m: MsgV, windows: bool, s: Seq<char>)
    ensures
        complaint(m, windows, "parse_int"@, s) == if parse_int(c_str(s)) is Some {
            None
        } else {
            Some("运行时错误: parse_int 参数 '"@ + s + "' 不是合法的整数"@)
        },
        complaint(m, windows, "parse_float"@, s) == Some("运行时错误: parse_float 参数 '"@ + s + "' 不是合法的浮点数"@),
        complaint(m, windows, "parse_trit"@, s) == if parse_trit(c_str(s)) is Some {
            None
        } else {
            Some("运行时错误: parse_trit 参数 '"@ + s + "' 不是合法的 trit（期望 -1/0/1）"@)
        },
{
    reveal_strlit("len");
    reveal_strlit("table_new_i64");
    reveal_strlit("table_new_f64");
    reveal_strlit("table_new_string");
    reveal_strlit("table_new_bool");
    reveal_strlit("table_at");
    reveal_strlit("str_char");
    reveal_strlit("to_string");
    reveal_strlit("parse_int");
    reveal_strlit("parse_float");
    reveal_strlit("parse_trit");
    assert("parse_int"@[0] != "to_string"@[0]);
}

/// A compiled program prints about a failed call what the interpreter says about it.
pub proof fn law_failures_read_alike(m: MsgV, windows: bool, name: Seq<char>, s: Seq<char>)
    requires
        bridge(name) matches Some(b) && b.fails != Fails::Never && b.arity == 1,
    ensures
        match complaint(m, windows, name, s) {
            Some(text) => printed("运行时错误: "@ + name + fail_tail(name), s, text),
            None => name == "parse_int"@ && parse_int(c_str(s)) is Some || name == "parse_trit"@
                && parse_trit(c_str(s)) is Some,
        },
{
    lemma_formats();
    lemma_services(m, windows, s);
    lemma_parsers(m, windows, s);
}

proof fn lemma_pattern_format(name: Seq<char>, p: Seq<char>)
    requires
        name == "regex_match"@ || name == "regex_find"@ || name == "regex_find_all"@ || name
            == "regex_replace"@ || name == "regex_group"@,
    ensures
        printed(
            "运行时错误: "@ + name + fail_tail(name),
            p,
            "运行时错误: "@ + name + " 模式 '"@ + p + "' 非法"@,
        ),
{
    reveal_strlit(" 模式 '%s' 非法");
    reveal_strlit(" 模式 '");
    reveal_strlit("' 非法");
    reveal_strlit("%s");
    let head = "运行时错误: "@ + name + " 模式 '"@;
    assert(fail_tail(name) == " 模式 '%s' 非法"@) by {
        reveal_strlit("file_read");
        reveal_strlit("byte_read");
        reveal_strlit("list_dir");
        reveal_strlit("walk_dir");
        reveal_strlit("http_get");
        reveal_strlit("parse_int");
        reveal_strlit("parse_float");
        reveal_strlit("parse_trit");
        reveal_strlit("regex_match");
        reveal_strlit("regex_find");
        reveal_strlit("regex_find_all");
        reveal_strlit("regex_replace");
        reveal_strlit("regex_group");
        assert("regex_match"@[0] != "parse_float"@[0]);
        assert("regex_find"@[0] != "parse_trit"@[0]);
        assert("regex_group"@[0] != "parse_float"@[0]);
    }
    assert("运行时错误: "@ + name + fail_tail(name) =~= head + "%s"@ + "' 非法"@);
}

/// Whether `args` are what the function `name` that takes a pattern needs, and `p` is the
/// pattern.
pub open spec fn takes_pattern(name: Seq<char>, args: Seq<ValueV>, p: Seq<char>) -> bool {
    &&& args.len() >= 2
    &&& args[0] is Str
    &&& args[1] == ValueV::Str(p)
    &&& {
        ||| (name == "regex_match"@ || name == "regex_find"@ || name == "regex_find_all"@)
            && args.len() == 2
        ||| name == "regex_replace"@ && args.len() == 3 && args[2] is Str
        ||| name == "regex_group"@ && args.len() == 3 && args[2] is Int
    }
}

proof fn lemma_patterns(m: MsgV, windows: bool, name: Seq<char>, args: Seq<ValueV>, p: Seq<char>)
    requires
        takes_pattern(name, args, p),
        !regex_valid(c_str(p)),
    ensures
        builtin(m, windows, name, args).0 == CallOutV::Fail(
            "运行时错误: "@ + name + " 模式 '"@ + c_str(p) + "' 非法"@,
        ),
{
    reveal_strlit("len");
    reveal_strlit("table_new_i64");
    reveal_strlit("table_new_f64");
    reveal_strlit("table_new_string");
    reveal_strlit("table_new_bool");
    reveal_strlit("table_at");
    reveal_strlit("str_char");
    reveal_strlit("to_string");
    reveal_strlit("parse_int");
    reveal_strlit("parse_float");
    reveal_strlit("parse_trit");
    reveal_strlit("println");
    reveal_strlit("print");
    reveal_strlit("read_line");
    reveal_strlit("eval");
    reveal_strlit("eval_call");
    reveal_strlit("exit");
    reveal_strlit("rand_range");
    reveal_strlit("arg_string");
    reveal_strlit("pow");
    reveal_strlit("sqrt");
    reveal_strlit("sin");
    reveal_strlit("cos");
    reveal_strlit("tan");
    reveal_strlit("exp");
    reveal_strlit("log");
    reveal_strlit("floor");
    reveal_strlit("ceil");
    reveal_strlit("round");
    reveal_strlit("byte_write");
    reveal_strlit("bit_read");
    reveal_strlit("bit_write");
    reveal_strlit("byte_concat");
    reveal_strlit("regex_match");
    reveal_strlit("regex_find");
    reveal_strlit("regex_find_all");
    reveal_strlit("regex_replace");
    reveal_strlit("regex_group");
    assert("regex_match"@[0] != "parse_float"@[0]);
    assert("regex_match"@[0] != "byte_concat"@[0]);
    assert("regex_match"@[6] != "regex_group"@[6]);
    assert("regex_find"@[0] != "parse_trit"@[0]);
    assert("regex_find"@[1] != "rand_range"@[1]);
    assert("regex_find"@[0] != "arg_string"@[0]);
    assert("regex_find"@[0] != "byte_write"@[0]);
    assert("regex_find_all"@[0] != "table_new_bool"@[0]);
    assert("regex_replace"@[0] != "table_new_i64"@[0]);
    assert("regex_replace"@[0] != "table_new_f64"@[0]);
    assert("regex_group"@[0] != "parse_float"@[0]);
    assert("regex_group"@[0] != "byte_concat"@[0]);
    assert("regex_group"@[6] != "regex_match"@[6]);
}

/// A compiled program prints about a pattern that is refused what the interpreter says.
pub proof fn law_patterns_read_alike(m: MsgV, windows: bool, name: Seq<char>, args: Seq<ValueV>, p: Seq<char>)
    requires
        takes_pattern(name, args, p),
        !regex_valid(c_str(p)),
    ensures
        builtin(m, windows, name, args).0 matches CallOutV::Fail(text) && printed(
            "运行时错误: "@ + name + fail_tail(name),
            c_str(p),
            text,
        ),
{
    lemma_patterns(m, windows, name, args, p);
    lemma_pattern_format(name, c_str(p));
}

proof fn lemma_bounds(i: i64, len: nat)
    ensures
        printed_numbers(
            bounds_format(),
            i as int,
            len as int,
            out_of_range("运行时错误: table_at 下标越界：索引 "@, i, len),
        ),
{
    let head = "运行时错误: table_at 下标越界：索引 "@;
    let middle = " 超出长度 "@;
    reveal_strlit("运行时错误: table_at 下标越界：索引 ");
    reveal_strlit(" 超出长度 ");
    reveal_strlit("运行时错误: table_at 下标越界：索引 %lld 超出长度 %lld");
    reveal_strlit("%lld");
    let tail = Seq::<char>::empty();
    assert(bounds_format() =~= head + "%lld"@ + middle + "%lld"@ + tail);
    let text = out_of_range(head, i, len);
    assert(text =~= head + dec(i as int) + middle + dec(len as int) + tail);
}

/// A compiled program prints about reading or writing outside a table by a position in
/// brackets what the interpreter says.
pub proof fn law_positions_read_alike(
    m: MachineV,
    cells: Seq<ValueV>,
    i: i64,
    name: Seq<char>,
    op: Option<BinaryOp>,
    value: Rc<Expr>,
)
    requires
        !(0 <= i < cells.len()),
    ensures
        value_step(m, Frame::IndexRead { table: ValueV::Table(cells) }, ValueV::Int(i)).ctl matches
            Ctl::Done(Finish::Failure(text)) && printed_numbers(
            bounds_format(),
            i as int,
            cells.len() as int,
            text,
        ),
        value_step(m, Frame::StoreAt { name, cells, op, value }, ValueV::Int(i)).ctl matches
            Ctl::Done(Finish::Failure(text)) && printed_numbers(
            bounds_format(),
            i as int,
            cells.len() as int,
            text,
        ),
{
    lemma_bounds(i, cells.len());
}

/// A compiled program prints about a position outside a table what the interpreter says.
pub proof fn law_bounds_read_alike(m: MsgV, windows: bool, cells: Seq<ValueV>, i: i64)
    requires
        !(0 <= i < cells.len()),
    ensures
        builtin(m, windows, "table_at"@, seq![ValueV::Table(cells), ValueV::Int(i)]).0 matches CallOutV::Fail(
            text,
        ) && printed_numbers(bounds_format(), i as int, cells.len() as int, text),
{
    reveal_strlit("table_at");
    reveal_strlit("len");
    reveal_strlit("table_new_i64");
    reveal_strlit("table_new_f64");
    reveal_strlit("table_new_string");
    reveal_strlit("table_new_bool");
    lemma_bounds(i, cells.len());
}

/// A compiled program prints about a refused range, and about a logarithm that there is not,
/// what the interpreter says.
pub proof fn law_refusals_read_alike(m: MsgV, windows: bool, min: i64, max: i64, x: FloatV)
    ensures
        max <= min ==> builtin(m, windows, "rand_range"@, seq![ValueV::Int(min), ValueV::Int(max)]).0
            == CallOutV::Fail(range_refusal()),
        builtin(m, windows, "log"@, seq![ValueV::Float(x)]).0 matches CallOutV::Ask(_, after) && after
            == AfterV::MaybeFloat(log_refusal()),
{
    reveal_strlit("len");
    reveal_strlit("table_new_i64");
    reveal_strlit("table_new_f64");
    reveal_strlit("table_new_string");
    reveal_strlit("table_new_bool");
    reveal_strlit("table_at");
    reveal_strlit("str_char");
    reveal_strlit("to_string");
    reveal_strlit("parse_int");
    reveal_strlit("parse_float");
    reveal_strlit("parse_trit");
    reveal_strlit("println");
    reveal_strlit("print");
    reveal_strlit("read_line");
    reveal_strlit("eval");
    reveal_strlit("eval_call");
    reveal_strlit("exit");
    reveal_strlit("rand_range");
    reveal_strlit("arg_string");
    reveal_strlit("pow");
    reveal_strlit("sqrt");
    reveal_strlit("sin");
    reveal_strlit("cos");
    reveal_strlit("tan");
    reveal_strlit("exp");
    reveal_strlit("log");
    assert("rand_range"@[0] != "parse_trit"@[0]);
    assert("rand_range"@[0] != "arg_string"@[0]);
    assert("log"@[1] != "len"@[1]);
    assert("log"@[0] != "pow"@[0]);
    assert("log"@[0] != "sin"@[0]);
    assert("log"@[0] != "cos"@[0]);
    assert("log"@[0] != "tan"@[0]);
    assert("log"@[0] != "exp"@[0]);
}

} // verus!
