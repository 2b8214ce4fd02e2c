//! The tables of the code generator: instructions for operators, and the functions of the
//! run-time library.
use crate::ast::{BinaryOp, UnaryOp};
use crate::text::{cat2, has_prefix, join, lit, same, starts_with, views};
use vstd::prelude::*;

verus! {

// ---------- operators ----------
/// The name of an operator, as messages give it.
pub open spec fn op_name(op: BinaryOp) -> Seq<char> {
    match op {
        BinaryOp::Add => "Add"@,
        BinaryOp::Sub => "Sub"@,
        BinaryOp::Mul => "Mul"@,
        BinaryOp::Div => "Div"@,
        BinaryOp::Mod => "Mod"@,
        BinaryOp::Eq => "Eq"@,
        BinaryOp::NotEq => "NotEq"@,
        BinaryOp::Lt => "Lt"@,
        BinaryOp::Gt => "Gt"@,
        BinaryOp::Le => "Le"@,
        BinaryOp::Ge => "Ge"@,
        BinaryOp::And => "And"@,
        BinaryOp::Or => "Or"@,
        BinaryOp::BitAnd => "BitAnd"@,
        BinaryOp::BitOr => "BitOr"@,
        BinaryOp::BitXor => "BitXor"@,
        BinaryOp::Shl => "Shl"@,
        BinaryOp::Shr => "Shr"@,
    }
}

pub fn op_name_of(op: BinaryOp) -> (r: &'static str)
    ensures
        r@ == op_name(op),
{
    match op {
        BinaryOp::Add => "Add",
        BinaryOp::Sub => "Sub",
        BinaryOp::Mul => "Mul",
        BinaryOp::Div => "Div",
        BinaryOp::Mod => "Mod",
        BinaryOp::Eq => "Eq",
        BinaryOp::NotEq => "NotEq",
        BinaryOp::Lt => "Lt",
        BinaryOp::Gt => "Gt",
        BinaryOp::Le => "Le",
        BinaryOp::Ge => "Ge",
        BinaryOp::And => "And",
        BinaryOp::Or => "Or",
        BinaryOp::BitAnd => "BitAnd",
        BinaryOp::BitOr => "BitOr",
        BinaryOp::BitXor => "BitXor",
        BinaryOp::Shl => "Shl",
        BinaryOp::Shr => "Shr",
    }
}

/// The signed integer predicate of a comparison.
pub open spec fn predicate(op: BinaryOp) -> Option<Seq<char>> {
    match op {
        BinaryOp::Eq => Some("eq"@),
        BinaryOp::NotEq => Some("ne"@),
        BinaryOp::Lt => Some("slt"@),
        BinaryOp::Gt => Some("sgt"@),
        BinaryOp::Le => Some("sle"@),
        BinaryOp::Ge => Some("sge"@),
        _ => None,
    }
}

pub fn predicate_of(op: BinaryOp) -> (r: Option<&'static str>)
    ensures
        match r {
            Some(s) => predicate(op) == Some(s@),
            None => predicate(op) is None,
        },
{
    match op {
        BinaryOp::Eq => Some("eq"),
        BinaryOp::NotEq => Some("ne"),
        BinaryOp::Lt => Some("slt"),
        BinaryOp::Gt => Some("sgt"),
        BinaryOp::Le => Some("sle"),
        BinaryOp::Ge => Some("sge"),
        _ => None,
    }
}

/// The instruction of an operation on a trit and an integer.
pub open spec fn mixed_opcode(op: BinaryOp) -> Option<Seq<char>> {
    match op {
        BinaryOp::Add => Some("add i64"@),
        BinaryOp::Sub => Some("sub i64"@),
        BinaryOp::Mul => Some("mul i64"@),
        BinaryOp::Eq => Some("icmp eq i64"@),
        BinaryOp::NotEq => Some("icmp ne i64"@),
        BinaryOp::Lt => Some("icmp slt i64"@),
        BinaryOp::Gt => Some("icmp sgt i64"@),
        BinaryOp::Le => Some("icmp sle i64"@),
        BinaryOp::Ge => Some("icmp sge i64"@),
        _ => None,
    }
}

pub fn mixed_opcode_of(op: BinaryOp) -> (r: Option<&'static str>)
    ensures
        match r {
            Some(s) => mixed_opcode(op) == Some(s@),
            None => mixed_opcode(op) is None,
        },
{
    match op {
        BinaryOp::Add => Some("add i64"),
        BinaryOp::Sub => Some("sub i64"),
        BinaryOp::Mul => Some("mul i64"),
        BinaryOp::Eq => Some("icmp eq i64"),
        BinaryOp::NotEq => Some("icmp ne i64"),
        BinaryOp::Lt => Some("icmp slt i64"),
        BinaryOp::Gt => Some("icmp sgt i64"),
        BinaryOp::Le => Some("icmp sle i64"),
        BinaryOp::Ge => Some("icmp sge i64"),
        _ => None,
    }
}

/// The instruction of an operation on two values of type `ty`, with its type.
pub open spec fn opcode(op: BinaryOp, ty: Seq<char>, is_unsigned: bool) -> Seq<char> {
    let float = ty == "double"@ || ty == "float"@;
    match op {
        BinaryOp::Add => if float {
            "fadd "@ + ty
        } else {
            "add "@ + ty
        },
        BinaryOp::Sub => if float {
            "fsub "@ + ty
        } else {
            "sub "@ + ty
        },
        BinaryOp::Mul => if float {
            "fmul "@ + ty
        } else {
            "mul "@ + ty
        },
        BinaryOp::Div => if float {
            "fdiv "@ + ty
        } else if is_unsigned {
            "udiv "@ + ty
        } else {
            "sdiv "@ + ty
        },
        BinaryOp::Mod => if is_unsigned {
            "urem "@ + ty
        } else {
            "srem "@ + ty
        },
        BinaryOp::Eq => if float {
            "fcmp oeq "@ + ty
        } else {
            "icmp eq "@ + ty
        },
        BinaryOp::NotEq => if float {
            "fcmp one "@ + ty
        } else {
            "icmp ne "@ + ty
        },
        BinaryOp::Lt => if float {
            "fcmp olt "@ + ty
        } else if is_unsigned {
            "icmp ult "@ + ty
        } else {
            "icmp slt "@ + ty
        },
        BinaryOp::Gt => if float {
            "fcmp ogt "@ + ty
        } else if is_unsigned {
            "icmp ugt "@ + ty
        } else {
            "icmp sgt "@ + ty
        },
        BinaryOp::Le => if float {
            "fcmp ole "@ + ty
        } else if is_unsigned {
            "icmp ule "@ + ty
        } else {
            "icmp sle "@ + ty
        },
        BinaryOp::Ge => if float {
            "fcmp oge "@ + ty
        } else if is_unsigned {
            "icmp uge "@ + ty
        } else {
            "icmp sge "@ + ty
        },
        BinaryOp::And => "and i1"@,
        BinaryOp::Or => "or i1"@,
        BinaryOp::BitAnd => "and "@ + ty,
        BinaryOp::BitOr => "or "@ + ty,
        BinaryOp::BitXor => "xor "@ + ty,
        BinaryOp::Shl => "shl "@ + ty,
        BinaryOp::Shr => if is_unsigned {
            "lshr "@ + ty
        } else {
            "ashr "@ + ty
        },
    }
}

pub fn opcode_of(op: BinaryOp, ty: &str, is_unsigned: bool) -> (r: String)
    ensures
        r@ == opcode(op, ty@, is_unsigned),
{
    let float = same(ty, "double") || same(ty, "float");
    match op {
        BinaryOp::Add => if float {
            cat2("fadd ", ty)
        } else {
            cat2("add ", ty)
        },
        BinaryOp::Sub => if float {
            cat2("fsub ", ty)
        } else {
            cat2("sub ", ty)
        },
        BinaryOp::Mul => if float {
            cat2("fmul ", ty)
        } else {
            cat2("mul ", ty)
        },
        BinaryOp::Div => if float {
            cat2("fdiv ", ty)
        } else if is_unsigned {
            cat2("udiv ", ty)
        } else {
            cat2("sdiv ", ty)
        },
        BinaryOp::Mod => if is_unsigned {
            cat2("urem ", ty)
        } else {
            cat2("srem ", ty)
        },
        BinaryOp::Eq => if float {
            cat2("fcmp oeq ", ty)
        } else {
            cat2("icmp eq ", ty)
        },
        BinaryOp::NotEq => if float {
            cat2("fcmp one ", ty)
        } else {
            cat2("icmp ne ", ty)
        },
        BinaryOp::Lt => if float {
            cat2("fcmp olt ", ty)
        } else if is_unsigned {
            cat2("icmp ult ", ty)
        } else {
            cat2("icmp slt ", ty)
        },
        BinaryOp::Gt => if float {
            cat2("fcmp ogt ", ty)
        } else if is_unsigned {
            cat2("icmp ugt ", ty)
        } else {
            cat2("icmp sgt ", ty)
        },
        BinaryOp::Le => if float {
            cat2("fcmp ole ", ty)
        } else if is_unsigned {
            cat2("icmp ule ", ty)
        } else {
            cat2("icmp sle ", ty)
        },
        BinaryOp::Ge => if float {
            cat2("fcmp oge ", ty)
        } else if is_unsigned {
            cat2("icmp uge ", ty)
        } else {
            cat2("icmp sge ", ty)
        },
        BinaryOp::And => lit("and i1"),
        BinaryOp::Or => lit("or i1"),
        BinaryOp::BitAnd => cat2("and ", ty),
        BinaryOp::BitOr => cat2("or ", ty),
        BinaryOp::BitXor => cat2("xor ", ty),
        BinaryOp::Shl => cat2("shl ", ty),
        BinaryOp::Shr => if is_unsigned {
            cat2("lshr ", ty)
        } else {
            cat2("ashr ", ty)
        },
    }
}

/// Whether variables of the LLVM type `ty` can be stepped by one.
pub open spec fn number_ty(ty: Seq<char>) -> bool {
    ty != "ptr"@ && !starts_with(ty, "{"@) && !starts_with(ty, "["@)
}

pub fn is_number_ty(ty: &str) -> (r: bool)
    ensures
        r == number_ty(ty@),
{
    !same(ty, "ptr") && !has_prefix(ty, "{") && !has_prefix(ty, "[")
}

/// The instruction that steps a variable.
pub open spec fn step(op: UnaryOp, ty: Seq<char>) -> Seq<char> {
    let float = ty == "double"@ || ty == "float"@;
    if op == UnaryOp::PreInc || op == UnaryOp::PostInc {
        if float {
            "fadd"@
        } else {
            "add"@
        }
    } else if float {
        "fsub"@
    } else {
        "sub"@
    }
}

pub fn step_of(op: UnaryOp, ty: &str) -> (r: &'static str)
    ensures
        r@ == step(op, ty@),
{
    let float = same(ty, "double") || same(ty, "float");
    if op == UnaryOp::PreInc || op == UnaryOp::PostInc {
        if float {
            "fadd"
        } else {
            "add"
        }
    } else if float {
        "fsub"
    } else {
        "sub"
    }
}

/// One, in the type `ty`.
pub open spec fn one(ty: Seq<char>) -> Seq<char> {
    if ty == "double"@ || ty == "float"@ {
        "1.0"@
    } else {
        "1"@
    }
}

pub fn one_of(ty: &str) -> (r: &'static str)
    ensures
        r@ == one(ty@),
{
    if same(ty, "double") || same(ty, "float") {
        "1.0"
    } else {
        "1"
    }
}

/// The width in bytes of a slot of a dynamic table.
pub open spec fn slot_size(elem: Seq<char>) -> Seq<char> {
    if elem == "i1"@ {
        "1"@
    } else {
        "8"@
    }
}

pub fn slot_size_of(elem: &str) -> (r: &'static str)
    ensures
        r@ == slot_size(elem@),
{
    if same(elem, "i1") {
        "1"
    } else {
        "8"
    }
}

// ---------- the run-time library ----------
/// Whether `name` is a mathematical function of one number.
pub open spec fn math_fn(name: Seq<char>) -> bool {
    name == "sqrt"@ || name == "sin"@ || name == "cos"@ || name == "tan"@ || name == "exp"@
        || name == "log"@ || name == "floor"@ || name == "ceil"@ || name == "round"@
}

pub fn is_math_fn(name: &str) -> (r: bool)
    ensures
        r == math_fn(name@),
{
    same(name, "sqrt") || same(name, "sin") || same(name, "cos") || same(name, "tan")
        || same(name, "exp") || same(name, "log") || same(name, "floor") || same(name, "ceil")
        || same(name, "round")
}

/// What a library function returns.
#[derive(Clone, Copy, Debug, PartialEq, Eq, Structural)]
pub enum Ret {
    Pointer,
    Integer,
    Double,
    Byte,
    Truth,
    Nothing,
}

/// How a library function tells that it failed.
#[derive(Clone, Copy, Debug, PartialEq, Eq, Structural)]
pub enum Fails {
    Never,
    Null,
    Flag,
}

/// A library function: how many arguments it takes, from which on they are integers, what
/// it returns, whether its result is to be freed, how it fails, and which argument the
/// message of the failure shows.
#[derive(Clone, Copy, Debug, PartialEq, Eq, Structural)]
pub struct Bridge {
    pub arity: usize,
    pub ints_from: usize,
    pub ret: Ret,
    pub frees: bool,
    pub fails: Fails,
    pub shown: usize,
}

/// A library function, field by field.
#[verifier::allow_in_spec]
pub fn library(
    arity: usize,
    ints_from: usize,
    ret: Ret,
    frees: bool,
    fails: Fails,
    shown: usize,
) -> Bridge
    returns
        (Bridge { arity, ints_from, ret, frees, fails, shown }),
{
    Bridge { arity, ints_from, ret, frees, fails, shown }
}

/// The library function behind `name`.
pub open spec fn bridge(name: Seq<char>) -> Option<Bridge> {
    if name == "read_line"@ {
        Some(library(0, 0, Ret::Pointer, false, Fails::Never, 0))
    } else if name == "cwd"@ || name == "msg_get_lang"@ {
        Some(library(0, 0, Ret::Pointer, true, Fails::Never, 0))
    } else if name == "time_now"@ || name == "arg_count"@ {
        Some(library(0, 0, Ret::Integer, false, Fails::Never, 0))
    } else if name == "str_len"@ || name == "exec_code"@ {
        Some(library(1, 1, Ret::Integer, false, Fails::Never, 0))
    } else if name == "eval"@ || name == "exec_output"@ || name == "path_basename"@
        || name == "path_dirname"@ || name == "path_abs"@ || name == "path_normalize"@
        || name == "get_env"@ || name == "msg_t"@ {
        Some(library(1, 1, Ret::Pointer, true, Fails::Never, 0))
    } else if name == "arg_string"@ {
        Some(library(1, 0, Ret::Pointer, true, Fails::Never, 0))
    } else if name == "eval_call"@ || name == "path_join"@ || name == "msg_t_lang"@ {
        Some(library(2, 2, Ret::Pointer, true, Fails::Never, 0))
    } else if name == "byte_concat"@ {
        Some(library(2, 2, Ret::Pointer, false, Fails::Never, 0))
    } else if name == "str_char"@ {
        Some(library(2, 1, Ret::Pointer, true, Fails::Never, 0))
    } else if name == "bit_read"@ {
        Some(library(2, 1, Ret::Integer, false, Fails::Never, 0))
    } else if name == "mkdir_all"@ || name == "remove_dir_all"@ {
        Some(library(1, 1, Ret::Truth, false, Fails::Never, 0))
    } else if name == "http_get_file"@ || name == "untar_gz"@ || name == "unzip"@
        || name == "copy_dir"@ || name == "byte_write"@ || name == "file_copy"@
        || name == "file_move"@ {
        Some(library(2, 2, Ret::Truth, false, Fails::Never, 0))
    } else if name == "bit_write"@ {
        Some(library(3, 1, Ret::Truth, false, Fails::Never, 0))
    } else if name == "msg_set_lang"@ || name == "print_err"@ {
        Some(library(1, 1, Ret::Nothing, false, Fails::Never, 0))
    } else if name == "set_env"@ {
        Some(library(2, 2, Ret::Nothing, false, Fails::Never, 0))
    } else if name == "msg_register"@ {
        Some(library(3, 3, Ret::Nothing, false, Fails::Never, 0))
    } else if name == "file_read"@ || name == "http_get"@ {
        Some(library(1, 1, Ret::Pointer, true, Fails::Null, 0))
    } else if name == "list_dir"@ || name == "walk_dir"@ || name == "byte_read"@ {
        Some(library(1, 1, Ret::Pointer, false, Fails::Null, 0))
    } else if name == "parse_int"@ {
        Some(library(1, 1, Ret::Integer, false, Fails::Flag, 0))
    } else if name == "parse_float"@ {
        Some(library(1, 1, Ret::Double, false, Fails::Flag, 0))
    } else if name == "parse_trit"@ {
        Some(library(1, 1, Ret::Byte, false, Fails::Flag, 0))
    } else if name == "regex_match"@ {
        Some(library(2, 2, Ret::Truth, false, Fails::Flag, 1))
    } else if name == "regex_find"@ {
        Some(library(2, 2, Ret::Pointer, true, Fails::Null, 1))
    } else if name == "regex_find_all"@ {
        Some(library(2, 2, Ret::Pointer, false, Fails::Null, 1))
    } else if name == "regex_replace"@ {
        Some(library(3, 3, Ret::Pointer, true, Fails::Null, 1))
    } else if name == "regex_group"@ {
        Some(library(3, 2, Ret::Pointer, true, Fails::Null, 1))
    } else {
        None
    }
}

pub fn bridge_of(name: &str) -> (r: Option<Bridge>)
    ensures
        r == bridge(name@),
{
    if same(name, "read_line") {
        Some(library(0, 0, Ret::Pointer, false, Fails::Never, 0))
    } else if same(name, "cwd") || same(name, "msg_get_lang") {
        Some(library(0, 0, Ret::Pointer, true, Fails::Never, 0))
    } else if same(name, "time_now") || same(name, "arg_count") {
        Some(library(0, 0, Ret::Integer, false, Fails::Never, 0))
    } else if same(name, "str_len") || same(name, "exec_code") {
        Some(library(1, 1, Ret::Integer, false, Fails::Never, 0))
    } else if same(name, "eval") || same(name, "exec_output") || same(name, "path_basename")
        || same(name, "path_dirname") || same(name, "path_abs") || same(name, "path_normalize")
        || same(name, "get_env") || same(name, "msg_t") {
        Some(library(1, 1, Ret::Pointer, true, Fails::Never, 0))
    } else if same(name, "arg_string") {
        Some(library(1, 0, Ret::Pointer, true, Fails::Never, 0))
    } else if same(name, "eval_call") || same(name, "path_join") || same(name, "msg_t_lang") {
        Some(library(2, 2, Ret::Pointer, true, Fails::Never, 0))
    } else if same(name, "byte_concat") {
        Some(library(2, 2, Ret::Pointer, false, Fails::Never, 0))
    } else if same(name, "str_char") {
        Some(library(2, 1, Ret::Pointer, true, Fails::Never, 0))
    } else if same(name, "bit_read") {
        Some(library(2, 1, Ret::Integer, false, Fails::Never, 0))
    } else if same(name, "mkdir_all") || same(name, "remove_dir_all") {
        Some(library(1, 1, Ret::Truth, false, Fails::Never, 0))
    } else if same(name, "http_get_file") || same(name, "untar_gz") || same(name, "unzip")
        || same(name, "copy_dir") || same(name, "byte_write") || same(name, "file_copy")
        || same(name, "file_move") {
        Some(library(2, 2, Ret::Truth, false, Fails::Never, 0))
    } else if same(name, "bit_write") {
        Some(library(3, 1, Ret::Truth, false, Fails::Never, 0))
    } else if same(name, "msg_set_lang") || same(name, "print_err") {
        Some(library(1, 1, Ret::Nothing, false, Fails::Never, 0))
    } else if same(name, "set_env") {
        Some(library(2, 2, Ret::Nothing, false, Fails::Never, 0))
    } else if same(name, "msg_register") {
        Some(library(3, 3, Ret::Nothing, false, Fails::Never, 0))
    } else if same(name, "file_read") || same(name, "http_get") {
        Some(library(1, 1, Ret::Pointer, true, Fails::Null, 0))
    } else if same(name, "list_dir") || same(name, "walk_dir") || same(name, "byte_read") {
        Some(library(1, 1, Ret::Pointer, false, Fails::Null, 0))
    } else if same(name, "parse_int") {
        Some(library(1, 1, Ret::Integer, false, Fails::Flag, 0))
    } else if same(name, "parse_float") {
        Some(library(1, 1, Ret::Double, false, Fails::Flag, 0))
    } else if same(name, "parse_trit") {
        Some(library(1, 1, Ret::Byte, false, Fails::Flag, 0))
    } else if same(name, "regex_match") {
        Some(library(2, 2, Ret::Truth, false, Fails::Flag, 1))
    } else if same(name, "regex_find") {
        Some(library(2, 2, Ret::Pointer, true, Fails::Null, 1))
    } else if same(name, "regex_find_all") {
        Some(library(2, 2, Ret::Pointer, false, Fails::Null, 1))
    } else if same(name, "regex_replace") {
        Some(library(3, 3, Ret::Pointer, true, Fails::Null, 1))
    } else if same(name, "regex_group") {
        Some(library(3, 2, Ret::Pointer, true, Fails::Null, 1))
    } else {
        None
    }
}

/// Whether a call of `name` whose result is dropped has to free it: the library hands the
/// text over.
pub open spec fn frees_result(name: Seq<char>) -> bool {
    name == "read_line"@ || name == "to_string"@ || (bridge(name) matches Some(b) && b.frees)
}

pub fn is_freeing(name: &str) -> (r: bool)
    ensures
        r == frees_result(name@),
{
    if same(name, "read_line") || same(name, "to_string") {
        true
    } else {
        match bridge_of(name) {
            Some(b) => b.frees,
            None => false,
        }
    }
}

/// What the message of a failure says after the function's name.
pub open spec fn fail_tail(name: Seq<char>) -> Seq<char> {
    if name == "file_read"@ || name == "byte_read"@ {
        " 无法读取文件 '%s'"@
    } else if name == "list_dir"@ || name == "walk_dir"@ {
        " 无法读取目录 '%s'"@
    } else if name == "http_get"@ {
        " 无法访问 URL '%s'"@
    } else if name == "parse_int"@ {
        " 参数 '%s' 不是合法的整数"@
    } else if name == "parse_float"@ {
        " 参数 '%s' 不是合法的浮点数"@
    } else if name == "parse_trit"@ {
        " 参数 '%s' 不是合法的 trit（期望 -1/0/1）"@
    } else {
        " 模式 '%s' 非法"@
    }
}

pub fn fail_tail_of(name: &str) -> (r: &'static str)
    ensures
        r@ == fail_tail(name@),
{
    if same(name, "file_read") || same(name, "byte_read") {
        " 无法读取文件 '%s'"
    } else if same(name, "list_dir") || same(name, "walk_dir") {
        " 无法读取目录 '%s'"
    } else if same(name, "http_get") {
        " 无法访问 URL '%s'"
    } else if same(name, "parse_int") {
        " 参数 '%s' 不是合法的整数"
    } else if same(name, "parse_float") {
        " 参数 '%s' 不是合法的浮点数"
    } else if same(name, "parse_trit") {
        " 参数 '%s' 不是合法的 trit（期望 -1/0/1）"
    } else {
        " 模式 '%s' 非法"
    }
}

/// The symbol of the library function behind `name`.
pub open spec fn bridge_symbol(name: Seq<char>) -> Seq<char> {
    if name == "eval"@ {
        "tie_eval_expr"@
    } else {
        "tie_"@ + name
    }
}

pub fn bridge_symbol_of(name: &str) -> (r: String)
    ensures
        r@ == bridge_symbol(name@),
{
    if same(name, "eval") {
        lit("tie_eval_expr")
    } else {
        cat2("tie_", name)
    }
}

/// The LLVM type of what a library function returns.
pub open spec fn ret_llvm(r: Ret) -> Seq<char> {
    match r {
        Ret::Pointer => "ptr"@,
        Ret::Integer => "i64"@,
        Ret::Double => "double"@,
        Ret::Byte | Ret::Truth => "i8"@,
        Ret::Nothing => "void"@,
    }
}

pub fn ret_llvm_of(r: Ret) -> (s: &'static str)
    ensures
        s@ == ret_llvm(r),
{
    match r {
        Ret::Pointer => "ptr",
        Ret::Integer => "i64",
        Ret::Double => "double",
        Ret::Byte | Ret::Truth => "i8",
        Ret::Nothing => "void",
    }
}

/// The arguments of a library function with their types: pointers up to `ints_from`, then
/// integers.
pub open spec fn bridge_args(vals: Seq<Seq<char>>, ints_from: int) -> Seq<Seq<char>> {
    vals.map(|i: int, v: Seq<char>| if i < ints_from { "ptr "@ + v } else { "i64 "@ + v })
}

/// The text of the arguments of a library function.
pub open spec fn bridge_text(vals: Seq<Seq<char>>, ints_from: int) -> Seq<char> {
    join(bridge_args(vals, ints_from), ", "@)
}

pub fn bridge_text_of(vals: &Vec<String>, ints_from: usize) -> (r: String)
    ensures
        r@ == bridge_text(views(vals@), ints_from as int),
{
    let mut parts: Vec<String> = Vec::new();
    for i in 0..vals.len()
        invariant
            parts@.len() == i,
            forall|j: int|
                0 <= j < i ==> #[trigger] parts@[j]@ == bridge_args(
                    views(vals@),
                    ints_from as int,
                )[j],
    {
        if i < ints_from {
            parts.push(cat2("ptr ", vals[i].as_str()));
        } else {
            parts.push(cat2("i64 ", vals[i].as_str()));
        }
    }
    assert(views(parts@) =~= bridge_args(views(vals@), ints_from as int));
    crate::text::join_strings(&parts, ", ")
}

/// The argument that a message shows.
pub open spec fn shown(vals: Seq<Seq<char>>, i: int) -> Seq<char> {
    if 0 <= i < vals.len() {
        vals[i]
    } else {
        ""@
    }
}

pub fn shown_of(vals: &Vec<String>, i: usize) -> (r: String)
    ensures
        r@ == shown(views(vals@), i as int),
{
    if i < vals.len() {
        vals[i].clone()
    } else {
        lit("")
    }
}

} // verus!
