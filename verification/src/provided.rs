//! What the provided functions do with their arguments, and what becomes of the answers that they
//! ask for.
use crate::ast::Float;
use crate::builtins::{
    bit_written, call_bytes, call_host, call_msg, call_path, call_regex, call_system, call_text,
    cells_with_bit, host_sig, int_at, int_values, ints, ints_of, num_at, parse_trit, print_all,
    str_at, table_at, text_cells, with_ints_of, CallOutV,
};
use crate::host::{c_str, settled, AfterV, HostOp, MathFn, NumV, OutcomeV, Reply, RequestV};
use crate::msg::{law_registered_text_is_found, MsgV};
use crate::paths::{basename, dirname, joined, normalized};
use crate::pattern::{
    found_text, found_texts, group_text, regex_all, regex_first, regex_matches, regex_replaced,
    regex_valid,
};
use crate::table::{bit_put, law_bit_reads_back};
use crate::text::{dec, is_digit, law_parse_undoes_print, lemma_nat_dec_value, nat_dec};
use crate::value::{print_string, ValueV};
use vstd::prelude::*;
use vstd::utf8::encode_utf8;

verus! {

// ---------- names ----------
proof fn lemma_text_names()
    ensures
        "table_new_i64"@ != "len"@,
        "table_new_f64"@ != "len"@,
        "table_new_f64"@ != "table_new_i64"@,
        "table_new_string"@ != "len"@,
        "table_new_string"@ != "table_new_i64"@,
        "table_new_string"@ != "table_new_f64"@,
        "table_new_bool"@ != "len"@,
        "table_new_bool"@ != "table_new_i64"@,
        "table_new_bool"@ != "table_new_f64"@,
        "table_new_bool"@ != "table_new_string"@,
        "table_at"@ != "len"@,
        "table_at"@ != "table_new_i64"@,
        "table_at"@ != "table_new_f64"@,
        "table_at"@ != "table_new_string"@,
        "table_at"@ != "table_new_bool"@,
        "str_char"@ != "len"@,
        "str_char"@ != "table_new_i64"@,
        "str_char"@ != "table_new_f64"@,
        "str_char"@ != "table_new_string"@,
        "str_char"@ != "table_new_bool"@,
        "str_char"@ != "table_at"@,
        "to_string"@ != "len"@,
        "to_string"@ != "table_new_i64"@,
        "to_string"@ != "table_new_f64"@,
        "to_string"@ != "table_new_string"@,
        "to_string"@ != "table_new_bool"@,
        "to_string"@ != "table_at"@,
        "to_string"@ != "str_char"@,
        "parse_int"@ != "len"@,
        "parse_int"@ != "table_new_i64"@,
        "parse_int"@ != "table_new_f64"@,
        "parse_int"@ != "table_new_string"@,
        "parse_int"@ != "table_new_bool"@,
        "parse_int"@ != "table_at"@,
        "parse_int"@ != "str_char"@,
        "parse_int"@ != "to_string"@,
        "parse_float"@ != "len"@,
        "parse_float"@ != "table_new_i64"@,
        "parse_float"@ != "table_new_f64"@,
        "parse_float"@ != "table_new_string"@,
        "parse_float"@ != "table_new_bool"@,
        "parse_float"@ != "table_at"@,
        "parse_float"@ != "str_char"@,
        "parse_float"@ != "to_string"@,
        "parse_float"@ != "parse_int"@,
        "parse_trit"@ != "len"@,
        "parse_trit"@ != "table_new_i64"@,
        "parse_trit"@ != "table_new_f64"@,
        "parse_trit"@ != "table_new_string"@,
        "parse_trit"@ != "table_new_bool"@,
        "parse_trit"@ != "table_at"@,
        "parse_trit"@ != "str_char"@,
        "parse_trit"@ != "to_string"@,
        "parse_trit"@ != "parse_int"@,
        "parse_trit"@ != "parse_float"@,
{
    reveal_strlit("len");
    reveal_strlit("table_new_i64");
    reveal_strlit("table_new_f64");
    reveal_strlit("table_new_string");
    reveal_strlit("table_new_bool");
    reveal_strlit("table_at");
    reveal_strlit("str_char");
    reveal_strlit("to_string");
    reveal_strlit("parse_int");
    reveal_strlit("parse_float");
    reveal_strlit("parse_trit");
    assert("len"@.len() == 3);
    assert("table_new_i64"@.len() == 13);
    assert("table_new_f64"@.len() == 13);
    assert("table_new_string"@.len() == 16);
    assert("table_new_bool"@.len() == 14);
    assert("table_at"@.len() == 8);
    assert("str_char"@.len() == 8);
    assert("to_string"@.len() == 9);
    assert("parse_int"@.len() == 9);
    assert("parse_float"@.len() == 11);
    assert("parse_trit"@.len() == 10);
    assert("table_new_f64"@[10] != "table_new_i64"@[10]);
    assert("str_char"@[0] != "table_at"@[0]);
    assert("parse_int"@[0] != "to_string"@[0]);
}

proof fn lemma_system_names()
    ensures
        "print"@ != "println"@,
        "read_line"@ != "println"@,
        "read_line"@ != "print"@,
        "eval"@ != "println"@,
        "eval"@ != "print"@,
        "eval"@ != "read_line"@,
        "eval_call"@ != "println"@,
        "eval_call"@ != "print"@,
        "eval_call"@ != "read_line"@,
        "eval_call"@ != "eval"@,
        "exit"@ != "println"@,
        "exit"@ != "print"@,
        "exit"@ != "read_line"@,
        "exit"@ != "eval"@,
        "exit"@ != "eval_call"@,
        "rand_range"@ != "println"@,
        "rand_range"@ != "print"@,
        "rand_range"@ != "read_line"@,
        "rand_range"@ != "eval"@,
        "rand_range"@ != "eval_call"@,
        "rand_range"@ != "exit"@,
        "arg_string"@ != "println"@,
        "arg_string"@ != "print"@,
        "arg_string"@ != "read_line"@,
        "arg_string"@ != "eval"@,
        "arg_string"@ != "eval_call"@,
        "arg_string"@ != "exit"@,
        "arg_string"@ != "rand_range"@,
        "pow"@ != "println"@,
        "pow"@ != "print"@,
        "pow"@ != "read_line"@,
        "pow"@ != "eval"@,
        "pow"@ != "eval_call"@,
        "pow"@ != "exit"@,
        "pow"@ != "rand_range"@,
        "pow"@ != "arg_string"@,
        "sqrt"@ != "println"@,
        "sqrt"@ != "print"@,
        "sqrt"@ != "read_line"@,
        "sqrt"@ != "eval"@,
        "sqrt"@ != "eval_call"@,
        "sqrt"@ != "exit"@,
        "sqrt"@ != "rand_range"@,
        "sqrt"@ != "arg_string"@,
        "sqrt"@ != "pow"@,
        "sin"@ != "println"@,
        "sin"@ != "print"@,
        "sin"@ != "read_line"@,
        "sin"@ != "eval"@,
        "sin"@ != "eval_call"@,
        "sin"@ != "exit"@,
        "sin"@ != "rand_range"@,
        "sin"@ != "arg_string"@,
        "sin"@ != "pow"@,
        "sin"@ != "sqrt"@,
        "cos"@ != "println"@,
        "cos"@ != "print"@,
        "cos"@ != "read_line"@,
        "cos"@ != "eval"@,
        "cos"@ != "eval_call"@,
        "cos"@ != "exit"@,
        "cos"@ != "rand_range"@,
        "cos"@ != "arg_string"@,
        "cos"@ != "pow"@,
        "cos"@ != "sqrt"@,
        "cos"@ != "sin"@,
        "tan"@ != "println"@,
        "tan"@ != "print"@,
        "tan"@ != "read_line"@,
        "tan"@ != "eval"@,
        "tan"@ != "eval_call"@,
        "tan"@ != "exit"@,
        "tan"@ != "rand_range"@,
        "tan"@ != "arg_string"@,
        "tan"@ != "pow"@,
        "tan"@ != "sqrt"@,
        "tan"@ != "sin"@,
        "tan"@ != "cos"@,
        "exp"@ != "println"@,
        "exp"@ != "print"@,
        "exp"@ != "read_line"@,
        "exp"@ != "eval"@,
        "exp"@ != "eval_call"@,
        "exp"@ != "exit"@,
        "exp"@ != "rand_range"@,
        "exp"@ != "arg_string"@,
        "exp"@ != "pow"@,
        "exp"@ != "sqrt"@,
        "exp"@ != "sin"@,
        "exp"@ != "cos"@,
        "exp"@ != "tan"@,
        "log"@ != "println"@,
        "log"@ != "print"@,
        "log"@ != "read_line"@,
        "log"@ != "eval"@,
        "log"@ != "eval_call"@,
        "log"@ != "exit"@,
        "log"@ != "rand_range"@,
        "log"@ != "arg_string"@,
        "log"@ != "pow"@,
        "log"@ != "sqrt"@,
        "log"@ != "sin"@,
        "log"@ != "cos"@,
        "log"@ != "tan"@,
        "log"@ != "exp"@,
        "floor"@ != "println"@,
        "floor"@ != "print"@,
        "floor"@ != "read_line"@,
        "floor"@ != "eval"@,
        "floor"@ != "eval_call"@,
        "floor"@ != "exit"@,
        "floor"@ != "rand_range"@,
        "floor"@ != "arg_string"@,
        "floor"@ != "pow"@,
        "floor"@ != "sqrt"@,
        "floor"@ != "sin"@,
        "floor"@ != "cos"@,
        "floor"@ != "tan"@,
        "floor"@ != "exp"@,
        "floor"@ != "log"@,
        "ceil"@ != "println"@,
        "ceil"@ != "print"@,
        "ceil"@ != "read_line"@,
        "ceil"@ != "eval"@,
        "ceil"@ != "eval_call"@,
        "ceil"@ != "exit"@,
        "ceil"@ != "rand_range"@,
        "ceil"@ != "arg_string"@,
        "ceil"@ != "pow"@,
        "ceil"@ != "sqrt"@,
        "ceil"@ != "sin"@,
        "ceil"@ != "cos"@,
        "ceil"@ != "tan"@,
        "ceil"@ != "exp"@,
        "ceil"@ != "log"@,
        "ceil"@ != "floor"@,
        "round"@ != "println"@,
        "round"@ != "print"@,
        "round"@ != "read_line"@,
        "round"@ != "eval"@,
        "round"@ != "eval_call"@,
        "round"@ != "exit"@,
        "round"@ != "rand_range"@,
        "round"@ != "arg_string"@,
        "round"@ != "pow"@,
        "round"@ != "sqrt"@,
        "round"@ != "sin"@,
        "round"@ != "cos"@,
        "round"@ != "tan"@,
        "round"@ != "exp"@,
        "round"@ != "log"@,
        "round"@ != "floor"@,
        "round"@ != "ceil"@,
{
    reveal_strlit("println");
    reveal_strlit("print");
    reveal_strlit("read_line");
    reveal_strlit("eval");
    reveal_strlit("eval_call");
    reveal_strlit("exit");
    reveal_strlit("rand_range");
    reveal_strlit("arg_string");
    reveal_strlit("pow");
    reveal_strlit("sqrt");
    reveal_strlit("sin");
    reveal_strlit("cos");
    reveal_strlit("tan");
    reveal_strlit("exp");
    reveal_strlit("log");
    reveal_strlit("floor");
    reveal_strlit("ceil");
    reveal_strlit("round");
    assert("println"@.len() == 7);
    assert("print"@.len() == 5);
    assert("read_line"@.len() == 9);
    assert("eval"@.len() == 4);
    assert("eval_call"@.len() == 9);
    assert("exit"@.len() == 4);
    assert("rand_range"@.len() == 10);
    assert("arg_string"@.len() == 10);
    assert("pow"@.len() == 3);
    assert("sqrt"@.len() == 4);
    assert("sin"@.len() == 3);
    assert("cos"@.len() == 3);
    assert("tan"@.len() == 3);
    assert("exp"@.len() == 3);
    assert("log"@.len() == 3);
    assert("floor"@.len() == 5);
    assert("ceil"@.len() == 4);
    assert("round"@.len() == 5);
    assert("eval_call"@[0] != "read_line"@[0]);
    assert("exit"@[1] != "eval"@[1]);
    assert("arg_string"@[0] != "rand_range"@[0]);
    assert("sqrt"@[0] != "eval"@[0]);
    assert("sqrt"@[0] != "exit"@[0]);
    assert("sin"@[0] != "pow"@[0]);
    assert("cos"@[0] != "pow"@[0]);
    assert("cos"@[0] != "sin"@[0]);
    assert("tan"@[0] != "pow"@[0]);
    assert("tan"@[0] != "sin"@[0]);
    assert("tan"@[0] != "cos"@[0]);
    assert("exp"@[0] != "pow"@[0]);
    assert("exp"@[0] != "sin"@[0]);
    assert("exp"@[0] != "cos"@[0]);
    assert("exp"@[0] != "tan"@[0]);
    assert("log"@[0] != "pow"@[0]);
    assert("log"@[0] != "sin"@[0]);
    assert("log"@[0] != "cos"@[0]);
    assert("log"@[0] != "tan"@[0]);
    assert("log"@[0] != "exp"@[0]);
    assert("floor"@[0] != "print"@[0]);
    assert("ceil"@[0] != "eval"@[0]);
    assert("ceil"@[0] != "exit"@[0]);
    assert("ceil"@[0] != "sqrt"@[0]);
    assert("round"@[0] != "print"@[0]);
    assert("round"@[0] != "floor"@[0]);
}

proof fn lemma_bytes_names()
    ensures
        "bit_read"@ != "byte_write"@,
        "bit_write"@ != "byte_write"@,
        "bit_write"@ != "bit_read"@,
        "byte_concat"@ != "byte_write"@,
        "byte_concat"@ != "bit_read"@,
        "byte_concat"@ != "bit_write"@,
{
    reveal_strlit("byte_write");
    reveal_strlit("bit_read");
    reveal_strlit("bit_write");
    reveal_strlit("byte_concat");
    assert("byte_write"@.len() == 10);
    assert("bit_read"@.len() == 8);
    assert("bit_write"@.len() == 9);
    assert("byte_concat"@.len() == 11);
}

proof fn lemma_regex_names()
    ensures
        "regex_find"@ != "regex_match"@,
        "regex_find_all"@ != "regex_match"@,
        "regex_find_all"@ != "regex_find"@,
        "regex_replace"@ != "regex_match"@,
        "regex_replace"@ != "regex_find"@,
        "regex_replace"@ != "regex_find_all"@,
        "regex_group"@ != "regex_match"@,
        "regex_group"@ != "regex_find"@,
        "regex_group"@ != "regex_find_all"@,
        "regex_group"@ != "regex_replace"@,
{
    reveal_strlit("regex_match");
    reveal_strlit("regex_find");
    reveal_strlit("regex_find_all");
    reveal_strlit("regex_replace");
    reveal_strlit("regex_group");
    assert("regex_match"@.len() == 11);
    assert("regex_find"@.len() == 10);
    assert("regex_find_all"@.len() == 14);
    assert("regex_replace"@.len() == 13);
    assert("regex_group"@.len() == 11);
    assert("regex_group"@[6] != "regex_match"@[6]);
}

proof fn lemma_services_names()
    ensures
        "file_write"@ != "file_read"@,
        "file_append"@ != "file_read"@,
        "file_append"@ != "file_write"@,
        "file_exists"@ != "file_read"@,
        "file_exists"@ != "file_write"@,
        "file_exists"@ != "file_append"@,
        "file_delete"@ != "file_read"@,
        "file_delete"@ != "file_write"@,
        "file_delete"@ != "file_append"@,
        "file_delete"@ != "file_exists"@,
        "print_err"@ != "file_read"@,
        "print_err"@ != "file_write"@,
        "print_err"@ != "file_append"@,
        "print_err"@ != "file_exists"@,
        "print_err"@ != "file_delete"@,
        "list_dir"@ != "file_read"@,
        "list_dir"@ != "file_write"@,
        "list_dir"@ != "file_append"@,
        "list_dir"@ != "file_exists"@,
        "list_dir"@ != "file_delete"@,
        "list_dir"@ != "print_err"@,
        "http_get"@ != "file_read"@,
        "http_get"@ != "file_write"@,
        "http_get"@ != "file_append"@,
        "http_get"@ != "file_exists"@,
        "http_get"@ != "file_delete"@,
        "http_get"@ != "print_err"@,
        "http_get"@ != "list_dir"@,
        "http_get_file"@ != "file_read"@,
        "http_get_file"@ != "file_write"@,
        "http_get_file"@ != "file_append"@,
        "http_get_file"@ != "file_exists"@,
        "http_get_file"@ != "file_delete"@,
        "http_get_file"@ != "print_err"@,
        "http_get_file"@ != "list_dir"@,
        "http_get_file"@ != "http_get"@,
        "exec_code"@ != "file_read"@,
        "exec_code"@ != "file_write"@,
        "exec_code"@ != "file_append"@,
        "exec_code"@ != "file_exists"@,
        "exec_code"@ != "file_delete"@,
        "exec_code"@ != "print_err"@,
        "exec_code"@ != "list_dir"@,
        "exec_code"@ != "http_get"@,
        "exec_code"@ != "http_get_file"@,
        "exec_output"@ != "file_read"@,
        "exec_output"@ != "file_write"@,
        "exec_output"@ != "file_append"@,
        "exec_output"@ != "file_exists"@,
        "exec_output"@ != "file_delete"@,
        "exec_output"@ != "print_err"@,
        "exec_output"@ != "list_dir"@,
        "exec_output"@ != "http_get"@,
        "exec_output"@ != "http_get_file"@,
        "exec_output"@ != "exec_code"@,
        "untar_gz"@ != "file_read"@,
        "untar_gz"@ != "file_write"@,
        "untar_gz"@ != "file_append"@,
        "untar_gz"@ != "file_exists"@,
        "untar_gz"@ != "file_delete"@,
        "untar_gz"@ != "print_err"@,
        "untar_gz"@ != "list_dir"@,
        "untar_gz"@ != "http_get"@,
        "untar_gz"@ != "http_get_file"@,
        "untar_gz"@ != "exec_code"@,
        "untar_gz"@ != "exec_output"@,
        "unzip"@ != "file_read"@,
        "unzip"@ != "file_write"@,
        "unzip"@ != "file_append"@,
        "unzip"@ != "file_exists"@,
        "unzip"@ != "file_delete"@,
        "unzip"@ != "print_err"@,
        "unzip"@ != "list_dir"@,
        "unzip"@ != "http_get"@,
        "unzip"@ != "http_get_file"@,
        "unzip"@ != "exec_code"@,
        "unzip"@ != "exec_output"@,
        "unzip"@ != "untar_gz"@,
        "mkdir_all"@ != "file_read"@,
        "mkdir_all"@ != "file_write"@,
        "mkdir_all"@ != "file_append"@,
        "mkdir_all"@ != "file_exists"@,
        "mkdir_all"@ != "file_delete"@,
        "mkdir_all"@ != "print_err"@,
        "mkdir_all"@ != "list_dir"@,
        "mkdir_all"@ != "http_get"@,
        "mkdir_all"@ != "http_get_file"@,
        "mkdir_all"@ != "exec_code"@,
        "mkdir_all"@ != "exec_output"@,
        "mkdir_all"@ != "untar_gz"@,
        "mkdir_all"@ != "unzip"@,
        "remove_dir_all"@ != "file_read"@,
        "remove_dir_all"@ != "file_write"@,
        "remove_dir_all"@ != "file_append"@,
        "remove_dir_all"@ != "file_exists"@,
        "remove_dir_all"@ != "file_delete"@,
        "remove_dir_all"@ != "print_err"@,
        "remove_dir_all"@ != "list_dir"@,
        "remove_dir_all"@ != "http_get"@,
        "remove_dir_all"@ != "http_get_file"@,
        "remove_dir_all"@ != "exec_code"@,
        "remove_dir_all"@ != "exec_output"@,
        "remove_dir_all"@ != "untar_gz"@,
        "remove_dir_all"@ != "unzip"@,
        "remove_dir_all"@ != "mkdir_all"@,
        "copy_dir"@ != "file_read"@,
        "copy_dir"@ != "file_write"@,
        "copy_dir"@ != "file_append"@,
        "copy_dir"@ != "file_exists"@,
        "copy_dir"@ != "file_delete"@,
        "copy_dir"@ != "print_err"@,
        "copy_dir"@ != "list_dir"@,
        "copy_dir"@ != "http_get"@,
        "copy_dir"@ != "http_get_file"@,
        "copy_dir"@ != "exec_code"@,
        "copy_dir"@ != "exec_output"@,
        "copy_dir"@ != "untar_gz"@,
        "copy_dir"@ != "unzip"@,
        "copy_dir"@ != "mkdir_all"@,
        "copy_dir"@ != "remove_dir_all"@,
        "walk_dir"@ != "file_read"@,
        "walk_dir"@ != "file_write"@,
        "walk_dir"@ != "file_append"@,
        "walk_dir"@ != "file_exists"@,
        "walk_dir"@ != "file_delete"@,
        "walk_dir"@ != "print_err"@,
        "walk_dir"@ != "list_dir"@,
        "walk_dir"@ != "http_get"@,
        "walk_dir"@ != "http_get_file"@,
        "walk_dir"@ != "exec_code"@,
        "walk_dir"@ != "exec_output"@,
        "walk_dir"@ != "untar_gz"@,
        "walk_dir"@ != "unzip"@,
        "walk_dir"@ != "mkdir_all"@,
        "walk_dir"@ != "remove_dir_all"@,
        "walk_dir"@ != "copy_dir"@,
        "byte_read"@ != "file_read"@,
        "byte_read"@ != "file_write"@,
        "byte_read"@ != "file_append"@,
        "byte_read"@ != "file_exists"@,
        "byte_read"@ != "file_delete"@,
        "byte_read"@ != "print_err"@,
        "byte_read"@ != "list_dir"@,
        "byte_read"@ != "http_get"@,
        "byte_read"@ != "http_get_file"@,
        "byte_read"@ != "exec_code"@,
        "byte_read"@ != "exec_output"@,
        "byte_read"@ != "untar_gz"@,
        "byte_read"@ != "unzip"@,
        "byte_read"@ != "mkdir_all"@,
        "byte_read"@ != "remove_dir_all"@,
        "byte_read"@ != "copy_dir"@,
        "byte_read"@ != "walk_dir"@,
        "path_abs"@ != "file_read"@,
        "path_abs"@ != "file_write"@,
        "path_abs"@ != "file_append"@,
        "path_abs"@ != "file_exists"@,
        "path_abs"@ != "file_delete"@,
        "path_abs"@ != "print_err"@,
        "path_abs"@ != "list_dir"@,
        "path_abs"@ != "http_get"@,
        "path_abs"@ != "http_get_file"@,
        "path_abs"@ != "exec_code"@,
        "path_abs"@ != "exec_output"@,
        "path_abs"@ != "untar_gz"@,
        "path_abs"@ != "unzip"@,
        "path_abs"@ != "mkdir_all"@,
        "path_abs"@ != "remove_dir_all"@,
        "path_abs"@ != "copy_dir"@,
        "path_abs"@ != "walk_dir"@,
        "path_abs"@ != "byte_read"@,
        "cwd"@ != "file_read"@,
        "cwd"@ != "file_write"@,
        "cwd"@ != "file_append"@,
        "cwd"@ != "file_exists"@,
        "cwd"@ != "file_delete"@,
        "cwd"@ != "print_err"@,
        "cwd"@ != "list_dir"@,
        "cwd"@ != "http_get"@,
        "cwd"@ != "http_get_file"@,
        "cwd"@ != "exec_code"@,
        "cwd"@ != "exec_output"@,
        "cwd"@ != "untar_gz"@,
        "cwd"@ != "unzip"@,
        "cwd"@ != "mkdir_all"@,
        "cwd"@ != "remove_dir_all"@,
        "cwd"@ != "copy_dir"@,
        "cwd"@ != "walk_dir"@,
        "cwd"@ != "byte_read"@,
        "cwd"@ != "path_abs"@,
        "get_env"@ != "file_read"@,
        "get_env"@ != "file_write"@,
        "get_env"@ != "file_append"@,
        "get_env"@ != "file_exists"@,
        "get_env"@ != "file_delete"@,
        "get_env"@ != "print_err"@,
        "get_env"@ != "list_dir"@,
        "get_env"@ != "http_get"@,
        "get_env"@ != "http_get_file"@,
        "get_env"@ != "exec_code"@,
        "get_env"@ != "exec_output"@,
        "get_env"@ != "untar_gz"@,
        "get_env"@ != "unzip"@,
        "get_env"@ != "mkdir_all"@,
        "get_env"@ != "remove_dir_all"@,
        "get_env"@ != "copy_dir"@,
        "get_env"@ != "walk_dir"@,
        "get_env"@ != "byte_read"@,
        "get_env"@ != "path_abs"@,
        "get_env"@ != "cwd"@,
        "set_env"@ != "file_read"@,
        "set_env"@ != "file_write"@,
        "set_env"@ != "file_append"@,
        "set_env"@ != "file_exists"@,
        "set_env"@ != "file_delete"@,
        "set_env"@ != "print_err"@,
        "set_env"@ != "list_dir"@,
        "set_env"@ != "http_get"@,
        "set_env"@ != "http_get_file"@,
        "set_env"@ != "exec_code"@,
        "set_env"@ != "exec_output"@,
        "set_env"@ != "untar_gz"@,
        "set_env"@ != "unzip"@,
        "set_env"@ != "mkdir_all"@,
        "set_env"@ != "remove_dir_all"@,
        "set_env"@ != "copy_dir"@,
        "set_env"@ != "walk_dir"@,
        "set_env"@ != "byte_read"@,
        "set_env"@ != "path_abs"@,
        "set_env"@ != "cwd"@,
        "set_env"@ != "get_env"@,
        "file_copy"@ != "file_read"@,
        "file_copy"@ != "file_write"@,
        "file_copy"@ != "file_append"@,
        "file_copy"@ != "file_exists"@,
        "file_copy"@ != "file_delete"@,
        "file_copy"@ != "print_err"@,
        "file_copy"@ != "list_dir"@,
        "file_copy"@ != "http_get"@,
        "file_copy"@ != "http_get_file"@,
        "file_copy"@ != "exec_code"@,
        "file_copy"@ != "exec_output"@,
        "file_copy"@ != "untar_gz"@,
        "file_copy"@ != "unzip"@,
        "file_copy"@ != "mkdir_all"@,
        "file_copy"@ != "remove_dir_all"@,
        "file_copy"@ != "copy_dir"@,
        "file_copy"@ != "walk_dir"@,
        "file_copy"@ != "byte_read"@,
        "file_copy"@ != "path_abs"@,
        "file_copy"@ != "cwd"@,
        "file_copy"@ != "get_env"@,
        "file_copy"@ != "set_env"@,
        "file_move"@ != "file_read"@,
        "file_move"@ != "file_write"@,
        "file_move"@ != "file_append"@,
        "file_move"@ != "file_exists"@,
        "file_move"@ != "file_delete"@,
        "file_move"@ != "print_err"@,
        "file_move"@ != "list_dir"@,
        "file_move"@ != "http_get"@,
        "file_move"@ != "http_get_file"@,
        "file_move"@ != "exec_code"@,
        "file_move"@ != "exec_output"@,
        "file_move"@ != "untar_gz"@,
        "file_move"@ != "unzip"@,
        "file_move"@ != "mkdir_all"@,
        "file_move"@ != "remove_dir_all"@,
        "file_move"@ != "copy_dir"@,
        "file_move"@ != "walk_dir"@,
        "file_move"@ != "byte_read"@,
        "file_move"@ != "path_abs"@,
        "file_move"@ != "cwd"@,
        "file_move"@ != "get_env"@,
        "file_move"@ != "set_env"@,
        "file_move"@ != "file_copy"@,
        "time_now"@ != "file_read"@,
        "time_now"@ != "file_write"@,
        "time_now"@ != "file_append"@,
        "time_now"@ != "file_exists"@,
        "time_now"@ != "file_delete"@,
        "time_now"@ != "print_err"@,
        "time_now"@ != "list_dir"@,
        "time_now"@ != "http_get"@,
        "time_now"@ != "http_get_file"@,
        "time_now"@ != "exec_code"@,
        "time_now"@ != "exec_output"@,
        "time_now"@ != "untar_gz"@,
        "time_now"@ != "unzip"@,
        "time_now"@ != "mkdir_all"@,
        "time_now"@ != "remove_dir_all"@,
        "time_now"@ != "copy_dir"@,
        "time_now"@ != "walk_dir"@,
        "time_now"@ != "byte_read"@,
        "time_now"@ != "path_abs"@,
        "time_now"@ != "cwd"@,
        "time_now"@ != "get_env"@,
        "time_now"@ != "set_env"@,
        "time_now"@ != "file_copy"@,
        "time_now"@ != "file_move"@,
        "arg_count"@ != "file_read"@,
        "arg_count"@ != "file_write"@,
        "arg_count"@ != "file_append"@,
        "arg_count"@ != "file_exists"@,
        "arg_count"@ != "file_delete"@,
        "arg_count"@ != "print_err"@,
        "arg_count"@ != "list_dir"@,
        "arg_count"@ != "http_get"@,
        "arg_count"@ != "http_get_file"@,
        "arg_count"@ != "exec_code"@,
        "arg_count"@ != "exec_output"@,
        "arg_count"@ != "untar_gz"@,
        "arg_count"@ != "unzip"@,
        "arg_count"@ != "mkdir_all"@,
        "arg_count"@ != "remove_dir_all"@,
        "arg_count"@ != "copy_dir"@,
        "arg_count"@ != "walk_dir"@,
        "arg_count"@ != "byte_read"@,
        "arg_count"@ != "path_abs"@,
        "arg_count"@ != "cwd"@,
        "arg_count"@ != "get_env"@,
        "arg_count"@ != "set_env"@,
        "arg_count"@ != "file_copy"@,
        "arg_count"@ != "file_move"@,
        "arg_count"@ != "time_now"@,
{
    reveal_strlit("file_read");
    reveal_strlit("file_write");
    reveal_strlit("file_append");
    reveal_strlit("file_exists");
    reveal_strlit("file_delete");
    reveal_strlit("print_err");
    reveal_strlit("list_dir");
    reveal_strlit("http_get");
    reveal_strlit("http_get_file");
    reveal_strlit("exec_code");
    reveal_strlit("exec_output");
    reveal_strlit("untar_gz");
    reveal_strlit("unzip");
    reveal_strlit("mkdir_all");
    reveal_strlit("remove_dir_all");
    reveal_strlit("copy_dir");
    reveal_strlit("walk_dir");
    reveal_strlit("byte_read");
    reveal_strlit("path_abs");
    reveal_strlit("cwd");
    reveal_strlit("get_env");
    reveal_strlit("set_env");
    reveal_strlit("file_copy");
    reveal_strlit("file_move");
    reveal_strlit("time_now");
    reveal_strlit("arg_count");
    assert("file_read"@.len() == 9);
    assert("file_write"@.len() == 10);
    assert("file_append"@.len() == 11);
    assert("file_exists"@.len() == 11);
    assert("file_delete"@.len() == 11);
    assert("print_err"@.len() == 9);
    assert("list_dir"@.len() == 8);
    assert("http_get"@.len() == 8);
    assert("http_get_file"@.len() == 13);
    assert("exec_code"@.len() == 9);
    assert("exec_output"@.len() == 11);
    assert("untar_gz"@.len() == 8);
    assert("unzip"@.len() == 5);
    assert("mkdir_all"@.len() == 9);
    assert("remove_dir_all"@.len() == 14);
    assert("copy_dir"@.len() == 8);
    assert("walk_dir"@.len() == 8);
    assert("byte_read"@.len() == 9);
    assert("path_abs"@.len() == 8);
    assert("cwd"@.len() == 3);
    assert("get_env"@.len() == 7);
    assert("set_env"@.len() == 7);
    assert("file_copy"@.len() == 9);
    assert("file_move"@.len() == 9);
    assert("time_now"@.len() == 8);
    assert("arg_count"@.len() == 9);
    assert("file_exists"@[5] != "file_append"@[5]);
    assert("file_delete"@[5] != "file_append"@[5]);
    assert("file_delete"@[5] != "file_exists"@[5]);
    assert("print_err"@[0] != "file_read"@[0]);
    assert("http_get"@[0] != "list_dir"@[0]);
    assert("exec_code"@[0] != "file_read"@[0]);
    assert("exec_code"@[0] != "print_err"@[0]);
    assert("exec_output"@[0] != "file_append"@[0]);
    assert("exec_output"@[0] != "file_exists"@[0]);
    assert("exec_output"@[0] != "file_delete"@[0]);
    assert("untar_gz"@[0] != "list_dir"@[0]);
    assert("untar_gz"@[0] != "http_get"@[0]);
    assert("mkdir_all"@[0] != "file_read"@[0]);
    assert("mkdir_all"@[0] != "print_err"@[0]);
    assert("mkdir_all"@[0] != "exec_code"@[0]);
    assert("copy_dir"@[0] != "list_dir"@[0]);
    assert("copy_dir"@[0] != "http_get"@[0]);
    assert("copy_dir"@[0] != "untar_gz"@[0]);
    assert("walk_dir"@[0] != "list_dir"@[0]);
    assert("walk_dir"@[0] != "http_get"@[0]);
    assert("walk_dir"@[0] != "untar_gz"@[0]);
    assert("walk_dir"@[0] != "copy_dir"@[0]);
    assert("byte_read"@[0] != "file_read"@[0]);
    assert("byte_read"@[0] != "print_err"@[0]);
    assert("byte_read"@[0] != "exec_code"@[0]);
    assert("byte_read"@[0] != "mkdir_all"@[0]);
    assert("path_abs"@[0] != "list_dir"@[0]);
    assert("path_abs"@[0] != "http_get"@[0]);
    assert("path_abs"@[0] != "untar_gz"@[0]);
    assert("path_abs"@[0] != "copy_dir"@[0]);
    assert("path_abs"@[0] != "walk_dir"@[0]);
    assert("set_env"@[0] != "get_env"@[0]);
    assert("file_copy"@[5] != "file_read"@[5]);
    assert("file_copy"@[0] != "print_err"@[0]);
    assert("file_copy"@[0] != "exec_code"@[0]);
    assert("file_copy"@[0] != "mkdir_all"@[0]);
    assert("file_copy"@[0] != "byte_read"@[0]);
    assert("file_move"@[5] != "file_read"@[5]);
    assert("file_move"@[0] != "print_err"@[0]);
    assert("file_move"@[0] != "exec_code"@[0]);
    assert("file_move"@[0] != "mkdir_all"@[0]);
    assert("file_move"@[0] != "byte_read"@[0]);
    assert("file_move"@[5] != "file_copy"@[5]);
    assert("time_now"@[0] != "list_dir"@[0]);
    assert("time_now"@[0] != "http_get"@[0]);
    assert("time_now"@[0] != "untar_gz"@[0]);
    assert("time_now"@[0] != "copy_dir"@[0]);
    assert("time_now"@[0] != "walk_dir"@[0]);
    assert("time_now"@[0] != "path_abs"@[0]);
    assert("arg_count"@[0] != "file_read"@[0]);
    assert("arg_count"@[0] != "print_err"@[0]);
    assert("arg_count"@[0] != "exec_code"@[0]);
    assert("arg_count"@[0] != "mkdir_all"@[0]);
    assert("arg_count"@[0] != "byte_read"@[0]);
    assert("arg_count"@[0] != "file_copy"@[0]);
    assert("arg_count"@[0] != "file_move"@[0]);
}

proof fn lemma_paths_names()
    ensures
        "path_basename"@ != "path_join"@,
        "path_dirname"@ != "path_join"@,
        "path_dirname"@ != "path_basename"@,
        "path_normalize"@ != "path_join"@,
        "path_normalize"@ != "path_basename"@,
        "path_normalize"@ != "path_dirname"@,
{
    reveal_strlit("path_join");
    reveal_strlit("path_basename");
    reveal_strlit("path_dirname");
    reveal_strlit("path_normalize");
    assert("path_join"@.len() == 9);
    assert("path_basename"@.len() == 13);
    assert("path_dirname"@.len() == 12);
    assert("path_normalize"@.len() == 14);
}

proof fn lemma_messages_names()
    ensures
        "msg_get_lang"@ != "msg_set_lang"@,
        "msg_register"@ != "msg_set_lang"@,
        "msg_register"@ != "msg_get_lang"@,
        "msg_t"@ != "msg_set_lang"@,
        "msg_t"@ != "msg_get_lang"@,
        "msg_t"@ != "msg_register"@,
        "msg_t_lang"@ != "msg_set_lang"@,
        "msg_t_lang"@ != "msg_get_lang"@,
        "msg_t_lang"@ != "msg_register"@,
        "msg_t_lang"@ != "msg_t"@,
{
    reveal_strlit("msg_set_lang");
    reveal_strlit("msg_get_lang");
    reveal_strlit("msg_register");
    reveal_strlit("msg_t");
    reveal_strlit("msg_t_lang");
    assert("msg_set_lang"@.len() == 12);
    assert("msg_get_lang"@.len() == 12);
    assert("msg_register"@.len() == 12);
    assert("msg_t"@.len() == 5);
    assert("msg_t_lang"@.len() == 10);
    assert("msg_get_lang"@[4] != "msg_set_lang"@[4]);
    assert("msg_register"@[4] != "msg_set_lang"@[4]);
    assert("msg_register"@[4] != "msg_get_lang"@[4]);
}

// ---------- what they do ----------
/// Lengths are counted in bytes for texts and in cells for tables.
pub proof fn law_lengths(s: Seq<char>, cells: Seq<ValueV>)
    ensures
        call_text("len"@, seq![ValueV::Str(s)]) == CallOutV::Val(
            ValueV::Int((encode_utf8(s).len() as usize) as i64),
        ),
        call_text("len"@, seq![ValueV::Table(cells)]) == CallOutV::Val(
            ValueV::Int(cells.len() as i64),
        ),
{
    assert(seq![ValueV::Str(s)].len() == 1);
}

/// A new table has no cells, and a cell is read by its position, counted from zero; positions
/// outside are refused.
pub proof fn law_cells_are_read(cells: Seq<ValueV>, i: i64)
    ensures
        call_text("table_new_i64"@, Seq::empty()) == CallOutV::Val(ValueV::Table(Seq::empty())),
        call_text("table_new_f64"@, Seq::empty()) == CallOutV::Val(ValueV::Table(Seq::empty())),
        call_text("table_new_string"@, Seq::empty()) == CallOutV::Val(ValueV::Table(Seq::empty())),
        call_text("table_new_bool"@, Seq::empty()) == CallOutV::Val(ValueV::Table(Seq::empty())),
        0 <= i < cells.len() ==> call_text(
            "table_at"@,
            seq![ValueV::Table(cells), ValueV::Int(i)],
        ) == CallOutV::Val(cells[i as int]),
        !(0 <= i < cells.len()) ==> call_text(
            "table_at"@,
            seq![ValueV::Table(cells), ValueV::Int(i)],
        ) is Fail,
{
    lemma_text_names();
    let args = seq![ValueV::Table(cells), ValueV::Int(i)];
    assert(table_at(args, 0) == Some(cells) && int_at(args, 1) == Some(i));
}

/// A character of a text is a text of one character; there is none outside.
pub proof fn law_characters_are_read(s: Seq<char>, i: i64)
    requires
        !s.contains('\0'),
    ensures
        call_text("str_char"@, seq![ValueV::Str(s), ValueV::Int(i)]) matches CallOutV::Val(
            ValueV::Str(t),
        ) && (if 0 <= i < s.len() {
            t.len() == 1 && t[0] == s[i as int]
        } else {
            t.len() == 0
        }),
{
    lemma_text_names();
    let args = seq![ValueV::Str(s), ValueV::Int(i)];
    assert(str_at(args, 0) == Some(s) && int_at(args, 1) == Some(i));
}

/// What is written as a text is read back as the same number.
pub proof fn law_numbers_are_read_back(n: i64, t: i8)
    requires
        -1 <= t <= 1,
    ensures
        call_text("to_string"@, seq![ValueV::Int(n)]) matches CallOutV::Val(ValueV::Str(s))
            && call_text("parse_int"@, seq![ValueV::Str(s)]) == CallOutV::Val(ValueV::Int(n)),
        call_text("to_string"@, seq![ValueV::Trit(t)]) matches CallOutV::Val(ValueV::Str(s))
            && call_text("parse_trit"@, seq![ValueV::Str(s)]) == CallOutV::Val(ValueV::Trit(t)),
{
    lemma_text_names();
    let a = dec(n as int);
    let b = dec(t as int);
    lemma_no_nul(n as int);
    lemma_no_nul(t as int);
    law_parse_undoes_print(n);
    assert(str_at(seq![ValueV::Str(a)], 0) == Some(a));
    assert(str_at(seq![ValueV::Str(b)], 0) == Some(b));
    lemma_trit_numerals(t);
}

proof fn lemma_trit_numerals(t: i8)
    requires
        -1 <= t <= 1,
    ensures
        parse_trit(dec(t as int)) == Some(t),
{
    reveal_strlit("-1");
    reveal_strlit("0");
    reveal_strlit("1");
    reveal_strlit("-");
    reveal_with_fuel(nat_dec, 2);
    let d = dec(t as int);
    if t == -1 {
        assert(d =~= "-1"@);
    } else if t == 0 {
        assert(d =~= "0"@);
    } else {
        assert(d =~= "1"@);
    }
    assert("0"@[0] != "1"@[0]);
}

proof fn lemma_no_nul(n: int)
    ensures
        c_str(dec(n)) == dec(n),
{
    reveal_strlit("-");
    let d = dec(n);
    let m = if n < 0 {
        (-n) as nat
    } else {
        n as nat
    };
    lemma_nat_dec_value(m);
    let e = nat_dec(m);
    assert forall|i: int| 0 <= i < d.len() implies d[i] != '\0' by {
        if n < 0 {
            if i > 0 {
                assert(d[i] == e[i - 1]);
                assert(is_digit(e[i - 1]));
            }
        } else {
            assert(is_digit(e[i]));
        }
    }
}

/// What is printed is what the arguments print as, one after the other, with the end of a line
/// where it is asked for.
pub proof fn law_printing(args: Seq<ValueV>, v: ValueV)
    ensures
        call_system("println"@, Seq::empty()) == CallOutV::Ask(
            RequestV::Print { text: Seq::empty(), newline: true },
            AfterV::Done,
        ),
        call_system("print"@, args) matches CallOutV::Ask(RequestV::Print { text, newline }, after)
            && !newline && after == AfterV::Done && call_system("println"@, args) == CallOutV::Ask(
            RequestV::Print { text, newline: true },
            AfterV::Done,
        ) && call_system("print"@, args.push(v)) == CallOutV::Ask(
            RequestV::Print { text: text + print_string(v), newline: false },
            AfterV::Done,
        ),
{
    lemma_system_names();
    lemma_print_all_same(args, args.push(v), args.len());
}

proof fn lemma_print_all_same(a: Seq<ValueV>, b: Seq<ValueV>, n: nat)
    requires
        n <= a.len(),
        n <= b.len(),
        forall|i: int| 0 <= i < n ==> a[i] == b[i],
    ensures
        print_all(a, n) == print_all(b, n),
    decreases n,
{
    if n > 0 {
        lemma_print_all_same(a, b, (n - 1) as nat);
    }
}

/// The end of the program, the evaluation of a text, and the arguments of the program are asked
/// for with what the call gives.
pub proof fn law_requests_of_the_program(c: i64, f: Seq<char>, a: Seq<char>)
    ensures
        -0x8000_0000 <= c <= 0x7fff_ffff ==> (call_system("exit"@, seq![ValueV::Int(c)])
            matches CallOutV::Ask(RequestV::Exit(k), after) && k == c && after == AfterV::Never),
        call_system("eval"@, seq![ValueV::Str(f)]) == CallOutV::Eval(f),
        call_system("eval_call"@, seq![ValueV::Str(f), ValueV::Str(a)]) == CallOutV::EvalCall(f, a),
        call_system("arg_string"@, seq![ValueV::Int(c)]) == CallOutV::Ask(
            RequestV::ArgString(c),
            AfterV::Text,
        ),
        call_system("read_line"@, Seq::empty()) == CallOutV::Ask(
            RequestV::Host { op: HostOp::ReadLine, args: Seq::empty() },
            AfterV::Text,
        ),
{
    lemma_system_names();
    assert(int_at(seq![ValueV::Int(c)], 0) == Some(c));
    assert(str_at(seq![ValueV::Str(f)], 0) == Some(f));
    assert(str_at(seq![ValueV::Str(f), ValueV::Str(a)], 0) == Some(f));
    assert(str_at(seq![ValueV::Str(f), ValueV::Str(a)], 1) == Some(a));
}

/// A random number is one of its range, which begins with the first argument and ends before the
/// second; an empty range is refused.
pub proof fn law_random_numbers(min: i64, max: i64, r: u64)
    ensures
        min < max ==> (call_system("rand_range"@, seq![ValueV::Int(min), ValueV::Int(max)])
            matches CallOutV::Ask(q, after) && q == RequestV::Random && (settled(
            after,
            Reply::Random(r),
        ) matches OutcomeV::Val(ValueV::Int(n)) && min <= n < max && (n - min - r as int) % (max
            - min) == 0)),
        min >= max ==> call_system("rand_range"@, seq![ValueV::Int(min), ValueV::Int(max)]) is Fail,
{
    lemma_system_names();
    let args = seq![ValueV::Int(min), ValueV::Int(max)];
    assert(int_at(args, 0) == Some(min) && int_at(args, 1) == Some(max));
    if min < max {
        let d = max - min;
        let k = (r as int) % d;
        assert(0 <= k < d) by (nonlinear_arith)
            requires
                d > 0,
                k == (r as int) % d,
        ;
        vstd::arithmetic::div_mod::lemma_fundamental_div_mod(r as int, d);
        let q = (r as int) / d;
        assert(k - r as int == d * (-q)) by (nonlinear_arith)
            requires
                r as int == d * q + k,
        ;
        vstd::arithmetic::div_mod::lemma_mod_multiples_basic(-q, d);
        assert((k - r as int) % d == 0) by (nonlinear_arith)
            requires
                k - r as int == d * (-q),
                ((-q) * d) % d == 0,
        ;
    }
}

/// Mathematical functions are asked for with their arguments in their order; the result is the
/// answer, and only the logarithm can have none.
pub proof fn law_mathematics(x: i64, y: i64, f: Float)
    ensures
        call_system("pow"@, seq![ValueV::Int(x), ValueV::Int(y)]) == CallOutV::Ask(
            RequestV::Pow { x: NumV::Int(x), y: NumV::Int(y) },
            AfterV::Float,
        ),
        settled(AfterV::Float, Reply::Float(f)) == OutcomeV::Val(ValueV::Float(f@)),
        call_system("sqrt"@, seq![ValueV::Int(x)]) == CallOutV::Ask(
            RequestV::Math { fun: MathFn::Sqrt, x: NumV::Int(x) },
            AfterV::Float,
        ),
        call_system("sin"@, seq![ValueV::Int(x)]) == CallOutV::Ask(
            RequestV::Math { fun: MathFn::Sin, x: NumV::Int(x) },
            AfterV::Float,
        ),
        call_system("cos"@, seq![ValueV::Int(x)]) == CallOutV::Ask(
            RequestV::Math { fun: MathFn::Cos, x: NumV::Int(x) },
            AfterV::Float,
        ),
        call_system("tan"@, seq![ValueV::Int(x)]) == CallOutV::Ask(
            RequestV::Math { fun: MathFn::Tan, x: NumV::Int(x) },
            AfterV::Float,
        ),
        call_system("exp"@, seq![ValueV::Int(x)]) == CallOutV::Ask(
            RequestV::Math { fun: MathFn::Exp, x: NumV::Int(x) },
            AfterV::Float,
        ),
        call_system("log"@, seq![ValueV::Int(x)]) matches CallOutV::Ask(q, AfterV::MaybeFloat(_))
            && q == (RequestV::Math { fun: MathFn::Log, x: NumV::Int(x) }),
        call_system("floor"@, seq![ValueV::Int(x)]) == CallOutV::Ask(
            RequestV::Math { fun: MathFn::Floor, x: NumV::Int(x) },
            AfterV::Float,
        ),
        call_system("ceil"@, seq![ValueV::Int(x)]) == CallOutV::Ask(
            RequestV::Math { fun: MathFn::Ceil, x: NumV::Int(x) },
            AfterV::Float,
        ),
        call_system("round"@, seq![ValueV::Int(x)]) == CallOutV::Ask(
            RequestV::Math { fun: MathFn::Round, x: NumV::Int(x) },
            AfterV::Float,
        ),
{
    lemma_system_names();
    assert(num_at(seq![ValueV::Int(x), ValueV::Int(y)], 0) == Some(NumV::Int(x)));
    assert(num_at(seq![ValueV::Int(x), ValueV::Int(y)], 1) == Some(NumV::Int(y)));
    assert(num_at(seq![ValueV::Int(x)], 0) == Some(NumV::Int(x)));
}

/// Tables of bytes are put together in their order, and a bit that is written is read.
pub proof fn law_bytes(a: Seq<i64>, b: Seq<i64>, pos: i64, bit: i64)
    ensures
        call_bytes(
            "byte_concat"@,
            seq![ValueV::Table(int_values(a)), ValueV::Table(int_values(b))],
        ) == CallOutV::Val(ValueV::Table(int_values(a + b))),
        0 <= pos < 8 * a.len() ==> (bit_written(
            ValueV::Table(int_values(a)),
            ValueV::Int(pos),
            ValueV::Int(bit),
        ) matches Ok((cells, ok)) && ok && call_bytes(
            "bit_read"@,
            seq![ValueV::Table(cells), ValueV::Int(pos)],
        ) == CallOutV::Val(
            ValueV::Int(
                if bit != 0 {
                    1
                } else {
                    0
                },
            ),
        )),
        !(0 <= pos < 8 * a.len()) ==> bit_written(
            ValueV::Table(int_values(a)),
            ValueV::Int(pos),
            ValueV::Int(bit),
        ) == Ok::<(Seq<ValueV>, bool), Seq<char>>((int_values(a), false)),
{
    lemma_bytes_names();
    lemma_ints_back(a);
    lemma_ints_back(b);
    let args = seq![ValueV::Table(int_values(a)), ValueV::Table(int_values(b))];
    assert(table_at(args, 0) == Some(int_values(a)) && table_at(args, 1) == Some(int_values(b)));
    let cells = int_values(a);
    let put = bit_put(a, pos, bit);
    lemma_with_ints(a, put, a.len());
    let written = cells_with_bit(cells, pos, bit);
    assert(written =~= int_values(put));
    lemma_ints_back(put);
    let read = seq![ValueV::Table(written), ValueV::Int(pos)];
    assert(table_at(read, 0) == Some(written) && int_at(read, 1) == Some(pos));
    if 0 <= pos < 8 * a.len() {
        law_bit_reads_back(a, pos, bit);
    }
}

proof fn lemma_ints_first(a: Seq<i64>, n: nat)
    requires
        n <= a.len(),
    ensures
        ints_of(int_values(a), n) == a.take(n as int),
    decreases n,
{
    if n > 0 {
        lemma_ints_first(a, (n - 1) as nat);
        assert(a.take(n as int) =~= a.take(n - 1).push(a[n - 1]));
    } else {
        assert(a.take(0) =~= Seq::<i64>::empty());
    }
}

proof fn lemma_ints_back(a: Seq<i64>)
    ensures
        ints(int_values(a)) == a,
{
    lemma_ints_first(a, a.len());
    assert(a.take(a.len() as int) =~= a);
}

proof fn lemma_with_ints(a: Seq<i64>, v: Seq<i64>, n: nat)
    requires
        v.len() == a.len(),
        n <= a.len(),
    ensures
        with_ints_of(int_values(a), v, n) == int_values(v).take(n as int),
    decreases n,
{
    if n > 0 {
        lemma_with_ints(a, v, (n - 1) as nat);
        lemma_ints_first(a, (n - 1) as nat);
        assert(
            int_values(v).take(n as int) =~= int_values(v).take(n - 1).push(ValueV::Int(v[n - 1]))
        );
    } else {
        assert(int_values(v).take(0) =~= Seq::<ValueV>::empty());
    }
    if n == a.len() {
        assert(int_values(v).take(n as int) =~= int_values(v));
    }
}

/// Bytes are written to the file that is named first; what is below zero counts as zero, what is
/// above the greatest byte as that.
pub proof fn law_bytes_are_written(p: Seq<char>, a: Seq<i64>, i: int)
    requires
        !p.contains('\0'),
        0 <= i < a.len(),
    ensures
        call_bytes("byte_write"@, seq![ValueV::Str(p), ValueV::Table(int_values(a))])
            matches CallOutV::Ask(RequestV::ByteWrite { path, bytes }, after) && path == p
            && bytes.len() == a.len() && (0 <= a[i] <= 255 ==> bytes[i] == a[i]) && (a[i] < 0
            ==> bytes[i] == 0) && (a[i] > 255 ==> bytes[i] == 255) && after == AfterV::Flag,
{
    lemma_bytes_names();
    lemma_ints_back(a);
    let args = seq![ValueV::Str(p), ValueV::Table(int_values(a))];
    assert(str_at(args, 0) == Some(p) && table_at(args, 1) == Some(int_values(a)));
}

/// In calls with patterns the text stands first and the pattern second.
pub proof fn law_patterns_stand_second(s: Seq<char>, p: Seq<char>, to: Seq<char>, i: i64)
    requires
        !s.contains('\0') && !p.contains('\0') && !to.contains('\0'),
    ensures
        regex_valid(p) ==> {
            &&& call_regex("regex_match"@, seq![ValueV::Str(s), ValueV::Str(p)]) == CallOutV::Val(
                ValueV::Bool(regex_matches(p, s)),
            )
            &&& call_regex("regex_find"@, seq![ValueV::Str(s), ValueV::Str(p)]) == CallOutV::Val(
                ValueV::Str(found_text(regex_first(p, s))),
            )
            &&& call_regex("regex_find_all"@, seq![ValueV::Str(s), ValueV::Str(p)])
                == CallOutV::Val(ValueV::Table(text_cells(found_texts(regex_all(p, s)))))
            &&& call_regex(
                "regex_replace"@,
                seq![ValueV::Str(s), ValueV::Str(p), ValueV::Str(to)],
            ) == CallOutV::Val(ValueV::Str(c_str(regex_replaced(p, s, to))))
            &&& call_regex("regex_group"@, seq![ValueV::Str(s), ValueV::Str(p), ValueV::Int(i)])
                == CallOutV::Val(ValueV::Str(found_text(group_text(p, s, i))))
        },
        !regex_valid(p) ==> {
            &&& call_regex("regex_match"@, seq![ValueV::Str(s), ValueV::Str(p)]) is Fail
            &&& call_regex("regex_find"@, seq![ValueV::Str(s), ValueV::Str(p)]) is Fail
            &&& call_regex("regex_find_all"@, seq![ValueV::Str(s), ValueV::Str(p)]) is Fail
            &&& call_regex(
                "regex_replace"@,
                seq![ValueV::Str(s), ValueV::Str(p), ValueV::Str(to)],
            ) is Fail
            &&& call_regex(
                "regex_group"@,
                seq![ValueV::Str(s), ValueV::Str(p), ValueV::Int(i)],
            ) is Fail
        },
{
    lemma_regex_names();
    let two = seq![ValueV::Str(s), ValueV::Str(p)];
    let three = seq![ValueV::Str(s), ValueV::Str(p), ValueV::Str(to)];
    let group = seq![ValueV::Str(s), ValueV::Str(p), ValueV::Int(i)];
    assert(str_at(two, 0) == Some(s) && str_at(two, 1) == Some(p));
    assert(
        str_at(three, 0) == Some(s) && str_at(three, 1) == Some(p) && str_at(three, 2) == Some(to)
    );
    assert(
        str_at(group, 0) == Some(s) && str_at(group, 1) == Some(p) && int_at(group, 2) == Some(i)
    );
}

/// Paths are joined in their order.
pub proof fn law_path_calls(a: Seq<char>, b: Seq<char>, windows: bool)
    requires
        !a.contains('\0') && !b.contains('\0'),
        !joined(a, b, windows).contains('\0'),
        !basename(a, windows).contains('\0'),
        !dirname(a, windows).contains('\0'),
        !normalized(a, windows).contains('\0'),
    ensures
        call_path(windows, "path_join"@, seq![ValueV::Str(a), ValueV::Str(b)]) == CallOutV::Val(
            ValueV::Str(joined(a, b, windows)),
        ),
        call_path(windows, "path_basename"@, seq![ValueV::Str(a)]) == CallOutV::Val(
            ValueV::Str(basename(a, windows)),
        ),
        call_path(windows, "path_dirname"@, seq![ValueV::Str(a)]) == CallOutV::Val(
            ValueV::Str(dirname(a, windows)),
        ),
        call_path(windows, "path_normalize"@, seq![ValueV::Str(a)]) == CallOutV::Val(
            ValueV::Str(normalized(a, windows)),
        ),
{
    lemma_paths_names();
    let one = seq![ValueV::Str(a)];
    let two = seq![ValueV::Str(a), ValueV::Str(b)];
    assert(str_at(one, 0) == Some(a));
    assert(str_at(two, 0) == Some(a) && str_at(two, 1) == Some(b));
}

/// A text that is registered for a key and a language is found under them, in the language that
/// is set or by its name; the language that was set is the one that is told.
pub proof fn law_messages(m: MsgV, key: Seq<char>, lang: Seq<char>, text: Seq<char>)
    requires
        !key.contains('\0') && !lang.contains('\0') && !text.contains('\0'),
    ensures
        ({
            let (r, n) = call_msg(
                m,
                "msg_register"@,
                seq![ValueV::Str(key), ValueV::Str(lang), ValueV::Str(text)],
            );
            let (q, k) = call_msg(n, "msg_set_lang"@, seq![ValueV::Str(lang)]);
            &&& r == CallOutV::Val(ValueV::Void)
            &&& q == CallOutV::Val(ValueV::Void)
            &&& call_msg(n, "msg_t_lang"@, seq![ValueV::Str(key), ValueV::Str(lang)]) == (
                CallOutV::Val(ValueV::Str(text)),
                n,
            )
            &&& call_msg(k, "msg_t"@, seq![ValueV::Str(key)]) == (
                CallOutV::Val(ValueV::Str(text)),
                k,
            )
            &&& call_msg(k, "msg_get_lang"@, Seq::empty()) == (
                CallOutV::Val(ValueV::Str(lang)),
                k,
            )
        }),
{
    lemma_messages_names();
    let three = seq![ValueV::Str(key), ValueV::Str(lang), ValueV::Str(text)];
    let two = seq![ValueV::Str(key), ValueV::Str(lang)];
    assert(str_at(three, 0) == Some(key) && str_at(three, 1) == Some(lang) && str_at(three, 2)
        == Some(text));
    assert(str_at(two, 0) == Some(key) && str_at(two, 1) == Some(lang));
    assert(str_at(seq![ValueV::Str(lang)], 0) == Some(lang));
    assert(str_at(seq![ValueV::Str(key)], 0) == Some(key));
    law_registered_text_is_found(m, key, lang, text);
}

/// Whether a call of a service hands on its arguments in their order, and nothing else, and makes
/// of the answer what `after` says.
pub open spec fn serves(name: Seq<char>, op: HostOp, args: Seq<Seq<char>>, after: AfterV) -> bool {
    host_sig(name) matches Some(sig) && call_host(
        name,
        sig,
        Seq::new(args.len(), |i: int| ValueV::Str(args[i])),
    ) == CallOutV::Ask(RequestV::Host { op, args }, after)
}

/// Each service of the operating system is asked for under its name.
pub proof fn law_services(a: Seq<char>, b: Seq<char>)
    requires
        !a.contains('\0') && !b.contains('\0'),
    ensures
        serves(
            "file_read"@,
            HostOp::FileRead,
            seq![a],
            AfterV::MaybeText("运行时错误: file_read 无法读取文件 '"@ + a + "'"@),
        ),
        serves(
            "file_write"@,
            HostOp::FileWrite,
            seq![a, b],
            AfterV::Flag,
        ),
        serves(
            "file_append"@,
            HostOp::FileAppend,
            seq![a, b],
            AfterV::Flag,
        ),
        serves(
            "file_exists"@,
            HostOp::FileExists,
            seq![a],
            AfterV::Flag,
        ),
        serves(
            "file_delete"@,
            HostOp::FileDelete,
            seq![a],
            AfterV::Flag,
        ),
        serves(
            "print_err"@,
            HostOp::PrintErr,
            seq![a],
            AfterV::Done,
        ),
        serves(
            "list_dir"@,
            HostOp::ListDir,
            seq![a],
            AfterV::Names("运行时错误: list_dir 无法读取目录 '"@ + a + "'"@),
        ),
        serves(
            "http_get"@,
            HostOp::HttpGet,
            seq![a],
            AfterV::MaybeText("运行时错误: http_get 无法访问 URL '"@ + a + "'"@),
        ),
        serves(
            "http_get_file"@,
            HostOp::HttpGetFile,
            seq![a, b],
            AfterV::Flag,
        ),
        serves(
            "exec_code"@,
            HostOp::ExecCode,
            seq![a],
            AfterV::Number,
        ),
        serves(
            "exec_output"@,
            HostOp::ExecOutput,
            seq![a],
            AfterV::Text,
        ),
        serves(
            "untar_gz"@,
            HostOp::UntarGz,
            seq![a, b],
            AfterV::Flag,
        ),
        serves(
            "unzip"@,
            HostOp::Unzip,
            seq![a, b],
            AfterV::Flag,
        ),
        serves(
            "mkdir_all"@,
            HostOp::MkdirAll,
            seq![a],
            AfterV::Flag,
        ),
        serves(
            "remove_dir_all"@,
            HostOp::RemoveDirAll,
            seq![a],
            AfterV::Flag,
        ),
        serves(
            "copy_dir"@,
            HostOp::CopyDir,
            seq![a, b],
            AfterV::Flag,
        ),
        serves(
            "walk_dir"@,
            HostOp::WalkDir,
            seq![a],
            AfterV::Names("运行时错误: walk_dir 无法读取目录 '"@ + a + "'"@),
        ),
        serves(
            "byte_read"@,
            HostOp::ByteRead,
            seq![a],
            AfterV::Bytes("运行时错误: byte_read 无法读取文件 '"@ + a + "'"@),
        ),
        serves(
            "path_abs"@,
            HostOp::PathAbs,
            seq![a],
            AfterV::Text,
        ),
        serves(
            "cwd"@,
            HostOp::Cwd,
            Seq::empty(),
            AfterV::Text,
        ),
        serves(
            "get_env"@,
            HostOp::GetEnv,
            seq![a],
            AfterV::Text,
        ),
        serves(
            "set_env"@,
            HostOp::SetEnv,
            seq![a, b],
            AfterV::Done,
        ),
        serves(
            "file_copy"@,
            HostOp::FileCopy,
            seq![a, b],
            AfterV::Flag,
        ),
        serves(
            "file_move"@,
            HostOp::FileMove,
            seq![a, b],
            AfterV::Flag,
        ),
        serves(
            "time_now"@,
            HostOp::TimeNow,
            Seq::empty(),
            AfterV::Number,
        ),
        serves(
            "arg_count"@,
            HostOp::ArgCount,
            Seq::empty(),
            AfterV::Number,
        ),
{
    lemma_services_names();
    let none = Seq::<Seq<char>>::empty();
    let one = seq![a];
    let two = seq![a, b];
    assert(Seq::new(none.len(), |i: int| ValueV::Str(none[i])).len() == 0);
    let x = Seq::new(one.len(), |i: int| ValueV::Str(one[i]));
    assert(str_at(x, 0) == Some(a));
    let y = Seq::new(two.len(), |i: int| ValueV::Str(two[i]));
    assert(str_at(y, 0) == Some(a) && str_at(y, 1) == Some(b));
}

/// What an answer becomes: the value that it holds. An answer of failure becomes the complaint.
pub proof fn law_answers(
    t: String,
    b: bool,
    n: i64,
    f: Float,
    m: Seq<char>,
    bytes: Vec<u8>,
    names: Vec<String>,
    i: int,
)
    requires
        !t@.contains('\0'),
    ensures
        settled(AfterV::Done, Reply::Done) == OutcomeV::Val(ValueV::Void),
        settled(AfterV::Text, Reply::Text(t)) == OutcomeV::Val(ValueV::Str(t@)),
        settled(AfterV::MaybeText(m), Reply::MaybeText(Some(t))) == OutcomeV::Val(ValueV::Str(t@)),
        settled(AfterV::MaybeText(m), Reply::MaybeText(None)) == OutcomeV::Fail(m),
        settled(AfterV::Flag, Reply::Flag(b)) == OutcomeV::Val(ValueV::Bool(b)),
        settled(AfterV::Number, Reply::Number(n)) == OutcomeV::Val(ValueV::Int(n)),
        settled(AfterV::MaybeFloat(m), Reply::MaybeFloat(None)) == OutcomeV::Fail(m),
        settled(AfterV::MaybeFloat(m), Reply::MaybeFloat(Some(f))) == OutcomeV::Val(
            ValueV::Float(f@),
        ),
        settled(AfterV::Names(m), Reply::Names(None)) == OutcomeV::Fail(m),
        settled(AfterV::Bytes(m), Reply::Bytes(None)) == OutcomeV::Fail(m),
        settled(AfterV::Bytes(m), Reply::Bytes(Some(bytes))) matches OutcomeV::Val(
            ValueV::Table(cells),
        ) && cells.len() == bytes@.len() && (0 <= i < cells.len() ==> cells[i] == ValueV::Int(
            bytes@[i] as i64,
        )),
        settled(AfterV::Names(m), Reply::Names(Some(names))) matches OutcomeV::Val(
            ValueV::Table(cells),
        ) && cells.len() == names@.len() && (0 <= i < cells.len() && !names@[i]@.contains('\0')
            ==> cells[i] == ValueV::Str(names@[i]@)),
        settled(AfterV::Flag, Reply::Done) is Crash,
{
}

} // verus!
