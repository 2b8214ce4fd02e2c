//! What the generator leaves alone while it writes: what stands in the text, the variables
//! and loops around a statement, the first error. And that it declares what it calls and gives
//! each register, block and constant a name of its own.
use crate::ast::{FnDef, Program, Sem};
use crate::emit::{
    alloca, bind, blank, bound, bound_in, break_target, close_scope, continue_target, enter_loop,
    fail, label, leave_loop, library_call, loop_in, mark, note, open_scope, put, reg, string_const,
    BindV, GenV, LoopV,
};
use crate::irtable::{bridge, bridge_symbol};
use crate::irtext::elem_suffix;
use crate::lower::{
    block_code, declaration, declares_code, fn_body_code, fns_code, globals_code, header_code,
    module_code, slots, LIBRARY,
};
use crate::numbering;
use crate::numbering::{
    at, black_from, fresh, lemma_line_end, line_at, line_end, renumber_from, renumbered, Numbers,
};
use crate::text::{flat, lemma_nat_dec_value, nat_dec};
use vstd::prelude::*;

verus! {

// ---------- library functions ----------
/// Whether a library function has a declaration.
pub open spec fn declared(symbol: Seq<char>) -> bool {
    ||| symbol == "tie_read_line"@
    ||| symbol == "tie_eval_expr"@
    ||| symbol == "tie_eval_call"@
    ||| symbol == "tie_free_result"@
    ||| symbol == "tie_file_read"@
    ||| symbol == "tie_str_char"@
    ||| symbol == "tie_str_len"@
    ||| symbol == "tie_to_string_i64"@
    ||| symbol == "tie_to_string_f64"@
    ||| symbol == "tie_parse_int"@
    ||| symbol == "tie_parse_float"@
    ||| symbol == "tie_parse_trit"@
    ||| symbol == "tie_time_now"@
    ||| symbol == "tie_rand_range"@
    ||| symbol == "tie_arg_count"@
    ||| symbol == "tie_arg_string"@
    ||| symbol == "tie_list_dir"@
    ||| symbol == "tie_regex_match"@
    ||| symbol == "tie_regex_find"@
    ||| symbol == "tie_regex_find_all"@
    ||| symbol == "tie_regex_replace"@
    ||| symbol == "tie_regex_group"@
    ||| symbol == "tie_msg_set_lang"@
    ||| symbol == "tie_msg_get_lang"@
    ||| symbol == "tie_msg_register"@
    ||| symbol == "tie_msg_t"@
    ||| symbol == "tie_print_err"@
    ||| symbol == "tie_msg_t_lang"@
    ||| symbol == "tie_table_new"@
    ||| symbol == "tie_table_free"@
    ||| symbol == "tie_table_len"@
    ||| symbol == "tie_table_push_i64"@
    ||| symbol == "tie_table_push_f64"@
    ||| symbol == "tie_table_push_string"@
    ||| symbol == "tie_table_push_bool"@
    ||| symbol == "tie_table_at_i64"@
    ||| symbol == "tie_table_at_f64"@
    ||| symbol == "tie_table_at_string"@
    ||| symbol == "tie_table_at_bool"@
    ||| symbol == "tie_table_set_i64"@
    ||| symbol == "tie_table_set_f64"@
    ||| symbol == "tie_table_set_string"@
    ||| symbol == "tie_table_set_bool"@
    ||| symbol == "tie_http_get"@
    ||| symbol == "tie_http_get_file"@
    ||| symbol == "tie_exec_code"@
    ||| symbol == "tie_exec_output"@
    ||| symbol == "tie_untar_gz"@
    ||| symbol == "tie_unzip"@
    ||| symbol == "tie_mkdir_all"@
    ||| symbol == "tie_remove_dir_all"@
    ||| symbol == "tie_copy_dir"@
    ||| symbol == "tie_walk_dir"@
    ||| symbol == "tie_path_join"@
    ||| symbol == "tie_path_basename"@
    ||| symbol == "tie_path_dirname"@
    ||| symbol == "tie_path_abs"@
    ||| symbol == "tie_path_normalize"@
    ||| symbol == "tie_cwd"@
    ||| symbol == "tie_get_env"@
    ||| symbol == "tie_set_env"@
    ||| symbol == "tie_file_copy"@
    ||| symbol == "tie_file_move"@
    ||| symbol == "tie_byte_read"@
    ||| symbol == "tie_byte_write"@
    ||| symbol == "tie_bit_read"@
    ||| symbol == "tie_bit_write"@
    ||| symbol == "tie_byte_concat"@
}

/// Whether every function that is called is listed.
pub open spec fn calls_listed(called: Set<Seq<char>>, used: Seq<Seq<char>>) -> bool {
    forall|s: Seq<char>| #[trigger] called.contains(s) ==> used.contains(s)
}

/// Whether each library function is noted once and has a declaration.
pub open spec fn well_noted(used: Seq<Seq<char>>) -> bool {
    used.no_duplicates() && forall|i: int| 0 <= i < used.len() ==> declared(#[trigger] used[i])
}

/// The functions `tie_table_at_..` are declared.
pub broadcast proof fn declared_at(ty: Seq<char>)
    ensures
        #[trigger] declared("tie_table_at_"@ + elem_suffix(ty)),
{
    assert("tie_table_at_"@ + "i64"@ =~= "tie_table_at_i64"@) by {
        reveal_strlit("tie_table_at_");
        reveal_strlit("i64");
        reveal_strlit("tie_table_at_i64");
    }
    assert("tie_table_at_"@ + "f64"@ =~= "tie_table_at_f64"@) by {
        reveal_strlit("tie_table_at_");
        reveal_strlit("f64");
        reveal_strlit("tie_table_at_f64");
    }
    assert("tie_table_at_"@ + "string"@ =~= "tie_table_at_string"@) by {
        reveal_strlit("tie_table_at_");
        reveal_strlit("string");
        reveal_strlit("tie_table_at_string");
    }
    assert("tie_table_at_"@ + "bool"@ =~= "tie_table_at_bool"@) by {
        reveal_strlit("tie_table_at_");
        reveal_strlit("bool");
        reveal_strlit("tie_table_at_bool");
    }
}

/// The functions `tie_table_push_..` are declared.
pub broadcast proof fn declared_push(ty: Seq<char>)
    ensures
        #[trigger] declared("tie_table_push_"@ + elem_suffix(ty)),
{
    assert("tie_table_push_"@ + "i64"@ =~= "tie_table_push_i64"@) by {
        reveal_strlit("tie_table_push_");
        reveal_strlit("i64");
        reveal_strlit("tie_table_push_i64");
    }
    assert("tie_table_push_"@ + "f64"@ =~= "tie_table_push_f64"@) by {
        reveal_strlit("tie_table_push_");
        reveal_strlit("f64");
        reveal_strlit("tie_table_push_f64");
    }
    assert("tie_table_push_"@ + "string"@ =~= "tie_table_push_string"@) by {
        reveal_strlit("tie_table_push_");
        reveal_strlit("string");
        reveal_strlit("tie_table_push_string");
    }
    assert("tie_table_push_"@ + "bool"@ =~= "tie_table_push_bool"@) by {
        reveal_strlit("tie_table_push_");
        reveal_strlit("bool");
        reveal_strlit("tie_table_push_bool");
    }
}

/// The functions `tie_table_set_..` are declared.
pub broadcast proof fn declared_set(ty: Seq<char>)
    ensures
        #[trigger] declared("tie_table_set_"@ + elem_suffix(ty)),
{
    assert("tie_table_set_"@ + "i64"@ =~= "tie_table_set_i64"@) by {
        reveal_strlit("tie_table_set_");
        reveal_strlit("i64");
        reveal_strlit("tie_table_set_i64");
    }
    assert("tie_table_set_"@ + "f64"@ =~= "tie_table_set_f64"@) by {
        reveal_strlit("tie_table_set_");
        reveal_strlit("f64");
        reveal_strlit("tie_table_set_f64");
    }
    assert("tie_table_set_"@ + "string"@ =~= "tie_table_set_string"@) by {
        reveal_strlit("tie_table_set_");
        reveal_strlit("string");
        reveal_strlit("tie_table_set_string");
    }
    assert("tie_table_set_"@ + "bool"@ =~= "tie_table_set_bool"@) by {
        reveal_strlit("tie_table_set_");
        reveal_strlit("bool");
        reveal_strlit("tie_table_set_bool");
    }
}

/// The function behind each name that the language provides is declared.
#[verifier::rlimit(60)]
pub broadcast proof fn declared_bridge(name: Seq<char>)
    requires
        bridge(name) is Some,
    ensures
        #[trigger] declared(bridge_symbol(name)),
{
    if name == "read_line"@ {
        assert("tie_"@ + "read_line"@ =~= "tie_read_line"@) by {
            reveal_strlit("tie_");
            reveal_strlit("read_line");
            reveal_strlit("tie_read_line");
        }
        assert(declared("tie_read_line"@));
    } else if name == "cwd"@ {
        assert("tie_"@ + "cwd"@ =~= "tie_cwd"@) by {
            reveal_strlit("tie_");
            reveal_strlit("cwd");
            reveal_strlit("tie_cwd");
        }
        assert(declared("tie_cwd"@));
    } else if name == "msg_get_lang"@ {
        assert("tie_"@ + "msg_get_lang"@ =~= "tie_msg_get_lang"@) by {
            reveal_strlit("tie_");
            reveal_strlit("msg_get_lang");
            reveal_strlit("tie_msg_get_lang");
        }
        assert(declared("tie_msg_get_lang"@));
    } else if name == "time_now"@ {
        assert("tie_"@ + "time_now"@ =~= "tie_time_now"@) by {
            reveal_strlit("tie_");
            reveal_strlit("time_now");
            reveal_strlit("tie_time_now");
        }
        assert(declared("tie_time_now"@));
    } else if name == "arg_count"@ {
        assert("tie_"@ + "arg_count"@ =~= "tie_arg_count"@) by {
            reveal_strlit("tie_");
            reveal_strlit("arg_count");
            reveal_strlit("tie_arg_count");
        }
        assert(declared("tie_arg_count"@));
    } else if name == "str_len"@ {
        assert("tie_"@ + "str_len"@ =~= "tie_str_len"@) by {
            reveal_strlit("tie_");
            reveal_strlit("str_len");
            reveal_strlit("tie_str_len");
        }
        assert(declared("tie_str_len"@));
    } else if name == "exec_code"@ {
        assert("tie_"@ + "exec_code"@ =~= "tie_exec_code"@) by {
            reveal_strlit("tie_");
            reveal_strlit("exec_code");
            reveal_strlit("tie_exec_code");
        }
        assert(declared("tie_exec_code"@));
    } else if name == "exec_output"@ {
        assert("tie_"@ + "exec_output"@ =~= "tie_exec_output"@) by {
            reveal_strlit("tie_");
            reveal_strlit("exec_output");
            reveal_strlit("tie_exec_output");
        }
        assert(declared("tie_exec_output"@));
    } else if name == "path_basename"@ {
        assert("tie_"@ + "path_basename"@ =~= "tie_path_basename"@) by {
            reveal_strlit("tie_");
            reveal_strlit("path_basename");
            reveal_strlit("tie_path_basename");
        }
        assert(declared("tie_path_basename"@));
    } else if name == "path_dirname"@ {
        assert("tie_"@ + "path_dirname"@ =~= "tie_path_dirname"@) by {
            reveal_strlit("tie_");
            reveal_strlit("path_dirname");
            reveal_strlit("tie_path_dirname");
        }
        assert(declared("tie_path_dirname"@));
    } else if name == "path_abs"@ {
        assert("tie_"@ + "path_abs"@ =~= "tie_path_abs"@) by {
            reveal_strlit("tie_");
            reveal_strlit("path_abs");
            reveal_strlit("tie_path_abs");
        }
        assert(declared("tie_path_abs"@));
    } else if name == "path_normalize"@ {
        assert("tie_"@ + "path_normalize"@ =~= "tie_path_normalize"@) by {
            reveal_strlit("tie_");
            reveal_strlit("path_normalize");
            reveal_strlit("tie_path_normalize");
        }
        assert(declared("tie_path_normalize"@));
    } else if name == "get_env"@ {
        assert("tie_"@ + "get_env"@ =~= "tie_get_env"@) by {
            reveal_strlit("tie_");
            reveal_strlit("get_env");
            reveal_strlit("tie_get_env");
        }
        assert(declared("tie_get_env"@));
    } else if name == "msg_t"@ {
        assert("tie_"@ + "msg_t"@ =~= "tie_msg_t"@) by {
            reveal_strlit("tie_");
            reveal_strlit("msg_t");
            reveal_strlit("tie_msg_t");
        }
        assert(declared("tie_msg_t"@));
    } else if name == "arg_string"@ {
        assert("tie_"@ + "arg_string"@ =~= "tie_arg_string"@) by {
            reveal_strlit("tie_");
            reveal_strlit("arg_string");
            reveal_strlit("tie_arg_string");
        }
        assert(declared("tie_arg_string"@));
    } else if name == "eval_call"@ {
        assert("tie_"@ + "eval_call"@ =~= "tie_eval_call"@) by {
            reveal_strlit("tie_");
            reveal_strlit("eval_call");
            reveal_strlit("tie_eval_call");
        }
        assert(declared("tie_eval_call"@));
    } else if name == "path_join"@ {
        assert("tie_"@ + "path_join"@ =~= "tie_path_join"@) by {
            reveal_strlit("tie_");
            reveal_strlit("path_join");
            reveal_strlit("tie_path_join");
        }
        assert(declared("tie_path_join"@));
    } else if name == "msg_t_lang"@ {
        assert("tie_"@ + "msg_t_lang"@ =~= "tie_msg_t_lang"@) by {
            reveal_strlit("tie_");
            reveal_strlit("msg_t_lang");
            reveal_strlit("tie_msg_t_lang");
        }
        assert(declared("tie_msg_t_lang"@));
    } else if name == "byte_concat"@ {
        assert("tie_"@ + "byte_concat"@ =~= "tie_byte_concat"@) by {
            reveal_strlit("tie_");
            reveal_strlit("byte_concat");
            reveal_strlit("tie_byte_concat");
        }
        assert(declared("tie_byte_concat"@));
    } else if name == "str_char"@ {
        assert("tie_"@ + "str_char"@ =~= "tie_str_char"@) by {
            reveal_strlit("tie_");
            reveal_strlit("str_char");
            reveal_strlit("tie_str_char");
        }
        assert(declared("tie_str_char"@));
    } else if name == "bit_read"@ {
        assert("tie_"@ + "bit_read"@ =~= "tie_bit_read"@) by {
            reveal_strlit("tie_");
            reveal_strlit("bit_read");
            reveal_strlit("tie_bit_read");
        }
        assert(declared("tie_bit_read"@));
    } else if name == "mkdir_all"@ {
        assert("tie_"@ + "mkdir_all"@ =~= "tie_mkdir_all"@) by {
            reveal_strlit("tie_");
            reveal_strlit("mkdir_all");
            reveal_strlit("tie_mkdir_all");
        }
        assert(declared("tie_mkdir_all"@));
    } else if name == "remove_dir_all"@ {
        assert("tie_"@ + "remove_dir_all"@ =~= "tie_remove_dir_all"@) by {
            reveal_strlit("tie_");
            reveal_strlit("remove_dir_all");
            reveal_strlit("tie_remove_dir_all");
        }
        assert(declared("tie_remove_dir_all"@));
    } else if name == "http_get_file"@ {
        assert("tie_"@ + "http_get_file"@ =~= "tie_http_get_file"@) by {
            reveal_strlit("tie_");
            reveal_strlit("http_get_file");
            reveal_strlit("tie_http_get_file");
        }
        assert(declared("tie_http_get_file"@));
    } else if name == "untar_gz"@ {
        assert("tie_"@ + "untar_gz"@ =~= "tie_untar_gz"@) by {
            reveal_strlit("tie_");
            reveal_strlit("untar_gz");
            reveal_strlit("tie_untar_gz");
        }
        assert(declared("tie_untar_gz"@));
    } else if name == "unzip"@ {
        assert("tie_"@ + "unzip"@ =~= "tie_unzip"@) by {
            reveal_strlit("tie_");
            reveal_strlit("unzip");
            reveal_strlit("tie_unzip");
        }
        assert(declared("tie_unzip"@));
    } else if name == "copy_dir"@ {
        assert("tie_"@ + "copy_dir"@ =~= "tie_copy_dir"@) by {
            reveal_strlit("tie_");
            reveal_strlit("copy_dir");
            reveal_strlit("tie_copy_dir");
        }
        assert(declared("tie_copy_dir"@));
    } else if name == "byte_write"@ {
        assert("tie_"@ + "byte_write"@ =~= "tie_byte_write"@) by {
            reveal_strlit("tie_");
            reveal_strlit("byte_write");
            reveal_strlit("tie_byte_write");
        }
        assert(declared("tie_byte_write"@));
    } else if name == "file_copy"@ {
        assert("tie_"@ + "file_copy"@ =~= "tie_file_copy"@) by {
            reveal_strlit("tie_");
            reveal_strlit("file_copy");
            reveal_strlit("tie_file_copy");
        }
        assert(declared("tie_file_copy"@));
    } else if name == "file_move"@ {
        assert("tie_"@ + "file_move"@ =~= "tie_file_move"@) by {
            reveal_strlit("tie_");
            reveal_strlit("file_move");
            reveal_strlit("tie_file_move");
        }
        assert(declared("tie_file_move"@));
    } else if name == "bit_write"@ {
        assert("tie_"@ + "bit_write"@ =~= "tie_bit_write"@) by {
            reveal_strlit("tie_");
            reveal_strlit("bit_write");
            reveal_strlit("tie_bit_write");
        }
        assert(declared("tie_bit_write"@));
    } else if name == "msg_set_lang"@ {
        assert("tie_"@ + "msg_set_lang"@ =~= "tie_msg_set_lang"@) by {
            reveal_strlit("tie_");
            reveal_strlit("msg_set_lang");
            reveal_strlit("tie_msg_set_lang");
        }
        assert(declared("tie_msg_set_lang"@));
    } else if name == "print_err"@ {
        assert("tie_"@ + "print_err"@ =~= "tie_print_err"@) by {
            reveal_strlit("tie_");
            reveal_strlit("print_err");
            reveal_strlit("tie_print_err");
        }
        assert(declared("tie_print_err"@));
    } else if name == "set_env"@ {
        assert("tie_"@ + "set_env"@ =~= "tie_set_env"@) by {
            reveal_strlit("tie_");
            reveal_strlit("set_env");
            reveal_strlit("tie_set_env");
        }
        assert(declared("tie_set_env"@));
    } else if name == "msg_register"@ {
        assert("tie_"@ + "msg_register"@ =~= "tie_msg_register"@) by {
            reveal_strlit("tie_");
            reveal_strlit("msg_register");
            reveal_strlit("tie_msg_register");
        }
        assert(declared("tie_msg_register"@));
    } else if name == "file_read"@ {
        assert("tie_"@ + "file_read"@ =~= "tie_file_read"@) by {
            reveal_strlit("tie_");
            reveal_strlit("file_read");
            reveal_strlit("tie_file_read");
        }
        assert(declared("tie_file_read"@));
    } else if name == "http_get"@ {
        assert("tie_"@ + "http_get"@ =~= "tie_http_get"@) by {
            reveal_strlit("tie_");
            reveal_strlit("http_get");
            reveal_strlit("tie_http_get");
        }
        assert(declared("tie_http_get"@));
    } else if name == "list_dir"@ {
        assert("tie_"@ + "list_dir"@ =~= "tie_list_dir"@) by {
            reveal_strlit("tie_");
            reveal_strlit("list_dir");
            reveal_strlit("tie_list_dir");
        }
        assert(declared("tie_list_dir"@));
    } else if name == "walk_dir"@ {
        assert("tie_"@ + "walk_dir"@ =~= "tie_walk_dir"@) by {
            reveal_strlit("tie_");
            reveal_strlit("walk_dir");
            reveal_strlit("tie_walk_dir");
        }
        assert(declared("tie_walk_dir"@));
    } else if name == "byte_read"@ {
        assert("tie_"@ + "byte_read"@ =~= "tie_byte_read"@) by {
            reveal_strlit("tie_");
            reveal_strlit("byte_read");
            reveal_strlit("tie_byte_read");
        }
        assert(declared("tie_byte_read"@));
    } else if name == "parse_int"@ {
        assert("tie_"@ + "parse_int"@ =~= "tie_parse_int"@) by {
            reveal_strlit("tie_");
            reveal_strlit("parse_int");
            reveal_strlit("tie_parse_int");
        }
        assert(declared("tie_parse_int"@));
    } else if name == "parse_float"@ {
        assert("tie_"@ + "parse_float"@ =~= "tie_parse_float"@) by {
            reveal_strlit("tie_");
            reveal_strlit("parse_float");
            reveal_strlit("tie_parse_float");
        }
        assert(declared("tie_parse_float"@));
    } else if name == "parse_trit"@ {
        assert("tie_"@ + "parse_trit"@ =~= "tie_parse_trit"@) by {
            reveal_strlit("tie_");
            reveal_strlit("parse_trit");
            reveal_strlit("tie_parse_trit");
        }
        assert(declared("tie_parse_trit"@));
    } else if name == "regex_match"@ {
        assert("tie_"@ + "regex_match"@ =~= "tie_regex_match"@) by {
            reveal_strlit("tie_");
            reveal_strlit("regex_match");
            reveal_strlit("tie_regex_match");
        }
        assert(declared("tie_regex_match"@));
    } else if name == "regex_find"@ {
        assert("tie_"@ + "regex_find"@ =~= "tie_regex_find"@) by {
            reveal_strlit("tie_");
            reveal_strlit("regex_find");
            reveal_strlit("tie_regex_find");
        }
        assert(declared("tie_regex_find"@));
    } else if name == "regex_find_all"@ {
        assert("tie_"@ + "regex_find_all"@ =~= "tie_regex_find_all"@) by {
            reveal_strlit("tie_");
            reveal_strlit("regex_find_all");
            reveal_strlit("tie_regex_find_all");
        }
        assert(declared("tie_regex_find_all"@));
    } else if name == "regex_replace"@ {
        assert("tie_"@ + "regex_replace"@ =~= "tie_regex_replace"@) by {
            reveal_strlit("tie_");
            reveal_strlit("regex_replace");
            reveal_strlit("tie_regex_replace");
        }
        assert(declared("tie_regex_replace"@));
    } else if name == "regex_group"@ {
        assert("tie_"@ + "regex_group"@ =~= "tie_regex_group"@) by {
            reveal_strlit("tie_");
            reveal_strlit("regex_group");
            reveal_strlit("tie_regex_group");
        }
        assert(declared("tie_regex_group"@));
    } else {
        assert(bridge(name) is Some ==> name == "eval"@);
    }
}

// ---------- what stays ----------
/// Whether `b` begins with `a`.
pub open spec fn begins<A>(b: Seq<A>, a: Seq<A>) -> bool {
    a.len() <= b.len() && forall|i: int| 0 <= i < a.len() ==> #[trigger] b[i] == a[i]
}

/// Whether a text ends with the end of a line, or is empty.
pub open spec fn whole_lines(s: Seq<char>) -> bool {
    s.len() == 0 || s.last() == '\n'
}

/// Whether `name` is that of one of the first `n` constants.
pub open spec fn names_const(name: Seq<char>, n: nat) -> bool {
    exists|k: nat| 1 <= k <= n && name == ".str."@ + #[trigger] nat_dec(k)
}

/// Whether the first `n` constants have names that differ.
pub open spec fn named_apart(consts: Map<Seq<char>, Seq<char>>, n: u32) -> bool {
    &&& forall|s: Seq<char>| #[trigger]
        consts.dom().contains(s) ==> names_const(consts[s], n as nat)
    &&& forall|s: Seq<char>, t: Seq<char>|
        #![trigger consts.dom().contains(s), consts.dom().contains(t)]
        consts.dom().contains(s) && consts.dom().contains(t) && s != t ==> consts[s] != consts[t]
}

proof fn lemma_apart_string(g: GenV, s: Seq<char>)
    requires
        named_apart(g.consts, g.str_count),
        g.str_count < u32::MAX,
    ensures
        named_apart(string_const(g, s).0.consts, string_const(g, s).0.str_count),
{
    reveal(string_const);
    if !g.consts.dom().contains(s) {
        let n = (g.str_count + 1) as nat;
        let name = ".str."@ + nat_dec(n);
        let h = string_const(g, s).0;
        assert(h.consts[s] == name);
        assert(names_const(name, n));
        assert forall|t: Seq<char>| #[trigger] h.consts.dom().contains(t) implies names_const(
            h.consts[t],
            n,
        ) by {
            if t != s {
                assert(g.consts.dom().contains(t));
                let k = choose|k: nat|
                    1 <= k <= g.str_count && g.consts[t] == ".str."@ + #[trigger] nat_dec(k);
                assert(h.consts[t] == ".str."@ + nat_dec(k));
            }
        }
        assert forall|t: Seq<char>| #[trigger] g.consts.dom().contains(t) implies g.consts[t]
            != name by {
            let k = choose|k: nat|
                1 <= k <= g.str_count && g.consts[t] == ".str."@ + #[trigger] nat_dec(k);
            if g.consts[t] == name {
                lemma_nat_dec_value(n);
                lemma_nat_dec_value(k);
                assert(name.skip(".str."@.len() as int) =~= nat_dec(n));
                assert(g.consts[t].skip(".str."@.len() as int) =~= nat_dec(k));
            }
        }
        assert forall|t: Seq<char>, u: Seq<char>|
            #![trigger h.consts.dom().contains(t), h.consts.dom().contains(u)]
            h.consts.dom().contains(t) && h.consts.dom().contains(u) && t != u implies h.consts[t]
            != h.consts[u] by {
            assert(t != s ==> g.consts.dom().contains(t));
            assert(u != s ==> g.consts.dom().contains(u));
        }
    }
}

/// Whether `b` can come from `a` by writing on: the text, the constants and the library
/// functions noted so far stay, and so does an error. The numbers of the constants grow, while
/// there are numbers left.
#[verifier::opaque]
pub open spec fn advanced(a: GenV, b: GenV) -> bool {
    &&& begins(b.out, a.out)
    &&& begins(b.globals, a.globals)
    &&& begins(b.used, a.used)
    &&& well_noted(a.used) ==> well_noted(b.used)
    &&& calls_listed(a.called, a.used) ==> calls_listed(b.called, b.used)
    &&& a.error is Some ==> b.error == a.error
    &&& whole_lines(a.globals) ==> whole_lines(b.globals)
    &&& a.str_count + (b.globals.len() - a.globals.len()) <= u32::MAX ==> a.str_count
        <= b.str_count <= a.str_count + (b.globals.len() - a.globals.len()) && (named_apart(
        a.consts,
        a.str_count,
    ) ==> named_apart(b.consts, b.str_count))
    &&& forall|s: Seq<char>| #[trigger]
        a.consts.dom().contains(s) ==> b.consts.dom().contains(s) && b.consts[s] == a.consts[s]
}

/// Whether `b` comes from `a` within one function and leaves what is around it alone: the
/// function, the loops, the reserved slots, and the scopes but for the innermost; with
/// `whole`, that one too. The numbers of registers and labels grow, while there are numbers
/// left.
#[verifier::opaque]
pub open spec fn kept(a: GenV, b: GenV, whole: bool) -> bool {
    &&& advanced(a, b)
    &&& b.cur_fn == a.cur_fn
    &&& b.free == a.free
    &&& b.bodies == a.bodies
    &&& b.loops == a.loops
    &&& begins(b.allocas, a.allocas)
    &&& a.taken <= b.taken
    &&& a.reg + (b.taken - a.taken) <= u32::MAX ==> b.reg == a.reg + (b.taken - a.taken)
    &&& b.scopes.len() == a.scopes.len()
    &&& forall|i: int|
        0 <= i < (if whole {
            a.scopes.len() as int
        } else {
            a.scopes.len() - 1
        }) ==> #[trigger] b.scopes[i] == a.scopes[i]
}

pub broadcast proof fn kept_by_nothing(a: GenV, whole: bool)
    ensures
        #[trigger] kept(a, a, whole),
{
    reveal(kept);
    reveal(advanced);
}

/// What is written within a function leaves the places of bodies alone.
pub proof fn lemma_kept_places(a: GenV, b: GenV, whole: bool)
    requires
        kept(a, b, whole),
    ensures
        b.free == a.free,
        b.bodies == a.bodies,
{
    reveal(kept);
}

pub broadcast proof fn kept_by_both(a: GenV, p: GenV, m: GenV, x: bool, y: bool)
    requires
        #[trigger] kept(p, m, x),
        kept(a, p, y),
        y ==> x,
    ensures
        #[trigger] kept(a, m, y),
{
    reveal(kept);
    reveal(advanced);
}

pub broadcast proof fn kept_by_fail(a: GenV, g: GenV, m: Seq<char>, whole: bool)
    requires
        kept(a, g, whole),
    ensures
        #[trigger] kept(a, fail(g, m), whole),
{
    reveal(kept);
    reveal(advanced);
    reveal(fail);
}

pub broadcast proof fn kept_by_note(a: GenV, g: GenV, name: Seq<char>, whole: bool)
    requires
        kept(a, g, whole),
    ensures
        #[trigger] kept(a, note(g, name), whole),
{
    reveal(kept);
    reveal(advanced);
    reveal(note);
}

pub broadcast proof fn advanced_by_note(a: GenV, g: GenV, name: Seq<char>)
    requires
        advanced(a, g),
    ensures
        #[trigger] advanced(a, note(g, name)),
{
    reveal(advanced);
    reveal(note);
}

pub broadcast proof fn kept_by_reg(a: GenV, g: GenV, whole: bool)
    requires
        kept(a, g, whole),
    ensures
        #[trigger] kept(a, reg(g).0, whole),
{
    reveal(kept);
    reveal(advanced);
    reveal(reg);
}

pub broadcast proof fn kept_by_label(a: GenV, g: GenV, prefix: Seq<char>, whole: bool)
    requires
        kept(a, g, whole),
    ensures
        #[trigger] kept(a, label(g, prefix).0, whole),
{
    reveal(kept);
    reveal(advanced);
    reveal(label);
}

pub broadcast proof fn kept_by_put(a: GenV, g: GenV, text: Seq<char>, whole: bool)
    requires
        kept(a, g, whole),
    ensures
        #[trigger] kept(a, put(g, text), whole),
{
    reveal(kept);
    reveal(advanced);
    reveal(put);
}

pub broadcast proof fn kept_by_alloca(a: GenV, g: GenV, ty: Seq<char>, whole: bool)
    requires
        kept(a, g, whole),
    ensures
        #[trigger] kept(a, alloca(g, ty).0, whole),
{
    reveal(kept);
    reveal(advanced);
    reveal(alloca);
    reveal(reg);
}

pub broadcast proof fn kept_by_string(a: GenV, g: GenV, s: Seq<char>, whole: bool)
    requires
        kept(a, g, whole),
    ensures
        #[trigger] kept(a, string_const(g, s).0, whole),
{
    reveal(kept);
    reveal(advanced);
    reveal(string_const);
    reveal_strlit("@");
    reveal_strlit("\"\n");
    if named_apart(g.consts, g.str_count) && g.str_count < u32::MAX {
        lemma_apart_string(g, s);
    }
}

pub broadcast proof fn kept_by_mark(a: GenV, g: GenV, symbol: Seq<char>, whole: bool)
    requires
        kept(a, g, whole),
        declared(symbol),
    ensures
        #[trigger] kept(a, mark(g, symbol), whole),
{
    reveal(kept);
    reveal(advanced);
    lemma_mark(g, symbol);
    reveal(mark);
}

pub broadcast proof fn kept_by_library_call(
    a: GenV,
    g: GenV,
    head: Seq<char>,
    symbol: Seq<char>,
    args: Seq<char>,
    whole: bool,
)
    requires
        kept(a, g, whole),
        declared(symbol),
    ensures
        #[trigger] kept(a, library_call(g, head, symbol, args), whole),
{
    reveal(library_call);
    reveal(put);
    kept_by_mark(a, g, symbol, whole);
    let m = mark(g, symbol);
    lemma_mark(g, symbol);
    assert(kept(a, GenV { called: m.called.insert(symbol), ..m }, whole)) by {
        reveal(kept);
        reveal(advanced);
    }
    kept_by_put(
        a,
        GenV { called: m.called.insert(symbol), ..m },
        head + " @"@ + symbol + "("@ + args + ")"@,
        whole,
    );
    kept_by_put(
        a,
        put(
            GenV { called: m.called.insert(symbol), ..m },
            head + " @"@ + symbol + "("@ + args + ")"@,
        ),
        "\n"@,
        whole,
    );
}

/// A listed function stays listed, and the one that is listed now is.
proof fn lemma_mark(g: GenV, symbol: Seq<char>)
    ensures
        mark(g, symbol).used.contains(symbol),
        mark(g, symbol).called == g.called,
        calls_listed(g.called, g.used) ==> calls_listed(g.called, mark(g, symbol).used),
{
    reveal(mark);
    let m = mark(g, symbol);
    if !g.used.contains(symbol) {
        assert(m.used[g.used.len() as int] == symbol);
        assert forall|s: Seq<char>| g.used.contains(s) implies m.used.contains(s) by {
            let k = choose|k: int| 0 <= k < g.used.len() && g.used[k] == s;
            assert(m.used[k] == s);
        }
    }
}

pub broadcast proof fn kept_by_bind(
    a: GenV,
    g: GenV,
    name: Seq<char>,
    value: Seq<char>,
    ty: Seq<char>,
)
    requires
        kept(a, g, false),
    ensures
        #[trigger] kept(a, bind(g, name, value, ty), false),
{
    reveal(kept);
    reveal(advanced);
    reveal(bind);
}

/// What happens in a scope is gone with it.
pub broadcast proof fn kept_by_scope(a: GenV, g: GenV)
    requires
        kept(a, g, false),
    ensures
        #[trigger] kept(close_scope(a), close_scope(g), true),
{
    reveal(kept);
    reveal(advanced);
    reveal(close_scope);
}

pub broadcast proof fn close_undoes_open(g: GenV)
    ensures
        #[trigger] close_scope(open_scope(g)) == g,
{
    reveal(close_scope);
    reveal(open_scope);
    assert(g.scopes.push(Map::empty()).drop_last() =~= g.scopes);
}

pub broadcast proof fn close_undoes_bind(
    g: GenV,
    name: Seq<char>,
    value: Seq<char>,
    ty: Seq<char>,
)
    ensures
        #[trigger] close_scope(bind(g, name, value, ty)) == close_scope(g),
{
    reveal(close_scope);
    reveal(bind);
    assert(close_scope(bind(g, name, value, ty)).scopes =~= close_scope(g).scopes);
}

/// Leaving a loop is leaving it in both states.
pub broadcast proof fn kept_by_leave(a: GenV, g: GenV)
    requires
        kept(a, g, true),
    ensures
        #[trigger] kept(leave_loop(a), leave_loop(g), true),
{
    reveal(kept);
    reveal(advanced);
    reveal(leave_loop);
}

/// What happens in a loop leaves what is around it alone.
pub broadcast proof fn kept_by_loop(
    a: GenV,
    g: GenV,
    tag: Option<Seq<char>>,
    next: Seq<char>,
    exit: Seq<char>,
    m: GenV,
    whole: bool,
)
    requires
        kept(a, g, whole),
        kept(enter_loop(g, tag, next, exit), m, true),
    ensures
        #![trigger kept(a, leave_loop(m), whole), enter_loop(g, tag, next, exit)]
        kept(a, leave_loop(m), whole),
{
    reveal(kept);
    reveal(advanced);
    reveal(enter_loop);
    reveal(leave_loop);
    let inside = enter_loop(g, tag, next, exit);
    assert(inside.loops.drop_last() =~= g.loops);
    assert(leave_loop(m).loops == g.loops);
    assert(advanced(g, inside));
    assert(advanced(inside, m));
    assert(advanced(m, leave_loop(m)));
    assert(advanced(g, m));
}

pub broadcast proof fn advanced_by_nothing(a: GenV)
    ensures
        #[trigger] advanced(a, a),
{
    reveal(advanced);
}

pub broadcast proof fn advanced_by_both(a: GenV, p: GenV, m: GenV)
    requires
        #[trigger] advanced(p, m),
        advanced(a, p),
    ensures
        #[trigger] advanced(a, m),
{
    reveal(advanced);
}

pub broadcast proof fn advanced_by_kept(a: GenV, p: GenV, m: GenV, x: bool)
    requires
        #[trigger] kept(p, m, x),
        advanced(a, p),
    ensures
        #[trigger] advanced(a, m),
{
    reveal(kept);
    reveal(advanced);
}

pub broadcast proof fn advanced_by_put(a: GenV, g: GenV, text: Seq<char>)
    requires
        advanced(a, g),
    ensures
        #[trigger] advanced(a, put(g, text)),
{
    reveal(advanced);
    reveal(put);
}

pub broadcast proof fn advanced_by_open(a: GenV, g: GenV)
    requires
        advanced(a, g),
    ensures
        #[trigger] advanced(a, open_scope(g)),
{
    reveal(advanced);
    reveal(open_scope);
}

pub broadcast proof fn advanced_by_close(a: GenV, g: GenV)
    requires
        advanced(a, g),
    ensures
        #[trigger] advanced(a, close_scope(g)),
{
    reveal(advanced);
    reveal(close_scope);
}

/// A function's body is written apart, and put behind its slots.
pub proof fn advanced_by_body(
    g: GenV,
    inner: GenV,
    slots: Seq<char>,
    free: bool,
    bodies: Seq<(int, int)>,
)
    requires
        kept(GenV { out: Seq::empty(), free: false, ..g }, inner, false),
    ensures
        advanced(g, GenV { out: g.out + slots + inner.out, allocas: Seq::empty(), free, bodies, ..inner }),
        inner.bodies == g.bodies,
        !inner.free,
        begins(inner.used, g.used),
{
    reveal(kept);
    reveal(advanced);
    let apart = GenV { out: Seq::<char>::empty(), free: false, ..g };
    let all = GenV { out: g.out + slots + inner.out, allocas: Seq::empty(), free, bodies, ..inner };
    assert(advanced(apart, inner));
    assert forall|s: Seq<char>| #[trigger] g.consts.dom().contains(s) implies all.consts.dom().contains(
        s,
    ) && all.consts[s] == g.consts[s] by {
        assert(apart.consts.dom().contains(s));
    }
}

pub broadcast group group_kept {
    declared_at,
    declared_push,
    declared_set,
    declared_bridge,
    kept_by_nothing,
    kept_by_both,
    kept_by_fail,
    kept_by_note,
    advanced_by_note,
    kept_by_reg,
    kept_by_label,
    kept_by_put,
    kept_by_alloca,
    kept_by_string,
    kept_by_mark,
    kept_by_library_call,
    kept_by_bind,
    kept_by_scope,
    close_undoes_open,
    close_undoes_bind,
    kept_by_leave,
    kept_by_loop,
    advanced_by_nothing,
    advanced_by_both,
    advanced_by_kept,
    advanced_by_put,
    advanced_by_open,
    advanced_by_close,
}

// ---------- declarations in the text ----------
/// The row of a library function among the declarations.
pub open spec fn row(symbol: Seq<char>) -> int {
    if symbol == "tie_read_line"@ {
        0
    } else if symbol == "tie_eval_expr"@ {
        1
    } else if symbol == "tie_eval_call"@ {
        2
    } else if symbol == "tie_free_result"@ {
        3
    } else if symbol == "tie_file_read"@ {
        4
    } else if symbol == "tie_str_char"@ {
        5
    } else if symbol == "tie_str_len"@ {
        6
    } else if symbol == "tie_to_string_i64"@ {
        7
    } else if symbol == "tie_to_string_f64"@ {
        8
    } else if symbol == "tie_parse_int"@ {
        9
    } else if symbol == "tie_parse_float"@ {
        10
    } else if symbol == "tie_parse_trit"@ {
        11
    } else if symbol == "tie_time_now"@ {
        12
    } else if symbol == "tie_rand_range"@ {
        13
    } else if symbol == "tie_arg_count"@ {
        14
    } else if symbol == "tie_arg_string"@ {
        15
    } else if symbol == "tie_list_dir"@ {
        16
    } else if symbol == "tie_regex_match"@ {
        17
    } else if symbol == "tie_regex_find"@ {
        18
    } else if symbol == "tie_regex_find_all"@ {
        19
    } else if symbol == "tie_regex_replace"@ {
        20
    } else if symbol == "tie_regex_group"@ {
        21
    } else if symbol == "tie_msg_set_lang"@ {
        22
    } else if symbol == "tie_msg_get_lang"@ {
        23
    } else if symbol == "tie_msg_register"@ {
        24
    } else if symbol == "tie_msg_t"@ {
        25
    } else if symbol == "tie_print_err"@ {
        26
    } else if symbol == "tie_msg_t_lang"@ {
        27
    } else if symbol == "tie_table_new"@ {
        28
    } else if symbol == "tie_table_free"@ {
        29
    } else if symbol == "tie_table_len"@ {
        30
    } else if symbol == "tie_table_push_i64"@ {
        31
    } else if symbol == "tie_table_push_f64"@ {
        32
    } else if symbol == "tie_table_push_string"@ {
        33
    } else if symbol == "tie_table_push_bool"@ {
        34
    } else if symbol == "tie_table_at_i64"@ {
        35
    } else if symbol == "tie_table_at_f64"@ {
        36
    } else if symbol == "tie_table_at_string"@ {
        37
    } else if symbol == "tie_table_at_bool"@ {
        38
    } else if symbol == "tie_table_set_i64"@ {
        39
    } else if symbol == "tie_table_set_f64"@ {
        40
    } else if symbol == "tie_table_set_string"@ {
        41
    } else if symbol == "tie_table_set_bool"@ {
        42
    } else if symbol == "tie_http_get"@ {
        43
    } else if symbol == "tie_http_get_file"@ {
        44
    } else if symbol == "tie_exec_code"@ {
        45
    } else if symbol == "tie_exec_output"@ {
        46
    } else if symbol == "tie_untar_gz"@ {
        47
    } else if symbol == "tie_unzip"@ {
        48
    } else if symbol == "tie_mkdir_all"@ {
        49
    } else if symbol == "tie_remove_dir_all"@ {
        50
    } else if symbol == "tie_copy_dir"@ {
        51
    } else if symbol == "tie_walk_dir"@ {
        52
    } else if symbol == "tie_path_join"@ {
        53
    } else if symbol == "tie_path_basename"@ {
        54
    } else if symbol == "tie_path_dirname"@ {
        55
    } else if symbol == "tie_path_abs"@ {
        56
    } else if symbol == "tie_path_normalize"@ {
        57
    } else if symbol == "tie_cwd"@ {
        58
    } else if symbol == "tie_get_env"@ {
        59
    } else if symbol == "tie_set_env"@ {
        60
    } else if symbol == "tie_file_copy"@ {
        61
    } else if symbol == "tie_file_move"@ {
        62
    } else if symbol == "tie_byte_read"@ {
        63
    } else if symbol == "tie_byte_write"@ {
        64
    } else if symbol == "tie_bit_read"@ {
        65
    } else if symbol == "tie_bit_write"@ {
        66
    } else if symbol == "tie_byte_concat"@ {
        67
    } else {
        -1
    }
}

pub proof fn lemma_row(symbol: Seq<char>)
    requires
        declared(symbol),
    ensures
        0 <= row(symbol) < LIBRARY,
        declaration(row(symbol)).0 == symbol,
{
}

/// The declarations among the first `n` that the code needs.
pub open spec fn needed(used: Seq<Seq<char>>, n: nat) -> Seq<Seq<char>>
    decreases n,
{
    if n == 0 {
        Seq::empty()
    } else if used.contains(declaration(n - 1).0) {
        needed(used, (n - 1) as nat).push(declaration(n - 1).1)
    } else {
        needed(used, (n - 1) as nat)
    }
}

/// The declarations of a module are those that the code needs, one after the other.
pub proof fn lemma_declares(g: GenV, n: nat)
    ensures
        declares_code(g, n).used == g.used,
        declares_code(g, n).globals == g.globals,
        declares_code(g, n).out == g.out + flat(needed(g.used, n)),
    decreases n,
{
    reveal(put);
    if n > 0 {
        lemma_declares(g, (n - 1) as nat);
        let before = needed(g.used, (n - 1) as nat);
        let text = declaration(n - 1).1;
        assert(before.push(text).drop_last() =~= before);
        assert(g.out + flat(before) + text =~= g.out + flat(before.push(text)));
    } else {
        assert(g.out + flat(Seq::empty()) =~= g.out);
    }
}

/// What tells a declaration from the others of its length.
spec fn mark_in(text: Seq<char>) -> int {
    let n = text.len();
    if n == 28 || n == 29 || n == 30 || n == 33 || n == 34 || n == 42 || n == 48 {
        text[8] as int
    } else if n == 45 {
        text[9] as int
    } else if n == 35 {
        text[16] as int
    } else if n == 31 || n == 38 || n == 39 {
        text[17] as int
    } else if n == 37 {
        text[22] as int
    } else if n == 36 {
        text[24] as int
    } else if n == 52 || n == 55 {
        text[28] as int
    } else if n == 43 || n == 46 {
        text[29] as int
    } else if n == 32 {
        1000 * (text[8] as int) + text[17] as int
    } else {
        0
    }
}

/// The row of a declaration.
spec fn row_in(text: Seq<char>) -> int {
    let n = text.len();
    let m = mark_in(text);
    if n == 29 && m == 112 {
        0
    } else if n == 32 && m == 112101 {
        1
    } else if n == 37 && m == 99 {
        2
    } else if n == 35 && m == 101 {
        3
    } else if n == 32 && m == 112102 {
        4
    } else if n == 36 && m == 114 {
        5
    } else if n == 30 && m == 105 {
        6
    } else if n == 36 && m == 110 {
        7
    } else if n == 39 && m == 116 {
        8
    } else if n == 37 && m == 95 {
        9
    } else if n == 42 && m == 100 {
        10
    } else if n == 37 && m == 116 {
        11
    } else if n == 28 && m == 105 {
        12
    } else if n == 43 && m == 54 {
        13
    } else if n == 29 && m == 105 {
        14
    } else if n == 33 && m == 112 {
        15
    } else if n == 31 && m == 108 {
        16
    } else if n == 43 && m == 116 {
        17
    } else if n == 38 && m == 114 {
        18
    } else if n == 42 && m == 112 {
        19
    } else if n == 46 && m == 101 {
        20
    } else if n == 44 && m == 0 {
        21
    } else if n == 36 && m == 116 {
        22
    } else if n == 32 && m == 112109 {
        23
    } else if n == 46 && m == 114 {
        24
    } else if n == 28 && m == 112 {
        25
    } else if n == 33 && m == 118 {
        26
    } else if n == 38 && m == 109 {
        27
    } else if n == 32 && m == 112116 {
        28
    } else if n == 34 && m == 118 {
        29
    } else if n == 32 && m == 105116 {
        30
    } else if n == 43 && m == 105 {
        31
    } else if n == 46 && m == 102 {
        32
    } else if n == 46 && m == 115 {
        33
    } else if n == 43 && m == 98 {
        34
    } else if n == 45 && m == 54 {
        35
    } else if n == 48 && m == 100 {
        36
    } else if n == 48 && m == 112 {
        37
    } else if n == 45 && m == 49 {
        38
    } else if n == 52 && m == 105 {
        39
    } else if n == 55 && m == 102 {
        40
    } else if n == 55 && m == 115 {
        41
    } else if n == 52 && m == 98 {
        42
    } else if n == 31 && m == 104 {
        43
    } else if n == 40 && m == 0 {
        44
    } else if n == 32 && m == 105101 {
        45
    } else if n == 34 && m == 112 {
        46
    } else if n == 35 && m == 117 {
        47
    } else if n == 32 && m == 105110 {
        48
    } else if n == 31 && m == 107 {
        49
    } else if n == 36 && m == 105 {
        50
    } else if n == 35 && m == 99 {
        51
    } else if n == 31 && m == 119 {
        52
    } else if n == 37 && m == 106 {
        53
    } else if n == 36 && m == 115 {
        54
    } else if n == 35 && m == 95 {
        55
    } else if n == 31 && m == 112 {
        56
    } else if n == 37 && m == 110 {
        57
    } else if n == 23 && m == 0 {
        58
    } else if n == 30 && m == 112 {
        59
    } else if n == 36 && m == 118 {
        60
    } else if n == 36 && m == 121 {
        61
    } else if n == 36 && m == 101 {
        62
    } else if n == 32 && m == 112098 {
        63
    } else if n == 37 && m == 114 {
        64
    } else if n == 36 && m == 100 {
        65
    } else if n == 41 && m == 0 {
        66
    } else if n == 39 && m == 98 {
        67
    } else {
        -1
    }
}

proof fn lemma_rows(i: int)
    requires
        0 <= i < LIBRARY,
    ensures
        row_in(declaration(i).1) == i,
{
    if i == 0 {
        reveal_strlit("declare ptr @tie_read_line()\n");
    } else if i == 1 {
        reveal_strlit("declare ptr @tie_eval_expr(ptr)\n");
    } else if i == 2 {
        reveal_strlit("declare ptr @tie_eval_call(ptr, ptr)\n");
    } else if i == 3 {
        reveal_strlit("declare void @tie_free_result(ptr)\n");
    } else if i == 4 {
        reveal_strlit("declare ptr @tie_file_read(ptr)\n");
    } else if i == 5 {
        reveal_strlit("declare ptr @tie_str_char(ptr, i64)\n");
    } else if i == 6 {
        reveal_strlit("declare i64 @tie_str_len(ptr)\n");
    } else if i == 7 {
        reveal_strlit("declare ptr @tie_to_string_i64(i64)\n");
    } else if i == 8 {
        reveal_strlit("declare ptr @tie_to_string_f64(double)\n");
    } else if i == 9 {
        reveal_strlit("declare i64 @tie_parse_int(ptr, ptr)\n");
    } else if i == 10 {
        reveal_strlit("declare double @tie_parse_float(ptr, ptr)\n");
    } else if i == 11 {
        reveal_strlit("declare i8 @tie_parse_trit(ptr, ptr)\n");
    } else if i == 12 {
        reveal_strlit("declare i64 @tie_time_now()\n");
    } else if i == 13 {
        reveal_strlit("declare i64 @tie_rand_range(i64, i64, ptr)\n");
    } else if i == 14 {
        reveal_strlit("declare i64 @tie_arg_count()\n");
    } else if i == 15 {
        reveal_strlit("declare ptr @tie_arg_string(i64)\n");
    } else if i == 16 {
        reveal_strlit("declare ptr @tie_list_dir(ptr)\n");
    } else if i == 17 {
        reveal_strlit("declare i8 @tie_regex_match(ptr, ptr, ptr)\n");
    } else if i == 18 {
        reveal_strlit("declare ptr @tie_regex_find(ptr, ptr)\n");
    } else if i == 19 {
        reveal_strlit("declare ptr @tie_regex_find_all(ptr, ptr)\n");
    } else if i == 20 {
        reveal_strlit("declare ptr @tie_regex_replace(ptr, ptr, ptr)\n");
    } else if i == 21 {
        reveal_strlit("declare ptr @tie_regex_group(ptr, ptr, i64)\n");
    } else if i == 22 {
        reveal_strlit("declare void @tie_msg_set_lang(ptr)\n");
    } else if i == 23 {
        reveal_strlit("declare ptr @tie_msg_get_lang()\n");
    } else if i == 24 {
        reveal_strlit("declare void @tie_msg_register(ptr, ptr, ptr)\n");
    } else if i == 25 {
        reveal_strlit("declare ptr @tie_msg_t(ptr)\n");
    } else if i == 26 {
        reveal_strlit("declare void @tie_print_err(ptr)\n");
    } else if i == 27 {
        reveal_strlit("declare ptr @tie_msg_t_lang(ptr, ptr)\n");
    } else if i == 28 {
        reveal_strlit("declare ptr @tie_table_new(i64)\n");
    } else if i == 29 {
        reveal_strlit("declare void @tie_table_free(ptr)\n");
    } else if i == 30 {
        reveal_strlit("declare i64 @tie_table_len(ptr)\n");
    } else if i == 31 {
        reveal_strlit("declare void @tie_table_push_i64(ptr, i64)\n");
    } else if i == 32 {
        reveal_strlit("declare void @tie_table_push_f64(ptr, double)\n");
    } else if i == 33 {
        reveal_strlit("declare void @tie_table_push_string(ptr, ptr)\n");
    } else if i == 34 {
        reveal_strlit("declare void @tie_table_push_bool(ptr, i1)\n");
    } else if i == 35 {
        reveal_strlit("declare i64 @tie_table_at_i64(ptr, i64, ptr)\n");
    } else if i == 36 {
        reveal_strlit("declare double @tie_table_at_f64(ptr, i64, ptr)\n");
    } else if i == 37 {
        reveal_strlit("declare ptr @tie_table_at_string(ptr, i64, ptr)\n");
    } else if i == 38 {
        reveal_strlit("declare i1 @tie_table_at_bool(ptr, i64, ptr)\n");
    } else if i == 39 {
        reveal_strlit("declare void @tie_table_set_i64(ptr, i64, i64, ptr)\n");
    } else if i == 40 {
        reveal_strlit("declare void @tie_table_set_f64(ptr, i64, double, ptr)\n");
    } else if i == 41 {
        reveal_strlit("declare void @tie_table_set_string(ptr, i64, ptr, ptr)\n");
    } else if i == 42 {
        reveal_strlit("declare void @tie_table_set_bool(ptr, i64, i1, ptr)\n");
    } else if i == 43 {
        reveal_strlit("declare ptr @tie_http_get(ptr)\n");
    } else if i == 44 {
        reveal_strlit("declare i8 @tie_http_get_file(ptr, ptr)\n");
    } else if i == 45 {
        reveal_strlit("declare i64 @tie_exec_code(ptr)\n");
    } else if i == 46 {
        reveal_strlit("declare ptr @tie_exec_output(ptr)\n");
    } else if i == 47 {
        reveal_strlit("declare i8 @tie_untar_gz(ptr, ptr)\n");
    } else if i == 48 {
        reveal_strlit("declare i8 @tie_unzip(ptr, ptr)\n");
    } else if i == 49 {
        reveal_strlit("declare i8 @tie_mkdir_all(ptr)\n");
    } else if i == 50 {
        reveal_strlit("declare i8 @tie_remove_dir_all(ptr)\n");
    } else if i == 51 {
        reveal_strlit("declare i8 @tie_copy_dir(ptr, ptr)\n");
    } else if i == 52 {
        reveal_strlit("declare ptr @tie_walk_dir(ptr)\n");
    } else if i == 53 {
        reveal_strlit("declare ptr @tie_path_join(ptr, ptr)\n");
    } else if i == 54 {
        reveal_strlit("declare ptr @tie_path_basename(ptr)\n");
    } else if i == 55 {
        reveal_strlit("declare ptr @tie_path_dirname(ptr)\n");
    } else if i == 56 {
        reveal_strlit("declare ptr @tie_path_abs(ptr)\n");
    } else if i == 57 {
        reveal_strlit("declare ptr @tie_path_normalize(ptr)\n");
    } else if i == 58 {
        reveal_strlit("declare ptr @tie_cwd()\n");
    } else if i == 59 {
        reveal_strlit("declare ptr @tie_get_env(ptr)\n");
    } else if i == 60 {
        reveal_strlit("declare void @tie_set_env(ptr, ptr)\n");
    } else if i == 61 {
        reveal_strlit("declare i8 @tie_file_copy(ptr, ptr)\n");
    } else if i == 62 {
        reveal_strlit("declare i8 @tie_file_move(ptr, ptr)\n");
    } else if i == 63 {
        reveal_strlit("declare ptr @tie_byte_read(ptr)\n");
    } else if i == 64 {
        reveal_strlit("declare i8 @tie_byte_write(ptr, ptr)\n");
    } else if i == 65 {
        reveal_strlit("declare i64 @tie_bit_read(ptr, i64)\n");
    } else if i == 66 {
        reveal_strlit("declare i8 @tie_bit_write(ptr, i64, i64)\n");
    } else {
        reveal_strlit("declare ptr @tie_byte_concat(ptr, ptr)\n");
    }
}

/// Whether a text is one line that declares something.
pub open spec fn declaring(text: Seq<char>) -> bool {
    &&& text.len() > 9
    &&& at(text, 0, "declare "@)
    &&& text.last() == '\n'
    &&& text[text.len() - 2] == ')'
    &&& forall|j: int| 0 <= j < text.len() - 1 ==> #[trigger] text[j] != '\n'
}

proof fn lemma_declaring(i: int)
    requires
        0 <= i < LIBRARY,
    ensures
        declaring(declaration(i).1),
{
    reveal_strlit("declare ");
    let text = declaration(i).1;
    if i == 0 {
        reveal_strlit("declare ptr @tie_read_line()\n");
    } else if i == 1 {
        reveal_strlit("declare ptr @tie_eval_expr(ptr)\n");
    } else if i == 2 {
        reveal_strlit("declare ptr @tie_eval_call(ptr, ptr)\n");
    } else if i == 3 {
        reveal_strlit("declare void @tie_free_result(ptr)\n");
    } else if i == 4 {
        reveal_strlit("declare ptr @tie_file_read(ptr)\n");
    } else if i == 5 {
        reveal_strlit("declare ptr @tie_str_char(ptr, i64)\n");
    } else if i == 6 {
        reveal_strlit("declare i64 @tie_str_len(ptr)\n");
    } else if i == 7 {
        reveal_strlit("declare ptr @tie_to_string_i64(i64)\n");
    } else if i == 8 {
        reveal_strlit("declare ptr @tie_to_string_f64(double)\n");
    } else if i == 9 {
        reveal_strlit("declare i64 @tie_parse_int(ptr, ptr)\n");
    } else if i == 10 {
        reveal_strlit("declare double @tie_parse_float(ptr, ptr)\n");
    } else if i == 11 {
        reveal_strlit("declare i8 @tie_parse_trit(ptr, ptr)\n");
    } else if i == 12 {
        reveal_strlit("declare i64 @tie_time_now()\n");
    } else if i == 13 {
        reveal_strlit("declare i64 @tie_rand_range(i64, i64, ptr)\n");
    } else if i == 14 {
        reveal_strlit("declare i64 @tie_arg_count()\n");
    } else if i == 15 {
        reveal_strlit("declare ptr @tie_arg_string(i64)\n");
    } else if i == 16 {
        reveal_strlit("declare ptr @tie_list_dir(ptr)\n");
    } else if i == 17 {
        reveal_strlit("declare i8 @tie_regex_match(ptr, ptr, ptr)\n");
    } else if i == 18 {
        reveal_strlit("declare ptr @tie_regex_find(ptr, ptr)\n");
    } else if i == 19 {
        reveal_strlit("declare ptr @tie_regex_find_all(ptr, ptr)\n");
    } else if i == 20 {
        reveal_strlit("declare ptr @tie_regex_replace(ptr, ptr, ptr)\n");
    } else if i == 21 {
        reveal_strlit("declare ptr @tie_regex_group(ptr, ptr, i64)\n");
    } else if i == 22 {
        reveal_strlit("declare void @tie_msg_set_lang(ptr)\n");
    } else if i == 23 {
        reveal_strlit("declare ptr @tie_msg_get_lang()\n");
    } else if i == 24 {
        reveal_strlit("declare void @tie_msg_register(ptr, ptr, ptr)\n");
    } else if i == 25 {
        reveal_strlit("declare ptr @tie_msg_t(ptr)\n");
    } else if i == 26 {
        reveal_strlit("declare void @tie_print_err(ptr)\n");
    } else if i == 27 {
        reveal_strlit("declare ptr @tie_msg_t_lang(ptr, ptr)\n");
    } else if i == 28 {
        reveal_strlit("declare ptr @tie_table_new(i64)\n");
    } else if i == 29 {
        reveal_strlit("declare void @tie_table_free(ptr)\n");
    } else if i == 30 {
        reveal_strlit("declare i64 @tie_table_len(ptr)\n");
    } else if i == 31 {
        reveal_strlit("declare void @tie_table_push_i64(ptr, i64)\n");
    } else if i == 32 {
        reveal_strlit("declare void @tie_table_push_f64(ptr, double)\n");
    } else if i == 33 {
        reveal_strlit("declare void @tie_table_push_string(ptr, ptr)\n");
    } else if i == 34 {
        reveal_strlit("declare void @tie_table_push_bool(ptr, i1)\n");
    } else if i == 35 {
        reveal_strlit("declare i64 @tie_table_at_i64(ptr, i64, ptr)\n");
    } else if i == 36 {
        reveal_strlit("declare double @tie_table_at_f64(ptr, i64, ptr)\n");
    } else if i == 37 {
        reveal_strlit("declare ptr @tie_table_at_string(ptr, i64, ptr)\n");
    } else if i == 38 {
        reveal_strlit("declare i1 @tie_table_at_bool(ptr, i64, ptr)\n");
    } else if i == 39 {
        reveal_strlit("declare void @tie_table_set_i64(ptr, i64, i64, ptr)\n");
    } else if i == 40 {
        reveal_strlit("declare void @tie_table_set_f64(ptr, i64, double, ptr)\n");
    } else if i == 41 {
        reveal_strlit("declare void @tie_table_set_string(ptr, i64, ptr, ptr)\n");
    } else if i == 42 {
        reveal_strlit("declare void @tie_table_set_bool(ptr, i64, i1, ptr)\n");
    } else if i == 43 {
        reveal_strlit("declare ptr @tie_http_get(ptr)\n");
    } else if i == 44 {
        reveal_strlit("declare i8 @tie_http_get_file(ptr, ptr)\n");
    } else if i == 45 {
        reveal_strlit("declare i64 @tie_exec_code(ptr)\n");
    } else if i == 46 {
        reveal_strlit("declare ptr @tie_exec_output(ptr)\n");
    } else if i == 47 {
        reveal_strlit("declare i8 @tie_untar_gz(ptr, ptr)\n");
    } else if i == 48 {
        reveal_strlit("declare i8 @tie_unzip(ptr, ptr)\n");
    } else if i == 49 {
        reveal_strlit("declare i8 @tie_mkdir_all(ptr)\n");
    } else if i == 50 {
        reveal_strlit("declare i8 @tie_remove_dir_all(ptr)\n");
    } else if i == 51 {
        reveal_strlit("declare i8 @tie_copy_dir(ptr, ptr)\n");
    } else if i == 52 {
        reveal_strlit("declare ptr @tie_walk_dir(ptr)\n");
    } else if i == 53 {
        reveal_strlit("declare ptr @tie_path_join(ptr, ptr)\n");
    } else if i == 54 {
        reveal_strlit("declare ptr @tie_path_basename(ptr)\n");
    } else if i == 55 {
        reveal_strlit("declare ptr @tie_path_dirname(ptr)\n");
    } else if i == 56 {
        reveal_strlit("declare ptr @tie_path_abs(ptr)\n");
    } else if i == 57 {
        reveal_strlit("declare ptr @tie_path_normalize(ptr)\n");
    } else if i == 58 {
        reveal_strlit("declare ptr @tie_cwd()\n");
    } else if i == 59 {
        reveal_strlit("declare ptr @tie_get_env(ptr)\n");
    } else if i == 60 {
        reveal_strlit("declare void @tie_set_env(ptr, ptr)\n");
    } else if i == 61 {
        reveal_strlit("declare i8 @tie_file_copy(ptr, ptr)\n");
    } else if i == 62 {
        reveal_strlit("declare i8 @tie_file_move(ptr, ptr)\n");
    } else if i == 63 {
        reveal_strlit("declare ptr @tie_byte_read(ptr)\n");
    } else if i == 64 {
        reveal_strlit("declare i8 @tie_byte_write(ptr, ptr)\n");
    } else if i == 65 {
        reveal_strlit("declare i64 @tie_bit_read(ptr, i64)\n");
    } else if i == 66 {
        reveal_strlit("declare i8 @tie_bit_write(ptr, i64, i64)\n");
    } else {
        reveal_strlit("declare ptr @tie_byte_concat(ptr, ptr)\n");
    }
    assert(text.subrange(0, 8) =~= "declare "@);
    assert forall|j: int| 0 <= j < text.len() - 1 implies #[trigger] text[j] != '\n' by {
        assert(
            j == 0 || j == 1 || j == 2 || j == 3 || j == 4 || j == 5 || j == 6 || j == 7 || j == 8
            || j == 9 || j == 10 || j == 11 || j == 12 || j == 13 || j == 14 || j == 15 || j == 16
            || j == 17 || j == 18 || j == 19 || j == 20 || j == 21 || j == 22 || j == 23
            || j == 24 || j == 25 || j == 26 || j == 27 || j == 28 || j == 29 || j == 30
            || j == 31 || j == 32 || j == 33 || j == 34 || j == 35 || j == 36 || j == 37
            || j == 38 || j == 39 || j == 40 || j == 41 || j == 42 || j == 43 || j == 44
            || j == 45 || j == 46 || j == 47 || j == 48 || j == 49 || j == 50 || j == 51
            || j == 52 || j == 53);
    }
}

proof fn lemma_needed(used: Seq<Seq<char>>, n: nat)
    requires
        n <= LIBRARY,
    ensures
        needed(used, n).no_duplicates(),
        forall|k: int|
            0 <= k < needed(used, n).len() ==> {
                let i = row_in(#[trigger] needed(used, n)[k]);
                0 <= i < n && needed(used, n)[k] == declaration(i).1 && used.contains(
                    declaration(i).0,
                )
            },
        forall|i: int|
            0 <= i < n && used.contains(#[trigger] declaration(i).0) ==> needed(used, n).contains(
                declaration(i).1,
            ),
    decreases n,
{
    if n > 0 {
        let before = needed(used, (n - 1) as nat);
        let now = needed(used, n);
        lemma_needed(used, (n - 1) as nat);
        lemma_rows(n - 1);
        assert forall|i: int|
            0 <= i < n && used.contains(#[trigger] declaration(i).0) implies now.contains(
            declaration(i).1,
        ) by {
            if i < n - 1 {
                let k = choose|k: int| 0 <= k < before.len() && before[k] == declaration(i).1;
                assert(now[k] == before[k]);
            } else {
                assert(now.last() == declaration(i).1);
            }
        }
    }
}

/// A declaration stays as it is when the instructions are renumbered.
proof fn lemma_declaration_stays(s: Seq<char>, i: int, text: Seq<char>, st: Numbers)
    requires
        declaring(text),
        0 <= i,
        at(s, i, text),
    ensures
        renumber_from(s, i, st) == text + renumber_from(s, i + text.len(), st),
{
    reveal_strlit("declare ");
    reveal_strlit("define ");
    reveal_strlit("\n");
    let e = i + text.len() - 1;
    assert forall|j: int| i <= j < e implies #[trigger] s[j] == text[j - i] by {
        assert(s.subrange(i, i + text.len())[j - i] == text[j - i]);
    }
    assert(s.subrange(i, i + text.len())[text.len() - 1] == '\n');
    lemma_line_end_at(s, i, e);
    let l = line_at(s, i, e);
    assert(s[e - 1] == text[text.len() - 2]);
    assert(l =~= text.drop_last());
    assert(l.subrange(0, 8) =~= "declare "@);
    assert(text.subrange(0, 8)[0] == 'd' && text.subrange(0, 8)[2] == 'c');
    assert(black_from(l, 0, l.len() as int) == 0);
    assert(l.skip(0) =~= l);
    assert(!at(l, 0, "define "@)) by {
        if at(l, 0, "define "@) {
            assert(l.subrange(0, 7)[2] == "define "@[2]);
        }
    }
    assert(numbering::line(l, st) == (l, st));
    assert(l + "\n"@ =~= text);
}

proof fn lemma_line_end_at(s: Seq<char>, i: int, e: int)
    requires
        0 <= i <= e < s.len(),
        s[e] == '\n',
        forall|j: int| i <= j < e ==> s[j] != '\n',
    ensures
        line_end(s, i) == e,
    decreases e - i,
{
    if i < e {
        lemma_line_end_at(s, i + 1, e);
    }
}

proof fn lemma_declarations_stay(s: Seq<char>, i: int, lines: Seq<Seq<char>>, st: Numbers)
    requires
        0 <= i,
        s.len() == i + flat(lines).len(),
        s.skip(i) == flat(lines),
        forall|k: int| 0 <= k < lines.len() ==> declaring(#[trigger] lines[k]),
    ensures
        renumber_from(s, i, st) == flat(lines),
    decreases lines.len(),
{
    if lines.len() > 0 {
        let rest = lines.skip(1);
        let text = lines[0];
        lemma_flat_first(lines);
        assert(declaring(text));
        assert(s.subrange(i, i + text.len()) =~= text) by {
            assert(s.skip(i).subrange(0, text.len() as int) =~= text);
        }
        lemma_declaration_stays(s, i, text, st);
        assert(s.skip(i + text.len()) =~= s.skip(i).skip(text.len() as int));
        assert(s.skip(i).skip(text.len() as int) =~= flat(rest));
        assert forall|k: int| 0 <= k < rest.len() implies declaring(#[trigger] rest[k]) by {
            assert(declaring(lines[k + 1]));
        }
        lemma_declarations_stay(s, i + text.len(), rest, st);
    }
}

proof fn lemma_flat_first(lines: Seq<Seq<char>>)
    requires
        lines.len() > 0,
    ensures
        flat(lines) == lines[0] + flat(lines.skip(1)),
    decreases lines.len(),
{
    if lines.len() > 1 {
        lemma_flat_first(lines.drop_last());
        assert(lines.drop_last().skip(1) =~= lines.skip(1).drop_last());
        assert(flat(lines) =~= lines[0] + flat(lines.skip(1)));
    } else {
        assert(lines.skip(1).len() == 0);
        assert(flat(lines.drop_last()) =~= Seq::<char>::empty());
        assert(flat(lines) =~= lines[0] + flat(lines.skip(1)));
    }
}

/// Renumbering a text of whole lines with declarations behind it is renumbering the text.
proof fn lemma_code_then_declarations(
    code: Seq<char>,
    lines: Seq<Seq<char>>,
    i: int,
    st: Numbers,
)
    requires
        0 <= i <= code.len(),
        whole_lines(code),
        forall|k: int| 0 <= k < lines.len() ==> declaring(#[trigger] lines[k]),
    ensures
        renumber_from(code + flat(lines), i, st) == renumber_from(code, i, st) + flat(lines),
    decreases code.len() - i,
{
    let s = code + flat(lines);
    if i == code.len() {
        assert(s.skip(i) =~= flat(lines));
        lemma_declarations_stay(s, i, lines, st);
        assert(renumber_from(code, i, st) =~= Seq::<char>::empty());
        assert(Seq::<char>::empty() + flat(lines) =~= flat(lines));
    } else {
        lemma_line_end(code, i);
        let e = line_end(code, i);
        lemma_line_found(code, i);
        lemma_line_end_at(s, i, e);
        assert(line_at(s, i, e) =~= line_at(code, i, e));
        let (text, st2) = numbering::line(line_at(code, i, e), st);
        lemma_code_then_declarations(code, lines, e + 1, st2);
        assert(text + "\n"@ + (renumber_from(code, e + 1, st2) + flat(lines)) =~= text + "\n"@
            + renumber_from(code, e + 1, st2) + flat(lines));
    }
}

/// A text of whole lines has an end for each line.
proof fn lemma_line_found(s: Seq<char>, i: int)
    requires
        0 <= i < s.len(),
        s.last() == '\n',
    ensures
        i <= line_end(s, i) < s.len(),
        s[line_end(s, i)] == '\n',
        forall|j: int| i <= j < line_end(s, i) ==> s[j] != '\n',
    decreases s.len() - i,
{
    if s[i] != '\n' {
        lemma_line_found(s, i + 1);
    }
}

/// The text of a module before its declarations.
pub open spec fn code_part(sem: Sem, p: Program) -> GenV {
    let g = header_code(blank());
    let g = globals_code(sem, g, p.stmts, p.stmts@.len());
    let g = fns_code(sem, g, p.stmts, Seq::empty(), p.stmts@.len());
    let g = put(g, "\n"@);
    put(g, g.globals)
}

// ---------- laws ----------
/// The text of a module ends with the declarations of the library functions that are listed:
/// a function has its declaration there exactly where it is listed, and only once.
pub proof fn law_listed_are_declared(sem: Sem, p: Program, i: int)
    requires
        0 <= i < LIBRARY,
    ensures
        ({
            let used = module_code(sem, p).used;
            let lines = needed(used, LIBRARY as nat);
            &&& module_code(sem, p).out == code_part(sem, p).out + flat(lines)
            &&& lines.contains(declaration(i).1) <==> used.contains(declaration(i).0)
            &&& lines.no_duplicates()
        }),
{
    let g = code_part(sem, p);
    lemma_declares(g, LIBRARY as nat);
    let lines = needed(g.used, LIBRARY as nat);
    lemma_needed(g.used, LIBRARY as nat);
    lemma_rows(i);
    if lines.contains(declaration(i).1) {
        let k = choose|k: int| 0 <= k < lines.len() && lines[k] == declaration(i).1;
        assert(row_in(lines[k]) == i);
    }
}

/// So does the final text: the declarations stay as they are when the instructions are
/// renumbered.
pub proof fn law_declarations_are_final(sem: Sem, p: Program)
    requires
        whole_lines(module_code(sem, p).globals),
    ensures
        renumbered(module_code(sem, p).out) == renumbered(code_part(sem, p).out) + flat(
            needed(module_code(sem, p).used, LIBRARY as nat),
        ),
{
    reveal(put);
    reveal_strlit("\n");
    let g = code_part(sem, p);
    lemma_declares(g, LIBRARY as nat);
    let lines = needed(g.used, LIBRARY as nat);
    lemma_needed(g.used, LIBRARY as nat);
    assert forall|k: int| 0 <= k < lines.len() implies declaring(#[trigger] lines[k]) by {
        lemma_declaring(row_in(lines[k]));
    }
    assert(whole_lines(g.out));
    lemma_code_then_declarations(g.out, lines, 0, fresh());
}

/// Every library function that the generator takes down as called is declared in the text of
/// the module, once its list is complete, as `gen_ir` makes it.
pub proof fn law_calls_are_declared(sem: Sem, p: Program, symbol: Seq<char>)
    requires
        calls_listed(module_code(sem, p).called, module_code(sem, p).used),
        well_noted(module_code(sem, p).used),
        module_code(sem, p).called.contains(symbol),
    ensures
        declaration(row(symbol)).0 == symbol,
        needed(module_code(sem, p).used, LIBRARY as nat).contains(declaration(row(symbol)).1),
{
    let used = module_code(sem, p).used;
    let k = choose|k: int| 0 <= k < used.len() && used[k] == symbol;
    assert(declared(used[k]));
    lemma_row(symbol);
    law_listed_are_declared(sem, p, row(symbol));
}

/// The stack slots that the body of a function reserves stand right behind those of its
/// parameters in the entry block, before anything that the body writes, so that no loop runs
/// them again; none is left over for the next function. The place of what the body writes is
/// noted.
pub proof fn law_slots_stand_in_the_entry_block(sem: Sem, head: GenV, f: FnDef)
    ensures
        ({
            let body = block_code(sem, GenV { out: Seq::empty(), free: false, ..head }, f.body);
            let all = fn_body_code(sem, head, f);
            let start = head.out.len() + slots(body.allocas, body.allocas.len()).len();
            &&& all.out == head.out + slots(body.allocas, body.allocas.len()) + body.out
            &&& all.allocas.len() == 0
            &&& all.bodies == body.bodies.push((start as int, all.out.len() as int))
            &&& all.out.subrange(start as int, all.out.len() as int) == body.out
        }),
{
    reveal(fn_body_code);
    let all = fn_body_code(sem, head, f);
    let body = block_code(sem, GenV { out: Seq::empty(), free: false, ..head }, f.body);
    let start = head.out.len() + slots(body.allocas, body.allocas.len()).len();
    assert(all.out.subrange(start as int, all.out.len() as int) =~= body.out);
}

/// Reserving a slot writes nothing where the code is at; it adds one line to the slots of the
/// function.
pub proof fn law_slots_are_put_off(g: GenV, ty: Seq<char>)
    ensures
        ({
            let (h, name) = alloca(g, ty);
            &&& h.out == g.out
            &&& slots(h.allocas, h.allocas.len()) == slots(g.allocas, g.allocas.len()) + (name
                + " = alloca "@ + ty) + "\n"@
        }),
{
    reveal(alloca);
    reveal(reg);
    lemma_slots_prefix(g.allocas, alloca(g, ty).1 + " = alloca "@ + ty, g.allocas.len());
}

proof fn lemma_slots_prefix(allocas: Seq<Seq<char>>, more: Seq<char>, n: nat)
    requires
        n <= allocas.len(),
    ensures
        slots(allocas.push(more), n) == slots(allocas, n),
    decreases n,
{
    if n > 0 {
        lemma_slots_prefix(allocas, more, (n - 1) as nat);
    }
}

/// A statement that keeps the scopes whole, such as a loop or a conditional, changes neither
/// what a name means nor where a jump goes: what its blocks declare is gone with them.
pub proof fn law_blocks_leave_no_trace(
    a: GenV,
    b: GenV,
    name: Seq<char>,
    tag: Option<Seq<char>>,
)
    requires
        kept(a, b, true),
    ensures
        bound(b, name) == bound(a, name),
        break_target(b, tag) == break_target(a, tag),
        continue_target(b, tag) == continue_target(a, tag),
{
    reveal(kept);
    reveal(bound);
    reveal(break_target);
    reveal(continue_target);
    assert(b.scopes =~= a.scopes);
}

/// A declaration hides the name in the scopes around it and touches no other name.
pub proof fn law_bound_is_found(
    g: GenV,
    name: Seq<char>,
    value: Seq<char>,
    ty: Seq<char>,
    other: Seq<char>,
)
    requires
        g.scopes.len() > 0,
    ensures
        bound(bind(g, name, value, ty), name) == Some(BindV { value, ty }),
        other != name ==> bound(bind(g, name, value, ty), other) == bound(g, other),
{
    reveal(bound);
    reveal(bind);
    let h = bind(g, name, value, ty);
    lemma_same_below(g.scopes, h.scopes, other, g.scopes.len() - 1);
}

proof fn lemma_same_below(
    a: Seq<Map<Seq<char>, BindV>>,
    b: Seq<Map<Seq<char>, BindV>>,
    name: Seq<char>,
    n: int,
)
    requires
        n <= a.len(),
        n <= b.len(),
        forall|i: int| 0 <= i < n ==> #[trigger] a[i] == b[i],
    ensures
        bound_in(a, name, n) == bound_in(b, name, n),
    decreases n,
{
    if n > 0 {
        lemma_same_below(a, b, name, n - 1);
    }
}

/// A jump means the innermost loop, or the innermost one with its label; any other label
/// means what it means around the loop.
pub proof fn law_jumps_find_their_loop(
    g: GenV,
    tag: Option<Seq<char>>,
    next: Seq<char>,
    exit: Seq<char>,
    other: Option<Seq<char>>,
)
    requires
        other is Some,
        other != tag,
    ensures
        break_target(enter_loop(g, tag, next, exit), None) == exit,
        break_target(enter_loop(g, tag, next, exit), tag) == exit,
        continue_target(enter_loop(g, tag, next, exit), None) == next,
        continue_target(enter_loop(g, tag, next, exit), tag) == next,
        break_target(enter_loop(g, tag, next, exit), other) == break_target(g, other),
        continue_target(enter_loop(g, tag, next, exit), other) == continue_target(g, other),
{
    reveal(enter_loop);
    reveal(break_target);
    reveal(continue_target);
    let h = enter_loop(g, tag, next, exit);
    lemma_same_loops(g.loops, h.loops, other, g.loops.len() as int);
}

proof fn lemma_same_loops(a: Seq<LoopV>, b: Seq<LoopV>, tag: Option<Seq<char>>, n: int)
    requires
        n <= a.len(),
        n <= b.len(),
        forall|i: int| 0 <= i < n ==> #[trigger] a[i] == b[i],
    ensures
        loop_in(a, tag, n) == loop_in(b, tag, n),
    decreases n,
{
    if n > 0 {
        lemma_same_loops(a, b, tag, n - 1);
    }
}

/// The first error stays the one that is reported, whatever is written after it.
pub proof fn law_first_error_counts(g: GenV, m: Seq<char>, later: GenV)
    requires
        advanced(fail(g, m), later),
    ensures
        later.error is Some,
        g.error is None ==> later.error == Some(m),
        g.error is Some ==> later.error == g.error,
{
    reveal(advanced);
    reveal(fail);
}

/// What ends in a dot and a number ends in no other.
proof fn lemma_last_number(p: Seq<char>, a: nat, q: Seq<char>, b: nat)
    requires
        p + "."@ + nat_dec(a) == q + "."@ + nat_dec(b),
    ensures
        a == b,
{
    reveal_strlit(".");
    lemma_nat_dec_value(a);
    lemma_nat_dec_value(b);
    let s = p + "."@ + nat_dec(a);
    let m = nat_dec(a).len() as int;
    let n = nat_dec(b).len() as int;
    assert(s[s.len() - m - 1] == '.');
    assert(s[s.len() - n - 1] == '.');
    if m > n {
        assert(s[s.len() - n - 1] == nat_dec(a)[m - n - 1]);
    }
    if n > m {
        assert(s[s.len() - m - 1] == nat_dec(b)[n - m - 1]);
    }
    assert(s.subrange(s.len() - m, s.len() as int) =~= nat_dec(a));
    assert(s.subrange(s.len() - n, s.len() as int) =~= nat_dec(b));
}

/// Within a function, a register has a name that no register before it had, while there are
/// numbers left.
pub proof fn law_registers_are_fresh(a: GenV, b: GenV, whole: bool)
    requires
        kept(reg(a).0, b, whole),
        a.reg + (b.taken - a.taken) < u32::MAX,
    ensures
        reg(b).1 != reg(a).1,
{
    reveal(kept);
    reveal(reg);
    lemma_nat_dec_value((a.reg + 1) as nat);
    lemma_nat_dec_value((b.reg + 1) as nat);
    assert(reg(a).1.skip("%"@.len() as int) =~= nat_dec((a.reg + 1) as nat));
    assert(reg(b).1.skip("%"@.len() as int) =~= nat_dec((b.reg + 1) as nat));
}

/// Within a function, a block has a label that no block before it had, while there are numbers
/// left.
pub proof fn law_labels_are_fresh(
    a: GenV,
    first: Seq<char>,
    b: GenV,
    second: Seq<char>,
    whole: bool,
)
    requires
        kept(label(a, first).0, b, whole),
        a.reg + (b.taken - a.taken) < u32::MAX,
    ensures
        label(b, second).1 != label(a, first).1,
{
    reveal(kept);
    reveal(label);
    if label(b, second).1 == label(a, first).1 {
        lemma_last_number(first, (a.reg + 1) as nat, second, (b.reg + 1) as nat);
    }
}

/// In a module, different texts have constants of different names, while there are numbers
/// left.
pub proof fn law_constants_are_apart(a: GenV, s: Seq<char>, b: GenV, t: Seq<char>)
    requires
        named_apart(a.consts, a.str_count),
        advanced(string_const(a, s).0, b),
        a.str_count + (b.globals.len() - a.globals.len()) < u32::MAX,
        s != t,
    ensures
        string_const(b, t).1 != string_const(a, s).1,
        named_apart(blank().consts, blank().str_count),
{
    let g = string_const(a, s).0;
    kept_by_nothing(a, true);
    kept_by_string(a, a, s, true);
    assert(advanced(a, g)) by {
        reveal(kept);
    }
    advanced_by_both(a, g, b);
    kept_by_nothing(b, true);
    kept_by_string(b, b, t, true);
    reveal(advanced);
    reveal(kept);
    reveal(string_const);
    let c = string_const(b, t).0;
    assert(g.consts.dom().contains(s));
    assert(c.consts.dom().contains(s));
    assert(c.consts.dom().contains(t));
    assert(named_apart(b.consts, b.str_count));
    lemma_apart_string(b, t);
}

/// A text that has a constant gets no second one.
pub proof fn law_constants_are_shared(a: GenV, s: Seq<char>, b: GenV)
    requires
        advanced(string_const(a, s).0, b),
    ensures
        string_const(b, s) == (b, string_const(a, s).1),
{
    reveal(advanced);
    reveal(string_const);
    assert(string_const(a, s).0.consts.dom().contains(s));
}

} // verus!
