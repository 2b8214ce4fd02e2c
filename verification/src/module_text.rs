//! What the text of a module shows: it uses the name of a library function only to call one
//! that is listed, and the bodies of its functions reserve no stack slots.
use crate::ast::{Program, Sem};
use crate::calm::{clear, functions_part, good, listed, no_library_name, no_slot, orderly};
use crate::emit::{put, GenV};
use crate::frames::{
    code_part, declared, law_listed_are_declared, lemma_row, needed, row, well_noted,
};
use crate::lower::{declaration, module_code, LIBRARY};
use crate::numbering::{
    at, black_from, digits_end, instruction, lemma_digits_end, lemma_line_end, line, line_at,
    line_end, number, refs, register, renumber_from, Numbers,
};
use crate::text::{dec, lemma_nat_dec_value, nat_dec};
use vstd::prelude::*;

verus! {

/// Whether wherever a text has the name of a library function, it calls one that is listed.
pub open spec fn calls_are_listed(s: Seq<char>, used: Seq<Seq<char>>) -> bool {
    forall|i: int| #[trigger] at(s, i, "@tie_"@) ==> listed(s, i + 1, used)
}

/// Whether a text reserves no stack slot.
pub open spec fn reserves_nothing(s: Seq<char>) -> bool {
    forall|i: int| !(#[trigger] at(s, i, " = alloca "@))
}

/// Whether none of the bodies of functions in the text of a state reserves a stack slot.
pub open spec fn bodies_reserve_nothing(g: GenV) -> bool {
    forall|k: int|
        0 <= k < g.bodies.len() ==> 0 <= (#[trigger] g.bodies[k]).0 <= g.bodies[k].1
            <= g.out.len() && reserves_nothing(g.out.subrange(g.bodies[k].0, g.bodies[k].1))
}

/// Whether no name of a library function stands in a text.
pub open spec fn names_nothing(s: Seq<char>) -> bool {
    forall|i: int| !(#[trigger] at(s, i, "@tie_"@))
}

proof fn lemma_clear_lists(s: Seq<char>, used: Seq<Seq<char>>, free: bool)
    requires
        clear(s, used, free),
    ensures
        calls_are_listed(s, used),
        !free ==> reserves_nothing(s),
{
    reveal(clear);
    reveal_strlit("@tie_");
    reveal_strlit(" = alloca ");
    assert forall|i: int| #[trigger] at(s, i, "@tie_"@) implies listed(s, i + 1, used) by {
        let w = s.subrange(i, i + 5);
        assert(w[0] == s[i] && w[1] == s[i + 1] && w[2] == s[i + 2] && w[3] == s[i + 3] && w[4]
            == s[i + 4]);
        assert(!no_library_name(s, i));
    }
    if !free {
        assert forall|i: int| !(#[trigger] at(s, i, " = alloca "@)) by {
            if at(s, i, " = alloca "@) {
                let w = s.subrange(i, i + 10);
                assert(w[1] == s[i + 1] && w[2] == s[i + 2] && w[3] == s[i + 3] && w[4] == s[i
                    + 4]);
                assert(!no_slot(s, i + 1));
            }
        }
    }
}

/// The text of a state that is good shows it.
pub proof fn lemma_good_shows(g: GenV)
    requires
        good(g),
        g.free,
    ensures
        calls_are_listed(g.out, g.used),
        bodies_reserve_nothing(g),
{
    reveal(good);
    reveal(orderly);
    lemma_clear_lists(g.out, g.used, true);
    assert forall|k: int| 0 <= k < g.bodies.len() implies 0 <= (#[trigger] g.bodies[k]).0
        <= g.bodies[k].1 <= g.out.len() && reserves_nothing(
        g.out.subrange(g.bodies[k].0, g.bodies[k].1),
    ) by {
        lemma_clear_lists(g.out.subrange(g.bodies[k].0, g.bodies[k].1), g.used, false);
    }
}

// ---------- the numbering keeps it ----------
/// Whether a name neither refers to a register nor ends a line.
pub open spec fn plain_name(s: Seq<char>) -> bool {
    forall|j: int|
        0 <= j < s.len() ==> #[trigger] s[j] != '%' && s[j] != '\n' && s[j] != '\r'
}

pub open spec fn plain_names(used: Seq<Seq<char>>) -> bool {
    forall|x: Seq<char>| #[trigger] used.contains(x) ==> plain_name(x)
}

#[verifier::rlimit(60)]
proof fn lemma_declared_is_plain(symbol: Seq<char>)
    requires
        declared(symbol),
    ensures
        plain_name(symbol),
{
    if symbol == "tie_read_line"@ {
        reveal_strlit("tie_read_line");
    } else if symbol == "tie_eval_expr"@ {
        reveal_strlit("tie_eval_expr");
    } else if symbol == "tie_eval_call"@ {
        reveal_strlit("tie_eval_call");
    } else if symbol == "tie_free_result"@ {
        reveal_strlit("tie_free_result");
    } else if symbol == "tie_file_read"@ {
        reveal_strlit("tie_file_read");
    } else if symbol == "tie_str_char"@ {
        reveal_strlit("tie_str_char");
    } else if symbol == "tie_str_len"@ {
        reveal_strlit("tie_str_len");
    } else if symbol == "tie_to_string_i64"@ {
        reveal_strlit("tie_to_string_i64");
    } else if symbol == "tie_to_string_f64"@ {
        reveal_strlit("tie_to_string_f64");
    } else if symbol == "tie_parse_int"@ {
        reveal_strlit("tie_parse_int");
    } else if symbol == "tie_parse_float"@ {
        reveal_strlit("tie_parse_float");
    } else if symbol == "tie_parse_trit"@ {
        reveal_strlit("tie_parse_trit");
    } else if symbol == "tie_time_now"@ {
        reveal_strlit("tie_time_now");
    } else if symbol == "tie_rand_range"@ {
        reveal_strlit("tie_rand_range");
    } else if symbol == "tie_arg_count"@ {
        reveal_strlit("tie_arg_count");
    } else if symbol == "tie_arg_string"@ {
        reveal_strlit("tie_arg_string");
    } else if symbol == "tie_list_dir"@ {
        reveal_strlit("tie_list_dir");
    } else if symbol == "tie_regex_match"@ {
        reveal_strlit("tie_regex_match");
    } else if symbol == "tie_regex_find"@ {
        reveal_strlit("tie_regex_find");
    } else if symbol == "tie_regex_find_all"@ {
        reveal_strlit("tie_regex_find_all");
    } else if symbol == "tie_regex_replace"@ {
        reveal_strlit("tie_regex_replace");
    } else if symbol == "tie_regex_group"@ {
        reveal_strlit("tie_regex_group");
    } else if symbol == "tie_msg_set_lang"@ {
        reveal_strlit("tie_msg_set_lang");
    } else if symbol == "tie_msg_get_lang"@ {
        reveal_strlit("tie_msg_get_lang");
    } else if symbol == "tie_msg_register"@ {
        reveal_strlit("tie_msg_register");
    } else if symbol == "tie_msg_t"@ {
        reveal_strlit("tie_msg_t");
    } else if symbol == "tie_print_err"@ {
        reveal_strlit("tie_print_err");
    } else if symbol == "tie_msg_t_lang"@ {
        reveal_strlit("tie_msg_t_lang");
    } else if symbol == "tie_table_new"@ {
        reveal_strlit("tie_table_new");
    } else if symbol == "tie_table_free"@ {
        reveal_strlit("tie_table_free");
    } else if symbol == "tie_table_len"@ {
        reveal_strlit("tie_table_len");
    } else if symbol == "tie_table_push_i64"@ {
        reveal_strlit("tie_table_push_i64");
    } else if symbol == "tie_table_push_f64"@ {
        reveal_strlit("tie_table_push_f64");
    } else if symbol == "tie_table_push_string"@ {
        reveal_strlit("tie_table_push_string");
    } else if symbol == "tie_table_push_bool"@ {
        reveal_strlit("tie_table_push_bool");
    } else if symbol == "tie_table_at_i64"@ {
        reveal_strlit("tie_table_at_i64");
    } else if symbol == "tie_table_at_f64"@ {
        reveal_strlit("tie_table_at_f64");
    } else if symbol == "tie_table_at_string"@ {
        reveal_strlit("tie_table_at_string");
    } else if symbol == "tie_table_at_bool"@ {
        reveal_strlit("tie_table_at_bool");
    } else if symbol == "tie_table_set_i64"@ {
        reveal_strlit("tie_table_set_i64");
    } else if symbol == "tie_table_set_f64"@ {
        reveal_strlit("tie_table_set_f64");
    } else if symbol == "tie_table_set_string"@ {
        reveal_strlit("tie_table_set_string");
    } else if symbol == "tie_table_set_bool"@ {
        reveal_strlit("tie_table_set_bool");
    } else if symbol == "tie_http_get"@ {
        reveal_strlit("tie_http_get");
    } else if symbol == "tie_http_get_file"@ {
        reveal_strlit("tie_http_get_file");
    } else if symbol == "tie_exec_code"@ {
        reveal_strlit("tie_exec_code");
    } else if symbol == "tie_exec_output"@ {
        reveal_strlit("tie_exec_output");
    } else if symbol == "tie_untar_gz"@ {
        reveal_strlit("tie_untar_gz");
    } else if symbol == "tie_unzip"@ {
        reveal_strlit("tie_unzip");
    } else if symbol == "tie_mkdir_all"@ {
        reveal_strlit("tie_mkdir_all");
    } else if symbol == "tie_remove_dir_all"@ {
        reveal_strlit("tie_remove_dir_all");
    } else if symbol == "tie_copy_dir"@ {
        reveal_strlit("tie_copy_dir");
    } else if symbol == "tie_walk_dir"@ {
        reveal_strlit("tie_walk_dir");
    } else if symbol == "tie_path_join"@ {
        reveal_strlit("tie_path_join");
    } else if symbol == "tie_path_basename"@ {
        reveal_strlit("tie_path_basename");
    } else if symbol == "tie_path_dirname"@ {
        reveal_strlit("tie_path_dirname");
    } else if symbol == "tie_path_abs"@ {
        reveal_strlit("tie_path_abs");
    } else if symbol == "tie_path_normalize"@ {
        reveal_strlit("tie_path_normalize");
    } else if symbol == "tie_cwd"@ {
        reveal_strlit("tie_cwd");
    } else if symbol == "tie_get_env"@ {
        reveal_strlit("tie_get_env");
    } else if symbol == "tie_set_env"@ {
        reveal_strlit("tie_set_env");
    } else if symbol == "tie_file_copy"@ {
        reveal_strlit("tie_file_copy");
    } else if symbol == "tie_file_move"@ {
        reveal_strlit("tie_file_move");
    } else if symbol == "tie_byte_read"@ {
        reveal_strlit("tie_byte_read");
    } else if symbol == "tie_byte_write"@ {
        reveal_strlit("tie_byte_write");
    } else if symbol == "tie_bit_read"@ {
        reveal_strlit("tie_bit_read");
    } else if symbol == "tie_bit_write"@ {
        reveal_strlit("tie_bit_write");
    } else {
        reveal_strlit("tie_byte_concat");
    }
}

proof fn lemma_noted_are_plain(used: Seq<Seq<char>>)
    requires
        well_noted(used),
    ensures
        plain_names(used),
{
    assert forall|x: Seq<char>| #[trigger] used.contains(x) implies plain_name(x) by {
        let k = choose|k: int| 0 <= k < used.len() && used[k] == x;
        assert(declared(used[k]));
        lemma_declared_is_plain(x);
    }
}

proof fn lemma_call_is_plain(x: Seq<char>)
    requires
        plain_name(x),
    ensures
        plain_name(x + "("@),
{
    reveal_strlit("(");
    let w = x + "("@;
    assert forall|j: int| 0 <= j < w.len() implies #[trigger] w[j] != '%' && w[j] != '\n' && w[j]
        != '\r' by {
        if j < x.len() {
            assert(w[j] == x[j]);
        }
    }
}

/// What stands in a part of a text stands in the whole.
proof fn lemma_at_part(s: Seq<char>, a: int, b: int, i: int, w: Seq<char>)
    requires
        0 <= a <= b <= s.len(),
        at(s.subrange(a, b), i, w),
    ensures
        at(s, a + i, w),
{
    assert(s.subrange(a + i, a + i + w.len()) =~= s.subrange(a, b).subrange(i, i + w.len()));
}

proof fn lemma_part_at(s: Seq<char>, a: int, b: int, i: int, w: Seq<char>)
    requires
        0 <= a <= b <= s.len(),
        a <= i,
        i + w.len() <= b,
        at(s, i, w),
    ensures
        at(s.subrange(a, b), i - a, w),
{
    assert(s.subrange(i, i + w.len()) =~= s.subrange(a, b).subrange(i - a, i - a + w.len()));
}

/// A part of a text that ends where a line ends calls listed functions as the text does.
proof fn lemma_part_lists(s: Seq<char>, a: int, b: int, used: Seq<Seq<char>>)
    requires
        0 <= a <= b <= s.len(),
        b == s.len() || s[b] == '\n' || s[b] == '\r',
        calls_are_listed(s, used),
        plain_names(used),
    ensures
        calls_are_listed(s.subrange(a, b), used),
{
    reveal_strlit("@tie_");
    let t = s.subrange(a, b);
    assert forall|i: int| #[trigger] at(t, i, "@tie_"@) implies listed(t, i + 1, used) by {
        lemma_at_part(s, a, b, i, "@tie_"@);
        let x = choose|x: Seq<char>| used.contains(x) && #[trigger] at(s, a + i + 1, x + "("@);
        let w = x + "("@;
        lemma_call_is_plain(x);
        if a + i + 1 + w.len() > b {
            assert(s.subrange(a + i + 1, a + i + 1 + w.len())[b - (a + i + 1)] == s[b]);
            assert(w[b - (a + i + 1)] == s[b]);
        }
        lemma_part_at(s, a, b, a + i + 1, w);
        assert(used.contains(x) && at(t, i + 1, x + "("@));
    }
}

/// Two texts, the first of which ends a line.
proof fn lemma_lines_list(x: Seq<char>, y: Seq<char>, used: Seq<Seq<char>>)
    requires
        calls_are_listed(x, used),
        calls_are_listed(y, used),
    ensures
        calls_are_listed(x + "\n"@ + y, used),
{
    reveal_strlit("@tie_");
    reveal_strlit("\n");
    let s = x + "\n"@ + y;
    let n = x.len() as int;
    assert(s.subrange(0, n) =~= x);
    assert(s.subrange(n + 1, s.len() as int) =~= y);
    assert forall|i: int| #[trigger] at(s, i, "@tie_"@) implies listed(s, i + 1, used) by {
        let w = s.subrange(i, i + 5);
        if i + 5 <= n {
            lemma_part_at(s, 0, n, i, "@tie_"@);
            let name = choose|z: Seq<char>| used.contains(z) && #[trigger] at(x, i + 1, z + "("@);
            lemma_at_part(s, 0, n, i + 1, name + "("@);
            assert(used.contains(name) && at(s, i + 1, name + "("@));
        } else if i > n {
            lemma_part_at(s, n + 1, s.len() as int, i, "@tie_"@);
            let name = choose|z: Seq<char>|
                used.contains(z) && #[trigger] at(y, i - n - 1 + 1, z + "("@);
            lemma_at_part(s, n + 1, s.len() as int, i - n, name + "("@);
            assert(used.contains(name) && at(s, i + 1, name + "("@));
        } else {
            assert(w[n - i] == s[n]);
            assert(w[0] == '@' && w[1] == 't' && w[2] == 'i' && w[3] == 'e' && w[4] == '_');
        }
    }
}

/// A text behind one that names nothing.
proof fn lemma_behind(x: Seq<char>, y: Seq<char>, used: Seq<Seq<char>>)
    requires
        forall|i: int| 0 <= i < x.len() ==> #[trigger] x[i] != '@',
        calls_are_listed(y, used),
    ensures
        calls_are_listed(x + y, used),
{
    reveal_strlit("@tie_");
    let s = x + y;
    let n = x.len() as int;
    assert(s.subrange(n, s.len() as int) =~= y);
    assert forall|i: int| #[trigger] at(s, i, "@tie_"@) implies listed(s, i + 1, used) by {
        assert(s.subrange(i, i + 5)[0] == s[i]);
        if i < n {
            assert(s[i] == x[i]);
        }
        lemma_part_at(s, n, s.len() as int, i, "@tie_"@);
        let name = choose|z: Seq<char>| used.contains(z) && #[trigger] at(y, i - n + 1, z + "("@);
        lemma_at_part(s, n, s.len() as int, i - n + 1, name + "("@);
        assert(used.contains(name) && at(s, i + 1, name + "("@));
    }
}

proof fn lemma_register_names_nothing(n: int, more: Seq<char>)
    requires
        0 <= n,
        forall|i: int| 0 <= i < more.len() ==> #[trigger] more[i] != '@',
    ensures
        forall|i: int|
            0 <= i < ("%"@ + dec(n) + more).len() ==> #[trigger] ("%"@ + dec(n) + more)[i] != '@',
{
    reveal_strlit("%");
    lemma_nat_dec_value(n as nat);
    let s = "%"@ + dec(n) + more;
    assert forall|i: int| 0 <= i < s.len() implies #[trigger] s[i] != '@' by {
        if 1 <= i < 1 + dec(n).len() {
            assert(s[i] == nat_dec(n as nat)[i - 1]);
        } else if i >= 1 {
            assert(s[i] == more[i - 1 - dec(n).len()]);
        }
    }
}

/// A text stands at a position when its first character does and the rest stands behind it.
proof fn lemma_at_first(s: Seq<char>, i: int, w: Seq<char>)
    requires
        0 <= i,
        w.len() > 0,
    ensures
        at(s, i, w) <==> i < s.len() && s[i] == w[0] && at(s, i + 1, w.skip(1)),
{
    if at(s, i, w) {
        assert(s.subrange(i, i + w.len())[0] == s[i]);
        assert(s.subrange(i + 1, i + w.len()) =~= s.subrange(i, i + w.len()).skip(1));
    }
    if i < s.len() && s[i] == w[0] && at(s, i + 1, w.skip(1)) {
        assert(s.subrange(i, i + w.len()) =~= w) by {
            assert forall|k: int| 0 <= k < w.len() implies #[trigger] s.subrange(i, i + w.len())[k]
                == w[k] by {
                if k > 0 {
                    assert(s.subrange(i + 1, i + w.len())[k - 1] == w.skip(1)[k - 1]);
                }
            }
        }
    }
}

/// A text without registers is copied as it is.
proof fn lemma_copied(s: Seq<char>, i: int, st: Numbers, w: Seq<char>)
    requires
        0 <= i <= s.len(),
        plain_name(w),
    ensures
        at(refs(s, i, st).0, 0, w) <==> at(s, i, w),
    decreases w.len(),
{
    reveal_strlit("%");
    let out = refs(s, i, st).0;
    if w.len() == 0 {
        assert(out.subrange(0, 0) =~= w);
        assert(s.subrange(i, i) =~= w);
    } else {
        lemma_at_first(out, 0, w);
        lemma_at_first(s, i, w);
        assert(w[0] != '%');
        if i < s.len() && s[i] == '%' && digits_end(s, i + 1) > i + 1 {
            assert(out[0] == '%');
        } else if i < s.len() {
            let rest = refs(s, i + 1, st).0;
            assert(out =~= seq![s[i]] + rest);
            let v = w.skip(1);
            assert(plain_name(v)) by {
                assert forall|j: int| 0 <= j < v.len() implies #[trigger] v[j] != '%' && v[j]
                    != '\n' && v[j] != '\r' by {
                    assert(v[j] == w[j + 1]);
                }
            }
            lemma_copied(s, i + 1, st, v);
            assert(out.subrange(1, out.len() as int) =~= rest);
            if at(out, 1, v) {
                lemma_part_at(out, 1, out.len() as int, 1, v);
            }
            if at(rest, 0, v) {
                lemma_at_part(out, 1, out.len() as int, 0, v);
            }
        }
    }
}

proof fn lemma_refs_list(s: Seq<char>, i: int, st: Numbers, used: Seq<Seq<char>>)
    requires
        0 <= i <= s.len(),
        calls_are_listed(s, used),
        plain_names(used),
    ensures
        calls_are_listed(refs(s, i, st).0, used),
    decreases s.len() - i,
{
    reveal_strlit("@tie_");
    let out = refs(s, i, st).0;
    if i < s.len() {
        lemma_digits_end(s, i + 1);
        if s[i] == '%' && digits_end(s, i + 1) > i + 1 {
            let e = digits_end(s, i + 1);
            let (n, st2) = number(st, register(s.subrange(i + 1, e)));
            lemma_refs_list(s, e, st2, used);
            lemma_register_names_nothing(n as int, Seq::empty());
            assert("%"@ + dec(n as int) + Seq::empty() =~= "%"@ + dec(n as int));
            lemma_behind("%"@ + dec(n as int), refs(s, e, st2).0, used);
        } else {
            let rest = refs(s, i + 1, st).0;
            lemma_refs_list(s, i + 1, st, used);
            assert(out.subrange(1, out.len() as int) =~= rest);
            assert forall|j: int| #[trigger] at(out, j, "@tie_"@) implies listed(
                out,
                j + 1,
                used,
            ) by {
                if j == 0 {
                    assert(plain_name("@tie_"@));
                    lemma_copied(s, i, st, "@tie_"@);
                    let x = choose|x: Seq<char>|
                        used.contains(x) && #[trigger] at(s, i + 1, x + "("@);
                    lemma_call_is_plain(x);
                    lemma_copied(s, i + 1, st, x + "("@);
                    lemma_at_part(out, 1, out.len() as int, 0, x + "("@);
                    assert(used.contains(x) && at(out, j + 1, x + "("@));
                } else {
                    lemma_part_at(out, 1, out.len() as int, j, "@tie_"@);
                    let x = choose|x: Seq<char>|
                        used.contains(x) && #[trigger] at(rest, j - 1 + 1, x + "("@);
                    lemma_at_part(out, 1, out.len() as int, j, x + "("@);
                    assert(used.contains(x) && at(out, j + 1, x + "("@));
                }
            }
        }
    }
}

proof fn lemma_line_lists(s: Seq<char>, st: Numbers, used: Seq<Seq<char>>)
    requires
        calls_are_listed(s, used),
        plain_names(used),
    ensures
        calls_are_listed(line(s, st).0, used),
{
    let b = black_from(s, 0, s.len() as int);
    lemma_black(s, 0);
    let t = s.skip(b);
    assert(t =~= s.subrange(b, s.len() as int));
    lemma_part_lists(s, b, s.len() as int, used);
    reveal_strlit("%");
    reveal_strlit(" = ");
    if t.len() > 0 {
        lemma_digits_end(t, 1);
        let e = digits_end(t, 1);
        lemma_refs_list(t, 0, st, used);
        if t[0] == '%' && e > 1 {
            let (n, st2) = number(st, register(t.subrange(1, e)));
            assert(t.skip(e) =~= t.subrange(e, t.len() as int));
            lemma_part_lists(t, e, t.len() as int, used);
            lemma_refs_list(t.skip(e), 0, st2, used);
            lemma_register_names_nothing(n as int, Seq::empty());
            assert("%"@ + dec(n as int) + Seq::empty() =~= "%"@ + dec(n as int));
            lemma_behind("%"@ + dec(n as int), refs(t.skip(e), 0, st2).0, used);
        } else {
            let (text, st2) = refs(t, 0, st);
            lemma_register_names_nothing(st2.next as int, " = "@);
            lemma_behind("%"@ + dec(st2.next as int) + " = "@, text, used);
        }
        assert(calls_are_listed(instruction(t, st).0, used));
    }
}

proof fn lemma_black(s: Seq<char>, i: int)
    requires
        0 <= i <= s.len(),
    ensures
        i <= black_from(s, i, s.len() as int) <= s.len(),
    decreases s.len() - i,
{
    if i < s.len() {
        lemma_black(s, i + 1);
    }
}

proof fn lemma_line_stop(s: Seq<char>, i: int)
    requires
        0 <= i <= s.len(),
    ensures
        line_end(s, i) < s.len() ==> s[line_end(s, i)] == '\n',
    decreases s.len() - i,
{
    if i < s.len() && s[i] != '\n' {
        lemma_line_stop(s, i + 1);
    }
}

/// The instructions of a text that calls listed functions do so when they are renumbered.
pub proof fn law_numbering_keeps_calls(s: Seq<char>, i: int, st: Numbers, used: Seq<Seq<char>>)
    requires
        0 <= i,
        calls_are_listed(s, used),
        well_noted(used),
    ensures
        calls_are_listed(renumber_from(s, i, st), used),
    decreases s.len() - i + 1,
{
    lemma_noted_are_plain(used);
    reveal_strlit("@tie_");
    if i < s.len() {
        let e = line_end(s, i);
        lemma_line_end(s, i);
        lemma_line_stop(s, i);
        let l = line_at(s, i, e);
        if e < s.len() && i < e && s[e - 1] == '\r' {
            lemma_part_lists(s, i, e - 1, used);
        } else {
            lemma_part_lists(s, i, e, used);
        }
        let (text, st2) = line(l, st);
        lemma_line_lists(l, st, used);
        law_numbering_keeps_calls(s, e + 1, st2, used);
        lemma_lines_list(text, renumber_from(s, e + 1, st2), used);
    }
}

/// The code of a module, its string constants among it, where no constant holds the name of a
/// library function.
pub proof fn lemma_code_lists(sem: Sem, p: Program)
    requires
        calls_are_listed(functions_part(sem, p).out, functions_part(sem, p).used),
        names_nothing(code_part(sem, p).globals),
    ensures
        calls_are_listed(code_part(sem, p).out, functions_part(sem, p).used),
{
    reveal(put);
    let g = functions_part(sem, p);
    lemma_lines_list(g.out, g.globals, g.used);
    assert(code_part(sem, p).out =~= g.out + "\n"@ + g.globals);
}

/// Where the text calls a library function, that function is listed and the text declares it,
/// as `gen_ir` makes it.
pub proof fn law_calls_in_the_text_are_declared(sem: Sem, p: Program, text: Seq<char>, i: int)
    requires
        calls_are_listed(text, module_code(sem, p).used),
        well_noted(module_code(sem, p).used),
        at(text, i, "@tie_"@),
    ensures
        exists|symbol: Seq<char>|
            {
                &&& #[trigger] at(text, i + 1, symbol + "("@)
                &&& module_code(sem, p).used.contains(symbol)
                &&& declaration(row(symbol)).0 == symbol
                &&& needed(module_code(sem, p).used, LIBRARY as nat).contains(
                    declaration(row(symbol)).1,
                )
            },
{
    let used = module_code(sem, p).used;
    let symbol = choose|x: Seq<char>| used.contains(x) && #[trigger] at(text, i + 1, x + "("@);
    let k = choose|k: int| 0 <= k < used.len() && used[k] == symbol;
    assert(declared(used[k]));
    lemma_row(symbol);
    law_listed_are_declared(sem, p, row(symbol));
}

} // verus!
