//! The generator of LLVM IR: programs that passed semantic analysis become text.
use crate::ast::{
    is_typed, is_unsigned, BinaryOp, Block, ClassInfo, Expr, ExprKind, Exprs, FnDef, FuncSig,
    Program, Sem, Stmt, SwitchCase, TupleField, TyKw, TypeSpec, UnaryOp,
};
use crate::calm::{
    all_calm, all_sober, calm, functions_part, good, group_calm, half, header_texts_1, how_calm,
    lemma_apart, lemma_blank_is_good, lemma_fresh, lemma_slot_line, lemma_together, lively,
    plain_fns, plain_params, plain_program, plain_sem, sober, tame,
};
use crate::emit::{
    blank, close_scope, label, leave_loop, note, open_scope, opt_view, ordinary, put, BindV, Gen,
    GenV, Operand,
};
use crate::choices::{
    block_at, bodies_at, body_start, case_at, case_start, cases_at, default_label_code,
    law_case_body_code, law_case_code, lemma_bodies_more, lemma_bodies_none,
    lemma_labels_write_nothing, lemma_end, lemma_no_cases, lemma_switch, lemma_table_cases,
    lemma_table_line, lemma_tried_cases, lemma_tried_more, lemma_tried_none, end_at, switch_decides,
    switch_end_code, switch_from, switch_rest_code, table_line, tests_end, tests_start, tried,
};
use crate::counting::{
    dynamic_body, dynamic_counts, law_dynamic_code, law_range_code, law_table_code, range_body,
    range_counts, table_body, table_counts,
};
use crate::flow::{
    adds, if_decides, if_no, if_yes, law_if_code, law_ternary_code, law_while_code, lemma_kept_adds,
    ternary_decides, ternary_no, ternary_yes, while_body, while_decides, while_top,
};
use crate::frames::{
    advanced, advanced_by_body, begins, calls_listed, code_part, group_kept, kept,
    law_declarations_are_final, lemma_declares, lemma_kept_places, needed, well_noted,
};
use crate::irtable::{
    bridge, bridge_of, bridge_symbol_of, bridge_text_of, fail_tail_of, is_freeing, is_math_fn,
    is_number_ty, math_fn, mixed_opcode_of, one_of, op_name_of, opcode_of, predicate_of,
    ret_llvm_of, shown_of, slot_size_of, step_of, Bridge, Fails, Ret,
};
use crate::irtext::{
    mangle, named_llvm_of, ns_symbol, parse_array_elem_ty, parse_array_shape, table_elem_suffix,
    table_new_elem_size, tuple_field_index, type_name_of, zero_value,
};
use crate::lower::{
    any_first_code, any_of_code, arg_code, arg_expr, arg_value_code, argc, args_of, assign_code,
    bad_iter_code, binary_code, binary_mixed_code, binary_regs_code, binary_str_code,
    binary_trit_code, bind_params_code, block_code, body_code, bridge_call_code, bridge_end_code,
    bridge_vals_code, call_args_code, call_code, capped, case_body_code, case_labels_code,
    cases_code, cell_count, checked_at_code, class_addr_code, class_tys_code, conds_code,
    construct_code, construct_fields_code, declaration, declare_code, declares_code,
    deep_struct_code, deep_ty_code, default_of, depth, dyn_elem_code, dyn_table_var_code,
    dynamic_arg, dynamic_expr, entries, entry, exit_code, expr_code, expr_stmt_code, extend_code,
    field_addr_code, field_assign_code, field_code, field_value_code, fields_of, file_delete_code,
    file_exists_code, file_write_code, first_param, first_ty, fixed_table, fixed_table_var_code,
    flag_check_code, fn_body_code, fn_code, fn_head_code, fn_tail_code, fns_code, for_dynamic_code,
    for_range_code, for_stmt_code, for_table_code, frees_call, global_code, globals_code,
    header_code, if_stmt_code, inc_dec_code, index_assign_code, index_code, index_var_code, init_of,
    is_value, last_sep, lemma_arg, len_code, len_of_code, literal_arg, literal_code, literal_len,
    loop_end_code, math_code, method_fn, module_code, noted_ty_code, one_arg_code, one_case_code,
    param_ty_code, params_code, params_of, pattern_code, plain_case, pow_code, print_as_code,
    print_value_code, printf_code, promote_code, rand_range_code, range_ty, read_var_code,
    receiver_addr_code, receiver_value_code, ret_elem_code, ret_ty_code, return_stmt_code,
    returns_named, runtime_error_code, set_dynamic_code, slots, stmt_code, stmts_code,
    store_cells_code, store_to_code, struct_ty_code, subject_code, switch_cases_code,
    switch_stmt_code, switch_table_code, switch_test, table_at_code, table_bodies_code,
    table_cells_code, table_decl_code, table_len_code, table_push_code, table_switch, ternary_code,
    to_string_code, trit_arith_code, trit_literal, tuple_code, tuple_field_code, tuple_size,
    tuple_tys_code, tuple_values_code, ty_code, typed_arg, unary_code, unary_value_code,
    unsigned_arg, user_call_code, value_code, var_arg, var_decl_code, var_elem_code,
    while_stmt_code, HowV, LIBRARY,
};
use crate::module_text::{
    bodies_reserve_nothing, calls_are_listed, law_numbering_keeps_calls, lemma_code_lists,
    lemma_good_shows, names_nothing,
};
use crate::numbering;
use crate::numbering::{renumber_ir, renumbered};
use crate::text::{
    cat10, cat11, cat12, cat2, cat3, cat4, cat5, cat6, cat7, cat8, cat9, chars_of, dec_i64, dec_u64,
    dec_usize, flat, join_strings, lit, same, string_of, views,
};
use crate::value::is_comparison;
use std::rc::Rc;
use vstd::prelude::*;

verus! {

broadcast use {group_calm, group_kept};

fn argc_of(e: &Expr) -> (r: usize)
    ensures
        r == argc(*e),
        r == args_of(*e).len(),
{
    match &e.kind {
        ExprKind::Call { args, .. } => args.len(),
        ExprKind::MethodCall { args, .. } => args.len(),
        _ => 0,
    }
}

fn arg_expr_of(e: &Expr, i: usize) -> (r: Option<&Expr>)
    ensures
        match r {
            Some(a) => arg_expr(*e, i) == Some(*a),
            None => arg_expr(*e, i) is None,
        },
{
    match &e.kind {
        ExprKind::Call { args, .. } => if i < args.len() {
            Some(&*args[i])
        } else {
            None
        },
        ExprKind::MethodCall { args, .. } => if i < args.len() {
            Some(&*args[i])
        } else {
            None
        },
        _ => None,
    }
}

fn is_unsigned_arg(e: &Expr, i: usize) -> (r: bool)
    ensures
        r == unsigned_arg(*e, i),
{
    match arg_expr_of(e, i) {
        Some(a) => is_unsigned(a),
        None => false,
    }
}

fn is_typed_arg(e: &Expr, i: usize, k: TyKw) -> (r: bool)
    ensures
        r == typed_arg(*e, i, k),
{
    match arg_expr_of(e, i) {
        Some(a) => is_typed(a, k),
        None => false,
    }
}

fn is_dynamic_expr(sem: &Sem, func: &str, e: &Expr) -> (r: bool)
    ensures
        r == dynamic_expr(*sem, func@, *e),
{
    match &e.kind {
        ExprKind::Var(name) => sem.dynamic_table(func, name.as_str()),
        _ => false,
    }
}

fn is_dynamic_arg(sem: &Sem, func: &str, e: &Expr) -> (r: bool)
    ensures
        r == dynamic_arg(*sem, func@, *e),
{
    match arg_expr_of(e, 0) {
        Some(a) => is_dynamic_expr(sem, func, a),
        None => false,
    }
}

fn var_arg_of(e: &Expr) -> (r: Option<&str>)
    ensures
        match r {
            Some(s) => var_arg(*e) == Some(s@),
            None => var_arg(*e) is None,
        },
{
    match arg_expr_of(e, 0) {
        Some(a) => match &a.kind {
            ExprKind::Var(name) => Some(name.as_str()),
            _ => None,
        },
        None => None,
    }
}

fn is_literal_arg(e: &Expr) -> (r: bool)
    ensures
        r == literal_arg(*e),
{
    match arg_expr_of(e, 0) {
        Some(a) => matches!(a.kind, ExprKind::TableLit { .. }),
        None => false,
    }
}

fn literal_len_of(e: &Expr) -> (r: Option<usize>)
    ensures
        r == literal_len(*e),
{
    match arg_expr_of(e, 0) {
        Some(a) => match (&a.kind, &a.note.table) {
            (ExprKind::TableLit { .. }, Some(info)) => Some(info.len),
            _ => None,
        },
        None => None,
    }
}

fn first_ty_of(sig: &FuncSig) -> (r: Option<&TypeSpec>)
    ensures
        match r {
            Some(t) => first_ty(*sig) == Some(*t),
            None => first_ty(*sig) is None,
        },
{
    if sig.param_tys.len() > 0 {
        Some(&sig.param_tys[0])
    } else {
        None
    }
}

fn param_default(sig: &FuncSig, n: usize) -> (r: Option<&Rc<Expr>>)
    ensures
        match r {
            Some(x) => default_of(*sig, n) == Some(*x),
            None => default_of(*sig, n) is None,
        },
{
    if 0 < n && n <= sig.param_defaults.len() {
        match &sig.param_defaults[n - 1] {
            Some(x) => Some(x),
            None => None,
        }
    } else {
        None
    }
}

fn field_init(c: &ClassInfo, i: usize) -> (r: Option<&Rc<Expr>>)
    ensures
        match r {
            Some(x) => init_of(*c, i) == Some(*x),
            None => init_of(*c, i) is None,
        },
{
    if i < c.fields.len() {
        match &c.fields[i].init {
            Some(x) => Some(x),
            None => None,
        }
    } else {
        None
    }
}

fn tuple_size_of(e: &Expr) -> (r: usize)
    ensures
        r == tuple_size(*e),
{
    match (&e.kind, &e.note.ty) {
        (ExprKind::TupleLit { fields }, Some(TypeSpec::Tuple(tys))) => if fields.len() < tys.len() {
            fields.len()
        } else {
            tys.len()
        },
        _ => 0,
    }
}

fn find_last_sep(v: &Vec<char>, to: usize) -> (r: Option<usize>)
    requires
        to <= v@.len(),
    ensures
        match r {
            Some(i) => last_sep(v@, to as int) == Some(i as int) && i + 2 <= to,
            None => last_sep(v@, to as int) is None,
        },
{
    let mut e: usize = to;
    while e >= 2
        invariant
            e <= to <= v@.len(),
            last_sep(v@, to as int) == last_sep(v@, e as int),
        decreases e,
    {
        if v[e - 2] == ':' && v[e - 1] == ':' {
            return Some(e - 2);
        }
        e = e - 1;
    }
    None
}

/// Whether a function is a method of the struct that its first parameter is of.
fn is_method_fn(full: &str, first: Option<&TypeSpec>) -> (r: bool)
    ensures
        r == method_fn(
            full@,
            match first {
                Some(t) => Some(*t),
                None => None,
            },
        ),
{
    match first {
        Some(TypeSpec::Struct(name)) => {
            let v = chars_of(full);
            match find_last_sep(&v, v.len()) {
                Some(i) => {
                    let ns = string_of(&v, 0, i);
                    assert(ns@ =~= full@.take(i as int));
                    let w = chars_of(ns.as_str());
                    match find_last_sep(&w, w.len()) {
                        Some(j) => {
                            let last = string_of(&w, j + 2, w.len());
                            assert(last@ =~= ns@.skip(j + 2));
                            same(last.as_str(), name.as_str())
                        },
                        None => same(ns.as_str(), name.as_str()),
                    }
                },
                None => false,
            }
        },
        _ => false,
    }
}

fn depth_of(sem: &Sem) -> (r: u128)
    ensures
        r == depth(*sem),
{
    let mut total: u128 = 0;
    for i in 0..sem.funcs.len()
        invariant
            total == capped(params_of(sem.funcs@, i as nat)),
    {
        total = total.saturating_add(sem.funcs[i].param_defaults.len() as u128);
    }
    for i in 0..sem.classes.len()
        invariant
            total == capped(
                params_of(sem.funcs@, sem.funcs@.len()) + fields_of(sem.classes@, i as nat),
            ),
    {
        total = total.saturating_add(sem.classes[i].fields.len() as u128);
    }
    total
}

fn is_trit(t: &Option<TypeSpec>) -> (r: bool)
    ensures
        r == (*t == Some(TypeSpec::Named(TyKw::Trit))),
{
    match t {
        Some(x) => x.is_named(TyKw::Trit),
        None => false,
    }
}

fn is_fixed_table(t: &Option<TypeSpec>, init: &Expr) -> (r: bool)
    ensures
        r == fixed_table(*t, *init),
{
    match t {
        Some(x) => x.is_table(),
        None => matches!(init.kind, ExprKind::TableLit { .. }),
    }
}

fn trit_literal_of(wanted: bool, e: &Expr) -> (r: Option<i8>)
    ensures
        r == trit_literal(wanted, *e),
{
    match &e.kind {
        ExprKind::BoolLit(b) => if !wanted {
            None
        } else if *b {
            Some(1i8)
        } else {
            Some(-1i8)
        },
        ExprKind::TritLit(v) => if wanted {
            Some(*v)
        } else {
            None
        },
        _ => None,
    }
}

fn is_returning(sem: &Sem, func: &str, k: TyKw) -> (r: bool)
    ensures
        r == returns_named(*sem, func@, k),
{
    match sem.sig_of(func) {
        Some(sig) => sig.ret_ty.is_named(k),
        None => k == TyKw::I64,
    }
}

fn cell_count_of(e: &Expr) -> (r: usize)
    ensures
        r == cell_count(*e),
{
    match &e.kind {
        ExprKind::TableLit { cells } => cells.len(),
        _ => 0,
    }
}

fn is_freeing_call(e: &Expr) -> (r: bool)
    ensures
        r == frees_call(*e),
{
    match &e.kind {
        ExprKind::Call { name, .. } => is_freeing(name.as_str()),
        _ => false,
    }
}

/// How a switch tests its cases.
struct How {
    subject: String,
    test: String,
    is_str: bool,
    is_char: bool,
    default: String,
    exit: String,
}

impl View for How {
    type V = HowV;

    closed spec fn view(&self) -> HowV {
        HowV {
            subject: self.subject@,
            test: self.test@,
            is_str: self.is_str,
            is_char: self.is_char,
            default: self.default@,
            exit: self.exit@,
        }
    }
}

fn range_ty_of(is_char: bool) -> (r: &'static str)
    ensures
        r@ == range_ty(is_char),
{
    if is_char {
        "i32"
    } else {
        "i64"
    }
}

fn switch_test_of(is_str: bool, t: &str, is_char: bool) -> (r: &'static str)
    ensures
        r@ == switch_test(is_str, t@, is_char),
{
    if is_str {
        "strcmp"
    } else if same(t, "i1") {
        "icmp eq i1"
    } else if same(t, "double") || same(t, "float") {
        "fcmp oeq double"
    } else if is_char {
        "icmp eq i32"
    } else {
        "icmp eq i64"
    }
}

/// Whether a switch can become a jump table: an integer is compared with one integer in
/// each case, and no case has a condition.
fn can_emit_switch_table(
    cases: &Rc<Vec<SwitchCase>>,
    is_str: bool,
    is_char: bool,
    t: &str,
) -> (r: bool)
    ensures
        r == table_switch(*cases, is_str, is_char, t@),
{
    if is_str || is_char || same(t, "i1") || same(t, "double") || same(t, "float") || cases.len()
        == 0 {
        return false;
    }
    for i in 0..cases.len()
        invariant
            forall|j: int| 0 <= j < i ==> plain_case(#[trigger] cases@[j]),
    {
        let c = &cases[i];
        let plain = c.when.is_none() && c.patterns.len() == 1 && matches!(
            c.patterns[0].kind,
            ExprKind::IntLit(_)
        );
        assert(plain == plain_case(cases@[i as int]));
        if !plain {
            return false;
        }
    }
    true
}

fn entries_of(cases: &Rc<Vec<SwitchCase>>, labels: &Vec<String>) -> (r: String)
    requires
        forall|i: int| 0 <= i < cases@.len() ==> plain_case(#[trigger] cases@[i]),
    ensures
        r@ == entries(*cases, views(labels@)),
{
    reveal(entries);
    let ghost all = Seq::new(
        cases@.len(),
        |i: int|
            if i < views(labels@).len() {
                entry(cases@[i], views(labels@)[i])
            } else {
                ""@
            },
    );
    let mut parts: Vec<String> = Vec::new();
    for i in 0..cases.len()
        invariant
            parts@.len() == i,
            all.len() == cases@.len(),
            forall|j: int| 0 <= j < cases@.len() ==> plain_case(#[trigger] cases@[j]),
            forall|j: int|
                0 <= j < cases@.len() ==> #[trigger] all[j] == (if j < labels@.len() {
                    entry(cases@[j], views(labels@)[j])
                } else {
                    ""@
                }),
            forall|j: int| 0 <= j < i ==> #[trigger] parts@[j]@ == all[j],
    {
        assert(plain_case(cases@[i as int]));
        let text = if i < labels.len() {
            match &cases[i].patterns[0].kind {
                ExprKind::IntLit(v) => cat4(
                    "i64 ",
                    dec_i64(*v).as_str(),
                    ", label %",
                    labels[i].as_str(),
                ),
                _ => lit(""),
            }
        } else {
            lit("")
        };
        parts.push(text);
        assert(parts@[i as int]@ == all[i as int]);
    }
    assert(views(parts@) =~= all);
    join_strings(&parts, "\n    ")
}

fn first_param_of(f: &FnDef) -> (r: Option<&TypeSpec>)
    ensures
        match r {
            Some(t) => first_param(*f) == Some(*t),
            None => first_param(*f) is None,
        },
{
    if f.params.len() > 0 {
        Some(&f.params[0].ty)
    } else {
        None
    }
}

fn push_strings(to: &mut Vec<String>, from: &Vec<String>)
    ensures
        views(final(to)@) == views(old(to)@) + views(from@),
{
    assert(views(to@) + views(from@).take(0) =~= views(to@));
    for i in 0..from.len()
        invariant
            views(to@) == views(old(to)@) + views(from@).take(i as int),
    {
        let ghost before = views(to@);
        to.push(from[i].clone());
        assert(views(to@) =~= before.push(from@[i as int]@));
        assert(views(old(to)@) + views(from@).take(i + 1) =~= (views(old(to)@) + views(from@).take(
            i as int,
        )).push(views(from@)[i as int]));
    }
    assert(views(from@).take(from@.len() as int) =~= views(from@));
}

fn dup_strings(from: &Vec<String>) -> (r: Vec<String>)
    ensures
        views(r@) == views(from@),
{
    let mut r: Vec<String> = Vec::new();
    push_strings(&mut r, from);
    assert(views(r@) =~= views(from@));
    r
}

/// The library functions and their declarations.
fn declaration_of(i: usize) -> (r: (&'static str, &'static str))
    requires
        i < LIBRARY,
    ensures
        (r.0@, r.1@) == declaration(i as int),
{
    if i == 0 {
        ("tie_read_line", "declare ptr @tie_read_line()\n")
    } else if i == 1 {
        ("tie_eval_expr", "declare ptr @tie_eval_expr(ptr)\n")
    } else if i == 2 {
        ("tie_eval_call", "declare ptr @tie_eval_call(ptr, ptr)\n")
    } else if i == 3 {
        ("tie_free_result", "declare void @tie_free_result(ptr)\n")
    } else if i == 4 {
        ("tie_file_read", "declare ptr @tie_file_read(ptr)\n")
    } else if i == 5 {
        ("tie_str_char", "declare ptr @tie_str_char(ptr, i64)\n")
    } else if i == 6 {
        ("tie_str_len", "declare i64 @tie_str_len(ptr)\n")
    } else if i == 7 {
        ("tie_to_string_i64", "declare ptr @tie_to_string_i64(i64)\n")
    } else if i == 8 {
        ("tie_to_string_f64", "declare ptr @tie_to_string_f64(double)\n")
    } else if i == 9 {
        ("tie_parse_int", "declare i64 @tie_parse_int(ptr, ptr)\n")
    } else if i == 10 {
        ("tie_parse_float", "declare double @tie_parse_float(ptr, ptr)\n")
    } else if i == 11 {
        ("tie_parse_trit", "declare i8 @tie_parse_trit(ptr, ptr)\n")
    } else if i == 12 {
        ("tie_time_now", "declare i64 @tie_time_now()\n")
    } else if i == 13 {
        ("tie_rand_range", "declare i64 @tie_rand_range(i64, i64, ptr)\n")
    } else if i == 14 {
        ("tie_arg_count", "declare i64 @tie_arg_count()\n")
    } else if i == 15 {
        ("tie_arg_string", "declare ptr @tie_arg_string(i64)\n")
    } else if i == 16 {
        ("tie_list_dir", "declare ptr @tie_list_dir(ptr)\n")
    } else if i == 17 {
        ("tie_regex_match", "declare i8 @tie_regex_match(ptr, ptr, ptr)\n")
    } else if i == 18 {
        ("tie_regex_find", "declare ptr @tie_regex_find(ptr, ptr)\n")
    } else if i == 19 {
        ("tie_regex_find_all", "declare ptr @tie_regex_find_all(ptr, ptr)\n")
    } else if i == 20 {
        ("tie_regex_replace", "declare ptr @tie_regex_replace(ptr, ptr, ptr)\n")
    } else if i == 21 {
        ("tie_regex_group", "declare ptr @tie_regex_group(ptr, ptr, i64)\n")
    } else if i == 22 {
        ("tie_msg_set_lang", "declare void @tie_msg_set_lang(ptr)\n")
    } else if i == 23 {
        ("tie_msg_get_lang", "declare ptr @tie_msg_get_lang()\n")
    } else if i == 24 {
        ("tie_msg_register", "declare void @tie_msg_register(ptr, ptr, ptr)\n")
    } else if i == 25 {
        ("tie_msg_t", "declare ptr @tie_msg_t(ptr)\n")
    } else if i == 26 {
        ("tie_print_err", "declare void @tie_print_err(ptr)\n")
    } else if i == 27 {
        ("tie_msg_t_lang", "declare ptr @tie_msg_t_lang(ptr, ptr)\n")
    } else if i == 28 {
        ("tie_table_new", "declare ptr @tie_table_new(i64)\n")
    } else if i == 29 {
        ("tie_table_free", "declare void @tie_table_free(ptr)\n")
    } else if i == 30 {
        ("tie_table_len", "declare i64 @tie_table_len(ptr)\n")
    } else if i == 31 {
        ("tie_table_push_i64", "declare void @tie_table_push_i64(ptr, i64)\n")
    } else if i == 32 {
        ("tie_table_push_f64", "declare void @tie_table_push_f64(ptr, double)\n")
    } else if i == 33 {
        ("tie_table_push_string", "declare void @tie_table_push_string(ptr, ptr)\n")
    } else if i == 34 {
        ("tie_table_push_bool", "declare void @tie_table_push_bool(ptr, i1)\n")
    } else if i == 35 {
        ("tie_table_at_i64", "declare i64 @tie_table_at_i64(ptr, i64, ptr)\n")
    } else if i == 36 {
        ("tie_table_at_f64", "declare double @tie_table_at_f64(ptr, i64, ptr)\n")
    } else if i == 37 {
        ("tie_table_at_string", "declare ptr @tie_table_at_string(ptr, i64, ptr)\n")
    } else if i == 38 {
        ("tie_table_at_bool", "declare i1 @tie_table_at_bool(ptr, i64, ptr)\n")
    } else if i == 39 {
        ("tie_table_set_i64", "declare void @tie_table_set_i64(ptr, i64, i64, ptr)\n")
    } else if i == 40 {
        ("tie_table_set_f64", "declare void @tie_table_set_f64(ptr, i64, double, ptr)\n")
    } else if i == 41 {
        ("tie_table_set_string", "declare void @tie_table_set_string(ptr, i64, ptr, ptr)\n")
    } else if i == 42 {
        ("tie_table_set_bool", "declare void @tie_table_set_bool(ptr, i64, i1, ptr)\n")
    } else if i == 43 {
        ("tie_http_get", "declare ptr @tie_http_get(ptr)\n")
    } else if i == 44 {
        ("tie_http_get_file", "declare i8 @tie_http_get_file(ptr, ptr)\n")
    } else if i == 45 {
        ("tie_exec_code", "declare i64 @tie_exec_code(ptr)\n")
    } else if i == 46 {
        ("tie_exec_output", "declare ptr @tie_exec_output(ptr)\n")
    } else if i == 47 {
        ("tie_untar_gz", "declare i8 @tie_untar_gz(ptr, ptr)\n")
    } else if i == 48 {
        ("tie_unzip", "declare i8 @tie_unzip(ptr, ptr)\n")
    } else if i == 49 {
        ("tie_mkdir_all", "declare i8 @tie_mkdir_all(ptr)\n")
    } else if i == 50 {
        ("tie_remove_dir_all", "declare i8 @tie_remove_dir_all(ptr)\n")
    } else if i == 51 {
        ("tie_copy_dir", "declare i8 @tie_copy_dir(ptr, ptr)\n")
    } else if i == 52 {
        ("tie_walk_dir", "declare ptr @tie_walk_dir(ptr)\n")
    } else if i == 53 {
        ("tie_path_join", "declare ptr @tie_path_join(ptr, ptr)\n")
    } else if i == 54 {
        ("tie_path_basename", "declare ptr @tie_path_basename(ptr)\n")
    } else if i == 55 {
        ("tie_path_dirname", "declare ptr @tie_path_dirname(ptr)\n")
    } else if i == 56 {
        ("tie_path_abs", "declare ptr @tie_path_abs(ptr)\n")
    } else if i == 57 {
        ("tie_path_normalize", "declare ptr @tie_path_normalize(ptr)\n")
    } else if i == 58 {
        ("tie_cwd", "declare ptr @tie_cwd()\n")
    } else if i == 59 {
        ("tie_get_env", "declare ptr @tie_get_env(ptr)\n")
    } else if i == 60 {
        ("tie_set_env", "declare void @tie_set_env(ptr, ptr)\n")
    } else if i == 61 {
        ("tie_file_copy", "declare i8 @tie_file_copy(ptr, ptr)\n")
    } else if i == 62 {
        ("tie_file_move", "declare i8 @tie_file_move(ptr, ptr)\n")
    } else if i == 63 {
        ("tie_byte_read", "declare ptr @tie_byte_read(ptr)\n")
    } else if i == 64 {
        ("tie_byte_write", "declare i8 @tie_byte_write(ptr, ptr)\n")
    } else if i == 65 {
        ("tie_bit_read", "declare i64 @tie_bit_read(ptr, i64)\n")
    } else if i == 66 {
        ("tie_bit_write", "declare i8 @tie_bit_write(ptr, i64, i64)\n")
    } else {
        ("tie_byte_concat", "declare ptr @tie_byte_concat(ptr, ptr)\n")
    }
}

impl Gen {
    fn is_value(&self, e: &Expr) -> (r: bool)
        ensures
            r == is_value(self@, *e),
        decreases e,
    {
        match &e.kind {
            ExprKind::Var(name) => self.bound(name.as_str()).is_some(),
            ExprKind::FieldAccess { base, .. } => self.is_value(&**base),
            ExprKind::MethodCall { .. } | ExprKind::Call { .. } | ExprKind::TupleLit { .. } => true,
            _ => false,
        }
    }

    fn deep_ty(&mut self, sem: &Sem, t: &TypeSpec, d: u128) -> (r: String)
        ensures
            (final(self)@, r@) == deep_ty_code(*sem, old(self)@, *t, d as nat),
            kept(old(self)@, final(self)@, true),
            tame(old(self)@, final(self)@, plain_sem(*sem)),
            sober(old(self)@, final(self)@, plain_sem(*sem), r@),
        decreases 2 * d + 1, t, 1int, 0int,
    {
        match t {
            TypeSpec::Table(_) => lit("ptr"),
            TypeSpec::Named(k) => match named_llvm_of(*k) {
                Some(s) => lit(s),
                None => {
                    let m = cat3(
                        "内部错误：宽类型没有 LLVM 类型（函数 ",
                        self.cur_fn.as_str(),
                        "）",
                    );
                    self.fail(m);
                    lit("")
                },
            },
            TypeSpec::Tuple(fields) => {
                let parts = self.tuple_tys(sem, fields, fields.len(), d);
                cat3("{", join_strings(&parts, ", ").as_str(), "}")
            },
            TypeSpec::Struct(name) => self.deep_struct(sem, name.as_str(), d),
        }
    }

    fn tuple_tys(&mut self, sem: &Sem, fields: &Rc<Vec<TupleField>>, n: usize, d: u128) -> (r: Vec<
        String,
    >)
        ensures
            (final(self)@, views(r@)) == tuple_tys_code(*sem, old(self)@, *fields, n, d as nat),
            kept(old(self)@, final(self)@, true),
            tame(old(self)@, final(self)@, plain_sem(*sem)),
            all_sober(old(self)@, final(self)@, plain_sem(*sem), views(r@)),
        decreases 2 * d + 1, fields, 0int, n,
    {
        if n == 0 || n > fields.len() {
            let none: Vec<String> = Vec::new();
            assert(views(none@) =~= Seq::<Seq<char>>::empty());
            none
        } else {
            proof {
                assert(decreases_to!(fields => fields@));
                assert(decreases_to!(fields@ => fields@[n - 1]));
                assert(decreases_to!(fields@[n - 1] => fields@[n - 1].ty));
            }
            let mut parts = self.tuple_tys(sem, fields, n - 1, d);
            let ghost before = views(parts@);
            let t = self.deep_ty(sem, &fields[n - 1].ty, d);
            parts.push(t);
            assert(views(parts@) =~= before.push(t@));
            parts
        }
    }

    fn deep_struct(&mut self, sem: &Sem, name: &str, d: u128) -> (r: String)
        ensures
            (final(self)@, r@) == deep_struct_code(*sem, old(self)@, name@, d as nat),
            kept(old(self)@, final(self)@, true),
            tame(old(self)@, final(self)@, plain_sem(*sem)),
            sober(old(self)@, final(self)@, plain_sem(*sem), r@),
        decreases 2 * d, sem, 1int, 0int,
    {
        match sem.class_of(name) {
            Some(c) => {
                let parts = self.class_tys(sem, c, c.fields.len(), d);
                cat3("{", join_strings(&parts, ", ").as_str(), "}")
            },
            None => {
                let m = cat5(
                    "内部错误：struct '",
                    name,
                    "' 无信息（函数 ",
                    self.cur_fn.as_str(),
                    "）",
                );
                self.fail(m);
                lit("")
            },
        }
    }

    fn class_tys(&mut self, sem: &Sem, c: &ClassInfo, n: usize, d: u128) -> (r: Vec<String>)
        ensures
            (final(self)@, views(r@)) == class_tys_code(*sem, old(self)@, *c, n, d as nat),
            kept(old(self)@, final(self)@, true),
            tame(old(self)@, final(self)@, plain_sem(*sem)),
            all_sober(old(self)@, final(self)@, plain_sem(*sem), views(r@)),
        decreases 2 * d, sem, 0int, n,
    {
        if n == 0 || n > c.fields.len() {
            let none: Vec<String> = Vec::new();
            assert(views(none@) =~= Seq::<Seq<char>>::empty());
            none
        } else if d == 0 {
            let m = cat5(
                "内部错误：struct '",
                c.name.as_str(),
                "' 包含自身（函数 ",
                self.cur_fn.as_str(),
                "）",
            );
            self.fail(m);
            let none: Vec<String> = Vec::new();
            assert(views(none@) =~= Seq::<Seq<char>>::empty());
            none
        } else {
            let mut parts = self.class_tys(sem, c, n - 1, d);
            let ghost before = views(parts@);
            let t = self.deep_ty(sem, &c.fields[n - 1].ty, d - 1);
            parts.push(t);
            assert(views(parts@) =~= before.push(t@));
            parts
        }
    }

    fn ty(&mut self, sem: &Sem, t: &TypeSpec) -> (r: String)
        ensures
            (final(self)@, r@) == ty_code(*sem, old(self)@, *t),
            kept(old(self)@, final(self)@, true),
            tame(old(self)@, final(self)@, plain_sem(*sem)),
            sober(old(self)@, final(self)@, plain_sem(*sem), r@),
    {
        self.deep_ty(sem, t, sem.classes.len() as u128 + 1)
    }

    fn struct_ty(&mut self, sem: &Sem, name: &str) -> (r: String)
        ensures
            (final(self)@, r@) == struct_ty_code(*sem, old(self)@, name@),
            kept(old(self)@, final(self)@, true),
            tame(old(self)@, final(self)@, plain_sem(*sem)),
            sober(old(self)@, final(self)@, plain_sem(*sem), r@),
    {
        self.deep_struct(sem, name, sem.classes.len() as u128 + 1)
    }

    fn param_ty(&mut self, sem: &Sem, sig: &FuncSig, n: usize) -> (r: String)
        ensures
            (final(self)@, r@) == param_ty_code(*sem, old(self)@, *sig, n),
            kept(old(self)@, final(self)@, true),
            tame(old(self)@, final(self)@, plain_sem(*sem)),
            sober(old(self)@, final(self)@, plain_sem(*sem), r@),
    {
        if 0 < n && n <= sig.param_tys.len() {
            self.ty(sem, &sig.param_tys[n - 1])
        } else {
            lit("")
        }
    }

    fn arg(&mut self, sem: &Sem, e: &Expr, i: usize, d: u128) -> (r: Operand)
        ensures
            (final(self)@, r@) == arg_code(*sem, old(self)@, *e, i, d as nat),
            kept(old(self)@, final(self)@, true),
            tame(old(self)@, final(self)@, plain_sem(*sem)),
            sober(old(self)@, final(self)@, plain_sem(*sem), r@.v),
            sober(old(self)@, final(self)@, plain_sem(*sem), r@.t),
        decreases d, e, 3int, 0int,
    {
        match arg_expr_of(e, i) {
            Some(a) => {
                proof {
                    lemma_arg(*e, i);
                }
                self.expr(sem, a, d)
            },
            None => {
                let m = cat3("内部错误：内置函数缺少实参（函数 ", self.cur_fn.as_str(), "）");
                self.fail(m);
                Operand { v: lit(""), t: lit("") }
            },
        }
    }

    fn arg_value(&mut self, sem: &Sem, e: &Expr, i: usize, d: u128) -> (r: Operand)
        ensures
            (final(self)@, r@) == arg_value_code(*sem, old(self)@, *e, i, d as nat),
            kept(old(self)@, final(self)@, true),
            tame(old(self)@, final(self)@, plain_sem(*sem)),
            sober(old(self)@, final(self)@, plain_sem(*sem), r@.v),
            sober(old(self)@, final(self)@, plain_sem(*sem), r@.t),
        decreases d, e, 3int, 0int,
    {
        match arg_expr_of(e, i) {
            Some(a) => {
                proof {
                    lemma_arg(*e, i);
                }
                self.value(sem, a, d)
            },
            None => Operand { v: lit(""), t: lit("") },
        }
    }

    fn receiver_addr(&mut self, sem: &Sem, e: &Expr, d: u128) -> (r: Operand)
        ensures
            (final(self)@, r@) == receiver_addr_code(*sem, old(self)@, *e, d as nat),
            kept(old(self)@, final(self)@, true),
            tame(old(self)@, final(self)@, plain_sem(*sem)),
            sober(old(self)@, final(self)@, plain_sem(*sem), r@.v),
            sober(old(self)@, final(self)@, plain_sem(*sem), r@.t),
        decreases d, e, 3int, 0int,
    {
        match &e.kind {
            ExprKind::MethodCall { receiver, .. } => self.class_addr(sem, &**receiver, d),
            _ => Operand { v: lit(""), t: lit("") },
        }
    }

    fn receiver_value(&mut self, sem: &Sem, e: &Expr, d: u128) -> (r: Operand)
        ensures
            (final(self)@, r@) == receiver_value_code(*sem, old(self)@, *e, d as nat),
            kept(old(self)@, final(self)@, true),
            tame(old(self)@, final(self)@, plain_sem(*sem)),
            sober(old(self)@, final(self)@, plain_sem(*sem), r@.v),
            sober(old(self)@, final(self)@, plain_sem(*sem), r@.t),
        decreases d, e, 3int, 0int,
    {
        match &e.kind {
            ExprKind::MethodCall { receiver, .. } => self.value(sem, &**receiver, d),
            _ => Operand { v: lit(""), t: lit("") },
        }
    }

    fn bridge_vals(&mut self, sem: &Sem, b: Bridge, e: &Expr, n: usize, d: u128) -> (r: Vec<String>)
        ensures
            (final(self)@, views(r@)) == bridge_vals_code(*sem, old(self)@, b, *e, n, d as nat),
            kept(old(self)@, final(self)@, true),
            tame(old(self)@, final(self)@, plain_sem(*sem)),
            all_sober(old(self)@, final(self)@, plain_sem(*sem), views(r@)),
        decreases d, e, 5int, n,
    {
        if n == 0 {
            let none: Vec<String> = Vec::new();
            assert(views(none@) =~= Seq::<Seq<char>>::empty());
            none
        } else {
            let mut vals = self.bridge_vals(sem, b, e, n - 1, d);
            let ghost before = views(vals@);
            let a = self.arg(sem, e, n - 1, d);
            let v = if n - 1 < b.ints_from {
                a.v
            } else {
                self.extend(a.v.as_str(), a.t.as_str(), is_unsigned_arg(e, n - 1))
            };
            vals.push(v);
            assert(views(vals@) =~= before.push(v@));
            vals
        }
    }

    fn call_args(
        &mut self,
        sem: &Sem,
        name: &str,
        sig: &FuncSig,
        e: &Expr,
        forward: bool,
        n: usize,
        d: u128,
    ) -> (r: Vec<String>)
        ensures
            (final(self)@, views(r@)) == call_args_code(
                *sem,
                old(self)@,
                name@,
                *sig,
                *e,
                forward,
                n,
                d as nat,
            ),
            kept(old(self)@, final(self)@, true),
            tame(old(self)@, final(self)@, plain_sem(*sem)),
            all_sober(old(self)@, final(self)@, plain_sem(*sem), views(r@)),
        decreases d, e, 5int, n,
    {
        if n == 0 {
            let none: Vec<String> = Vec::new();
            assert(views(none@) =~= Seq::<Seq<char>>::empty());
            none
        } else {
            let mut vals = self.call_args(sem, name, sig, e, forward, n - 1, d);
            let ghost before = views(vals@);
            let a = self.one_arg(sem, name, sig, e, forward, n, d);
            vals.push(a);
            assert(views(vals@) =~= before.push(a@));
            vals
        }
    }

    fn construct_fields(
        &mut self,
        sem: &Sem,
        c: &ClassInfo,
        agg: &str,
        e: &Expr,
        n: usize,
        d: u128,
    ) -> (r: String)
        ensures
            (final(self)@, r@) == construct_fields_code(
                *sem,
                old(self)@,
                *c,
                agg@,
                *e,
                n,
                d as nat,
            ),
            kept(old(self)@, final(self)@, true),
            tame(old(self)@, final(self)@, calm(agg@) && plain_sem(*sem)),
            sober(old(self)@, final(self)@, calm(agg@) && plain_sem(*sem), r@),
        decreases d, e, 6int, n,
    {
        if n == 0 || n > c.fields.len() {
            lit("undef")
        } else {
            let cur = self.construct_fields(sem, c, agg, e, n - 1, d);
            let t = self.ty(sem, &c.fields[n - 1].ty);
            let v = self.field_value(sem, c, t.as_str(), e, n - 1, d);
            let tmp = self.reg();
            self.line(
                cat11(
                    tmp.as_str(),
                    " = insertvalue ",
                    agg,
                    " ",
                    cur.as_str(),
                    ", ",
                    t.as_str(),
                    " ",
                    v.as_str(),
                    ", ",
                    dec_usize(n - 1).as_str(),
                ),
            );
            tmp
        }
    }

    fn tuple_values(&mut self, sem: &Sem, agg: &str, e: &Expr, n: usize, d: u128) -> (r: String)
        ensures
            (final(self)@, r@) == tuple_values_code(*sem, old(self)@, agg@, *e, n, d as nat),
            kept(old(self)@, final(self)@, true),
            tame(old(self)@, final(self)@, calm(agg@) && plain_sem(*sem)),
            sober(old(self)@, final(self)@, calm(agg@) && plain_sem(*sem), r@),
        decreases d, e, 7int, n,
    {
        match (&e.kind, &e.note.ty) {
            (ExprKind::TupleLit { fields }, Some(TypeSpec::Tuple(tys))) => {
                if n == 0 || n > fields.len() || n > tys.len() {
                    lit("undef")
                } else {
                    proof {
                        assert(decreases_to!(fields => fields@));
                        assert(decreases_to!(fields@ => fields@[n - 1]));
                    }
                    let cur = self.tuple_values(sem, agg, e, n - 1, d);
                    let a = self.expr(sem, &*fields[n - 1], d);
                    let t = self.ty(sem, &tys[n - 1].ty);
                    let tmp = self.reg();
                    self.line(
                        cat11(
                            tmp.as_str(),
                            " = insertvalue ",
                            agg,
                            " ",
                            cur.as_str(),
                            ", ",
                            t.as_str(),
                            " ",
                            a.v.as_str(),
                            ", ",
                            dec_usize(n - 1).as_str(),
                        ),
                    );
                    tmp
                }
            },
            _ => lit("undef"),
        }
    }

    fn table_cells(&mut self, sem: &Sem, t: &str, elem: &str, e: &Expr, n: usize, d: u128)
        ensures
            final(self)@ == table_cells_code(*sem, old(self)@, t@, elem@, *e, n, d as nat),
            kept(old(self)@, final(self)@, true),
            tame(old(self)@, final(self)@, calm(t@) && calm(elem@) && plain_sem(*sem)),
        decreases d, e, 8int, n,
    {
        match &e.kind {
            ExprKind::TableLit { cells } => {
                if n == 0 || n > cells.len() {
                } else {
                    proof {
                        assert(decreases_to!(cells => cells@));
                        assert(decreases_to!(cells@ => cells@[n - 1]));
                    }
                    self.table_cells(sem, t, elem, e, n - 1, d);
                    let a = self.expr(sem, &*cells[n - 1], d);
                    self.library_call(
                        lit("call void"),
                        cat2("tie_table_push_", table_elem_suffix(elem)),
                        cat6("ptr ", t, ", ", elem, " ", a.v.as_str()),
                    );
                }
            },
            _ => {},
        }
    }

    fn table_len(&mut self, t: &str) -> (out: String)
        ensures
            (final(self)@, out@) == table_len_code(old(self)@, t@),
            kept(old(self)@, final(self)@, true),
            tame(old(self)@, final(self)@, calm(t@)),
            sober(old(self)@, final(self)@, calm(t@), out@),
    {
        self.mark(lit("tie_table_len"));
        let len = self.reg();
        self.library_call(
            cat2(len.as_str(), " = call i64"),
            lit("tie_table_len"),
            cat2("ptr ", t),
        );
        len
    }

    fn runtime_error(&mut self, fmt: &str, tail: &str)
        ensures
            final(self)@ == runtime_error_code(old(self)@, fmt@, tail@),
            kept(old(self)@, final(self)@, true),
            tame(old(self)@, final(self)@, calm(tail@)),
    {
        let n = self.string_const(cat2(fmt, "\n").as_str());
        self.line(cat4("call i32 (ptr, ...) @printf(ptr @", n.as_str(), tail, ")"));
        self.line(lit("call i32 @fflush(ptr null)"));
        let _a = self.reg();
        let _b = self.reg();
        self.line(lit("call void @exit(i32 1)"));
        self.line(lit("unreachable"));
    }

    fn checked_at(&mut self, t: &str, i: &str, elem: &str) -> (out: String)
        ensures
            (final(self)@, out@) == checked_at_code(old(self)@, t@, i@, elem@),
            kept(old(self)@, final(self)@, true),
            tame(old(self)@, final(self)@, calm(t@) && calm(i@) && calm(elem@)),
            sober(old(self)@, final(self)@, calm(t@) && calm(i@) && calm(elem@), out@),
    {
        self.mark(cat2("tie_table_at_", table_elem_suffix(elem)));
        let ok = self.alloca("i1");
        self.line(cat2("store i1 1, ptr ", ok.as_str()));
        let val = self.reg();
        self.library_call(
            cat3(val.as_str(), " = call ", elem),
            cat2("tie_table_at_", table_elem_suffix(elem)),
            cat6("ptr ", t, ", i64 ", i, ", ptr ", ok.as_str()),
        );
        let okv = self.reg();
        self.line(cat3(okv.as_str(), " = load i1, ptr ", ok.as_str()));
        let good = self.label("table_at.ok");
        let bad = self.label("table_at.err");
        self.line(
            cat6("br i1 ", okv.as_str(), ", label %", good.as_str(), ", label %", bad.as_str()),
        );
        self.start(bad.as_str());
        let len = self.table_len(t);
        self.runtime_error(
            "运行时错误: table_at 下标越界：索引 %lld 超出长度 %lld",
            cat4(", i64 ", i, ", i64 ", len.as_str()).as_str(),
        );
        self.start(good.as_str());
        val
    }

    fn extend(&mut self, v: &str, t: &str, is_unsigned: bool) -> (out: String)
        ensures
            (final(self)@, out@) == extend_code(old(self)@, v@, t@, is_unsigned),
            kept(old(self)@, final(self)@, true),
            tame(old(self)@, final(self)@, calm(v@) && calm(t@)),
            sober(old(self)@, final(self)@, calm(v@) && calm(t@), out@),
    {
        if same(t, "i64") {
            lit(v)
        } else {
            let x = self.reg();
            if is_unsigned {
                self.line(cat6(x.as_str(), " = zext ", t, " ", v, " to i64"));
            } else {
                self.line(cat6(x.as_str(), " = sext ", t, " ", v, " to i64"));
            }
            x
        }
    }

    fn promote(&mut self, v: &str, t: &str) -> (out: String)
        ensures
            (final(self)@, out@) == promote_code(old(self)@, v@, t@),
            kept(old(self)@, final(self)@, true),
            tame(old(self)@, final(self)@, calm(v@) && calm(t@)),
            sober(old(self)@, final(self)@, calm(v@) && calm(t@), out@),
    {
        if same(t, "double") {
            lit(v)
        } else {
            let x = self.reg();
            if same(t, "float") {
                self.line(cat4(x.as_str(), " = fpext float ", v, " to double"));
            } else {
                self.line(cat6(x.as_str(), " = sitofp ", t, " ", v, " to double"));
            }
            x
        }
    }

    fn var_elem(&mut self, sem: &Sem, name: &str) -> (out: String)
        ensures
            (final(self)@, out@) == var_elem_code(*sem, old(self)@, name@),
            kept(old(self)@, final(self)@, true),
            tame(old(self)@, final(self)@, plain_sem(*sem)),
            sober(old(self)@, final(self)@, plain_sem(*sem), out@),
    {
        match sem.table_var(self.cur_fn.as_str(), name) {
            Some(info) => self.ty(sem, &info.elem_ty),
            None => {
                let m = cat5(
                    "内部错误：动态表变量 '",
                    name,
                    "' 缺少元素类型元数据（函数 ",
                    self.cur_fn.as_str(),
                    "）",
                );
                self.fail(m);
                lit("")
            },
        }
    }

    fn ret_elem(&mut self, sem: &Sem, full: &str) -> (out: String)
        ensures
            (final(self)@, out@) == ret_elem_code(*sem, old(self)@, full@),
            kept(old(self)@, final(self)@, true),
            tame(old(self)@, final(self)@, plain_sem(*sem)),
            sober(old(self)@, final(self)@, plain_sem(*sem), out@),
    {
        match sem.table_ret(full) {
            Some(t) => self.ty(sem, t),
            None => {
                let m = cat5(
                    "内部错误：返回表的函数 '",
                    full,
                    "' 缺少元素类型元数据（函数 ",
                    self.cur_fn.as_str(),
                    "）",
                );
                self.fail(m);
                lit("")
            },
        }
    }

    fn dyn_elem(&mut self, sem: &Sem, e: &Expr) -> (out: String)
        ensures
            (final(self)@, out@) == dyn_elem_code(*sem, old(self)@, *e),
            kept(old(self)@, final(self)@, true),
            tame(old(self)@, final(self)@, plain_sem(*sem)),
            sober(old(self)@, final(self)@, plain_sem(*sem), out@),
    {
        match &e.kind {
            ExprKind::Var(name) => self.var_elem(sem, name.as_str()),
            ExprKind::Call { name, .. } => {
                match &e.note.resolved {
                    Some(full) => self.ret_elem(sem, full.as_str()),
                    None => self.ret_elem(sem, name.as_str()),
                }
            },
            ExprKind::MethodCall { method, .. } => {
                match &e.note.resolved {
                    Some(full) => self.ret_elem(sem, full.as_str()),
                    None => self.ret_elem(sem, method.as_str()),
                }
            },
            _ => {
                let m = cat3(
                    "内部错误：table_at 第 1 个参数不是动态表（函数 ",
                    self.cur_fn.as_str(),
                    "）",
                );
                self.fail(m);
                lit("")
            },
        }
    }

    fn binary_str(&mut self, op: BinaryOp, l: &str, r: &str) -> (out: Operand)
        ensures
            (final(self)@, out@) == binary_str_code(old(self)@, op, l@, r@),
            kept(old(self)@, final(self)@, true),
            tame(old(self)@, final(self)@, calm(l@) && calm(r@)),
            sober(old(self)@, final(self)@, calm(l@) && calm(r@), out@.v),
            sober(old(self)@, final(self)@, calm(l@) && calm(r@), out@.t),
    {
        if op == BinaryOp::Add {
            let llen = self.reg();
            self.line(cat4(llen.as_str(), " = call i64 @strlen(ptr ", l, ")"));
            let rlen = self.reg();
            self.line(cat4(rlen.as_str(), " = call i64 @strlen(ptr ", r, ")"));
            let total = self.reg();
            self.line(cat5(total.as_str(), " = add i64 ", llen.as_str(), ", ", rlen.as_str()));
            let size = self.reg();
            self.line(cat4(size.as_str(), " = add i64 ", total.as_str(), ", 1"));
            let buf = self.reg();
            self.line(cat4(buf.as_str(), " = call ptr @malloc(i64 ", size.as_str(), ")"));
            self.line(
                cat7(
                    "call void @llvm.memcpy.p0.p0.i64(ptr ",
                    buf.as_str(),
                    ", ptr ",
                    l,
                    ", i64 ",
                    llen.as_str(),
                    ", i1 false)",
                ),
            );
            let off = self.reg();
            self.line(
                cat5(
                    off.as_str(),
                    " = getelementptr i8, ptr ",
                    buf.as_str(),
                    ", i64 ",
                    llen.as_str(),
                ),
            );
            self.line(
                cat7(
                    "call void @llvm.memcpy.p0.p0.i64(ptr ",
                    off.as_str(),
                    ", ptr ",
                    r,
                    ", i64 ",
                    rlen.as_str(),
                    ", i1 false)",
                ),
            );
            let end = self.reg();
            self.line(
                cat5(
                    end.as_str(),
                    " = getelementptr i8, ptr ",
                    buf.as_str(),
                    ", i64 ",
                    total.as_str(),
                ),
            );
            self.line(cat2("store i8 0, ptr ", end.as_str()));
            Operand { v: buf, t: lit("ptr") }
        } else {
            let order = self.reg();
            self.line(cat6(order.as_str(), " = call i32 @strcmp(ptr ", l, ", ptr ", r, ")"));
            match predicate_of(op) {
                Some(p) => {
                    let res = self.reg();
                    self.line(cat6(res.as_str(), " = icmp ", p, " i32 ", order.as_str(), ", 0"));
                    Operand { v: res, t: lit("i1") }
                },
                None => {
                    let m = cat3(
                        "字符串二元运算只允许 + 与比较（不支持的运算符：",
                        op_name_of(op),
                        "）",
                    );
                    self.fail(m);
                    Operand { v: lit(""), t: lit("") }
                },
            }
        }
    }

    fn binary_regs(
        &mut self,
        op: BinaryOp,
        is_str: bool,
        l: &str,
        ty: &str,
        r: &str,
        is_unsigned: bool,
    ) -> (out: Operand)
        ensures
            (final(self)@, out@) == binary_regs_code(
                old(self)@,
                op,
                is_str,
                l@,
                ty@,
                r@,
                is_unsigned,
            ),
            kept(old(self)@, final(self)@, true),
            tame(old(self)@, final(self)@, calm(l@) && calm(ty@) && calm(r@)),
            sober(old(self)@, final(self)@, calm(l@) && calm(ty@) && calm(r@), out@.v),
            sober(old(self)@, final(self)@, calm(l@) && calm(ty@) && calm(r@), out@.t),
    {
        if is_str {
            self.binary_str(op, l, r)
        } else {
            let tmp = self.reg();
            self.line(
                cat7(tmp.as_str(), " = ", opcode_of(op, ty, is_unsigned).as_str(), " ", l, ", ", r),
            );
            if is_comparison(op) || op == BinaryOp::And || op == BinaryOp::Or {
                Operand { v: tmp, t: lit("i1") }
            } else {
                Operand { v: tmp, t: lit(ty) }
            }
        }
    }

    fn trit_arith(&mut self, opc: &str, l: &str, r: &str) -> (out: Operand)
        ensures
            (final(self)@, out@) == trit_arith_code(old(self)@, opc@, l@, r@),
            kept(old(self)@, final(self)@, true),
            tame(old(self)@, final(self)@, lively(opc@) && calm(l@) && calm(r@)),
            sober(old(self)@, final(self)@, lively(opc@) && calm(l@) && calm(r@), out@.v),
            sober(old(self)@, final(self)@, lively(opc@) && calm(l@) && calm(r@), out@.t),
    {
        let wide_l = self.reg();
        self.line(cat4(wide_l.as_str(), " = sext i8 ", l, " to i64"));
        let wide_r = self.reg();
        self.line(cat4(wide_r.as_str(), " = sext i8 ", r, " to i64"));
        let raw = self.reg();
        self.line(cat7(raw.as_str(), " = ", opc, " i64 ", wide_l.as_str(), ", ", wide_r.as_str()));
        let lo = self.reg();
        self.line(cat4(lo.as_str(), " = icmp slt i64 ", raw.as_str(), ", -1"));
        let hi = self.reg();
        self.line(cat4(hi.as_str(), " = icmp sgt i64 ", raw.as_str(), ", 1"));
        let low = self.reg();
        self.line(cat5(low.as_str(), " = select i1 ", lo.as_str(), ", i64 -1, i64 ", raw.as_str()));
        let high = self.reg();
        self.line(cat5(high.as_str(), " = select i1 ", hi.as_str(), ", i64 1, i64 ", low.as_str()));
        let narrow = self.reg();
        self.line(cat4(narrow.as_str(), " = trunc i64 ", high.as_str(), " to i8"));
        Operand { v: narrow, t: lit("i8") }
    }

    fn binary_mixed(
        &mut self,
        op: BinaryOp,
        trit: &str,
        other: &str,
        trit_first: bool,
    ) -> (out: Operand)
        ensures
            (final(self)@, out@) == binary_mixed_code(old(self)@, op, trit@, other@, trit_first),
            kept(old(self)@, final(self)@, true),
            tame(old(self)@, final(self)@, calm(trit@) && calm(other@)),
            sober(old(self)@, final(self)@, calm(trit@) && calm(other@), out@.v),
            sober(old(self)@, final(self)@, calm(trit@) && calm(other@), out@.t),
    {
        let wide = self.reg();
        self.line(cat4(wide.as_str(), " = sext i8 ", trit, " to i64"));
        let tmp = self.reg();
        match mixed_opcode_of(op) {
            Some(opc) => {
                if trit_first {
                    self.line(cat7(tmp.as_str(), " = ", opc, " ", wide.as_str(), ", ", other));
                } else {
                    self.line(cat7(tmp.as_str(), " = ", opc, " ", other, ", ", wide.as_str()));
                }
                if is_comparison(op) {
                    Operand { v: tmp, t: lit("i1") }
                } else {
                    Operand { v: tmp, t: lit("i64") }
                }
            },
            None => {
                let m = cat2("trit 与 i64 不支持运算 ", op_name_of(op));
                self.fail(m);
                Operand { v: lit(""), t: lit("") }
            },
        }
    }

    fn binary_trit(&mut self, op: BinaryOp, l: &str, lt: &str, r: &str, rt: &str) -> (out: Operand)
        ensures
            (final(self)@, out@) == binary_trit_code(old(self)@, op, l@, lt@, r@, rt@),
            kept(old(self)@, final(self)@, true),
            tame(old(self)@, final(self)@, calm(l@) && calm(lt@) && calm(r@) && calm(rt@)),
            sober(old(self)@, final(self)@, calm(l@) && calm(lt@) && calm(r@) && calm(rt@), out@.v),
            sober(old(self)@, final(self)@, calm(l@) && calm(lt@) && calm(r@) && calm(rt@), out@.t),
    {
        if !(same(lt, "i8") && same(rt, "i8")) {
            if same(lt, "i8") {
                self.binary_mixed(op, l, r, true)
            } else {
                self.binary_mixed(op, r, l, false)
            }
        } else {
            match op {
                BinaryOp::And => {
                    let c = self.reg();
                    self.line(cat5(c.as_str(), " = icmp slt i8 ", l, ", ", r));
                    let s = self.reg();
                    self.line(
                        cat7(s.as_str(), " = select i1 ", c.as_str(), ", i8 ", l, ", i8 ", r),
                    );
                    Operand { v: s, t: lit("i8") }
                },
                BinaryOp::Or => {
                    let c = self.reg();
                    self.line(cat5(c.as_str(), " = icmp sgt i8 ", l, ", ", r));
                    let s = self.reg();
                    self.line(
                        cat7(s.as_str(), " = select i1 ", c.as_str(), ", i8 ", l, ", i8 ", r),
                    );
                    Operand { v: s, t: lit("i8") }
                },
                BinaryOp::Add => self.trit_arith("add", l, r),
                BinaryOp::Sub => self.trit_arith("sub", l, r),
                BinaryOp::Mul => self.trit_arith("mul", l, r),
                BinaryOp::Div | BinaryOp::Mod => {
                    let m = lit("trit 不支持除/取模运算（三值无除法）");
                    self.fail(m);
                    Operand { v: lit(""), t: lit("") }
                },
                _ => {
                    match predicate_of(op) {
                        Some(p) => {
                            let tmp = self.reg();
                            self.line(cat7(tmp.as_str(), " = icmp ", p, " i8 ", l, ", ", r));
                            Operand { v: tmp, t: lit("i1") }
                        },
                        None => {
                            let m = cat2("trit 不支持位运算 ", op_name_of(op));
                            self.fail(m);
                            Operand { v: lit(""), t: lit("") }
                        },
                    }
                },
            }
        }
    }

    fn inc_dec(&mut self, op: UnaryOp, e: &Expr) -> (out: Operand)
        ensures
            (final(self)@, out@) == inc_dec_code(old(self)@, op, *e),
            kept(old(self)@, final(self)@, true),
            tame(old(self)@, final(self)@, true),
            sober(old(self)@, final(self)@, true, out@.v),
            sober(old(self)@, final(self)@, true, out@.t),
    {
        match &e.kind {
            ExprKind::Var(name) => {
                match self.bound(name.as_str()) {
                    Some(b) => {
                        if is_number_ty(b.ty.as_str()) {
                            let before = self.reg();
                            self.line(
                                cat5(
                                    before.as_str(),
                                    " = load ",
                                    b.ty.as_str(),
                                    ", ptr ",
                                    b.value.as_str(),
                                ),
                            );
                            let after = self.reg();
                            self.line(
                                cat9(
                                    after.as_str(),
                                    " = ",
                                    step_of(op, b.ty.as_str()),
                                    " ",
                                    b.ty.as_str(),
                                    " ",
                                    before.as_str(),
                                    ", ",
                                    one_of(b.ty.as_str()),
                                ),
                            );
                            self.line(
                                cat6(
                                    "store ",
                                    b.ty.as_str(),
                                    " ",
                                    after.as_str(),
                                    ", ptr ",
                                    b.value.as_str(),
                                ),
                            );
                            if op == UnaryOp::PreInc || op == UnaryOp::PreDec {
                                Operand { v: after, t: lit(b.ty.as_str()) }
                            } else {
                                Operand { v: before, t: lit(b.ty.as_str()) }
                            }
                        } else {
                            let m = cat3(
                                "自增/自减只支持数字类型（",
                                b.ty.as_str(),
                                " 不能自增/自减）",
                            );
                            self.fail(m);
                            Operand { v: lit(""), t: lit("") }
                        }
                    },
                    None => {
                        let m = cat5(
                            "内部错误：自增/自减的变量 '",
                            name.as_str(),
                            "' 未入作用域（函数 ",
                            self.cur_fn.as_str(),
                            "）",
                        );
                        self.fail(m);
                        Operand { v: lit(""), t: lit("") }
                    },
                }
            },
            _ => {
                let m = lit("暂不支持对象字段的自增/自减（M4 简化：++/-- 仅支持变量）");
                self.fail(m);
                Operand { v: lit(""), t: lit("") }
            },
        }
    }

    fn read_var(&mut self, sem: &Sem, name: &str) -> (out: Operand)
        ensures
            (final(self)@, out@) == read_var_code(*sem, old(self)@, name@),
            kept(old(self)@, final(self)@, true),
            tame(old(self)@, final(self)@, plain_sem(*sem)),
            sober(old(self)@, final(self)@, plain_sem(*sem), out@.v),
            sober(old(self)@, final(self)@, plain_sem(*sem), out@.t),
    {
        match self.bound(name) {
            Some(b) => {
                let tmp = self.reg();
                self.line(
                    cat5(tmp.as_str(), " = load ", b.ty.as_str(), ", ptr ", b.value.as_str()),
                );
                Operand { v: tmp, t: lit(b.ty.as_str()) }
            },
            None => {
                match sem.global_ty(name) {
                    Some(t) => {
                        let llvm = self.ty(sem, t);
                        let tmp = self.reg();
                        self.line(cat5(tmp.as_str(), " = load ", llvm.as_str(), ", ptr @", name));
                        Operand { v: tmp, t: llvm }
                    },
                    None => {
                        let m = cat5(
                            "内部错误：变量 '",
                            name,
                            "' 未入作用域（函数 ",
                            self.cur_fn.as_str(),
                            "）",
                        );
                        self.fail(m);
                        Operand { v: lit(""), t: lit("") }
                    },
                }
            },
        }
    }

    fn index_var(&mut self, sem: &Sem, name: &str, idx: &str, is_str: bool) -> (out: Operand)
        ensures
            (final(self)@, out@) == index_var_code(*sem, old(self)@, name@, idx@, is_str),
            kept(old(self)@, final(self)@, true),
            tame(old(self)@, final(self)@, calm(idx@) && plain_sem(*sem)),
            sober(old(self)@, final(self)@, calm(idx@) && plain_sem(*sem), out@.v),
            sober(old(self)@, final(self)@, calm(idx@) && plain_sem(*sem), out@.t),
    {
        match self.bound(name) {
            Some(b) => {
                if is_str {
                    let s = self.reg();
                    self.line(cat3(s.as_str(), " = load ptr, ptr ", b.value.as_str()));
                    let ptr = self.reg();
                    self.line(
                        cat5(ptr.as_str(), " = getelementptr i8, ptr ", s.as_str(), ", i64 ", idx),
                    );
                    let byte = self.reg();
                    self.line(cat3(byte.as_str(), " = load i8, ptr ", ptr.as_str()));
                    let ch = self.reg();
                    self.line(cat4(ch.as_str(), " = zext i8 ", byte.as_str(), " to i32"));
                    Operand { v: ch, t: lit("i32") }
                } else if sem.dynamic_table(self.cur_fn.as_str(), name) {
                    let elem = self.var_elem(sem, name);
                    let t = self.reg();
                    self.line(cat3(t.as_str(), " = load ptr, ptr ", b.value.as_str()));
                    let val = self.checked_at(t.as_str(), idx, elem.as_str());
                    Operand { v: val, t: elem }
                } else {
                    match parse_array_elem_ty(b.ty.as_str()) {
                        Some(elem) => {
                            let ptr = self.reg();
                            self.line(
                                cat7(
                                    ptr.as_str(),
                                    " = getelementptr ",
                                    b.ty.as_str(),
                                    ", ptr ",
                                    b.value.as_str(),
                                    ", i64 0, i64 ",
                                    idx,
                                ),
                            );
                            let val = self.reg();
                            self.line(
                                cat5(
                                    val.as_str(),
                                    " = load ",
                                    elem.as_str(),
                                    ", ptr ",
                                    ptr.as_str(),
                                ),
                            );
                            Operand { v: val, t: elem }
                        },
                        None => {
                            let m = cat3(
                                "内部错误：下标访问的对象不是数组类型（",
                                b.ty.as_str(),
                                "）",
                            );
                            self.fail(m);
                            Operand { v: lit(""), t: lit("") }
                        },
                    }
                }
            },
            None => {
                let m = cat5(
                    "内部错误：下标访问的变量 '",
                    name,
                    "' 未入作用域（函数 ",
                    self.cur_fn.as_str(),
                    "）",
                );
                self.fail(m);
                Operand { v: lit(""), t: lit("") }
            },
        }
    }

    fn field_addr(
        &mut self,
        sem: &Sem,
        base: &str,
        base_llvm: &str,
        t: &TypeSpec,
        field: &str,
        what: &str,
    ) -> (out: Operand)
        ensures
            (final(self)@, out@) == field_addr_code(
                *sem,
                old(self)@,
                base@,
                base_llvm@,
                *t,
                field@,
                what@,
            ),
            kept(old(self)@, final(self)@, true),
            tame(old(self)@, final(self)@, calm(base@) && calm(base_llvm@) && plain_sem(*sem)),
            sober(
                old(self)@,
                final(self)@,
                calm(base@) && calm(base_llvm@) && plain_sem(*sem),
                out@.v,
            ),
            sober(
                old(self)@,
                final(self)@,
                calm(base@) && calm(base_llvm@) && plain_sem(*sem),
                out@.t,
            ),
    {
        match t {
            TypeSpec::Struct(name) => {
                match sem.class_of(name.as_str()) {
                    Some(c) => {
                        match c.field_pos(field) {
                            Some(i) => {
                                let f = self.ty(sem, &c.fields[i].ty);
                                let ptr = self.reg();
                                self.line(
                                    cat7(
                                        ptr.as_str(),
                                        " = getelementptr ",
                                        base_llvm,
                                        ", ptr ",
                                        base,
                                        ", i32 0, i32 ",
                                        dec_usize(i).as_str(),
                                    ),
                                );
                                Operand { v: ptr, t: f }
                            },
                            None => {
                                let m = cat7(
                                    "内部错误：struct '",
                                    name.as_str(),
                                    "' 无字段 '",
                                    field,
                                    "'（函数 ",
                                    self.cur_fn.as_str(),
                                    "）",
                                );
                                self.fail(m);
                                Operand { v: lit(""), t: lit("") }
                            },
                        }
                    },
                    None => {
                        let m = cat5(
                            "内部错误：struct '",
                            name.as_str(),
                            "' 无信息（函数 ",
                            self.cur_fn.as_str(),
                            "）",
                        );
                        self.fail(m);
                        Operand { v: lit(""), t: lit("") }
                    },
                }
            },
            _ => {
                let m = cat6(what, "（", type_name_of(t), "，函数 ", self.cur_fn.as_str(), "）");
                self.fail(m);
                Operand { v: lit(""), t: lit("") }
            },
        }
    }

    fn tuple_field(&mut self, sem: &Sem, v: &str, t: &TypeSpec, field: &str) -> (out: Operand)
        ensures
            (final(self)@, out@) == tuple_field_code(*sem, old(self)@, v@, *t, field@),
            kept(old(self)@, final(self)@, true),
            tame(old(self)@, final(self)@, calm(v@) && plain_sem(*sem)),
            sober(old(self)@, final(self)@, calm(v@) && plain_sem(*sem), out@.v),
            sober(old(self)@, final(self)@, calm(v@) && plain_sem(*sem), out@.t),
    {
        match tuple_field_index(t, field) {
            Some(i) => {
                match t {
                    TypeSpec::Tuple(fields) => {
                        let agg = self.ty(sem, t);
                        let f = self.ty(sem, &fields[i].ty);
                        let tmp = self.reg();
                        self.line(
                            cat7(
                                tmp.as_str(),
                                " = extractvalue ",
                                agg.as_str(),
                                " ",
                                v,
                                ", ",
                                dec_usize(i).as_str(),
                            ),
                        );
                        Operand { v: tmp, t: f }
                    },
                    _ => {
                        Operand { v: lit(""), t: lit("") }
                    },
                }
            },
            None => {
                let m = cat5(
                    "内部错误：元组字段 '",
                    field,
                    "' 解析失败（函数 ",
                    self.cur_fn.as_str(),
                    "）",
                );
                self.fail(m);
                Operand { v: lit(""), t: lit("") }
            },
        }
    }

    fn unary_value(&mut self, op: UnaryOp, v: &str, t: &str) -> (out: Operand)
        ensures
            (final(self)@, out@) == unary_value_code(old(self)@, op, v@, t@),
            kept(old(self)@, final(self)@, true),
            tame(old(self)@, final(self)@, calm(v@) && calm(t@)),
            sober(old(self)@, final(self)@, calm(v@) && calm(t@), out@.v),
            sober(old(self)@, final(self)@, calm(v@) && calm(t@), out@.t),
    {
        let tmp = self.reg();
        if op == UnaryOp::Neg {
            if same(t, "double") || same(t, "float") {
                self.line(cat5(tmp.as_str(), " = fneg ", t, " ", v));
            } else {
                self.line(cat5(tmp.as_str(), " = sub ", t, " 0, ", v));
            }
            Operand { v: tmp, t: lit(t) }
        } else if same(t, "i8") {
            self.line(cat3(tmp.as_str(), " = sub i8 0, ", v));
            Operand { v: tmp, t: lit("i8") }
        } else {
            self.line(cat4(tmp.as_str(), " = xor i1 ", v, ", true"));
            Operand { v: tmp, t: lit("i1") }
        }
    }

    fn literal(&mut self, e: &Expr) -> (out: Operand)
        ensures
            (final(self)@, out@) == literal_code(old(self)@, *e),
            kept(old(self)@, final(self)@, true),
            tame(old(self)@, final(self)@, true),
            sober(old(self)@, final(self)@, true, out@.v),
            sober(old(self)@, final(self)@, true, out@.t),
    {
        match &e.kind {
            ExprKind::IntLit(v) => {
                Operand { v: lit(dec_i64(*v as i64).as_str()), t: lit("i64") }
            },
            ExprKind::FloatLit { ir, .. } => {
                self.note(ir.as_str());
                Operand { v: lit(ir.as_str()), t: lit("double") }
            },
            ExprKind::BoolLit(b) => {
                if is_typed(e, TyKw::Trit) {
                    if *b {
                        Operand { v: lit("1"), t: lit("i8") }
                    } else {
                        Operand { v: lit("-1"), t: lit("i8") }
                    }
                } else if *b {
                    Operand { v: lit("true"), t: lit("i1") }
                } else {
                    Operand { v: lit("false"), t: lit("i1") }
                }
            },
            ExprKind::TritLit(v) => {
                Operand { v: lit(dec_i64(*v as i64).as_str()), t: lit("i8") }
            },
            ExprKind::CharLit(c) => {
                Operand { v: lit(dec_u64(*c as u64).as_str()), t: lit("i32") }
            },
            ExprKind::StrLit(s) => {
                let n = self.string_const(s.as_str());
                Operand { v: cat2("@", n.as_str()), t: lit("ptr") }
            },
            _ => {
                Operand { v: lit(""), t: lit("") }
            },
        }
    }

    fn call(&mut self, sem: &Sem, name: &str, e: &Expr, forward: bool, d: u128) -> (out: Operand)
        ensures
            (final(self)@, out@) == call_code(*sem, old(self)@, name@, *e, forward, d as nat),
            kept(old(self)@, final(self)@, true),
            tame(old(self)@, final(self)@, plain_sem(*sem)),
            sober(old(self)@, final(self)@, plain_sem(*sem), out@.v),
            sober(old(self)@, final(self)@, plain_sem(*sem), out@.t),
        decreases d, e, 7int, 0int,
    {
        if same(name, "println") {
            self.printf(sem, e, true, d)
        } else if same(name, "print") {
            self.printf(sem, e, false, d)
        } else if same(name, "len") {
            self.len(sem, e, d)
        } else if same(name, "table_push") {
            self.table_push(sem, e, d)
        } else if same(name, "table_at") {
            self.table_at(sem, e, d)
        } else if same(name, "file_write") {
            self.file_write(sem, e, "wb", d)
        } else if same(name, "file_append") {
            self.file_write(sem, e, "ab", d)
        } else if same(name, "file_exists") {
            self.file_exists(sem, e, d)
        } else if same(name, "file_delete") {
            self.file_delete(sem, e, d)
        } else if same(name, "to_string") {
            self.to_string(sem, e, d)
        } else if same(name, "exit") {
            self.exit(sem, e, d)
        } else if same(name, "pow") {
            self.pow(sem, e, d)
        } else if same(name, "rand_range") {
            self.rand_range(sem, e, d)
        } else if is_math_fn(name) {
            self.math(sem, name, e, d)
        } else {
            match table_new_elem_size(name) {
                Some(n) => {
                    self.mark(lit("tie_table_new"));
                    let tmp = self.reg();
                    self.library_call(
                        cat2(tmp.as_str(), " = call ptr"),
                        lit("tie_table_new"),
                        cat2("i64 ", dec_i64(n as i64).as_str()),
                    );
                    Operand { v: tmp, t: lit("ptr") }
                },
                None => {
                    match bridge_of(name) {
                        Some(b) => self.bridge_call(sem, name, b, e, d),
                        None => self.user_call(sem, name, e, forward, d),
                    }
                },
            }
        }
    }

    fn print_value(&mut self, v: &str, t: &str, is_unsigned: bool, is_char: bool, nl: &str)
        ensures
            final(self)@ == print_value_code(old(self)@, v@, t@, is_unsigned, is_char, nl@),
            kept(old(self)@, final(self)@, true),
            tame(old(self)@, final(self)@, calm(v@) && calm(t@)),
    {
        if same(t, "double") {
            self.print_as(cat2("%f", nl).as_str(), "double", v);
        } else if same(t, "float") {
            let x = self.reg();
            self.line(cat4(x.as_str(), " = fpext float ", v, " to double"));
            self.print_as(cat2("%f", nl).as_str(), "double", x.as_str());
        } else if same(t, "ptr") {
            self.print_as(cat2("%s", nl).as_str(), "ptr", v);
        } else if same(t, "i1") {
            let x = self.reg();
            self.line(cat4(x.as_str(), " = zext i1 ", v, " to i64"));
            self.print_as(cat2("%lld", nl).as_str(), "i64", x.as_str());
        } else if same(t, "i8") || same(t, "i16") {
            let x = self.reg();
            if is_unsigned {
                self.line(cat6(x.as_str(), " = zext ", t, " ", v, " to i32"));
                self.print_as(cat2("%u", nl).as_str(), "i32", x.as_str());
            } else {
                self.line(cat6(x.as_str(), " = sext ", t, " ", v, " to i32"));
                self.print_as(cat2("%d", nl).as_str(), "i32", x.as_str());
            }
        } else if same(t, "i32") {
            if is_char {
                self.print_as(cat2("%c", nl).as_str(), "i32", v);
            } else if is_unsigned {
                self.print_as(cat2("%u", nl).as_str(), "i32", v);
            } else {
                self.print_as(cat2("%d", nl).as_str(), "i32", v);
            }
        } else if same(t, "i64") && is_unsigned {
            self.print_as(cat2("%llu", nl).as_str(), "i64", v);
        } else {
            self.print_as(cat2("%lld", nl).as_str(), "i64", v);
        }
    }

    fn print_as(&mut self, fmt: &str, t: &str, v: &str)
        ensures
            final(self)@ == print_as_code(old(self)@, fmt@, t@, v@),
            kept(old(self)@, final(self)@, true),
            tame(old(self)@, final(self)@, calm(t@) && calm(v@)),
    {
        let n = self.string_const(fmt);
        self.line(cat7("call i32 (ptr, ...) @printf(ptr @", n.as_str(), ", ", t, " ", v, ")"));
    }

    fn printf(&mut self, sem: &Sem, e: &Expr, newline: bool, d: u128) -> (out: Operand)
        ensures
            (final(self)@, out@) == printf_code(*sem, old(self)@, *e, newline, d as nat),
            kept(old(self)@, final(self)@, true),
            tame(old(self)@, final(self)@, plain_sem(*sem)),
            sober(old(self)@, final(self)@, plain_sem(*sem), out@.v),
            sober(old(self)@, final(self)@, plain_sem(*sem), out@.t),
        decreases d, e, 6int, 0int,
    {
        if argc_of(e) == 0 {
            if newline {
                let n = self.string_const("\n");
                self.line(cat3("call i32 (ptr, ...) @printf(ptr @", n.as_str(), ")"));
            }
            let tmp = self.reg();
            Operand { v: tmp, t: lit("void") }
        } else {
            let a = self.arg(sem, e, 0, d);
            if newline {
                self.print_value(
                    a.v.as_str(),
                    a.t.as_str(),
                    is_unsigned_arg(e, 0),
                    is_typed_arg(e, 0, TyKw::Char),
                    "\n",
                );
                let tmp = self.reg();
                Operand { v: tmp, t: lit("void") }
            } else {
                self.print_value(
                    a.v.as_str(),
                    a.t.as_str(),
                    is_unsigned_arg(e, 0),
                    is_typed_arg(e, 0, TyKw::Char),
                    "",
                );
                self.line(lit("call i32 @fflush(ptr null)"));
                let _a = self.reg();
                let tmp = self.reg();
                Operand { v: tmp, t: lit("void") }
            }
        }
    }

    fn len(&mut self, sem: &Sem, e: &Expr, d: u128) -> (out: Operand)
        ensures
            (final(self)@, out@) == len_code(*sem, old(self)@, *e, d as nat),
            kept(old(self)@, final(self)@, true),
            tame(old(self)@, final(self)@, plain_sem(*sem)),
            sober(old(self)@, final(self)@, plain_sem(*sem), out@.v),
            sober(old(self)@, final(self)@, plain_sem(*sem), out@.t),
        decreases d, e, 6int, 0int,
    {
        match literal_len_of(e) {
            Some(n) => {
                Operand { v: lit(dec_usize(n).as_str()), t: lit("i64") }
            },
            None => {
                if is_literal_arg(e) {
                    let m = cat3(
                        "内部错误：len 的表字面量缺少布局元数据（函数 ",
                        self.cur_fn.as_str(),
                        "）",
                    );
                    self.fail(m);
                    Operand { v: lit(""), t: lit("") }
                } else {
                    let a = self.arg(sem, e, 0, d);
                    let n = self.len_of(
                        a.v.as_str(),
                        a.t.as_str(),
                        is_dynamic_arg(sem, self.cur_fn.as_str(), e),
                    );
                    Operand { v: n, t: lit("i64") }
                }
            },
        }
    }

    fn len_of(&mut self, v: &str, t: &str, is_dynamic: bool) -> (out: String)
        ensures
            (final(self)@, out@) == len_of_code(old(self)@, v@, t@, is_dynamic),
            kept(old(self)@, final(self)@, true),
            tame(old(self)@, final(self)@, calm(v@) && calm(t@)),
            sober(old(self)@, final(self)@, calm(v@) && calm(t@), out@),
    {
        match parse_array_shape(t) {
            Some(shape) => lit(dec_usize(shape.0).as_str()),
            None => {
                if is_dynamic {
                    self.table_len(v)
                } else {
                    let n = self.reg();
                    self.line(cat4(n.as_str(), " = call i64 @strlen(ptr ", v, ")"));
                    n
                }
            },
        }
    }

    fn table_push(&mut self, sem: &Sem, e: &Expr, d: u128) -> (out: Operand)
        ensures
            (final(self)@, out@) == table_push_code(*sem, old(self)@, *e, d as nat),
            kept(old(self)@, final(self)@, true),
            tame(old(self)@, final(self)@, plain_sem(*sem)),
            sober(old(self)@, final(self)@, plain_sem(*sem), out@.v),
            sober(old(self)@, final(self)@, plain_sem(*sem), out@.t),
        decreases d, e, 6int, 0int,
    {
        match var_arg_of(e) {
            Some(name) => {
                match self.bound(name) {
                    Some(b) => {
                        let t = self.reg();
                        self.line(cat3(t.as_str(), " = load ptr, ptr ", b.value.as_str()));
                        let x = self.arg(sem, e, 1, d);
                        self.mark(cat2("tie_table_push_", table_elem_suffix(x.t.as_str())));
                        self.library_call(
                            lit("call void"),
                            cat2("tie_table_push_", table_elem_suffix(x.t.as_str())),
                            cat6("ptr ", t.as_str(), ", ", x.t.as_str(), " ", x.v.as_str()),
                        );
                        Operand { v: lit(""), t: lit("void") }
                    },
                    None => {
                        let m = cat5(
                            "内部错误：table_push 找不到表变量 '",
                            name,
                            "'（函数 ",
                            self.cur_fn.as_str(),
                            "）",
                        );
                        self.fail(m);
                        Operand { v: lit(""), t: lit("") }
                    },
                }
            },
            None => {
                let m = cat3(
                    "内部错误：table_push 第 1 个参数不是表变量（函数 ",
                    self.cur_fn.as_str(),
                    "）",
                );
                self.fail(m);
                Operand { v: lit(""), t: lit("") }
            },
        }
    }

    fn table_at(&mut self, sem: &Sem, e: &Expr, d: u128) -> (out: Operand)
        ensures
            (final(self)@, out@) == table_at_code(*sem, old(self)@, *e, d as nat),
            kept(old(self)@, final(self)@, true),
            tame(old(self)@, final(self)@, plain_sem(*sem)),
            sober(old(self)@, final(self)@, plain_sem(*sem), out@.v),
            sober(old(self)@, final(self)@, plain_sem(*sem), out@.t),
        decreases d, e, 6int, 0int,
    {
        let t = self.arg(sem, e, 0, d);
        let i = self.arg(sem, e, 1, d);
        match arg_expr_of(e, 0) {
            Some(a) => {
                let elem = self.dyn_elem(sem, a);
                let val = self.checked_at(t.v.as_str(), i.v.as_str(), elem.as_str());
                Operand { v: val, t: elem }
            },
            None => {
                Operand { v: lit(""), t: lit("") }
            },
        }
    }

    fn file_write(&mut self, sem: &Sem, e: &Expr, mode: &str, d: u128) -> (out: Operand)
        ensures
            (final(self)@, out@) == file_write_code(*sem, old(self)@, *e, mode@, d as nat),
            kept(old(self)@, final(self)@, true),
            tame(old(self)@, final(self)@, plain_sem(*sem)),
            sober(old(self)@, final(self)@, plain_sem(*sem), out@.v),
            sober(old(self)@, final(self)@, plain_sem(*sem), out@.t),
        decreases d, e, 6int, 0int,
    {
        let p = self.arg(sem, e, 0, d);
        let c = self.arg(sem, e, 1, d);
        let n = self.string_const(mode);
        let f = self.reg();
        self.line(
            cat6(f.as_str(), " = call ptr @fopen(ptr ", p.v.as_str(), ", ptr @", n.as_str(), ")"),
        );
        let is_null = self.reg();
        self.line(cat4(is_null.as_str(), " = icmp eq ptr ", f.as_str(), ", null"));
        let good = self.label("file.open.ok");
        let bad = self.label("file.open.fail");
        let merge = self.label("file.open.merge");
        self.line(
            cat6("br i1 ", is_null.as_str(), ", label %", bad.as_str(), ", label %", good.as_str()),
        );
        self.start(bad.as_str());
        self.line(cat2("br label %", merge.as_str()));
        self.start(good.as_str());
        let len = self.reg();
        self.line(cat4(len.as_str(), " = call i64 @strlen(ptr ", c.v.as_str(), ")"));
        let written = self.reg();
        self.line(
            cat8(
                written.as_str(),
                " = call i64 @fwrite(ptr ",
                c.v.as_str(),
                ", i64 1, i64 ",
                len.as_str(),
                ", ptr ",
                f.as_str(),
                ")",
            ),
        );
        self.line(cat3("call i32 @fclose(ptr ", f.as_str(), ")"));
        let _a = self.reg();
        let ok = self.reg();
        self.line(cat5(ok.as_str(), " = icmp eq i64 ", written.as_str(), ", ", len.as_str()));
        self.line(cat2("br label %", merge.as_str()));
        self.start(merge.as_str());
        let res = self.reg();
        self.line(
            cat8(
                res.as_str(),
                " = phi i1 [ false, %",
                bad.as_str(),
                " ], [ ",
                ok.as_str(),
                ", %",
                good.as_str(),
                " ]",
            ),
        );
        Operand { v: res, t: lit("i1") }
    }

    fn file_exists(&mut self, sem: &Sem, e: &Expr, d: u128) -> (out: Operand)
        ensures
            (final(self)@, out@) == file_exists_code(*sem, old(self)@, *e, d as nat),
            kept(old(self)@, final(self)@, true),
            tame(old(self)@, final(self)@, plain_sem(*sem)),
            sober(old(self)@, final(self)@, plain_sem(*sem), out@.v),
            sober(old(self)@, final(self)@, plain_sem(*sem), out@.t),
        decreases d, e, 6int, 0int,
    {
        let p = self.arg(sem, e, 0, d);
        let n = self.string_const("rb");
        let f = self.reg();
        self.line(
            cat6(f.as_str(), " = call ptr @fopen(ptr ", p.v.as_str(), ", ptr @", n.as_str(), ")"),
        );
        let is_null = self.reg();
        self.line(cat4(is_null.as_str(), " = icmp eq ptr ", f.as_str(), ", null"));
        let good = self.label("file.exists.ok");
        let bad = self.label("file.exists.fail");
        let merge = self.label("file.exists.merge");
        self.line(
            cat6("br i1 ", is_null.as_str(), ", label %", bad.as_str(), ", label %", good.as_str()),
        );
        self.start(bad.as_str());
        self.line(cat2("br label %", merge.as_str()));
        self.start(good.as_str());
        self.line(cat3("call i32 @fclose(ptr ", f.as_str(), ")"));
        let _a = self.reg();
        self.line(cat2("br label %", merge.as_str()));
        self.start(merge.as_str());
        let res = self.reg();
        self.line(
            cat6(
                res.as_str(),
                " = phi i1 [ false, %",
                bad.as_str(),
                " ], [ true, %",
                good.as_str(),
                " ]",
            ),
        );
        Operand { v: res, t: lit("i1") }
    }

    fn file_delete(&mut self, sem: &Sem, e: &Expr, d: u128) -> (out: Operand)
        ensures
            (final(self)@, out@) == file_delete_code(*sem, old(self)@, *e, d as nat),
            kept(old(self)@, final(self)@, true),
            tame(old(self)@, final(self)@, plain_sem(*sem)),
            sober(old(self)@, final(self)@, plain_sem(*sem), out@.v),
            sober(old(self)@, final(self)@, plain_sem(*sem), out@.t),
        decreases d, e, 6int, 0int,
    {
        let p = self.arg(sem, e, 0, d);
        let r = self.reg();
        self.line(cat4(r.as_str(), " = call i32 @remove(ptr ", p.v.as_str(), ")"));
        let ok = self.reg();
        self.line(cat4(ok.as_str(), " = icmp eq i32 ", r.as_str(), ", 0"));
        Operand { v: ok, t: lit("i1") }
    }

    fn to_string(&mut self, sem: &Sem, e: &Expr, d: u128) -> (out: Operand)
        ensures
            (final(self)@, out@) == to_string_code(*sem, old(self)@, *e, d as nat),
            kept(old(self)@, final(self)@, true),
            tame(old(self)@, final(self)@, plain_sem(*sem)),
            sober(old(self)@, final(self)@, plain_sem(*sem), out@.v),
            sober(old(self)@, final(self)@, plain_sem(*sem), out@.t),
        decreases d, e, 6int, 0int,
    {
        let a = self.arg(sem, e, 0, d);
        if is_typed_arg(e, 0, TyKw::F32) || is_typed_arg(e, 0, TyKw::F64)
            || same(a.t.as_str(), "double") || same(a.t.as_str(), "float") {
            self.mark(lit("tie_to_string_f64"));
            let wide = if same(a.t.as_str(), "float") {
                let x = self.reg();
                self.line(cat4(x.as_str(), " = fpext float ", a.v.as_str(), " to double"));
                x
            } else {
                lit(a.v.as_str())
            };
            let tmp = self.reg();
            self.library_call(
                cat2(tmp.as_str(), " = call ptr"),
                lit("tie_to_string_f64"),
                cat2("double ", wide.as_str()),
            );
            Operand { v: tmp, t: lit("ptr") }
        } else {
            self.mark(lit("tie_to_string_i64"));
            let wide = self.extend(a.v.as_str(), a.t.as_str(), is_unsigned_arg(e, 0));
            let tmp = self.reg();
            self.library_call(
                cat2(tmp.as_str(), " = call ptr"),
                lit("tie_to_string_i64"),
                cat2("i64 ", wide.as_str()),
            );
            Operand { v: tmp, t: lit("ptr") }
        }
    }

    fn exit(&mut self, sem: &Sem, e: &Expr, d: u128) -> (out: Operand)
        ensures
            (final(self)@, out@) == exit_code(*sem, old(self)@, *e, d as nat),
            kept(old(self)@, final(self)@, true),
            tame(old(self)@, final(self)@, plain_sem(*sem)),
            sober(old(self)@, final(self)@, plain_sem(*sem), out@.v),
            sober(old(self)@, final(self)@, plain_sem(*sem), out@.t),
        decreases d, e, 6int, 0int,
    {
        let c = self.arg(sem, e, 0, d);
        self.line(lit("call i32 @fflush(ptr null)"));
        let _a = self.reg();
        let code = if same(c.t.as_str(), "i32") {
            lit(c.v.as_str())
        } else if same(c.t.as_str(), "i64") {
            let t = self.reg();
            self.line(cat4(t.as_str(), " = trunc i64 ", c.v.as_str(), " to i32"));
            t
        } else {
            let t = self.reg();
            self.line(cat6(t.as_str(), " = sext ", c.t.as_str(), " ", c.v.as_str(), " to i32"));
            t
        };
        self.line(cat3("call void @exit(i32 ", code.as_str(), ")"));
        self.line(lit("unreachable"));
        let tmp = self.reg();
        Operand { v: tmp, t: lit("void") }
    }

    fn math(&mut self, sem: &Sem, name: &str, e: &Expr, d: u128) -> (out: Operand)
        requires
            math_fn(name@),
        ensures
            (final(self)@, out@) == math_code(*sem, old(self)@, name@, *e, d as nat),
            kept(old(self)@, final(self)@, true),
            tame(old(self)@, final(self)@, plain_sem(*sem)),
            sober(old(self)@, final(self)@, plain_sem(*sem), out@.v),
            sober(old(self)@, final(self)@, plain_sem(*sem), out@.t),
        decreases d, e, 6int, 0int,
    {
        let a = self.arg(sem, e, 0, d);
        let x = self.promote(a.v.as_str(), a.t.as_str());
        if same(name, "log") {
            let low = self.reg();
            self.line(cat4(low.as_str(), " = fcmp ole double ", x.as_str(), ", 0.0"));
            let good = self.label("log.ok");
            let bad = self.label("log.err");
            self.line(
                cat6("br i1 ", low.as_str(), ", label %", bad.as_str(), ", label %", good.as_str()),
            );
            self.start(bad.as_str());
            self.runtime_error("运行时错误: log 参数必须大于 0", "");
            self.start(good.as_str());
        }
        let tmp = self.reg();
        self.line(cat6(tmp.as_str(), " = call double @", name, "(double ", x.as_str(), ")"));
        Operand { v: tmp, t: lit("double") }
    }

    fn pow(&mut self, sem: &Sem, e: &Expr, d: u128) -> (out: Operand)
        ensures
            (final(self)@, out@) == pow_code(*sem, old(self)@, *e, d as nat),
            kept(old(self)@, final(self)@, true),
            tame(old(self)@, final(self)@, plain_sem(*sem)),
            sober(old(self)@, final(self)@, plain_sem(*sem), out@.v),
            sober(old(self)@, final(self)@, plain_sem(*sem), out@.t),
        decreases d, e, 6int, 0int,
    {
        let x = self.arg(sem, e, 0, d);
        let y = self.arg(sem, e, 1, d);
        let xd = self.promote(x.v.as_str(), x.t.as_str());
        let yd = self.promote(y.v.as_str(), y.t.as_str());
        let tmp = self.reg();
        self.line(
            cat6(
                tmp.as_str(),
                " = call double @pow(double ",
                xd.as_str(),
                ", double ",
                yd.as_str(),
                ")",
            ),
        );
        Operand { v: tmp, t: lit("double") }
    }

    fn flag_check(&mut self, name: &str, ok: &str, msg: &str, tail: &str)
        ensures
            final(self)@ == flag_check_code(old(self)@, name@, ok@, msg@, tail@),
            kept(old(self)@, final(self)@, true),
            tame(old(self)@, final(self)@, calm(name@) && calm(ok@) && calm(tail@)),
    {
        let okv = self.reg();
        self.line(cat3(okv.as_str(), " = load i8, ptr ", ok));
        let is_zero = self.reg();
        self.line(cat4(is_zero.as_str(), " = icmp eq i8 ", okv.as_str(), ", 0"));
        let good = self.label(cat2(name, ".ok").as_str());
        let bad = self.label(cat2(name, ".err").as_str());
        self.line(
            cat6("br i1 ", is_zero.as_str(), ", label %", bad.as_str(), ", label %", good.as_str()),
        );
        self.start(bad.as_str());
        self.runtime_error(msg, tail);
        self.start(good.as_str());
    }

    fn rand_range(&mut self, sem: &Sem, e: &Expr, d: u128) -> (out: Operand)
        ensures
            (final(self)@, out@) == rand_range_code(*sem, old(self)@, *e, d as nat),
            kept(old(self)@, final(self)@, true),
            tame(old(self)@, final(self)@, plain_sem(*sem)),
            sober(old(self)@, final(self)@, plain_sem(*sem), out@.v),
            sober(old(self)@, final(self)@, plain_sem(*sem), out@.t),
        decreases d, e, 6int, 0int,
    {
        self.mark(lit("tie_rand_range"));
        let a = self.arg(sem, e, 0, d);
        let b = self.arg(sem, e, 1, d);
        let low = self.extend(a.v.as_str(), a.t.as_str(), is_unsigned_arg(e, 0));
        let high = self.extend(b.v.as_str(), b.t.as_str(), is_unsigned_arg(e, 1));
        let ok = self.alloca("i8");
        self.line(cat2("store i8 0, ptr ", ok.as_str()));
        let tmp = self.reg();
        self.library_call(
            cat2(tmp.as_str(), " = call i64"),
            lit("tie_rand_range"),
            cat6("i64 ", low.as_str(), ", i64 ", high.as_str(), ", ptr ", ok.as_str()),
        );
        self.flag_check(
            "rand_range",
            ok.as_str(),
            "运行时错误: rand_range 参数范围无效（max 必须大于 min）",
            "",
        );
        Operand { v: tmp, t: lit("i64") }
    }

    fn bridge_call(&mut self, sem: &Sem, name: &str, b: Bridge, e: &Expr, d: u128) -> (out: Operand)
        requires
            bridge(name@) == Some(b),
        ensures
            (final(self)@, out@) == bridge_call_code(*sem, old(self)@, name@, b, *e, d as nat),
            kept(old(self)@, final(self)@, true),
            tame(old(self)@, final(self)@, plain_sem(*sem)),
            sober(old(self)@, final(self)@, plain_sem(*sem), out@.v),
            sober(old(self)@, final(self)@, plain_sem(*sem), out@.t),
        decreases d, e, 6int, 0int,
    {
        self.mark(lit(bridge_symbol_of(name).as_str()));
        if b.frees {
            self.mark(lit("tie_free_result"));
        }
        let vals = self.bridge_vals(sem, b, e, b.arity, d);
        self.bridge_end(
            name,
            b,
            bridge_text_of(&vals, b.ints_from).as_str(),
            shown_of(&vals, b.shown).as_str(),
        )
    }

    fn bridge_end(&mut self, name: &str, b: Bridge, args: &str, shown: &str) -> (out: Operand)
        requires
            bridge(name@) == Some(b),
        ensures
            (final(self)@, out@) == bridge_end_code(old(self)@, name@, b, args@, shown@),
            kept(old(self)@, final(self)@, true),
            tame(old(self)@, final(self)@, calm(args@) && calm(shown@)),
            sober(old(self)@, final(self)@, calm(args@) && calm(shown@), out@.v),
            sober(old(self)@, final(self)@, calm(args@) && calm(shown@), out@.t),
    {
        match b.fails {
            Fails::Never => {
                match b.ret {
                    Ret::Nothing => {
                        self.library_call(lit("call void"), bridge_symbol_of(name), lit(args));
                        Operand { v: lit(""), t: lit("void") }
                    },
                    Ret::Truth => {
                        let r = self.reg();
                        self.library_call(
                            cat2(r.as_str(), " = call i8"),
                            bridge_symbol_of(name),
                            lit(args),
                        );
                        let ok = self.reg();
                        self.line(cat4(ok.as_str(), " = icmp ne i8 ", r.as_str(), ", 0"));
                        Operand { v: ok, t: lit("i1") }
                    },
                    _ => {
                        let tmp = self.reg();
                        self.library_call(
                            cat3(tmp.as_str(), " = call ", ret_llvm_of(b.ret)),
                            bridge_symbol_of(name),
                            lit(args),
                        );
                        Operand { v: tmp, t: lit(ret_llvm_of(b.ret)) }
                    },
                }
            },
            Fails::Null => {
                let tmp = self.reg();
                self.library_call(
                    cat2(tmp.as_str(), " = call ptr"),
                    bridge_symbol_of(name),
                    lit(args),
                );
                let is_null = self.reg();
                self.line(cat4(is_null.as_str(), " = icmp eq ptr ", tmp.as_str(), ", null"));
                let good = self.label(cat2(name, ".ok").as_str());
                let bad = self.label(cat2(name, ".err").as_str());
                self.line(
                    cat6(
                        "br i1 ",
                        is_null.as_str(),
                        ", label %",
                        bad.as_str(),
                        ", label %",
                        good.as_str(),
                    ),
                );
                self.start(bad.as_str());
                self.runtime_error(
                    cat3("运行时错误: ", name, fail_tail_of(name)).as_str(),
                    cat2(", ptr ", shown).as_str(),
                );
                self.start(good.as_str());
                Operand { v: tmp, t: lit("ptr") }
            },
            Fails::Flag => {
                let ok = self.alloca("i8");
                self.line(cat2("store i8 0, ptr ", ok.as_str()));
                let tmp = self.reg();
                self.library_call(
                    cat3(tmp.as_str(), " = call ", ret_llvm_of(b.ret)),
                    bridge_symbol_of(name),
                    cat3(args, ", ptr ", ok.as_str()),
                );
                self.flag_check(
                    name,
                    ok.as_str(),
                    cat3("运行时错误: ", name, fail_tail_of(name)).as_str(),
                    cat2(", ptr ", shown).as_str(),
                );
                if b.ret == Ret::Truth {
                    let is_true = self.reg();
                    self.line(cat4(is_true.as_str(), " = icmp ne i8 ", tmp.as_str(), ", 0"));
                    Operand { v: is_true, t: lit("i1") }
                } else {
                    Operand { v: tmp, t: lit(ret_llvm_of(b.ret)) }
                }
            },
        }
    }

    fn user_call(
        &mut self,
        sem: &Sem,
        name: &str,
        e: &Expr,
        forward: bool,
        d: u128,
    ) -> (out: Operand)
        ensures
            (final(self)@, out@) == user_call_code(*sem, old(self)@, name@, *e, forward, d as nat),
            kept(old(self)@, final(self)@, true),
            tame(old(self)@, final(self)@, plain_sem(*sem)),
            sober(old(self)@, final(self)@, plain_sem(*sem), out@.v),
            sober(old(self)@, final(self)@, plain_sem(*sem), out@.t),
        decreases d, e, 6int, 0int,
    {
        match sem.sig_of(name) {
            Some(sig) => {
                let vals = self.call_args(sem, name, sig, e, forward, sig.param_tys.len(), d);
                let args = lit(join_strings(&vals, ", ").as_str());
                let ret = self.ty(sem, &sig.ret_ty);
                let tmp = self.reg();
                if sig.ret_ty.is_void() {
                    self.line(
                        cat5("call void @", ns_symbol(name).as_str(), "(", args.as_str(), ")"),
                    );
                    Operand { v: tmp, t: lit("void") }
                } else {
                    self.line(
                        cat8(
                            tmp.as_str(),
                            " = call ",
                            ret.as_str(),
                            " @",
                            ns_symbol(name).as_str(),
                            "(",
                            args.as_str(),
                            ")",
                        ),
                    );
                    Operand { v: tmp, t: ret }
                }
            },
            None => {
                let m = cat5(
                    "内部错误：函数 '",
                    name,
                    "' 无签名（函数 ",
                    self.cur_fn.as_str(),
                    "）",
                );
                self.fail(m);
                Operand { v: lit(""), t: lit("") }
            },
        }
    }

    fn one_arg(
        &mut self,
        sem: &Sem,
        name: &str,
        sig: &FuncSig,
        e: &Expr,
        forward: bool,
        n: usize,
        d: u128,
    ) -> (out: String)
        ensures
            (final(self)@, out@) == one_arg_code(
                *sem,
                old(self)@,
                name@,
                *sig,
                *e,
                forward,
                n,
                d as nat,
            ),
            kept(old(self)@, final(self)@, true),
            tame(old(self)@, final(self)@, plain_sem(*sem)),
            sober(old(self)@, final(self)@, plain_sem(*sem), out@),
        decreases d, e, 4int, 0int,
    {
        if n == 0 {
            lit("")
        } else if forward && n == 1 {
            if is_method_fn(name, first_ty_of(sig)) {
                let a = self.receiver_addr(sem, e, d);
                cat2("ptr ", a.v.as_str())
            } else {
                let a = self.receiver_value(sem, e, d);
                let t = self.param_ty(sem, sig, n);
                cat3(t.as_str(), " ", a.v.as_str())
            }
        } else {
            let j: usize = if forward { n - 2 } else { n - 1 };
            if j < argc_of(e) {
                let a = self.arg_value(sem, e, j, d);
                let t = self.param_ty(sem, sig, n);
                cat3(t.as_str(), " ", a.v.as_str())
            } else {
                match param_default(sig, n) {
                    Some(x) => {
                        if d == 0 {
                            let m = cat3(
                                "内部错误：默认值的展开没有终点（函数 ",
                                self.cur_fn.as_str(),
                                "）",
                            );
                            self.fail(m);
                            lit("")
                        } else {
                            let a = self.value(sem, &**x, d - 1);
                            let t = self.param_ty(sem, sig, n);
                            cat3(t.as_str(), " ", a.v.as_str())
                        }
                    },
                    None => {
                        let m = cat7(
                            "内部错误：函数 '",
                            name,
                            "' 缺少第 ",
                            dec_usize(n).as_str(),
                            " 个实参且无默认值（函数 ",
                            self.cur_fn.as_str(),
                            "）",
                        );
                        self.fail(m);
                        lit("")
                    },
                }
            }
        }
    }

    fn value(&mut self, sem: &Sem, e: &Expr, d: u128) -> (out: Operand)
        ensures
            (final(self)@, out@) == value_code(*sem, old(self)@, *e, d as nat),
            kept(old(self)@, final(self)@, true),
            tame(old(self)@, final(self)@, plain_sem(*sem)),
            sober(old(self)@, final(self)@, plain_sem(*sem), out@.v),
            sober(old(self)@, final(self)@, plain_sem(*sem), out@.t),
        decreases d, e, 10int, 0int,
    {
        match &e.kind {
            ExprKind::TableLit { cells } => {
                let elem = match &e.note.table {
                    Some(info) => self.ty(sem, &info.elem_ty),
                    None => lit("i64"),
                };
                self.mark(lit("tie_table_new"));
                let t = self.reg();
                self.library_call(
                    cat2(t.as_str(), " = call ptr"),
                    lit("tie_table_new"),
                    cat2("i64 ", slot_size_of(elem.as_str())),
                );
                self.mark(cat2("tie_table_push_", table_elem_suffix(elem.as_str())));
                self.table_cells(sem, t.as_str(), elem.as_str(), e, cells.len(), d);
                Operand { v: t, t: lit("ptr") }
            },
            _ => self.expr(sem, e, d),
        }
    }

    fn construct(
        &mut self,
        sem: &Sem,
        name: &str,
        c: &ClassInfo,
        e: &Expr,
        d: u128,
    ) -> (out: Operand)
        ensures
            (final(self)@, out@) == construct_code(*sem, old(self)@, name@, *c, *e, d as nat),
            kept(old(self)@, final(self)@, true),
            tame(old(self)@, final(self)@, plain_sem(*sem)),
            sober(old(self)@, final(self)@, plain_sem(*sem), out@.v),
            sober(old(self)@, final(self)@, plain_sem(*sem), out@.t),
        decreases d, e, 7int, 0int,
    {
        let agg = self.struct_ty(sem, name);
        let v = self.construct_fields(sem, c, agg.as_str(), e, c.fields.len(), d);
        Operand { v: v, t: agg }
    }

    fn field_value(
        &mut self,
        sem: &Sem,
        c: &ClassInfo,
        t: &str,
        e: &Expr,
        i: usize,
        d: u128,
    ) -> (out: String)
        ensures
            (final(self)@, out@) == field_value_code(*sem, old(self)@, *c, t@, *e, i, d as nat),
            kept(old(self)@, final(self)@, true),
            tame(old(self)@, final(self)@, calm(t@) && plain_sem(*sem)),
            sober(old(self)@, final(self)@, calm(t@) && plain_sem(*sem), out@),
        decreases d, e, 5int, 0int,
    {
        if i < argc_of(e) {
            let a = self.arg(sem, e, i, d);
            a.v
        } else {
            match field_init(c, i) {
                Some(x) => {
                    if d == 0 {
                        let m = cat3(
                            "内部错误：字段默认值的展开没有终点（函数 ",
                            self.cur_fn.as_str(),
                            "）",
                        );
                        self.fail(m);
                        lit("")
                    } else {
                        let a = self.expr(sem, &**x, d - 1);
                        a.v
                    }
                },
                None => lit(zero_value(t)),
            }
        }
    }

    fn class_addr(&mut self, sem: &Sem, e: &Expr, d: u128) -> (out: Operand)
        ensures
            (final(self)@, out@) == class_addr_code(*sem, old(self)@, *e, d as nat),
            kept(old(self)@, final(self)@, true),
            tame(old(self)@, final(self)@, plain_sem(*sem)),
            sober(old(self)@, final(self)@, plain_sem(*sem), out@.v),
            sober(old(self)@, final(self)@, plain_sem(*sem), out@.t),
        decreases d, e, 8int, 0int,
    {
        match &e.kind {
            ExprKind::Var(name) => {
                match self.bound(name.as_str()) {
                    Some(b) => {
                        Operand { v: lit(b.value.as_str()), t: lit(b.ty.as_str()) }
                    },
                    None => {
                        let m = cat5(
                            "内部错误：变量 '",
                            name.as_str(),
                            "' 未入作用域（函数 ",
                            self.cur_fn.as_str(),
                            "）",
                        );
                        self.fail(m);
                        Operand { v: lit(""), t: lit("") }
                    },
                }
            },
            ExprKind::FieldAccess { base, field } => {
                let a = self.class_addr(sem, &**base, d);
                match &base.note.ty {
                    Some(t) => self.field_addr(
                        sem,
                        a.v.as_str(),
                        a.t.as_str(),
                        t,
                        field.as_str(),
                        "内部错误：字段链的基类型不是 struct",
                    ),
                    None => {
                        let m = cat3(
                            "内部错误：字段链缺少基类型（函数 ",
                            self.cur_fn.as_str(),
                            "）",
                        );
                        self.fail(m);
                        Operand { v: lit(""), t: lit("") }
                    },
                }
            },
            _ => {
                let m = cat2(
                    "内部错误：类实例必须可寻址（变量/this/字段链），函数 ",
                    self.cur_fn.as_str(),
                );
                self.fail(m);
                Operand { v: lit(""), t: lit("") }
            },
        }
    }

    fn unary(&mut self, sem: &Sem, e: &Expr, d: u128) -> (out: Operand)
        ensures
            (final(self)@, out@) == unary_code(*sem, old(self)@, *e, d as nat),
            kept(old(self)@, final(self)@, true),
            tame(old(self)@, final(self)@, plain_sem(*sem)),
            sober(old(self)@, final(self)@, plain_sem(*sem), out@.v),
            sober(old(self)@, final(self)@, plain_sem(*sem), out@.t),
        decreases d, e, 8int, 0int,
    {
        match &e.kind {
            ExprKind::Unary { op, operand } => {
                if *op == UnaryOp::Neg || *op == UnaryOp::Not {
                    let a = self.expr(sem, &**operand, d);
                    self.unary_value(*op, a.v.as_str(), a.t.as_str())
                } else {
                    self.inc_dec(*op, &**operand)
                }
            },
            _ => {
                Operand { v: lit(""), t: lit("") }
            },
        }
    }

    fn binary(&mut self, sem: &Sem, e: &Expr, d: u128) -> (out: Operand)
        ensures
            (final(self)@, out@) == binary_code(*sem, old(self)@, *e, d as nat),
            kept(old(self)@, final(self)@, true),
            tame(old(self)@, final(self)@, plain_sem(*sem)),
            sober(old(self)@, final(self)@, plain_sem(*sem), out@.v),
            sober(old(self)@, final(self)@, plain_sem(*sem), out@.t),
        decreases d, e, 8int, 0int,
    {
        match &e.kind {
            ExprKind::Binary { op, lhs, rhs } => {
                let a = self.expr(sem, &**lhs, d);
                let b = self.expr(sem, &**rhs, d);
                if is_typed(&**lhs, TyKw::Trit) || is_typed(&**rhs, TyKw::Trit) {
                    self.binary_trit(*op, a.v.as_str(), a.t.as_str(), b.v.as_str(), b.t.as_str())
                } else {
                    self.binary_regs(
                        *op,
                        is_typed(&**lhs, TyKw::Str) || is_typed(&**rhs, TyKw::Str),
                        a.v.as_str(),
                        a.t.as_str(),
                        b.v.as_str(),
                        is_unsigned(&**lhs),
                    )
                }
            },
            _ => {
                Operand { v: lit(""), t: lit("") }
            },
        }
    }

    fn ternary(&mut self, sem: &Sem, e: &Expr, d: u128) -> (out: Operand)
        ensures
            (final(self)@, out@) == ternary_code(*sem, old(self)@, *e, d as nat),
            kept(old(self)@, final(self)@, true),
            tame(old(self)@, final(self)@, plain_sem(*sem)),
            sober(old(self)@, final(self)@, plain_sem(*sem), out@.v),
            sober(old(self)@, final(self)@, plain_sem(*sem), out@.t),
            e.kind matches ExprKind::Ternary { cond, then_expr, else_expr } ==> ternary_decides(
                *sem,
                old(self)@,
                cond,
                then_expr,
                else_expr,
                d as nat,
                final(self)@.out,
                out@,
            ),
        decreases d, e, 8int, 0int,
    {
        match &e.kind {
            ExprKind::Ternary { cond, then_expr, else_expr } => {
                let c = self.expr(sem, &**cond, d);
                let yes = self.label("tern.then");
                let no = self.label("tern.else");
                let merge = self.label("tern.merge");
                self.line(
                    cat6(
                        "br i1 ",
                        c.v.as_str(),
                        ", label %",
                        yes.as_str(),
                        ", label %",
                        no.as_str(),
                    ),
                );
                self.start(yes.as_str());
                let ghost first = self@;
                assert(first == ternary_yes(*sem, old(self)@, *cond, d as nat));
                let a = self.expr(sem, &**then_expr, d);
                proof {
                    lemma_kept_adds(first, self@, true);
                }
                self.line(cat2("br label %", merge.as_str()));
                self.start(no.as_str());
                let ghost second = self@;
                assert(second == ternary_no(*sem, old(self)@, *cond, *then_expr, d as nat));
                let b = self.expr(sem, &**else_expr, d);
                proof {
                    lemma_kept_adds(second, self@, true);
                }
                self.line(cat2("br label %", merge.as_str()));
                self.start(merge.as_str());
                let phi = self.reg();
                self.line(
                    cat12(
                        phi.as_str(),
                        " = phi ",
                        a.t.as_str(),
                        " [ ",
                        a.v.as_str(),
                        ", %",
                        yes.as_str(),
                        " ], [ ",
                        b.v.as_str(),
                        ", %",
                        no.as_str(),
                        " ]",
                    ),
                );
                proof {
                    law_ternary_code(
                        *sem,
                        old(self)@,
                        *e,
                        *cond,
                        *then_expr,
                        *else_expr,
                        d as nat,
                    );
                }
                Operand { v: phi, t: a.t }
            },
            _ => {
                Operand { v: lit(""), t: lit("") }
            },
        }
    }

    fn index(&mut self, sem: &Sem, e: &Expr, d: u128) -> (out: Operand)
        ensures
            (final(self)@, out@) == index_code(*sem, old(self)@, *e, d as nat),
            kept(old(self)@, final(self)@, true),
            tame(old(self)@, final(self)@, plain_sem(*sem)),
            sober(old(self)@, final(self)@, plain_sem(*sem), out@.v),
            sober(old(self)@, final(self)@, plain_sem(*sem), out@.t),
        decreases d, e, 8int, 0int,
    {
        match &e.kind {
            ExprKind::Index { base, index } => {
                let i = self.expr(sem, &**index, d);
                let idx = self.extend(i.v.as_str(), i.t.as_str(), is_unsigned(&**index));
                match &base.kind {
                    ExprKind::Call { .. } | ExprKind::MethodCall { .. } => {
                        let t = self.expr(sem, &**base, d);
                        let elem = self.dyn_elem(sem, &**base);
                        let val = self.checked_at(t.v.as_str(), idx.as_str(), elem.as_str());
                        Operand { v: val, t: elem }
                    },
                    ExprKind::Var(name) => self.index_var(
                        sem,
                        name.as_str(),
                        idx.as_str(),
                        is_typed(&**base, TyKw::Str),
                    ),
                    _ => {
                        let m = lit("下标访问仅支持表/字符串变量、表字面量或返回表的函数调用");
                        self.fail(m);
                        Operand { v: lit(""), t: lit("") }
                    },
                }
            },
            _ => {
                Operand { v: lit(""), t: lit("") }
            },
        }
    }

    fn tuple(&mut self, sem: &Sem, e: &Expr, d: u128) -> (out: Operand)
        ensures
            (final(self)@, out@) == tuple_code(*sem, old(self)@, *e, d as nat),
            kept(old(self)@, final(self)@, true),
            tame(old(self)@, final(self)@, plain_sem(*sem)),
            sober(old(self)@, final(self)@, plain_sem(*sem), out@.v),
            sober(old(self)@, final(self)@, plain_sem(*sem), out@.t),
        decreases d, e, 8int, 0int,
    {
        match &e.note.ty {
            Some(t) => {
                match t {
                    TypeSpec::Tuple(_) => {
                        let agg = self.ty(sem, t);
                        let v = self.tuple_values(sem, agg.as_str(), e, tuple_size_of(e), d);
                        Operand { v: v, t: agg }
                    },
                    _ => {
                        let m = cat3(
                            "内部错误：元组字面量语义类型不是元组（函数 ",
                            self.cur_fn.as_str(),
                            "）",
                        );
                        self.fail(m);
                        Operand { v: lit(""), t: lit("") }
                    },
                }
            },
            None => {
                let m = cat3("内部错误：元组字面量缺少语义类型（函数 ", self.cur_fn.as_str(), "）");
                self.fail(m);
                Operand { v: lit(""), t: lit("") }
            },
        }
    }

    fn field(&mut self, sem: &Sem, e: &Expr, d: u128) -> (out: Operand)
        ensures
            (final(self)@, out@) == field_code(*sem, old(self)@, *e, d as nat),
            kept(old(self)@, final(self)@, true),
            tame(old(self)@, final(self)@, plain_sem(*sem)),
            sober(old(self)@, final(self)@, plain_sem(*sem), out@.v),
            sober(old(self)@, final(self)@, plain_sem(*sem), out@.t),
        decreases d, e, 8int, 0int,
    {
        match &e.kind {
            ExprKind::FieldAccess { base, field } => {
                match &base.note.ty {
                    Some(t) => {
                        match t {
                            TypeSpec::Tuple(_) => {
                                let b = self.expr(sem, &**base, d);
                                self.tuple_field(sem, b.v.as_str(), t, field.as_str())
                            },
                            TypeSpec::Struct(_) => {
                                let b = self.class_addr(sem, &**base, d);
                                let f = self.field_addr(
                                    sem,
                                    b.v.as_str(),
                                    b.t.as_str(),
                                    t,
                                    field.as_str(),
                                    "",
                                );
                                let val = self.reg();
                                self.line(
                                    cat5(
                                        val.as_str(),
                                        " = load ",
                                        f.t.as_str(),
                                        ", ptr ",
                                        f.v.as_str(),
                                    ),
                                );
                                Operand { v: val, t: f.t }
                            },
                            _ => {
                                let m = cat5(
                                    "内部错误：字段访问的对象不是元组/类（",
                                    type_name_of(t),
                                    "，函数 ",
                                    self.cur_fn.as_str(),
                                    "）",
                                );
                                self.fail(m);
                                Operand { v: lit(""), t: lit("") }
                            },
                        }
                    },
                    None => {
                        let m = cat3(
                            "内部错误：字段访问缺少基类型（函数 ",
                            self.cur_fn.as_str(),
                            "）",
                        );
                        self.fail(m);
                        Operand { v: lit(""), t: lit("") }
                    },
                }
            },
            _ => {
                Operand { v: lit(""), t: lit("") }
            },
        }
    }

    #[verifier::rlimit(50)]
    pub fn expr(&mut self, sem: &Sem, e: &Expr, d: u128) -> (out: Operand)
        ensures
            (final(self)@, out@) == expr_code(*sem, old(self)@, *e, d as nat),
            kept(old(self)@, final(self)@, true),
            tame(old(self)@, final(self)@, plain_sem(*sem)),
            sober(old(self)@, final(self)@, plain_sem(*sem), out@.v),
            sober(old(self)@, final(self)@, plain_sem(*sem), out@.t),
        decreases d, e, 9int, 0int,
    {
        match &e.kind {
            ExprKind::IntLit(_) | ExprKind::FloatLit { .. } | ExprKind::BoolLit(_)
            | ExprKind::TritLit(_) | ExprKind::CharLit(_) | ExprKind::StrLit(_) => self.literal(e),
            ExprKind::TypeLit { ty } => {
                let m = cat3(
                    "内部错误：case 类型匹配（",
                    type_name_of(ty),
                    "）不应到达 IR 表达式生成（语义层已拦截）",
                );
                self.fail(m);
                Operand { v: lit(""), t: lit("") }
            },
            ExprKind::Var(name) => self.read_var(sem, name.as_str()),
            ExprKind::Call { name, .. } => {
                match sem.class_of(name.as_str()) {
                    Some(c) => self.construct(sem, name.as_str(), c, e, d),
                    None => {
                        match &e.note.resolved {
                            Some(full) => self.call(sem, full.as_str(), e, false, d),
                            None => self.call(sem, name.as_str(), e, false, d),
                        }
                    },
                }
            },
            ExprKind::Unary { .. } => self.unary(sem, e, d),
            ExprKind::Binary { .. } => self.binary(sem, e, d),
            ExprKind::Ternary { .. } => self.ternary(sem, e, d),
            ExprKind::Range { .. } => {
                let m = lit("范围表达式只能在 for 中使用（不能单独求值）");
                self.fail(m);
                Operand { v: lit(""), t: lit("") }
            },
            ExprKind::TableLit { .. } => {
                let m = lit("表字面量只能用于表变量声明（var x: table = [...]）");
                self.fail(m);
                Operand { v: lit(""), t: lit("") }
            },
            ExprKind::Index { .. } => self.index(sem, e, d),
            ExprKind::TupleLit { .. } => self.tuple(sem, e, d),
            ExprKind::FieldAccess { .. } => self.field(sem, e, d),
            ExprKind::MethodCall { receiver, method, .. } => {
                match &e.note.resolved {
                    Some(full) => self.call(sem, full.as_str(), e, self.is_value(&**receiver), d),
                    None => {
                        let m = cat5(
                            "内部错误：方法调用缺少解析记录（",
                            method.as_str(),
                            "，函数 ",
                            self.cur_fn.as_str(),
                            "）",
                        );
                        self.fail(m);
                        Operand { v: lit(""), t: lit("") }
                    },
                }
            },
            ExprKind::Path { .. } => {
                let m = cat3("内部错误：命名空间路径不能作为值（函数 ", self.cur_fn.as_str(), "）");
                self.fail(m);
                Operand { v: lit(""), t: lit("") }
            },
        }
    }

    fn noted_ty(&mut self, sem: &Sem, e: &Expr) -> (out: String)
        ensures
            (final(self)@, out@) == noted_ty_code(*sem, old(self)@, *e),
            kept(old(self)@, final(self)@, true),
            tame(old(self)@, final(self)@, plain_sem(*sem)),
            sober(old(self)@, final(self)@, plain_sem(*sem), out@),
    {
        match &e.note.ty {
            Some(t) => self.ty(sem, t),
            None => lit("i64"),
        }
    }

    fn dyn_table_var(&mut self, sem: &Sem, name: &str, init: &Expr)
        ensures
            final(self)@ == dyn_table_var_code(*sem, old(self)@, name@, *init),
            kept(old(self)@, final(self)@, false),
            tame(old(self)@, final(self)@, plain_sem(*sem)),
    {
        match sem.table_var(self.cur_fn.as_str(), name) {
            Some(info) => {
                let elem = self.ty(sem, &info.elem_ty);
                let t = match &init.kind {
                    ExprKind::Call { name: callee, .. } => {
                        match &init.note.resolved {
                            Some(full) => {
                                let a = self.call(sem, full.as_str(), init, false, depth_of(sem));
                                a.v
                            },
                            None => {
                                let a = self.call(sem, callee.as_str(), init, false, depth_of(sem));
                                a.v
                            },
                        }
                    },
                    ExprKind::MethodCall { .. } => {
                        let a = self.expr(sem, init, depth_of(sem));
                        a.v
                    },
                    _ => {
                        self.mark(lit("tie_table_new"));
                        let t = self.reg();
                        self.library_call(
                            cat2(t.as_str(), " = call ptr"),
                            lit("tie_table_new"),
                            cat2("i64 ", slot_size_of(elem.as_str())),
                        );
                        t
                    },
                };
                let slot = self.alloca("ptr");
                self.line(cat4("store ptr ", t.as_str(), ", ptr ", slot.as_str()));
                self.bind(name, slot.as_str(), "ptr");
            },
            None => {
                let m = cat3("内部错误：动态表变量 '", name, "' 缺少布局元数据");
                self.fail(m);
            },
        }
    }

    fn fixed_table_var(
        &mut self,
        sem: &Sem,
        name: &str,
        init: &Expr,
        elem_ty: &TypeSpec,
        len: usize,
    )
        ensures
            final(self)@ == fixed_table_var_code(*sem, old(self)@, name@, *init, *elem_ty, len),
            kept(old(self)@, final(self)@, false),
            tame(old(self)@, final(self)@, plain_sem(*sem)),
    {
        let elem = self.ty(sem, elem_ty);
        let arr = cat5("[", dec_usize(len).as_str(), " x ", elem.as_str(), "]");
        let slot = self.alloca(arr.as_str());
        self.store_cells(
            sem,
            arr.as_str(),
            elem.as_str(),
            slot.as_str(),
            init,
            cell_count_of(init),
        );
        self.bind(name, slot.as_str(), arr.as_str());
    }

    fn table_decl(&mut self, sem: &Sem, name: &str, init: &Expr)
        ensures
            final(self)@ == table_decl_code(*sem, old(self)@, name@, *init),
            kept(old(self)@, final(self)@, false),
            tame(old(self)@, final(self)@, plain_sem(*sem)),
    {
        match &init.note.table {
            Some(info) => {
                self.fixed_table_var(sem, name, init, &info.elem_ty, info.len);
            },
            None => {
                match sem.table_var(self.cur_fn.as_str(), name) {
                    Some(info) => {
                        self.fixed_table_var(sem, name, init, &info.elem_ty, info.len);
                    },
                    None => {
                        let m = cat3("内部错误：表变量 '", name, "' 缺少布局元数据");
                        self.fail(m);
                    },
                }
            },
        }
    }

    fn var_decl(&mut self, sem: &Sem, name: &str, t: &Option<TypeSpec>, init: &Expr)
        ensures
            final(self)@ == var_decl_code(*sem, old(self)@, name@, *t, *init),
            kept(old(self)@, final(self)@, false),
            tame(old(self)@, final(self)@, plain_sem(*sem)),
    {
        if sem.dynamic_table(self.cur_fn.as_str(), name) {
            self.dyn_table_var(sem, name, init);
        } else if is_fixed_table(t, init) {
            self.table_decl(sem, name, init);
        } else {
            match trit_literal_of(is_trit(t), init) {
                Some(v) => {
                    let slot = self.alloca("i8");
                    self.line(
                        cat4("store i8 ", dec_i64(v as i64).as_str(), ", ptr ", slot.as_str()),
                    );
                    self.bind(name, slot.as_str(), "i8");
                },
                None => {
                    let a = self.expr(sem, init, depth_of(sem));
                    let llvm = match t {
                        Some(x) => {
                            if x.is_wide() {
                                self.noted_ty(sem, init)
                            } else {
                                self.ty(sem, x)
                            }
                        },
                        None => lit(a.t.as_str()),
                    };
                    let slot = self.alloca(llvm.as_str());
                    self.line(
                        cat6("store ", llvm.as_str(), " ", a.v.as_str(), ", ptr ", slot.as_str()),
                    );
                    self.bind(name, slot.as_str(), llvm.as_str());
                },
            }
        }
    }

    fn store_to(&mut self, sem: &Sem, ty: &str, ptr: &str, op: Option<BinaryOp>, value: &Expr)
        ensures
            final(self)@ == store_to_code(*sem, old(self)@, ty@, ptr@, op, *value),
            kept(old(self)@, final(self)@, true),
            tame(old(self)@, final(self)@, calm(ty@) && half(ptr@) && plain_sem(*sem)),
    {
        match op {
            None => {
                let a = self.expr(sem, value, depth_of(sem));
                self.line(cat6("store ", ty, " ", a.v.as_str(), ", ptr ", ptr));
            },
            Some(o) => {
                let a = self.expr(sem, value, depth_of(sem));
                let before = self.reg();
                self.line(cat5(before.as_str(), " = load ", ty, ", ptr ", ptr));
                let x = self.binary_regs(
                    o,
                    same(ty, "ptr"),
                    before.as_str(),
                    ty,
                    a.v.as_str(),
                    is_unsigned(value),
                );
                self.line(cat6("store ", ty, " ", x.v.as_str(), ", ptr ", ptr));
            },
        }
    }

    fn assign(&mut self, sem: &Sem, target: &str, op: Option<BinaryOp>, value: &Expr)
        ensures
            final(self)@ == assign_code(*sem, old(self)@, target@, op, *value),
            kept(old(self)@, final(self)@, true),
            tame(old(self)@, final(self)@, plain_sem(*sem)),
    {
        match self.bound(target) {
            Some(b) => {
                self.store_to(sem, b.ty.as_str(), b.value.as_str(), op, value);
            },
            None => {
                match sem.global_ty(target) {
                    Some(t) => {
                        let llvm = self.ty(sem, t);
                        self.store_to(sem, llvm.as_str(), cat2("@", target).as_str(), op, value);
                    },
                    None => {
                        let m = cat5(
                            "内部错误：赋值目标 '",
                            target,
                            "' 未入作用域（函数 ",
                            self.cur_fn.as_str(),
                            "）",
                        );
                        self.fail(m);
                    },
                }
            },
        }
    }

    fn field_assign(
        &mut self,
        sem: &Sem,
        base: &Expr,
        field: &str,
        op: Option<BinaryOp>,
        value: &Expr,
    )
        ensures
            final(self)@ == field_assign_code(*sem, old(self)@, *base, field@, op, *value),
            kept(old(self)@, final(self)@, true),
            tame(old(self)@, final(self)@, plain_sem(*sem)),
    {
        let a = self.class_addr(sem, base, depth_of(sem));
        match &base.note.ty {
            Some(t) => {
                let f = self.field_addr(
                    sem,
                    a.v.as_str(),
                    a.t.as_str(),
                    t,
                    field,
                    "内部错误：字段赋值的对象不是 struct",
                );
                self.store_to(sem, f.t.as_str(), f.v.as_str(), op, value);
            },
            None => {
                let m = cat3("内部错误：字段赋值缺少基类型（函数 ", self.cur_fn.as_str(), "）");
                self.fail(m);
            },
        }
    }

    fn set_dynamic(
        &mut self,
        sem: &Sem,
        name: &str,
        at: &str,
        idx: &str,
        op: Option<BinaryOp>,
        value: &Expr,
    )
        ensures
            final(self)@ == set_dynamic_code(*sem, old(self)@, name@, at@, idx@, op, *value),
            kept(old(self)@, final(self)@, true),
            tame(old(self)@, final(self)@, calm(at@) && calm(idx@) && plain_sem(*sem)),
    {
        let elem = self.var_elem(sem, name);
        self.mark(cat2("tie_table_set_", table_elem_suffix(elem.as_str())));
        let t = self.reg();
        self.line(cat3(t.as_str(), " = load ptr, ptr ", at));
        let new = match op {
            None => {
                let a = self.expr(sem, value, depth_of(sem));
                a.v
            },
            Some(o) => {
                self.mark(cat2("tie_table_at_", table_elem_suffix(elem.as_str())));
                let ok = self.alloca("i1");
                self.line(cat2("store i1 1, ptr ", ok.as_str()));
                let before = self.reg();
                self.library_call(
                    cat3(before.as_str(), " = call ", elem.as_str()),
                    cat2("tie_table_at_", table_elem_suffix(elem.as_str())),
                    cat6("ptr ", t.as_str(), ", i64 ", idx, ", ptr ", ok.as_str()),
                );
                let a = self.expr(sem, value, depth_of(sem));
                let x = self.binary_regs(
                    o,
                    same(elem.as_str(), "ptr"),
                    before.as_str(),
                    elem.as_str(),
                    a.v.as_str(),
                    is_unsigned(value),
                );
                x.v
            },
        };
        let ok = self.alloca("i1");
        self.line(cat2("store i1 0, ptr ", ok.as_str()));
        self.library_call(
            lit("call void"),
            cat2("tie_table_set_", table_elem_suffix(elem.as_str())),
            cat10(
                "ptr ",
                t.as_str(),
                ", i64 ",
                idx,
                ", ",
                elem.as_str(),
                " ",
                new.as_str(),
                ", ptr ",
                ok.as_str(),
            ),
        );
        let okv = self.reg();
        self.line(cat3(okv.as_str(), " = load i1, ptr ", ok.as_str()));
        let good = self.label("index_assign.ok");
        let bad = self.label("index_assign.err");
        self.line(
            cat6("br i1 ", okv.as_str(), ", label %", good.as_str(), ", label %", bad.as_str()),
        );
        self.start(bad.as_str());
        let len = self.table_len(t.as_str());
        self.runtime_error(
            "运行时错误: table_at 下标越界：索引 %lld 超出长度 %lld",
            cat4(", i64 ", idx, ", i64 ", len.as_str()).as_str(),
        );
        self.start(good.as_str());
    }

    fn index_assign(&mut self, sem: &Sem, target: &Expr, op: Option<BinaryOp>, value: &Expr)
        ensures
            final(self)@ == index_assign_code(*sem, old(self)@, *target, op, *value),
            kept(old(self)@, final(self)@, true),
            tame(old(self)@, final(self)@, plain_sem(*sem)),
    {
        match &target.kind {
            ExprKind::Index { base, index } => {
                let i = self.expr(sem, &**index, depth_of(sem));
                let idx = self.extend(i.v.as_str(), i.t.as_str(), is_unsigned(&**index));
                match &base.kind {
                    ExprKind::Var(name) => {
                        match self.bound(name.as_str()) {
                            Some(b) => {
                                if sem.dynamic_table(self.cur_fn.as_str(), name.as_str()) {
                                    self.set_dynamic(
                                        sem,
                                        name.as_str(),
                                        b.value.as_str(),
                                        idx.as_str(),
                                        op,
                                        value,
                                    );
                                } else {
                                    match parse_array_elem_ty(b.ty.as_str()) {
                                        Some(elem) => {
                                            let ptr = self.reg();
                                            self.line(
                                                cat7(
                                                    ptr.as_str(),
                                                    " = getelementptr ",
                                                    b.ty.as_str(),
                                                    ", ptr ",
                                                    b.value.as_str(),
                                                    ", i64 0, i64 ",
                                                    idx.as_str(),
                                                ),
                                            );
                                            self.store_to(
                                                sem,
                                                elem.as_str(),
                                                ptr.as_str(),
                                                op,
                                                value,
                                            );
                                        },
                                        None => {
                                            let m = cat3(
                                                "内部错误：下标赋值的对象不是数组类型（",
                                                b.ty.as_str(),
                                                "）",
                                            );
                                            self.fail(m);
                                        },
                                    }
                                }
                            },
                            None => {
                                let m = cat5(
                                    "内部错误：下标赋值的变量 '",
                                    name.as_str(),
                                    "' 未入作用域（函数 ",
                                    self.cur_fn.as_str(),
                                    "）",
                                );
                                self.fail(m);
                            },
                        }
                    },
                    _ => {
                        let m = lit("下标赋值暂只支持单层表变量（t[i]）");
                        self.fail(m);
                    },
                }
            },
            _ => {
                let m = lit("内部错误：下标赋值的目标不是 Index（函数 {}）");
                self.fail(m);
            },
        }
    }

    fn ret_ty(&mut self, sem: &Sem) -> (out: String)
        ensures
            (final(self)@, out@) == ret_ty_code(*sem, old(self)@),
            kept(old(self)@, final(self)@, true),
            tame(old(self)@, final(self)@, plain_sem(*sem)),
            sober(old(self)@, final(self)@, plain_sem(*sem), out@),
    {
        match sem.sig_of(self.cur_fn.as_str()) {
            Some(sig) => self.ty(sem, &sig.ret_ty),
            None => lit("i64"),
        }
    }

    fn return_stmt(&mut self, sem: &Sem, e: &Option<Rc<Expr>>)
        ensures
            final(self)@ == return_stmt_code(*sem, old(self)@, *e),
            kept(old(self)@, final(self)@, true),
            tame(old(self)@, final(self)@, plain_sem(*sem)),
    {
        match e {
            Some(x) => {
                match trit_literal_of(is_returning(sem, self.cur_fn.as_str(), TyKw::Trit), &**x) {
                    Some(v) => {
                        self.line(cat2("ret i8 ", dec_i64(v as i64).as_str()));
                    },
                    None => {
                        let a = self.expr(sem, &**x, depth_of(sem));
                        let t = self.ret_ty(sem);
                        self.line(cat4("ret ", t.as_str(), " ", a.v.as_str()));
                    },
                }
            },
            None => {
                if same(self.cur_fn.as_str(), "main")
                    && is_returning(sem, self.cur_fn.as_str(), TyKw::Void) {
                    self.line(lit("ret i32 0"));
                } else {
                    self.line(lit("ret void"));
                }
            },
        }
    }

    fn expr_stmt(&mut self, sem: &Sem, e: &Expr)
        ensures
            final(self)@ == expr_stmt_code(*sem, old(self)@, *e),
            kept(old(self)@, final(self)@, true),
            tame(old(self)@, final(self)@, plain_sem(*sem)),
    {
        let a = self.expr(sem, e, depth_of(sem));
        if is_freeing_call(e) {
            self.library_call(
                lit("call void"),
                lit("tie_free_result"),
                cat2("ptr ", a.v.as_str()),
            );
        }
    }

    fn body(&mut self, sem: &Sem, b: &Block, to: &str)
        ensures
            final(self)@ == body_code(*sem, old(self)@, *b, to@),
            kept(close_scope(old(self)@), final(self)@, true),
            tame(old(self)@, final(self)@, calm(to@) && plain_sem(*sem)),
            adds(*sem, old(self)@, *b),
        decreases b, 2int, 0int,
    {
        self.block(sem, b);
        proof {
            lemma_kept_adds(old(self)@, self@, false);
        }
        self.close_scope();
        if !self.terminated() {
            self.line(cat2("br label %", to));
        }
    }

    fn if_stmt(&mut self, sem: &Sem, s: &Stmt)
        ensures
            final(self)@ == if_stmt_code(*sem, old(self)@, *s),
            kept(old(self)@, final(self)@, true),
            tame(old(self)@, final(self)@, plain_sem(*sem)),
            *s matches Stmt::If { cond, then_branch, else_branch } ==> if_decides(
                *sem,
                old(self)@,
                cond,
                then_branch,
                else_branch,
                final(self)@.out,
            ),
        decreases s, 8int, 0int,
    {
        match s {
            Stmt::If { cond, then_branch, else_branch } => {
                let c = self.expr(sem, &**cond, depth_of(sem));
                let yes = self.label("if.then");
                let no = self.label("if.else");
                let merge = self.label("if.merge");
                self.line(
                    cat6(
                        "br i1 ",
                        c.v.as_str(),
                        ", label %",
                        yes.as_str(),
                        ", label %",
                        no.as_str(),
                    ),
                );
                self.start(yes.as_str());
                self.open_scope();
                assert(self@ == if_yes(*sem, old(self)@, *cond));
                self.body(sem, then_branch, merge.as_str());
                self.start(no.as_str());
                self.open_scope();
                assert(self@ == if_no(*sem, old(self)@, *cond, *then_branch));
                self.body(sem, else_branch, merge.as_str());
                self.start(merge.as_str());
                proof {
                    law_if_code(*sem, old(self)@, *cond, *then_branch, *else_branch);
                }
            },
            _ => {
            },
        }
    }

    fn while_stmt(&mut self, sem: &Sem, s: &Stmt)
        ensures
            final(self)@ == while_stmt_code(*sem, old(self)@, *s),
            kept(old(self)@, final(self)@, true),
            tame(old(self)@, final(self)@, plain_sem(*sem)),
            *s matches Stmt::While { label: tag, cond, body } ==> while_decides(
                *sem,
                old(self)@,
                opt_view(tag),
                cond,
                body,
                final(self)@.out,
            ),
        decreases s, 8int, 0int,
    {
        match s {
            Stmt::While { label: tag, cond, body } => {
                let again = self.label("loop.cond");
                let inside = self.label("loop.body");
                let exit = self.label("loop.exit");
                self.enter_loop(tag, again.as_str(), exit.as_str());
                self.line(cat2("br label %", again.as_str()));
                self.start(again.as_str());
                let ghost top = self@;
                assert(top == while_top(old(self)@, opt_view(*tag)));
                let c = self.expr(sem, &**cond, depth_of(sem));
                assert(kept(top, self@, true));
                self.line(
                    cat6(
                        "br i1 ",
                        c.v.as_str(),
                        ", label %",
                        inside.as_str(),
                        ", label %",
                        exit.as_str(),
                    ),
                );
                self.start(inside.as_str());
                self.open_scope();
                assert(self@ == while_body(*sem, old(self)@, opt_view(*tag), *cond));
                self.body(sem, body, again.as_str());
                self.leave_loop();
                self.start(exit.as_str());
                proof {
                    law_while_code(*sem, old(self)@, *tag, *cond, *body);
                }
            },
            _ => {
            },
        }
    }

    fn loop_end(
        &mut self,
        sem: &Sem,
        b: &Block,
        slot: &str,
        now: &str,
        again: &str,
        next: &str,
        exit: &str,
    )
        ensures
            final(self)@ == loop_end_code(*sem, old(self)@, *b, slot@, now@, again@, next@, exit@),
            kept(leave_loop(close_scope(old(self)@)), final(self)@, true),
            tame(
                old(self)@,
                final(self)@,
                calm(slot@) && calm(now@) && calm(again@) && calm(next@) && calm(exit@)
                    && plain_sem(*sem),
            ),
            adds(*sem, old(self)@, *b),
        decreases b, 3int, 0int,
    {
        self.body(sem, b, next);
        self.start(next);
        let after = self.reg();
        self.line(cat4(after.as_str(), " = add i64 ", now, ", 1"));
        self.line(cat4("store i64 ", after.as_str(), ", ptr ", slot));
        self.line(cat2("br label %", again));
        self.leave_loop();
        self.start(exit);
    }

    fn for_range(
        &mut self,
        sem: &Sem,
        tag: &Option<String>,
        var: &str,
        lo: &Expr,
        hi: &Expr,
        b: &Block,
    )
        ensures
            final(self)@ == for_range_code(*sem, old(self)@, *tag, var@, *lo, *hi, *b),
            kept(old(self)@, final(self)@, true),
            tame(old(self)@, final(self)@, plain_sem(*sem)),
            range_counts(
                *sem,
                old(self)@,
                opt_view(*tag),
                var@,
                *lo,
                *hi,
                *b,
                final(self)@.out,
            ),
        decreases b, 4int, 0int,
    {
        let x = self.expr(sem, lo, depth_of(sem));
        let y = self.expr(sem, hi, depth_of(sem));
        let from = self.extend(x.v.as_str(), x.t.as_str(), is_unsigned(lo));
        let to = self.extend(y.v.as_str(), y.t.as_str(), is_unsigned(hi));
        let slot = self.alloca("i64");
        self.line(cat4("store i64 ", from.as_str(), ", ptr ", slot.as_str()));
        let again = self.label("for.cond");
        let inside = self.label("for.body");
        let next = self.label("for.step");
        let exit = self.label("for.exit");
        self.enter_loop(tag, next.as_str(), exit.as_str());
        self.line(cat2("br label %", again.as_str()));
        self.start(again.as_str());
        let now = self.reg();
        let done = self.reg();
        self.line(cat3(now.as_str(), " = load i64, ptr ", slot.as_str()));
        self.line(cat5(done.as_str(), " = icmp sge i64 ", now.as_str(), ", ", to.as_str()));
        self.line(
            cat6("br i1 ", done.as_str(), ", label %", exit.as_str(), ", label %", inside.as_str()),
        );
        self.start(inside.as_str());
        self.open_scope();
        self.bind(var, slot.as_str(), "i64");
        assert(self@ == range_body(*sem, old(self)@, opt_view(*tag), var@, *lo, *hi));
        self.loop_end(
            sem,
            b,
            slot.as_str(),
            now.as_str(),
            again.as_str(),
            next.as_str(),
            exit.as_str(),
        );
        proof {
            law_range_code(*sem, old(self)@, *tag, var@, *lo, *hi, *b);
        }
    }

    fn for_table(
        &mut self,
        sem: &Sem,
        tag: &Option<String>,
        var: &str,
        arr: &str,
        arr_ty: &str,
        len: &str,
        elem: &str,
        b: &Block,
    )
        ensures
            final(self)@ == for_table_code(
                *sem,
                old(self)@,
                *tag,
                var@,
                arr@,
                arr_ty@,
                len@,
                elem@,
                *b,
            ),
            kept(old(self)@, final(self)@, true),
            tame(
                old(self)@,
                final(self)@,
                calm(arr@) && calm(arr_ty@) && calm(len@) && calm(elem@) && plain_sem(*sem),
            ),
            table_counts(
                *sem,
                old(self)@,
                opt_view(*tag),
                var@,
                arr@,
                len@,
                elem@,
                *b,
                final(self)@.out,
            ),
        decreases b, 4int, 0int,
    {
        let slot = self.alloca("i64");
        self.line(cat2("store i64 0, ptr ", slot.as_str()));
        let item = self.alloca(elem);
        let again = self.label("for.cond");
        let inside = self.label("for.body");
        let next = self.label("for.step");
        let exit = self.label("for.exit");
        self.enter_loop(tag, next.as_str(), exit.as_str());
        self.line(cat2("br label %", again.as_str()));
        self.start(again.as_str());
        let now = self.reg();
        let done = self.reg();
        self.line(cat3(now.as_str(), " = load i64, ptr ", slot.as_str()));
        self.line(cat5(done.as_str(), " = icmp sge i64 ", now.as_str(), ", ", len));
        self.line(
            cat6("br i1 ", done.as_str(), ", label %", exit.as_str(), ", label %", inside.as_str()),
        );
        self.start(inside.as_str());
        let ptr = self.reg();
        self.line(
            cat7(
                ptr.as_str(),
                " = getelementptr ",
                arr_ty,
                ", ptr ",
                arr,
                ", i64 0, i64 ",
                now.as_str(),
            ),
        );
        let val = self.reg();
        self.line(cat5(val.as_str(), " = load ", elem, ", ptr ", ptr.as_str()));
        self.line(cat6("store ", elem, " ", val.as_str(), ", ptr ", item.as_str()));
        self.open_scope();
        self.bind(var, item.as_str(), elem);
        assert(self@ == table_body(old(self)@, opt_view(*tag), var@, arr@, arr_ty@, len@, elem@));
        self.loop_end(
            sem,
            b,
            slot.as_str(),
            now.as_str(),
            again.as_str(),
            next.as_str(),
            exit.as_str(),
        );
        proof {
            law_table_code(*sem, old(self)@, *tag, var@, arr@, arr_ty@, len@, elem@, *b);
        }
    }

    fn for_dynamic(
        &mut self,
        sem: &Sem,
        tag: &Option<String>,
        var: &str,
        name: &str,
        at: &str,
        b: &Block,
    )
        ensures
            final(self)@ == for_dynamic_code(*sem, old(self)@, *tag, var@, name@, at@, *b),
            kept(old(self)@, final(self)@, true),
            tame(old(self)@, final(self)@, calm(at@) && plain_sem(*sem)),
            dynamic_counts(
                *sem,
                old(self)@,
                opt_view(*tag),
                var@,
                name@,
                at@,
                *b,
                final(self)@.out,
            ),
        decreases b, 4int, 0int,
    {
        let elem = self.var_elem(sem, name);
        self.mark(cat2("tie_table_at_", table_elem_suffix(elem.as_str())));
        let t = self.reg();
        self.line(cat3(t.as_str(), " = load ptr, ptr ", at));
        let slot = self.alloca("i64");
        self.line(cat2("store i64 0, ptr ", slot.as_str()));
        let item = self.alloca(elem.as_str());
        let again = self.label("for.cond");
        let inside = self.label("for.body");
        let next = self.label("for.step");
        let exit = self.label("for.exit");
        self.enter_loop(tag, next.as_str(), exit.as_str());
        self.line(cat2("br label %", again.as_str()));
        self.start(again.as_str());
        let now = self.reg();
        self.line(cat3(now.as_str(), " = load i64, ptr ", slot.as_str()));
        let len = self.table_len(t.as_str());
        let done = self.reg();
        self.line(cat5(done.as_str(), " = icmp sge i64 ", now.as_str(), ", ", len.as_str()));
        self.line(
            cat6("br i1 ", done.as_str(), ", label %", exit.as_str(), ", label %", inside.as_str()),
        );
        self.start(inside.as_str());
        let ok = self.alloca("i1");
        self.line(cat2("store i1 1, ptr ", ok.as_str()));
        let val = self.reg();
        self.library_call(
            cat3(val.as_str(), " = call ", elem.as_str()),
            cat2("tie_table_at_", table_elem_suffix(elem.as_str())),
            cat6("ptr ", t.as_str(), ", i64 ", now.as_str(), ", ptr ", ok.as_str()),
        );
        self.line(cat6("store ", elem.as_str(), " ", val.as_str(), ", ptr ", item.as_str()));
        self.open_scope();
        self.bind(var, item.as_str(), elem.as_str());
        assert(self@ == dynamic_body(*sem, old(self)@, opt_view(*tag), var@, name@, at@));
        self.loop_end(
            sem,
            b,
            slot.as_str(),
            now.as_str(),
            again.as_str(),
            next.as_str(),
            exit.as_str(),
        );
        proof {
            law_dynamic_code(*sem, old(self)@, *tag, var@, name@, at@, *b);
        }
    }

    fn for_stmt(&mut self, sem: &Sem, s: &Stmt)
        ensures
            final(self)@ == for_stmt_code(*sem, old(self)@, *s),
            kept(old(self)@, final(self)@, true),
            tame(old(self)@, final(self)@, plain_sem(*sem)),
        decreases s, 8int, 0int,
    {
        match s {
            Stmt::For { label: tag, var, iter, body } => {
                match &iter.kind {
                    ExprKind::Var(name) => {
                        match self.bound(name.as_str()) {
                            Some(b) => {
                                match parse_array_shape(b.ty.as_str()) {
                                    Some(shape) => {
                                        self.for_table(
                                            sem,
                                            tag,
                                            var.as_str(),
                                            b.value.as_str(),
                                            b.ty.as_str(),
                                            dec_usize(shape.0).as_str(),
                                            shape.1.as_str(),
                                            body,
                                        );
                                    },
                                    None => {
                                        if same(b.ty.as_str(), "ptr") && sem.dynamic_table(
                                            self.cur_fn.as_str(),
                                            name.as_str(),
                                        ) {
                                            self.for_dynamic(
                                                sem,
                                                tag,
                                                var.as_str(),
                                                name.as_str(),
                                                b.value.as_str(),
                                                body,
                                            );
                                        } else {
                                            self.bad_iter();
                                        }
                                    },
                                }
                            },
                            None => {
                                self.bad_iter();
                            },
                        }
                    },
                    ExprKind::Range { start: lo, end: hi } => {
                        self.for_range(sem, tag, var.as_str(), &**lo, &**hi, body);
                    },
                    _ => {
                        self.bad_iter();
                    },
                }
            },
            _ => {
            },
        }
    }

    fn bad_iter(&mut self)
        ensures
            final(self)@ == bad_iter_code(old(self)@),
            kept(old(self)@, final(self)@, true),
            tame(old(self)@, final(self)@, true),
    {
        let m = cat3(
            "for 迭代对象仅支持范围（start..end）或表变量（函数 ",
            self.cur_fn.as_str(),
            "）",
        );
        self.fail(m);
    }

    fn pattern(&mut self, sem: &Sem, p: &Expr, how: &How) -> (out: String)
        ensures
            (final(self)@, out@) == pattern_code(*sem, old(self)@, *p, how@),
            kept(old(self)@, final(self)@, true),
            tame(old(self)@, final(self)@, how_calm(how@) && plain_sem(*sem)),
            sober(old(self)@, final(self)@, how_calm(how@) && plain_sem(*sem), out@),
    {
        match &p.kind {
            ExprKind::Range { start: lo, end: hi } => {
                let a = self.expr(sem, &**lo, depth_of(sem));
                let b = self.expr(sem, &**hi, depth_of(sem));
                let t = lit(range_ty_of(how.is_char));
                let ge = self.reg();
                self.line(
                    cat7(
                        ge.as_str(),
                        " = icmp sge ",
                        t.as_str(),
                        " ",
                        how.subject.as_str(),
                        ", ",
                        a.v.as_str(),
                    ),
                );
                let lt = self.reg();
                self.line(
                    cat7(
                        lt.as_str(),
                        " = icmp slt ",
                        t.as_str(),
                        " ",
                        how.subject.as_str(),
                        ", ",
                        b.v.as_str(),
                    ),
                );
                let both = self.reg();
                self.line(cat5(both.as_str(), " = and i1 ", ge.as_str(), ", ", lt.as_str()));
                both
            },
            ExprKind::TypeLit { .. } => {
                let m = lit("内部错误：case 类型匹配不应到达 IR 生成（语义层已拦截）");
                self.fail(m);
                lit("")
            },
            _ => {
                let a = self.expr(sem, p, depth_of(sem));
                if how.is_str {
                    let order = self.reg();
                    self.line(
                        cat6(
                            order.as_str(),
                            " = call i32 @strcmp(ptr ",
                            how.subject.as_str(),
                            ", ptr ",
                            a.v.as_str(),
                            ")",
                        ),
                    );
                    let c = self.reg();
                    self.line(cat4(c.as_str(), " = icmp eq i32 ", order.as_str(), ", 0"));
                    c
                } else {
                    let c = self.reg();
                    self.line(
                        cat7(
                            c.as_str(),
                            " = ",
                            how.test.as_str(),
                            " ",
                            how.subject.as_str(),
                            ", ",
                            a.v.as_str(),
                        ),
                    );
                    c
                }
            },
        }
    }

    fn case_body(&mut self, sem: &Sem, b: &Block, name: &str, exit: &str)
        ensures
            final(self)@ == case_body_code(*sem, old(self)@, *b, name@, exit@),
            kept(old(self)@, final(self)@, true),
            tame(old(self)@, final(self)@, calm(name@) && calm(exit@) && plain_sem(*sem)),
            block_at(final(self)@.out, *sem, *b, name@, exit@),
            adds(*sem, body_start(old(self)@, name@), *b),
        decreases b, 3int, 0int,
    {
        self.start(name);
        self.open_scope();
        assert(self@ == body_start(old(self)@, name@));
        self.body(sem, b, exit);
        proof {
            law_case_body_code(*sem, old(self)@, *b, name@, exit@);
        }
    }

    fn one_case(
        &mut self,
        sem: &Sem,
        c: &SwitchCase,
        here: &str,
        last: bool,
        how: &How,
    ) -> (out: String)
        ensures
            (final(self)@, out@) == one_case_code(*sem, old(self)@, *c, here@, last, how@),
            kept(old(self)@, final(self)@, true),
            tame(old(self)@, final(self)@, calm(here@) && how_calm(how@) && plain_sem(*sem)),
            sober(old(self)@, final(self)@, calm(here@) && how_calm(how@) && plain_sem(*sem), out@),
            case_at(final(self)@.out, *sem, *c, here@, last, how@, out@),
        decreases c, 4int, 0int,
    {
        let inside = self.label("sw.body");
        let next = if last {
            lit(how.default.as_str())
        } else {
            self.label("sw.cmp")
        };
        self.start(here);
        let ghost top = self@;
        assert(top == tests_start(old(self)@, here@, last));
        let tests = self.conds(sem, &c.patterns, how, c.patterns.len());
        let hit = self.any_of(&tests);
        let taken = match &c.when {
            Some(w) => {
                let a = self.expr(sem, &**w, depth_of(sem));
                let both = self.reg();
                self.line(cat5(both.as_str(), " = and i1 ", hit.as_str(), ", ", a.v.as_str()));
                both
            },
            None => lit(hit.as_str()),
        };
        proof {
            assert((self@, taken@) == tests_end(*sem, top, *c, how@));
            lemma_kept_adds(top, self@, true);
        }
        self.line(
            cat6(
                "br i1 ",
                taken.as_str(),
                ", label %",
                inside.as_str(),
                ", label %",
                next.as_str(),
            ),
        );
        assert((self@, inside@) == case_start(*sem, old(self)@, *c, here@, last, how@));
        self.case_body(sem, &c.body, inside.as_str(), how.exit.as_str());
        proof {
            law_case_code(*sem, old(self)@, *c, here@, last, how@);
        }
        lit(next.as_str())
    }

    fn subject(
        &mut self,
        v: &str,
        t: &str,
        is_str: bool,
        is_char: bool,
        is_unsigned: bool,
    ) -> (out: String)
        ensures
            (final(self)@, out@) == subject_code(old(self)@, v@, t@, is_str, is_char, is_unsigned),
            kept(old(self)@, final(self)@, true),
            tame(old(self)@, final(self)@, calm(v@) && calm(t@)),
            sober(old(self)@, final(self)@, calm(v@) && calm(t@), out@),
    {
        if is_str || same(t, "i1") || same(t, "double") {
            lit(v)
        } else if same(t, "float") {
            let x = self.reg();
            self.line(cat4(x.as_str(), " = fpext float ", v, " to double"));
            x
        } else if is_char {
            lit(v)
        } else {
            self.extend(v, t, is_unsigned)
        }
    }

    fn switch_table(
        &mut self,
        sem: &Sem,
        cases: &Rc<Vec<SwitchCase>>,
        v: &str,
        default: &str,
        exit: &str,
    )
        requires
            forall|i: int| 0 <= i < cases@.len() ==> plain_case(#[trigger] cases@[i]),
        ensures
            final(self)@ == switch_table_code(*sem, old(self)@, *cases, v@, default@, exit@),
            kept(old(self)@, final(self)@, true),
            tame(
                old(self)@,
                final(self)@,
                calm(v@) && calm(default@) && calm(exit@) && plain_sem(*sem),
            ),
            exists|labels: Seq<Seq<char>>|
                labels.len() == cases@.len() && #[trigger] begins(
                    final(self)@.out,
                    old(self)@.out + table_line(v@, default@, *cases, labels),
                ) && bodies_at(
                    final(self)@.out,
                    *sem,
                    *cases,
                    labels,
                    exit@,
                    cases@.len() as int,
                ),
        decreases cases, 6int, 0int,
    {
        let labels = self.case_labels(cases.len());
        proof {
            lemma_labels_write_nothing(old(self)@, cases.len());
            lemma_table_line(old(self)@, self@, v@, default@, *cases, views(labels@));
        }
        self.line(
            cat7(
                "switch i64 ",
                v,
                ", label %",
                default,
                " [\n    ",
                entries_of(cases, &labels).as_str(),
                "]",
            ),
        );
        let ghost before = self@;
        self.table_bodies(sem, cases, &labels, exit, cases.len());
        proof {
            lemma_kept_adds(before, self@, true);
        }
    }

    fn switch_cases(
        &mut self,
        sem: &Sem,
        cases: &Rc<Vec<SwitchCase>>,
        v: &str,
        t: &str,
        is_str: bool,
        is_char: bool,
        default: &str,
        exit: &str,
    )
        ensures
            final(self)@ == switch_cases_code(
                *sem,
                old(self)@,
                *cases,
                v@,
                t@,
                is_str,
                is_char,
                default@,
                exit@,
            ),
            kept(old(self)@, final(self)@, true),
            tame(
                old(self)@,
                final(self)@,
                calm(v@) && calm(t@) && calm(default@) && calm(exit@) && plain_sem(*sem),
            ),
            cases_at(
                final(self)@.out,
                *sem,
                old(self)@.out.len() as int,
                *cases,
                v@,
                t@,
                is_str,
                is_char,
                default@,
                exit@,
            ),
        decreases cases, 7int, 0int,
    {
        if can_emit_switch_table(cases, is_str, is_char, t) {
            self.switch_table(sem, cases, v, default, exit);
            proof {
                let labels = choose|labels: Seq<Seq<char>>|
                    labels.len() == cases@.len() && #[trigger] begins(
                        self@.out,
                        old(self)@.out + table_line(v@, default@, *cases, labels),
                    ) && bodies_at(self@.out, *sem, *cases, labels, exit@, cases@.len() as int);
                lemma_table_cases(
                    self@.out,
                    *sem,
                    old(self)@,
                    *cases,
                    v@,
                    t@,
                    is_str,
                    is_char,
                    default@,
                    exit@,
                    labels,
                );
            }
        } else if cases.len() == 0 {
            self.line(cat2("br label %", default));
            proof {
                lemma_no_cases(
                    *sem,
                    old(self)@,
                    *cases,
                    v@,
                    t@,
                    is_str,
                    is_char,
                    default@,
                    exit@,
                );
            }
        } else {
            let first = self.label("sw.cmp");
            self.line(cat2("br label %", first.as_str()));
            let ghost before = self@;
            let how = How {
                subject: lit(v),
                test: lit(switch_test_of(is_str, t, is_char)),
                is_str,
                is_char,
                default: lit(default),
                exit: lit(exit),
            };
            let _next = self.cases(sem, cases, first.as_str(), &how, cases.len());
            proof {
                lemma_kept_adds(before, self@, true);
                lemma_tried_cases(
                    self@.out,
                    *sem,
                    old(self)@,
                    *cases,
                    v@,
                    t@,
                    is_str,
                    is_char,
                    default@,
                    exit@,
                    first@,
                    _next@,
                );
            }
        }
    }

    fn switch_end(&mut self, sem: &Sem, default_body: &Block, default: &str, exit: &str)
        ensures
            final(self)@ == switch_end_code(*sem, old(self)@, *default_body, default@, exit@),
            kept(old(self)@, final(self)@, true),
            tame(old(self)@, final(self)@, calm(default@) && calm(exit@) && plain_sem(*sem)),
            end_at(final(self)@.out, *sem, *default_body, default@, exit@),
        decreases default_body, 4int, 0int,
    {
        reveal(switch_end_code);
        if default_body.len() > 0 {
            self.case_body(sem, default_body, default, exit);
        }
        proof {
            lemma_end(*sem, self@, *default_body, default@, exit@);
        }
        self.start(exit);
    }

    fn default_label(&mut self, default_body: &Block, exit: &str) -> (out: String)
        ensures
            (final(self)@, out@) == default_label_code(old(self)@, *default_body, exit@),
            kept(old(self)@, final(self)@, true),
            tame(old(self)@, final(self)@, true),
            sober(old(self)@, final(self)@, calm(exit@), out@),
            final(self)@.out == old(self)@.out,
    {
        reveal(default_label_code);
        if default_body.len() > 0 {
            let name = self.label("sw.default");
            reveal(label);
            name
        } else {
            lit(exit)
        }
    }

    fn switch_rest(
        &mut self,
        sem: &Sem,
        s: &Stmt,
        v: &str,
        t: &str,
        is_str: bool,
        is_char: bool,
    )
        ensures
            final(self)@ == switch_rest_code(*sem, old(self)@, *s, v@, t@, is_str, is_char),
            kept(old(self)@, final(self)@, true),
            tame(old(self)@, final(self)@, calm(v@) && calm(t@) && plain_sem(*sem)),
            *s matches Stmt::Switch { subject, cases, default_body } ==> switch_from(
                final(self)@.out,
                *sem,
                old(self)@.out.len() as int,
                cases,
                v@,
                t@,
                is_str,
                is_char,
                default_body,
            ),
        decreases s, 7int, 0int,
    {
        match s {
            Stmt::Switch { subject, cases, default_body } => {
                let exit = self.label("sw.exit");
                assert(self@.out == old(self)@.out) by {
                    reveal(label);
                }
                let default = self.default_label(default_body, exit.as_str());
                self.switch_cases(
                    sem,
                    cases,
                    v,
                    t,
                    is_str,
                    is_char,
                    default.as_str(),
                    exit.as_str(),
                );
                let ghost tested = self@;
                self.switch_end(sem, default_body, default.as_str(), exit.as_str());
                proof {
                    lemma_kept_adds(tested, self@, true);
                    lemma_switch(
                        self@.out,
                        *sem,
                        old(self)@,
                        *cases,
                        v@,
                        t@,
                        is_str,
                        is_char,
                        *default_body,
                        default@,
                        exit@,
                        tested.out,
                    );
                }
            },
            _ => {
            },
        }
    }

    fn switch_stmt(&mut self, sem: &Sem, s: &Stmt)
        ensures
            final(self)@ == switch_stmt_code(*sem, old(self)@, *s),
            kept(old(self)@, final(self)@, true),
            tame(old(self)@, final(self)@, plain_sem(*sem)),
            *s matches Stmt::Switch { subject, cases, default_body } ==> switch_decides(
                *sem,
                old(self)@,
                subject,
                cases,
                default_body,
                final(self)@.out,
            ),
        decreases s, 8int, 0int,
    {
        match s {
            Stmt::Switch { subject, cases, default_body } => {
                let a = self.expr(sem, &**subject, depth_of(sem));
                let is_str = is_typed(&**subject, TyKw::Str);
                let is_char = is_typed(&**subject, TyKw::Char);
                let v = self.subject(
                    a.v.as_str(),
                    a.t.as_str(),
                    is_str,
                    is_char,
                    is_unsigned(&**subject),
                );
                self.switch_rest(sem, s, v.as_str(), a.t.as_str(), is_str, is_char);
                reveal(default_label_code);
                reveal(switch_end_code);
                reveal(switch_decides);
            },
            _ => {
            },
        }
    }

    pub fn stmt(&mut self, sem: &Sem, s: &Stmt)
        ensures
            final(self)@ == stmt_code(*sem, old(self)@, *s),
            kept(old(self)@, final(self)@, false),
            tame(old(self)@, final(self)@, plain_sem(*sem)),
        decreases s, 9int, 0int,
    {
        match s {
            Stmt::VarDecl { name, ty, init } => {
                self.var_decl(sem, name.as_str(), ty, &**init);
            },
            Stmt::Expr { expr } => {
                self.expr_stmt(sem, &**expr);
            },
            Stmt::Assign { target, op, value } => {
                self.assign(sem, target.as_str(), *op, &**value);
            },
            Stmt::Return { expr } => {
                self.return_stmt(sem, expr);
            },
            Stmt::If { .. } => {
                self.if_stmt(sem, s);
            },
            Stmt::While { .. } => {
                self.while_stmt(sem, s);
            },
            Stmt::For { .. } => {
                self.for_stmt(sem, s);
            },
            Stmt::Break { label: tag } => {
                self.line(cat2("br label %", self.break_target(tag).as_str()));
            },
            Stmt::Continue { label: tag } => {
                self.line(cat2("br label %", self.continue_target(tag).as_str()));
            },
            Stmt::Switch { .. } => {
                self.switch_stmt(sem, s);
            },
            Stmt::FieldAssign { base, field, op, value } => {
                self.field_assign(sem, &**base, field.as_str(), *op, &**value);
            },
            Stmt::IndexAssign { target, op, value } => {
                self.index_assign(sem, &**target, *op, &**value);
            },
            Stmt::FnDef { .. } | Stmt::Namespace { .. } | Stmt::Using | Stmt::Struct
            | Stmt::Import => {
            },
        }
    }

    fn declare(&mut self, symbol: &str, text: &str)
        ensures
            final(self)@ == declare_code(old(self)@, symbol@, text@),
            kept(old(self)@, final(self)@, true),
    {
        if self.is_used(symbol) {
            self.put(text);
        }
    }

    fn header(&mut self)
        ensures
            final(self)@ == header_code(old(self)@),
            kept(old(self)@, final(self)@, true),
            tame(old(self)@, final(self)@, true),
    {
        reveal(header_code);
        broadcast use header_texts_1;

        self.put("; ModuleID = 'tie'\nsource_filename = \"input.tie\"\n\n");
        self.put("declare i32 @printf(ptr, ...)\n\n");
        self.put("declare i64 @strlen(ptr)\n");
        self.put("declare i32 @strcmp(ptr, ptr)\n");
        self.put("declare ptr @malloc(i64)\n");
        self.put("declare void @llvm.memcpy.p0.p0.i64(ptr, ptr, i64, i1)\n\n");
        self.put("declare ptr @fopen(ptr, ptr)\n");
        self.put("declare i64 @fwrite(ptr, i64, i64, ptr)\n");
        self.put("declare i32 @fclose(ptr)\n");
        self.put("declare i32 @fflush(ptr)\n");
        self.put("declare void @exit(i32)\n");
        self.put("declare i32 @remove(ptr)\n");
        self.put("declare double @sqrt(double)\n");
        self.put("declare double @sin(double)\n");
        self.put("declare double @cos(double)\n");
        self.put("declare double @tan(double)\n");
        self.put("declare double @exp(double)\n");
        self.put("declare double @log(double)\n");
        self.put("declare double @pow(double, double)\n");
        self.put("declare double @floor(double)\n");
        self.put("declare double @ceil(double)\n");
        self.put("declare double @round(double)\n\n");
    }

    fn declares(&mut self)
        ensures
            final(self)@ == declares_code(old(self)@, LIBRARY as nat),
            kept(old(self)@, final(self)@, true),
    {
        for i in 0..LIBRARY
            invariant
                self@ == declares_code(old(self)@, i as nat),
                kept(old(self)@, self@, true),
        {
            let (symbol, text) = declaration_of(i);
            self.declare(symbol, text);
        }
    }

    fn global(&mut self, sem: &Sem, name: &str, init: &Expr)
        ensures
            final(self)@ == global_code(*sem, old(self)@, name@, *init),
            kept(old(self)@, final(self)@, true),
            tame(old(self)@, final(self)@, plain_sem(*sem)),
    {
        match sem.global_ty(name) {
            Some(t) => {
                let llvm = self.ty(sem, t);
                let v = match &init.kind {
                    ExprKind::IntLit(n) => lit(dec_i64(*n as i64).as_str()),
                    ExprKind::FloatLit { ir, .. } => {
                        self.note(ir.as_str());
                        lit(ir.as_str())
                    },
                    ExprKind::BoolLit(b) => {
                        if *b {
                            lit("1")
                        } else {
                            lit("0")
                        }
                    },
                    ExprKind::CharLit(c) => lit(dec_u64(*c as u64).as_str()),
                    ExprKind::StrLit(s) => {
                        let n = self.string_const(s.as_str());
                        cat2("@", n.as_str())
                    },
                    _ => {
                        let m = cat3(
                            "内部错误：全局变量 '",
                            name,
                            "' 初始化不是字面量（语义层应已拦截）",
                        );
                        self.fail(m);
                        lit("")
                    },
                };
                self.put(
                    cat7("@", name, " = global ", llvm.as_str(), " ", v.as_str(), "\n").as_str(),
                );
            },
            None => {
            },
        }
    }

    fn case_labels(&mut self, n: usize) -> (r: Vec<String>)
        ensures
            (final(self)@, views(r@)) == case_labels_code(old(self)@, n),
            r@.len() == n,
            kept(old(self)@, final(self)@, true),
            tame(old(self)@, final(self)@, true),
            all_sober(old(self)@, final(self)@, true, views(r@)),
        decreases n,
    {
        reveal(case_labels_code);
        if n == 0 {
            let none: Vec<String> = Vec::new();
            assert(views(none@) =~= Seq::<Seq<char>>::empty());
            none
        } else {
            let mut labels = self.case_labels(n - 1);
            let ghost before = views(labels@);
            let l = self.label("sw.body");
            labels.push(l);
            assert(views(labels@) =~= before.push(l@));
            labels
        }
    }

    fn table_bodies(
        &mut self,
        sem: &Sem,
        cases: &Rc<Vec<SwitchCase>>,
        labels: &Vec<String>,
        exit: &str,
        n: usize,
    )
        ensures
            final(self)@ == table_bodies_code(
                *sem,
                old(self)@,
                *cases,
                views(labels@),
                exit@,
                n,
            ),
            kept(old(self)@, final(self)@, true),
            tame(
                old(self)@,
                final(self)@,
                calm(exit@) && all_calm(views(labels@)) && plain_sem(*sem),
            ),
            n <= cases@.len() && n <= labels@.len() ==> bodies_at(
                final(self)@.out,
                *sem,
                *cases,
                views(labels@),
                exit@,
                n as int,
            ),
        decreases cases, 5int, n,
    {
        if n == 0 || n > cases.len() || n > labels.len() {
            proof {
                if n == 0 {
                    lemma_bodies_none(self@.out, *sem, *cases, views(labels@), exit@, 0);
                }
            }
        } else {
            proof {
                assert(decreases_to!(cases => cases@));
                assert(decreases_to!(cases@ => cases@[n - 1]));
                assert(decreases_to!(cases@[n - 1] => cases@[n - 1].body));
            }
            self.table_bodies(sem, cases, labels, exit, n - 1);
            let ghost before = self@;
            self.case_body(sem, &cases[n - 1].body, labels[n - 1].as_str(), exit);
            proof {
                lemma_kept_adds(before, self@, true);
                assert(labels@[n - 1]@ == views(labels@)[n - 1]);
                lemma_bodies_more(
                    before.out,
                    self@.out,
                    *sem,
                    *cases,
                    views(labels@),
                    exit@,
                    n as int,
                );
            }
        }
    }

    fn conds(&mut self, sem: &Sem, patterns: &Exprs, how: &How, n: usize) -> (r: Vec<String>)
        ensures
            (final(self)@, views(r@)) == conds_code(*sem, old(self)@, *patterns, how@, n),
            kept(old(self)@, final(self)@, true),
            tame(old(self)@, final(self)@, how_calm(how@) && plain_sem(*sem)),
            all_sober(old(self)@, final(self)@, how_calm(how@) && plain_sem(*sem), views(r@)),
        decreases n,
    {
        if n == 0 || n > patterns.len() {
            let none: Vec<String> = Vec::new();
            assert(views(none@) =~= Seq::<Seq<char>>::empty());
            none
        } else {
            let mut tests = self.conds(sem, patterns, how, n - 1);
            let ghost before = views(tests@);
            let c = self.pattern(sem, &*patterns[n - 1], how);
            tests.push(c);
            assert(views(tests@) =~= before.push(c@));
            tests
        }
    }

    fn any_first(&mut self, tests: &Vec<String>, n: usize) -> (r: String)
        requires
            tests@.len() > 0,
        ensures
            (final(self)@, r@) == any_first_code(old(self)@, views(tests@), n),
            kept(old(self)@, final(self)@, true),
            tame(old(self)@, final(self)@, all_calm(views(tests@))),
            sober(old(self)@, final(self)@, all_calm(views(tests@)), r@),
        decreases n,
    {
        if n <= 1 || n > tests.len() {
            let r = tests[0].clone();
            assert(r@ == views(tests@)[0]);
            r
        } else {
            let hit = self.any_first(tests, n - 1);
            let either = self.reg();
            self.line(
                cat5(either.as_str(), " = or i1 ", hit.as_str(), ", ", tests[n - 1].as_str()),
            );
            either
        }
    }

    fn any_of(&mut self, tests: &Vec<String>) -> (r: String)
        ensures
            (final(self)@, r@) == any_of_code(old(self)@, views(tests@)),
            kept(old(self)@, final(self)@, true),
            tame(old(self)@, final(self)@, all_calm(views(tests@))),
            sober(old(self)@, final(self)@, all_calm(views(tests@)), r@),
    {
        if tests.len() == 0 {
            let m = cat3("内部错误：case 没有模式（函数 ", self.cur_fn.as_str(), "）");
            self.fail(m);
            lit("")
        } else {
            self.any_first(tests, tests.len())
        }
    }

    fn cases(
        &mut self,
        sem: &Sem,
        cases: &Rc<Vec<SwitchCase>>,
        first: &str,
        how: &How,
        n: usize,
    ) -> (r: String)
        ensures
            (final(self)@, r@) == cases_code(*sem, old(self)@, *cases, first@, how@, n),
            kept(old(self)@, final(self)@, true),
            tame(old(self)@, final(self)@, calm(first@) && how_calm(how@) && plain_sem(*sem)),
            sober(old(self)@, final(self)@, calm(first@) && how_calm(how@) && plain_sem(*sem), r@),
            tried(final(self)@.out, *sem, *cases, first@, how@, n as nat, r@),
        decreases cases, 5int, n,
    {
        if n == 0 || n > cases.len() {
            proof {
                lemma_tried_none(self@.out, *sem, *cases, first@, how@, n as nat);
            }
            lit(first)
        } else {
            proof {
                assert(decreases_to!(cases => cases@));
                assert(decreases_to!(cases@ => cases@[n - 1]));
            }
            let here = self.cases(sem, cases, first, how, n - 1);
            let ghost before = self@;
            let next = self.one_case(sem, &cases[n - 1], here.as_str(), n == cases.len(), how);
            proof {
                lemma_kept_adds(before, self@, true);
                lemma_tried_more(
                    before.out,
                    self@.out,
                    *sem,
                    *cases,
                    first@,
                    how@,
                    n as nat,
                    here@,
                    next@,
                );
            }
            next
        }
    }

    fn store_cells(&mut self, sem: &Sem, arr: &str, elem: &str, slot: &str, e: &Expr, n: usize)
        ensures
            final(self)@ == store_cells_code(*sem, old(self)@, arr@, elem@, slot@, *e, n),
            kept(old(self)@, final(self)@, true),
            tame(
                old(self)@,
                final(self)@,
                calm(arr@) && calm(elem@) && calm(slot@) && plain_sem(*sem),
            ),
        decreases n,
    {
        match &e.kind {
            ExprKind::TableLit { cells } => {
                if n == 0 || n > cells.len() {
                } else {
                    self.store_cells(sem, arr, elem, slot, e, n - 1);
                    let a = self.expr(sem, &*cells[n - 1], depth_of(sem));
                    let ptr = self.reg();
                    self.line(
                        cat7(
                            ptr.as_str(),
                            " = getelementptr ",
                            arr,
                            ", ptr ",
                            slot,
                            ", i64 0, i64 ",
                            dec_usize(n - 1).as_str(),
                        ),
                    );
                    self.line(cat6("store ", elem, " ", a.v.as_str(), ", ptr ", ptr.as_str()));
                }
            },
            _ => {},
        }
    }

    fn block(&mut self, sem: &Sem, b: &Block)
        ensures
            final(self)@ == block_code(*sem, old(self)@, *b),
            kept(old(self)@, final(self)@, false),
            tame(old(self)@, final(self)@, plain_sem(*sem)),
        decreases b, 1int, 0int,
    {
        let mut i: usize = 0;
        while i < b.len()
            invariant
                i <= b@.len(),
                self@ == stmts_code(*sem, old(self)@, *b, i as nat),
                kept(old(self)@, self@, false),
                tame(old(self)@, self@, plain_sem(*sem)),
            decreases b@.len() - i,
        {
            proof {
                assert(decreases_to!(b => b@));
                assert(decreases_to!(b@ => b@[i as int]));
            }
            self.stmt(sem, &*b[i]);
            i = i + 1;
        }
    }

    fn params(&mut self, sem: &Sem, f: &FnDef, method: bool) -> (r: Vec<String>)
        ensures
            (final(self)@, views(r@)) == params_code(
                *sem,
                old(self)@,
                *f,
                method,
                f.params@.len(),
            ),
            kept(old(self)@, final(self)@, true),
            tame(old(self)@, final(self)@, plain_sem(*sem) && plain_params(*f)),
            all_sober(old(self)@, final(self)@, plain_sem(*sem) && plain_params(*f), views(r@)),
    {
        let mut params: Vec<String> = Vec::new();
        assert(views(params@) =~= Seq::<Seq<char>>::empty());
        let mut i: usize = 0;
        while i < f.params.len()
            invariant
                i <= f.params@.len(),
                (self@, views(params@)) == params_code(*sem, old(self)@, *f, method, i as nat),
                kept(old(self)@, self@, true),
                tame(old(self)@, self@, plain_sem(*sem) && plain_params(*f)),
                all_sober(old(self)@, self@, plain_sem(*sem) && plain_params(*f), views(params@)),
            decreases f.params@.len() - i,
        {
            let ghost before = views(params@);
            let text = if method && i == 0 {
                cat2("ptr ", mangle(f.params[i].name.as_str()).as_str())
            } else {
                let t = self.ty(sem, &f.params[i].ty);
                cat3(t.as_str(), " ", mangle(f.params[i].name.as_str()).as_str())
            };
            params.push(text);
            assert(views(params@) =~= before.push(text@));
            i = i + 1;
        }
        params
    }

    fn bind_params(&mut self, sem: &Sem, f: &FnDef, method: bool)
        ensures
            final(self)@ == bind_params_code(*sem, old(self)@, *f, method, f.params@.len()),
            kept(old(self)@, final(self)@, false),
            tame(old(self)@, final(self)@, old(self)@.free && plain_sem(*sem) && plain_params(*f)),
    {
        let mut i: usize = 0;
        while i < f.params.len()
            invariant
                i <= f.params@.len(),
                self@ == bind_params_code(*sem, old(self)@, *f, method, i as nat),
                kept(old(self)@, self@, false),
                tame(old(self)@, self@, old(self)@.free && plain_sem(*sem) && plain_params(*f)),
            decreases f.params@.len() - i,
        {
            let t = self.ty(sem, &f.params[i].ty);
            let at = mangle(f.params[i].name.as_str());
            if method && i == 0 {
                self.bind(f.params[i].name.as_str(), at.as_str(), t.as_str());
            } else {
                let slot = self.reg();
                let ghost here = self@;
                self.line(cat3(slot.as_str(), " = alloca ", t.as_str()));
                proof {
                    lemma_kept_places(old(self)@, here, false);
                    if good(here) && here.free && calm(t@) {
                        lemma_slot_line(here, slot@, t@);
                    }
                }
                self.line(
                    cat6("store ", t.as_str(), " ", at.as_str(), ", ptr ", slot.as_str()),
                );
                self.bind(f.params[i].name.as_str(), slot.as_str(), t.as_str());
            }
            i = i + 1;
        }
    }

    fn fn_head(&mut self, sem: &Sem, f: &FnDef, full: &str)
        ensures
            final(self)@ == fn_head_code(*sem, old(self)@, *f, full@),
            advanced(old(self)@, final(self)@),
            tame(
                old(self)@,
                final(self)@,
                old(self)@.free && plain_sem(*sem) && plain_params(*f) && ordinary(full@),
            ),
            final(self)@.free == old(self)@.free,
    {
        reveal(fn_head_code);
        self.cur_fn = lit(full);
        self.reg = 0;
        self.scopes = Vec::new();
        assert(self@.scopes =~= Seq::<Map<Seq<char>, BindV>>::empty());
        let ghost fresh = self@;
        proof {
            assert(fresh == (GenV { cur_fn: full@, reg: 0, scopes: Seq::empty(), ..old(self)@ }));
            if good(old(self)@) {
                lemma_fresh(old(self)@, full@);
            }
            assert(tame(old(self)@, fresh, true));
        }
        assert(advanced(old(self)@, self@)) by {
            reveal(advanced);
        }
        let ret = if same(full, "main") && f.ret_ty.is_void() {
            lit("i32")
        } else {
            self.ty(sem, &f.ret_ty)
        };
        let method = is_method_fn(full, first_param_of(f));
        let params = self.params(sem, f, method);
        self.put(
            cat7(
                "define ",
                ret.as_str(),
                " @",
                ns_symbol(full).as_str(),
                "(",
                join_strings(&params, ", ").as_str(),
                ") {\n",
            ).as_str(),
        );
        self.start("entry");
        proof {
            assert(kept(fresh, self@, true));
            lemma_kept_places(fresh, self@, true);
        }
        self.open_scope();
        let ghost opened = self@;
        assert(opened.free == old(self)@.free);
        assert(tame(
            old(self)@,
            opened,
            old(self)@.free && plain_sem(*sem) && plain_params(*f) && ordinary(full@),
        ));
        assert(advanced(old(self)@, opened));
        self.bind_params(sem, f, method);
        proof {
            lemma_kept_places(opened, self@, false);
        }
    }

    fn fn_body(&mut self, sem: &Sem, f: &FnDef)
        ensures
            final(self)@ == fn_body_code(*sem, old(self)@, *f),
            advanced(old(self)@, final(self)@),
            tame(old(self)@, final(self)@, old(self)@.free && plain_sem(*sem)),
            final(self)@.free,
    {
        reveal(fn_body_code);
        let ghost before = self@;
        let mut head: Vec<char> = Vec::new();
        std::mem::swap(&mut head, &mut self.out);
        self.free = Ghost(false);
        proof {
            if good(before) {
                lemma_apart(before);
            }
        }
        self.block(sem, &f.body);
        let ghost inner = self@;
        let ghost places = inner.bodies.push(
            (
                (before.out + slots(inner.allocas, inner.allocas.len())).len() as int,
                ((before.out + slots(inner.allocas, inner.allocas.len())).len()
                    + inner.out.len()) as int,
            ),
        );
        self.free = Ghost(true);
        self.bodies = Ghost(places);
        let mut body: Vec<char> = Vec::new();
        std::mem::swap(&mut body, &mut self.out);
        let mut allocas: Vec<String> = Vec::new();
        std::mem::swap(&mut allocas, &mut self.allocas);
        std::mem::swap(&mut head, &mut self.out);
        assert(self@.allocas =~= Seq::<Seq<char>>::empty());
        let ghost rest = self@;
        let mut i: usize = 0;
        assert(rest.out + slots(views(allocas@), 0) =~= rest.out);
        while i < allocas.len()
            invariant
                i <= allocas@.len(),
                self@ == (GenV { out: rest.out + slots(views(allocas@), i as nat), ..rest }),
            decreases allocas@.len() - i,
        {
            self.line(allocas[i].clone());
            proof {
                reveal(put);
                assert(rest.out + slots(views(allocas@), (i + 1) as nat) =~= rest.out + slots(
                    views(allocas@),
                    i as nat,
                ) + views(allocas@)[i as int] + "\n"@);
            }
            i = i + 1;
        }
        self.put(string_of(&body, 0, body.len()).as_str());
        proof {
            reveal(put);
            assert(body@.subrange(0, body@.len() as int) =~= body@);
            advanced_by_body(
                before,
                inner,
                slots(inner.allocas, inner.allocas.len()),
                true,
                places,
            );
            if good(before) && before.free && good(inner) {
                lemma_together(before, inner);
            }
        }
    }

    fn fn_tail(&mut self, sem: &Sem, f: &FnDef, full: &str)
        ensures
            final(self)@ == fn_tail_code(*sem, old(self)@, *f, full@),
            kept(old(self)@, final(self)@, true),
            tame(old(self)@, final(self)@, plain_sem(*sem)),
    {
        reveal(fn_tail_code);
        if self.returned() {
        } else if same(full, "main") && f.ret_ty.is_void() {
            self.line(lit("ret i32 0"));
        } else if f.ret_ty.is_void() {
            self.line(lit("ret void"));
        } else {
            let t = self.ty(sem, &f.ret_ty);
            if same(t.as_str(), "ptr") {
                self.line(cat3("ret ", t.as_str(), " null"));
            } else {
                self.line(cat3("ret ", t.as_str(), " 0"));
            }
        }
    }

    fn function(&mut self, sem: &Sem, f: &FnDef, full: &str)
        ensures
            final(self)@ == fn_code(*sem, old(self)@, *f, full@),
            advanced(old(self)@, final(self)@),
            tame(
                old(self)@,
                final(self)@,
                old(self)@.free && plain_sem(*sem) && plain_params(*f) && ordinary(full@),
            ),
            final(self)@.free,
    {
        reveal(fn_code);
        self.fn_head(sem, f, full);
        self.fn_body(sem, f);
        let ghost inside = self@;
        self.fn_tail(sem, f, full);
        proof {
            lemma_kept_places(inside, self@, true);
        }
        assert(tame(
            old(self)@,
            self@,
            old(self)@.free && plain_sem(*sem) && plain_params(*f) && ordinary(full@),
        ) && advanced(old(self)@, self@));
        self.put("}\n\n");
        self.close_scope();
    }

    #[verifier::rlimit(40)]
    fn functions(&mut self, sem: &Sem, b: &Block, prefix: &Vec<String>)
        ensures
            final(self)@ == fns_code(*sem, old(self)@, *b, views(prefix@), b@.len()),
            advanced(old(self)@, final(self)@),
            tame(
                old(self)@,
                final(self)@,
                old(self)@.free && plain_sem(*sem) && plain_fns(*b, views(prefix@), b@.len()),
            ),
            old(self)@.free ==> final(self)@.free,
        decreases b,
    {
        let mut i: usize = 0;
        while i < b.len()
            invariant
                i <= b@.len(),
                self@ == fns_code(*sem, old(self)@, *b, views(prefix@), i as nat),
                advanced(old(self)@, self@),
                tame(
                    old(self)@,
                    self@,
                    old(self)@.free && plain_sem(*sem) && plain_fns(*b, views(prefix@), i as nat),
                ),
                old(self)@.free ==> self@.free,
            decreases b@.len() - i,
        {
            proof {
                assert(decreases_to!(b => b@));
                assert(decreases_to!(b@ => b@[i as int]));
            }
            match &*b[i] {
                Stmt::FnDef { def } => {
                    let mut segs = dup_strings(prefix);
                    let ghost before = views(segs@);
                    segs.push(def.name.clone());
                    assert(views(segs@) =~= before.push(def.name@));
                    let full = join_strings(&segs, "::");
                    self.function(sem, &**def, full.as_str());
                },
                Stmt::Namespace { path, body } => {
                    let mut segs = dup_strings(prefix);
                    push_strings(&mut segs, path);
                    self.functions(sem, body, &segs);
                },
                _ => {},
            }
            i = i + 1;
        }
    }

    fn global_vars(&mut self, sem: &Sem, b: &Block)
        ensures
            final(self)@ == globals_code(*sem, old(self)@, *b, b@.len()),
            kept(old(self)@, final(self)@, true),
            tame(old(self)@, final(self)@, plain_sem(*sem)),
    {
        let mut i: usize = 0;
        while i < b.len()
            invariant
                i <= b@.len(),
                self@ == globals_code(*sem, old(self)@, *b, i as nat),
                kept(old(self)@, self@, true),
                tame(old(self)@, self@, plain_sem(*sem)),
            decreases b@.len() - i,
        {
            match &*b[i] {
                Stmt::VarDecl { name, init, .. } => {
                    self.global(sem, name.as_str(), &**init);
                },
                _ => {},
            }
            i = i + 1;
        }
    }

    fn run(&mut self, sem: &Sem, p: &Program)
        requires
            old(self)@ == blank(),
        ensures
            final(self)@ == module_code(*sem, *p),
            advanced(old(self)@, final(self)@),
            plain_program(*sem, *p) && functions_part(*sem, *p).mild ==> good(
                functions_part(*sem, *p),
            ),
            functions_part(*sem, *p).free,
    {
        proof {
            lemma_blank_is_good();
        }
        self.header();
        self.global_vars(sem, &p.stmts);
        assert(kept(old(self)@, self@, true) && tame(old(self)@, self@, plain_sem(*sem)));
        proof {
            lemma_kept_places(old(self)@, self@, true);
        }
        let none: Vec<String> = Vec::new();
        assert(views(none@) =~= Seq::<Seq<char>>::empty());
        self.functions(sem, &p.stmts, &none);
        let ghost part = self@;
        assert(part == functions_part(*sem, *p));
        assert(plain_program(*sem, *p) && part.mild ==> good(part));
        assert(advanced(old(self)@, part));
        self.put("\n");
        let globals = self.globals.clone();
        self.put(globals.as_str());
        self.declares();
    }
}

/// The text of a module, and the library functions that it calls.
#[derive(Debug)]
pub struct IrOutput {
    pub ir: String,
    pub used_externs: Vec<String>,
}

/// An error of code generation.
#[derive(Debug)]
pub struct IrError {
    pub message: String,
}

impl IrError {
    /// The error as it is shown.
    pub fn display(&self) -> (r: String)
        ensures
            r@ == "IR 生成错误: "@ + self.message@,
    {
        cat2("IR 生成错误: ", self.message.as_str())
    }
}

/// Generates the LLVM IR of a program that passed semantic analysis. Each library function
/// that the text calls is listed, none twice, and the text ends with the declarations of
/// those that are listed. Where the names and numerals of the program are ordinary, the code
/// uses the name of a library function only to call one that is listed, and no body of a
/// function reserves a stack slot; with its string constants, which must not hold such a name,
/// and renumbered, the code still calls listed functions only.
pub fn gen_ir(program: &Program, sem: &Sem) -> (r: Result<IrOutput, IrError>)
    ensures
        match r {
            Ok(o) => module_code(*sem, *program).error is None && o.ir@ == renumbered(
                module_code(*sem, *program).out,
            ) && views(o.used_externs@) == module_code(*sem, *program).used && well_noted(
                views(o.used_externs@),
            ) && calls_listed(
                module_code(*sem, *program).called,
                views(o.used_externs@),
            ) && o.ir@ == renumbered(code_part(*sem, *program).out) + flat(
                needed(views(o.used_externs@), LIBRARY as nat),
            ) && (plain_program(*sem, *program) && functions_part(*sem, *program).mild ==> {
                &&& calls_are_listed(
                    functions_part(*sem, *program).out,
                    views(o.used_externs@),
                )
                &&& bodies_reserve_nothing(functions_part(*sem, *program))
                &&& names_nothing(code_part(*sem, *program).globals) ==> calls_are_listed(
                    renumbered(code_part(*sem, *program).out),
                    views(o.used_externs@),
                )
            }),
            Err(e) => module_code(*sem, *program).error == Some(e.message@),
        },
{
    let mut g = Gen::new();
    g.run(sem, program);
    proof {
        reveal(advanced);
        law_declarations_are_final(*sem, *program);
        let part = functions_part(*sem, *program);
        assert(part.used == g@.used) by {
            reveal(put);
            lemma_declares(code_part(*sem, *program), LIBRARY as nat);
        }
        if plain_program(*sem, *program) && part.mild {
            lemma_good_shows(part);
            if names_nothing(code_part(*sem, *program).globals) {
                lemma_code_lists(*sem, *program);
                law_numbering_keeps_calls(
                    code_part(*sem, *program).out,
                    0,
                    numbering::fresh(),
                    part.used,
                );
            }
        }
    }
    match g.error {
        Some(message) => Err(IrError { message }),
        None => {
            let ir = renumber_ir(&g.out);
            Ok(IrOutput { ir, used_externs: g.used })
        },
    }
}

} // verus!
