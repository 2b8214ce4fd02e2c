//! What the code generator writes for each part of a program.
use crate::ast::{
    class_of, dynamic_table, field_pos, global_ty, sig_of, table_ret_from, table_var, typed,
    unsigned, BinaryOp, Block, ClassInfo, Expr, ExprKind, Exprs, FnDef, FuncSig, Program, Sem, Stmt,
    SwitchCase, TupleField, TyKw, TypeSpec, UnaryOp,
};
use crate::emit::{
    alloca, bind, blank, bound, break_target, close_scope, continue_target, enter_loop, fail,
    label, leave_loop, library_call, line, mark, note, open_scope, opt_view, put, reg, returned, start,
    string_const, terminated, GenV, OperandV,
};
use crate::irtable::{
    bridge, bridge_symbol, bridge_text, fail_tail, frees_result, math_fn, mixed_opcode, number_ty,
    one, op_name, opcode, predicate, ret_llvm, shown, slot_size, step, Bridge, Fails, Ret,
};
use crate::irtext::{
    array_elem, array_shape, dollars, elem_size, elem_suffix, field_index, named_llvm, ty_text,
    zero_text,
};
use crate::text::{dec, join, sep_at, views};
use crate::value::comparison;
use std::rc::Rc;
use vstd::prelude::*;

verus! {

// ---------- reading calls ----------
/// The arguments of a call.
pub open spec fn args_of(e: Expr) -> Seq<Rc<Expr>> {
    match e.kind {
        ExprKind::Call { args, .. } => args@,
        ExprKind::MethodCall { args, .. } => args@,
        _ => Seq::empty(),
    }
}

/// The number of arguments of a call.
pub open spec fn argc(e: Expr) -> usize {
    args_of(e).len() as usize
}

/// The argument `i` of a call.
pub open spec fn arg_expr(e: Expr, i: usize) -> Option<Expr> {
    if i < args_of(e).len() {
        Some(*args_of(e)[i as int])
    } else {
        None
    }
}

/// Arguments are smaller than their call.
pub proof fn lemma_arg(e: Expr, i: usize)
    requires
        i < args_of(e).len(),
    ensures
        decreases_to!(e => *args_of(e)[i as int]),
{
    match e.kind {
        ExprKind::Call { args, .. } => {
            assert(decreases_to!(args => args@));
            assert(decreases_to!(args@ => args@[i as int]));
        },
        ExprKind::MethodCall { args, .. } => {
            assert(decreases_to!(args => args@));
            assert(decreases_to!(args@ => args@[i as int]));
        },
        _ => {},
    }
}

/// Whether the argument `i` of a call is an unsigned integer.
pub open spec fn unsigned_arg(e: Expr, i: usize) -> bool {
    match arg_expr(e, i) {
        Some(a) => unsigned(a),
        None => false,
    }
}

/// Whether the argument `i` of a call has the named type `k`.
pub open spec fn typed_arg(e: Expr, i: usize, k: TyKw) -> bool {
    match arg_expr(e, i) {
        Some(a) => typed(a, k),
        None => false,
    }
}

/// Whether an expression is a variable that holds a dynamic table.
pub open spec fn dynamic_expr(sem: Sem, func: Seq<char>, e: Expr) -> bool {
    match e.kind {
        ExprKind::Var(name) => dynamic_table(sem, func, name@),
        _ => false,
    }
}

/// Whether the first argument is a variable that holds a dynamic table.
pub open spec fn dynamic_arg(sem: Sem, func: Seq<char>, e: Expr) -> bool {
    match arg_expr(e, 0) {
        Some(a) => dynamic_expr(sem, func, a),
        None => false,
    }
}

/// The variable that the first argument is.
pub open spec fn var_arg(e: Expr) -> Option<Seq<char>> {
    match arg_expr(e, 0) {
        Some(a) => match a.kind {
            ExprKind::Var(name) => Some(name@),
            _ => None,
        },
        None => None,
    }
}

/// Whether the first argument is a table literal.
pub open spec fn literal_arg(e: Expr) -> bool {
    match arg_expr(e, 0) {
        Some(a) => a.kind is TableLit,
        None => false,
    }
}

/// The length of the table literal that the first argument is.
pub open spec fn literal_len(e: Expr) -> Option<usize> {
    match arg_expr(e, 0) {
        Some(a) => match (a.kind, a.note.table) {
            (ExprKind::TableLit { .. }, Some(info)) => Some(info.len),
            _ => None,
        },
        None => None,
    }
}

/// The type of the first parameter.
pub open spec fn first_ty(sig: FuncSig) -> Option<TypeSpec> {
    if sig.param_tys@.len() > 0 {
        Some(sig.param_tys@[0])
    } else {
        None
    }
}

/// The default of parameter `n`, counted from 1.
pub open spec fn default_of(sig: FuncSig, n: usize) -> Option<Rc<Expr>> {
    if 0 < n <= sig.param_defaults@.len() {
        sig.param_defaults@[n - 1]
    } else {
        None
    }
}

/// The default of field `i` of a struct.
pub open spec fn init_of(c: ClassInfo, i: usize) -> Option<Rc<Expr>> {
    if i < c.fields@.len() {
        c.fields@[i as int].init
    } else {
        None
    }
}

/// How many fields of a tuple literal have a type.
pub open spec fn tuple_size(e: Expr) -> usize {
    match (e.kind, e.note.ty) {
        (ExprKind::TupleLit { fields }, Some(TypeSpec::Tuple(tys))) => if fields@.len()
            < tys@.len() {
            fields@.len() as usize
        } else {
            tys@.len() as usize
        },
        _ => 0,
    }
}

/// The last `::` of `s` that ends at `e` or before.
pub open spec fn last_sep(s: Seq<char>, e: int) -> Option<int>
    decreases e,
{
    if e < 2 {
        None
    } else if sep_at(s, e - 2) {
        Some(e - 2)
    } else {
        last_sep(s, e - 1)
    }
}

/// What follows the last `::` of `s`.
pub open spec fn last_segment(s: Seq<char>) -> Seq<char> {
    match last_sep(s, s.len() as int) {
        Some(i) => s.skip(i + 2),
        None => s,
    }
}

/// Whether a function is a method: it stands in the namespace of a struct, and its first
/// parameter is of that struct. Such a parameter is passed by its address.
pub open spec fn method_fn(full: Seq<char>, first: Option<TypeSpec>) -> bool {
    match first {
        Some(TypeSpec::Struct(name)) => match last_sep(full, full.len() as int) {
            Some(i) => last_segment(full.take(i)) == name@,
            None => false,
        },
        _ => false,
    }
}

/// Whether the receiver of a call is a value rather than a namespace.
pub open spec fn is_value(g: GenV, e: Expr) -> bool
    decreases e,
{
    match e.kind {
        ExprKind::Var(name) => bound(g, name@) is Some,
        ExprKind::FieldAccess { base, .. } => is_value(g, *base),
        ExprKind::MethodCall { .. } | ExprKind::Call { .. } | ExprKind::TupleLit { .. } => true,
        _ => false,
    }
}

/// The number of parameters of the first `n` functions, each of which may have a default.
pub open spec fn params_of(funcs: Seq<FuncSig>, n: nat) -> nat
    decreases n,
{
    if n == 0 || n > funcs.len() {
        0
    } else {
        params_of(funcs, (n - 1) as nat) + funcs[n - 1].param_defaults@.len()
    }
}

/// The number of fields of the first `n` structs, each of which may have a default.
pub open spec fn fields_of(classes: Seq<ClassInfo>, n: nat) -> nat
    decreases n,
{
    if n == 0 || n > classes.len() {
        0
    } else {
        fields_of(classes, (n - 1) as nat) + classes[n - 1].fields@.len()
    }
}

/// `n`, or the greatest number that is counted to.
pub open spec fn capped(n: nat) -> nat {
    if n > u128::MAX {
        u128::MAX as nat
    } else {
        n
    }
}

/// How often the defaults of parameters and fields can stand in one another: as often as
/// there are defaults. One that goes deeper needs itself.
pub open spec fn depth(sem: Sem) -> nat {
    capped(params_of(sem.funcs@, sem.funcs@.len()) + fields_of(sem.classes@, sem.classes@.len()))
}

// ---------- types ----------
/// The LLVM type of `t`. Structs are written out field by field, `d` levels deep.
pub open spec fn deep_ty_code(sem: Sem, g: GenV, t: TypeSpec, d: nat) -> (GenV, Seq<char>)
    decreases 2 * d + 1, t, 1int, 0int,
{
    match t {
        TypeSpec::Table(_) => (g, "ptr"@),
        TypeSpec::Named(k) => match named_llvm(k) {
            Some(s) => (g, s),
            None => (fail(g, "内部错误：宽类型没有 LLVM 类型（函数 "@ + g.cur_fn + "）"@), ""@),
        },
        TypeSpec::Tuple(fields) => {
            let (g, parts) = tuple_tys_code(sem, g, fields, fields.len(), d);
            (g, "{"@ + join(parts, ", "@) + "}"@)
        },
        TypeSpec::Struct(name) => deep_struct_code(sem, g, name@, d),
    }
}

/// The LLVM types of the first `n` fields of a tuple.
pub open spec fn tuple_tys_code(
    sem: Sem,
    g: GenV,
    fields: Rc<Vec<TupleField>>,
    n: usize,
    d: nat,
) -> (GenV, Seq<Seq<char>>)
    decreases 2 * d + 1, fields, 0int, n,
{
    if n == 0 || n > fields@.len() {
        (g, Seq::empty())
    } else {
        proof {
            assert(decreases_to!(fields => fields@));
            assert(decreases_to!(fields@ => fields@[n - 1]));
            assert(decreases_to!(fields@[n - 1] => fields@[n - 1].ty));
        }
        let (g, parts) = tuple_tys_code(sem, g, fields, (n - 1) as usize, d);
        let (g, t) = deep_ty_code(sem, g, fields@[n - 1].ty, d);
        (g, parts.push(t))
    }
}

/// The LLVM type of the struct `name`.
pub open spec fn deep_struct_code(sem: Sem, g: GenV, name: Seq<char>, d: nat) -> (GenV, Seq<char>)
    decreases 2 * d, sem, 1int, 0int,
{
    match class_of(sem, name) {
        Some(c) => {
            let (g, parts) = class_tys_code(sem, g, c, c.fields.len(), d);
            (g, "{"@ + join(parts, ", "@) + "}"@)
        },
        None => (
            fail(g, "内部错误：struct '"@ + name + "' 无信息（函数 "@ + g.cur_fn + "）"@),
            ""@,
        ),
    }
}

/// The LLVM types of the first `n` fields of a struct.
pub open spec fn class_tys_code(sem: Sem, g: GenV, c: ClassInfo, n: usize, d: nat) -> (
    GenV,
    Seq<Seq<char>>,
)
    decreases 2 * d, sem, 0int, n,
{
    if n == 0 || n > c.fields@.len() {
        (g, Seq::empty())
    } else if d == 0 {
        (
            fail(g, "内部错误：struct '"@ + c.name@ + "' 包含自身（函数 "@ + g.cur_fn + "）"@),
            Seq::empty(),
        )
    } else {
        let (g, parts) = class_tys_code(sem, g, c, (n - 1) as usize, d);
        let (g, t) = deep_ty_code(sem, g, c.fields@[n - 1].ty, (d - 1) as nat);
        (g, parts.push(t))
    }
}

/// The LLVM type of `t`.
pub open spec fn ty_code(sem: Sem, g: GenV, t: TypeSpec) -> (GenV, Seq<char>) {
    deep_ty_code(sem, g, t, sem.classes@.len() + 1)
}

/// The LLVM type of the struct `name`.
pub open spec fn struct_ty_code(sem: Sem, g: GenV, name: Seq<char>) -> (GenV, Seq<char>) {
    deep_struct_code(sem, g, name, sem.classes@.len() + 1)
}

/// The LLVM type of parameter `n`, counted from 1.
pub open spec fn param_ty_code(sem: Sem, g: GenV, sig: FuncSig, n: usize) -> (GenV, Seq<char>) {
    if 0 < n <= sig.param_tys@.len() {
        ty_code(sem, g, sig.param_tys@[n - 1])
    } else {
        (g, ""@)
    }
}

// ---------- the parts of calls and literals ----------
pub open spec fn no_operand() -> OperandV {
    OperandV { v: ""@, t: ""@ }
}

/// The code of the argument `i` of a call.
pub open spec fn arg_code(sem: Sem, g: GenV, e: Expr, i: usize, d: nat) -> (GenV, OperandV)
    decreases d, e, 3int, 0int,
{
    if i < args_of(e).len() {
        proof {
            lemma_arg(e, i);
        }
        expr_code(sem, g, *args_of(e)[i as int], d)
    } else {
        (fail(g, "内部错误：内置函数缺少实参（函数 "@ + g.cur_fn + "）"@), no_operand())
    }
}

/// The code of the argument `i` of a call of a function of the program.
pub open spec fn arg_value_code(sem: Sem, g: GenV, e: Expr, i: usize, d: nat) -> (GenV, OperandV)
    decreases d, e, 3int, 0int,
{
    if i < args_of(e).len() {
        proof {
            lemma_arg(e, i);
        }
        value_code(sem, g, *args_of(e)[i as int], d)
    } else {
        (g, no_operand())
    }
}

/// The address of the receiver of a method call.
pub open spec fn receiver_addr_code(sem: Sem, g: GenV, e: Expr, d: nat) -> (GenV, OperandV)
    decreases d, e, 3int, 0int,
{
    match e.kind {
        ExprKind::MethodCall { receiver, .. } => class_addr_code(sem, g, *receiver, d),
        _ => (g, no_operand()),
    }
}

/// The value of the receiver of a method call.
pub open spec fn receiver_value_code(sem: Sem, g: GenV, e: Expr, d: nat) -> (GenV, OperandV)
    decreases d, e, 3int, 0int,
{
    match e.kind {
        ExprKind::MethodCall { receiver, .. } => value_code(sem, g, *receiver, d),
        _ => (g, no_operand()),
    }
}

/// The values of the first `n` arguments of a library function.
pub open spec fn bridge_vals_code(sem: Sem, g: GenV, b: Bridge, e: Expr, n: usize, d: nat) -> (
    GenV,
    Seq<Seq<char>>,
)
    decreases d, e, 5int, n,
{
    if n == 0 {
        (g, Seq::empty())
    } else {
        let i = (n - 1) as usize;
        let (g, vals) = bridge_vals_code(sem, g, b, e, i, d);
        let (g, a) = arg_code(sem, g, e, i, d);
        if i < b.ints_from {
            (g, vals.push(a.v))
        } else {
            let (g, x) = extend_code(g, a.v, a.t, unsigned_arg(e, i));
            (g, vals.push(x))
        }
    }
}

/// The first `n` arguments of a call of a function of the program, with their types.
pub open spec fn call_args_code(
    sem: Sem,
    g: GenV,
    name: Seq<char>,
    sig: FuncSig,
    e: Expr,
    forward: bool,
    n: usize,
    d: nat,
) -> (GenV, Seq<Seq<char>>)
    decreases d, e, 5int, n,
{
    if n == 0 {
        (g, Seq::empty())
    } else {
        let (g, vals) = call_args_code(sem, g, name, sig, e, forward, (n - 1) as usize, d);
        let (g, a) = one_arg_code(sem, g, name, sig, e, forward, n, d);
        (g, vals.push(a))
    }
}

/// A struct with its first `n` fields set.
pub open spec fn construct_fields_code(
    sem: Sem,
    g: GenV,
    c: ClassInfo,
    agg: Seq<char>,
    e: Expr,
    n: usize,
    d: nat,
) -> (GenV, Seq<char>)
    decreases d, e, 6int, n,
{
    if n == 0 || n > c.fields@.len() {
        (g, "undef"@)
    } else {
        let i = (n - 1) as usize;
        let (g, cur) = construct_fields_code(sem, g, c, agg, e, i, d);
        let (g, t) = ty_code(sem, g, c.fields@[i as int].ty);
        let (g, v) = field_value_code(sem, g, c, t, e, i, d);
        let (g, tmp) = reg(g);
        let g = line(
            g,
            tmp + " = insertvalue "@ + agg + " "@ + cur + ", "@ + t + " "@ + v + ", "@
                + dec(i as int),
        );
        (g, tmp)
    }
}

/// A tuple with its first `n` fields set.
pub open spec fn tuple_values_code(
    sem: Sem,
    g: GenV,
    agg: Seq<char>,
    e: Expr,
    n: usize,
    d: nat,
) -> (GenV, Seq<char>)
    decreases d, e, 7int, n,
{
    match (e.kind, e.note.ty) {
        (ExprKind::TupleLit { fields }, Some(TypeSpec::Tuple(tys))) => {
            if n == 0 || n > fields@.len() || n > tys@.len() {
                (g, "undef"@)
            } else {
                proof {
                    assert(decreases_to!(fields => fields@));
                    assert(decreases_to!(fields@ => fields@[n - 1]));
                }
                let i = (n - 1) as usize;
                let (g, cur) = tuple_values_code(sem, g, agg, e, i, d);
                let (g, a) = expr_code(sem, g, *fields@[n - 1], d);
                let (g, t) = ty_code(sem, g, tys@[n - 1].ty);
                let (g, tmp) = reg(g);
                let g = line(
                    g,
                    tmp + " = insertvalue "@ + agg + " "@ + cur + ", "@ + t + " "@ + a.v + ", "@
                        + dec(i as int),
                );
                (g, tmp)
            }
        },
        _ => (g, "undef"@),
    }
}

/// The code that appends the first `n` cells of a table literal to the dynamic table `t`.
pub open spec fn table_cells_code(
    sem: Sem,
    g: GenV,
    t: Seq<char>,
    elem: Seq<char>,
    e: Expr,
    n: usize,
    d: nat,
) -> GenV
    decreases d, e, 8int, n,
{
    match e.kind {
        ExprKind::TableLit { cells } => {
            if n == 0 || n > cells@.len() {
                g
            } else {
                proof {
                    assert(decreases_to!(cells => cells@));
                    assert(decreases_to!(cells@ => cells@[n - 1]));
                }
                let g = table_cells_code(sem, g, t, elem, e, (n - 1) as usize, d);
                let (g, a) = expr_code(sem, g, *cells@[n - 1], d);
                library_call(
                    g,
                    "call void"@,
                    "tie_table_push_"@ + elem_suffix(elem),
                    "ptr "@ + t + ", "@ + elem + " "@ + a.v,
                )
            }
        },
        _ => g,
    }
}

// ---------- expressions ----------
/// The code that reads the length of a dynamic table.
pub open spec fn table_len_code(g: GenV, t: Seq<char>) -> (GenV, Seq<char>) {
    let g = mark(g, "tie_table_len"@);
    let (g, len) = reg(g);
    let g = library_call(g, len + " = call i64"@, "tie_table_len"@, "ptr "@ + t);
    (g, len)
}

/// The code that prints an error and ends the program. `tail` holds the values that the
/// message shows, each with a comma before it.
pub open spec fn runtime_error_code(g: GenV, fmt: Seq<char>, tail: Seq<char>) -> GenV {
    let (g, n) = string_const(g, fmt + "\n"@);
    let g = line(g, "call i32 (ptr, ...) @printf(ptr @"@ + n + tail + ")"@);
    let g = line(g, "call i32 @fflush(ptr null)"@);
    let (g, _a) = reg(g);
    let (g, _b) = reg(g);
    let g = line(g, "call void @exit(i32 1)"@);
    line(g, "unreachable"@)
}

/// What a program prints about a range without numbers.
pub open spec fn range_refusal() -> Seq<char> {
    "运行时错误: rand_range 参数范围无效（max 必须大于 min）"@
}

/// What a program prints about a logarithm of a number that has none.
pub open spec fn log_refusal() -> Seq<char> {
    "运行时错误: log 参数必须大于 0"@
}

/// What a program prints about a position outside a table; the position and the length
/// follow.
pub open spec fn bounds_format() -> Seq<char> {
    "运行时错误: table_at 下标越界：索引 %lld 超出长度 %lld"@
}

/// The code that reads the element `i` of the dynamic table `t` and ends the program where
/// there is none.
pub open spec fn checked_at_code(
    g: GenV,
    t: Seq<char>,
    i: Seq<char>,
    elem: Seq<char>,
) -> (GenV, Seq<char>) {
    let g = mark(g, "tie_table_at_"@ + elem_suffix(elem));
    let (g, ok) = alloca(g, "i1"@);
    let g = line(g, "store i1 1, ptr "@ + ok);
    let (g, val) = reg(g);
    let g = library_call(
        g,
        val + " = call "@ + elem,
        "tie_table_at_"@ + elem_suffix(elem),
        "ptr "@ + t + ", i64 "@ + i + ", ptr "@ + ok,
    );
    let (g, okv) = reg(g);
    let g = line(g, okv + " = load i1, ptr "@ + ok);
    let (g, good) = label(g, "table_at.ok"@);
    let (g, bad) = label(g, "table_at.err"@);
    let g = line(g, "br i1 "@ + okv + ", label %"@ + good + ", label %"@ + bad);
    let g = start(g, bad);
    let (g, len) = table_len_code(g, t);
    let g = runtime_error_code(
        g,
        bounds_format(),
        ", i64 "@ + i + ", i64 "@ + len,
    );
    let g = start(g, good);
    (g, val)
}

/// The code that widens an integer to 64 bits.
pub open spec fn extend_code(
    g: GenV,
    v: Seq<char>,
    t: Seq<char>,
    is_unsigned: bool,
) -> (GenV, Seq<char>) {
    if t == "i64"@ {
        (g, v)
    } else {
        let (g, x) = reg(g);
        let g = if is_unsigned {
            line(g, x + " = zext "@ + t + " "@ + v + " to i64"@)
        } else {
            line(g, x + " = sext "@ + t + " "@ + v + " to i64"@)
        };
        (g, x)
    }
}

/// The code that turns a number into a `double`.
pub open spec fn promote_code(g: GenV, v: Seq<char>, t: Seq<char>) -> (GenV, Seq<char>) {
    if t == "double"@ {
        (g, v)
    } else {
        let (g, x) = reg(g);
        let g = if t == "float"@ {
            line(g, x + " = fpext float "@ + v + " to double"@)
        } else {
            line(g, x + " = sitofp "@ + t + " "@ + v + " to double"@)
        };
        (g, x)
    }
}

/// The element type of the dynamic table variable `name`.
pub open spec fn var_elem_code(sem: Sem, g: GenV, name: Seq<char>) -> (GenV, Seq<char>) {
    match table_var(sem, g.cur_fn, name) {
        Some(info) => ty_code(sem, g, info.elem_ty),
        None => {
            let g = fail(
                g,
                "内部错误：动态表变量 '"@ + name + "' 缺少元素类型元数据（函数 "@ + g.cur_fn
                    + "）"@,
            );
            (g, ""@)
        },
    }
}

/// The element type of the table that `full` returns.
pub open spec fn ret_elem_code(sem: Sem, g: GenV, full: Seq<char>) -> (GenV, Seq<char>) {
    match table_ret_from(sem, full, 0) {
        Some(t) => ty_code(sem, g, t),
        None => {
            let g = fail(
                g,
                "内部错误：返回表的函数 '"@ + full + "' 缺少元素类型元数据（函数 "@ + g.cur_fn
                    + "）"@,
            );
            (g, ""@)
        },
    }
}

/// The element type of a dynamic table.
pub open spec fn dyn_elem_code(sem: Sem, g: GenV, e: Expr) -> (GenV, Seq<char>) {
    match e.kind {
        ExprKind::Var(name) => var_elem_code(sem, g, name@),
        ExprKind::Call { name, .. } => {
            match e.note.resolved {
                Some(full) => ret_elem_code(sem, g, full@),
                None => ret_elem_code(sem, g, name@),
            }
        },
        ExprKind::MethodCall { method, .. } => {
            match e.note.resolved {
                Some(full) => ret_elem_code(sem, g, full@),
                None => ret_elem_code(sem, g, method@),
            }
        },
        _ => {
            let g = fail(g, "内部错误：table_at 第 1 个参数不是动态表（函数 "@ + g.cur_fn + "）"@);
            (g, ""@)
        },
    }
}

/// The code that joins or compares two strings.
pub open spec fn binary_str_code(
    g: GenV,
    op: BinaryOp,
    l: Seq<char>,
    r: Seq<char>,
) -> (GenV, OperandV) {
    if op == BinaryOp::Add {
        let (g, llen) = reg(g);
        let g = line(g, llen + " = call i64 @strlen(ptr "@ + l + ")"@);
        let (g, rlen) = reg(g);
        let g = line(g, rlen + " = call i64 @strlen(ptr "@ + r + ")"@);
        let (g, total) = reg(g);
        let g = line(g, total + " = add i64 "@ + llen + ", "@ + rlen);
        let (g, size) = reg(g);
        let g = line(g, size + " = add i64 "@ + total + ", 1"@);
        let (g, buf) = reg(g);
        let g = line(g, buf + " = call ptr @malloc(i64 "@ + size + ")"@);
        let g = line(
            g,
            "call void @llvm.memcpy.p0.p0.i64(ptr "@ + buf + ", ptr "@ + l + ", i64 "@ + llen
                + ", i1 false)"@,
        );
        let (g, off) = reg(g);
        let g = line(g, off + " = getelementptr i8, ptr "@ + buf + ", i64 "@ + llen);
        let g = line(
            g,
            "call void @llvm.memcpy.p0.p0.i64(ptr "@ + off + ", ptr "@ + r + ", i64 "@ + rlen
                + ", i1 false)"@,
        );
        let (g, end) = reg(g);
        let g = line(g, end + " = getelementptr i8, ptr "@ + buf + ", i64 "@ + total);
        let g = line(g, "store i8 0, ptr "@ + end);
        (g, OperandV { v: buf, t: "ptr"@ })
    } else {
        let (g, order) = reg(g);
        let g = line(g, order + " = call i32 @strcmp(ptr "@ + l + ", ptr "@ + r + ")"@);
        match predicate(op) {
            Some(p) => {
                let (g, res) = reg(g);
                let g = line(g, res + " = icmp "@ + p + " i32 "@ + order + ", 0"@);
                (g, OperandV { v: res, t: "i1"@ })
            },
            None => {
                let g = fail(
                    g,
                    "字符串二元运算只允许 + 与比较（不支持的运算符："@ + op_name(op) + "）"@,
                );
                (g, OperandV { v: ""@, t: ""@ })
            },
        }
    }
}

/// The code of a binary operation on two values; `ty` is the left one's type.
pub open spec fn binary_regs_code(
    g: GenV,
    op: BinaryOp,
    is_str: bool,
    l: Seq<char>,
    ty: Seq<char>,
    r: Seq<char>,
    is_unsigned: bool,
) -> (GenV, OperandV) {
    if is_str {
        binary_str_code(g, op, l, r)
    } else {
        let (g, tmp) = reg(g);
        let g = line(g, tmp + " = "@ + opcode(op, ty, is_unsigned) + " "@ + l + ", "@ + r);
        if comparison(op) || op == BinaryOp::And || op == BinaryOp::Or {
            (g, OperandV { v: tmp, t: "i1"@ })
        } else {
            (g, OperandV { v: tmp, t: ty })
        }
    }
}

/// The code of saturating arithmetic on two trits.
pub open spec fn trit_arith_code(
    g: GenV,
    opc: Seq<char>,
    l: Seq<char>,
    r: Seq<char>,
) -> (GenV, OperandV) {
    let (g, wide_l) = reg(g);
    let g = line(g, wide_l + " = sext i8 "@ + l + " to i64"@);
    let (g, wide_r) = reg(g);
    let g = line(g, wide_r + " = sext i8 "@ + r + " to i64"@);
    let (g, raw) = reg(g);
    let g = line(g, raw + " = "@ + opc + " i64 "@ + wide_l + ", "@ + wide_r);
    let (g, lo) = reg(g);
    let g = line(g, lo + " = icmp slt i64 "@ + raw + ", -1"@);
    let (g, hi) = reg(g);
    let g = line(g, hi + " = icmp sgt i64 "@ + raw + ", 1"@);
    let (g, low) = reg(g);
    let g = line(g, low + " = select i1 "@ + lo + ", i64 -1, i64 "@ + raw);
    let (g, high) = reg(g);
    let g = line(g, high + " = select i1 "@ + hi + ", i64 1, i64 "@ + low);
    let (g, narrow) = reg(g);
    let g = line(g, narrow + " = trunc i64 "@ + high + " to i8"@);
    (g, OperandV { v: narrow, t: "i8"@ })
}

/// The code of an operation on a trit and an integer.
pub open spec fn binary_mixed_code(
    g: GenV,
    op: BinaryOp,
    trit: Seq<char>,
    other: Seq<char>,
    trit_first: bool,
) -> (GenV, OperandV) {
    let (g, wide) = reg(g);
    let g = line(g, wide + " = sext i8 "@ + trit + " to i64"@);
    let (g, tmp) = reg(g);
    match mixed_opcode(op) {
        Some(opc) => {
            let g = if trit_first {
                line(g, tmp + " = "@ + opc + " "@ + wide + ", "@ + other)
            } else {
                line(g, tmp + " = "@ + opc + " "@ + other + ", "@ + wide)
            };
            if comparison(op) {
                (g, OperandV { v: tmp, t: "i1"@ })
            } else {
                (g, OperandV { v: tmp, t: "i64"@ })
            }
        },
        None => {
            let g = fail(g, "trit 与 i64 不支持运算 "@ + op_name(op));
            (g, OperandV { v: ""@, t: ""@ })
        },
    }
}

/// The code of an operation on two values of which at least one is a trit.
pub open spec fn binary_trit_code(
    g: GenV,
    op: BinaryOp,
    l: Seq<char>,
    lt: Seq<char>,
    r: Seq<char>,
    rt: Seq<char>,
) -> (GenV, OperandV) {
    if !(lt == "i8"@ && rt == "i8"@) {
        if lt == "i8"@ {
            binary_mixed_code(g, op, l, r, true)
        } else {
            binary_mixed_code(g, op, r, l, false)
        }
    } else {
        match op {
            BinaryOp::And => {
                let (g, c) = reg(g);
                let g = line(g, c + " = icmp slt i8 "@ + l + ", "@ + r);
                let (g, s) = reg(g);
                let g = line(g, s + " = select i1 "@ + c + ", i8 "@ + l + ", i8 "@ + r);
                (g, OperandV { v: s, t: "i8"@ })
            },
            BinaryOp::Or => {
                let (g, c) = reg(g);
                let g = line(g, c + " = icmp sgt i8 "@ + l + ", "@ + r);
                let (g, s) = reg(g);
                let g = line(g, s + " = select i1 "@ + c + ", i8 "@ + l + ", i8 "@ + r);
                (g, OperandV { v: s, t: "i8"@ })
            },
            BinaryOp::Add => trit_arith_code(g, "add"@, l, r),
            BinaryOp::Sub => trit_arith_code(g, "sub"@, l, r),
            BinaryOp::Mul => trit_arith_code(g, "mul"@, l, r),
            BinaryOp::Div | BinaryOp::Mod => {
                let g = fail(g, "trit 不支持除/取模运算（三值无除法）"@);
                (g, OperandV { v: ""@, t: ""@ })
            },
            _ => {
                match predicate(op) {
                    Some(p) => {
                        let (g, tmp) = reg(g);
                        let g = line(g, tmp + " = icmp "@ + p + " i8 "@ + l + ", "@ + r);
                        (g, OperandV { v: tmp, t: "i1"@ })
                    },
                    None => {
                        let g = fail(g, "trit 不支持位运算 "@ + op_name(op));
                        (g, OperandV { v: ""@, t: ""@ })
                    },
                }
            },
        }
    }
}

/// The code that adds one to a variable or takes one from it.
pub open spec fn inc_dec_code(g: GenV, op: UnaryOp, e: Expr) -> (GenV, OperandV) {
    match e.kind {
        ExprKind::Var(name) => {
            match bound(g, name@) {
                Some(b) => {
                    if number_ty(b.ty) {
                        let (g, before) = reg(g);
                        let g = line(g, before + " = load "@ + b.ty + ", ptr "@ + b.value);
                        let (g, after) = reg(g);
                        let g = line(
                            g,
                            after + " = "@ + step(op, b.ty) + " "@ + b.ty + " "@ + before + ", "@
                                + one(b.ty),
                        );
                        let g = line(g, "store "@ + b.ty + " "@ + after + ", ptr "@ + b.value);
                        if op == UnaryOp::PreInc || op == UnaryOp::PreDec {
                            (g, OperandV { v: after, t: b.ty })
                        } else {
                            (g, OperandV { v: before, t: b.ty })
                        }
                    } else {
                        let g = fail(g, "自增/自减只支持数字类型（"@ + b.ty + " 不能自增/自减）"@);
                        (g, OperandV { v: ""@, t: ""@ })
                    }
                },
                None => {
                    let g = fail(
                        g,
                        "内部错误：自增/自减的变量 '"@ + name@ + "' 未入作用域（函数 "@ + g.cur_fn
                            + "）"@,
                    );
                    (g, OperandV { v: ""@, t: ""@ })
                },
            }
        },
        _ => {
            let g = fail(g, "暂不支持对象字段的自增/自减（M4 简化：++/-- 仅支持变量）"@);
            (g, OperandV { v: ""@, t: ""@ })
        },
    }
}

/// The code that reads a variable.
pub open spec fn read_var_code(sem: Sem, g: GenV, name: Seq<char>) -> (GenV, OperandV) {
    match bound(g, name) {
        Some(b) => {
            let (g, tmp) = reg(g);
            let g = line(g, tmp + " = load "@ + b.ty + ", ptr "@ + b.value);
            (g, OperandV { v: tmp, t: b.ty })
        },
        None => {
            match global_ty(sem, name) {
                Some(t) => {
                    let (g, llvm) = ty_code(sem, g, t);
                    let (g, tmp) = reg(g);
                    let g = line(g, tmp + " = load "@ + llvm + ", ptr @"@ + name);
                    (g, OperandV { v: tmp, t: llvm })
                },
                None => {
                    let g = fail(
                        g,
                        "内部错误：变量 '"@ + name + "' 未入作用域（函数 "@ + g.cur_fn + "）"@,
                    );
                    (g, OperandV { v: ""@, t: ""@ })
                },
            }
        },
    }
}

/// The code that reads the element `idx` of the variable `name`.
pub open spec fn index_var_code(
    sem: Sem,
    g: GenV,
    name: Seq<char>,
    idx: Seq<char>,
    is_str: bool,
) -> (GenV, OperandV) {
    match bound(g, name) {
        Some(b) => {
            if is_str {
                let (g, s) = reg(g);
                let g = line(g, s + " = load ptr, ptr "@ + b.value);
                let (g, ptr) = reg(g);
                let g = line(g, ptr + " = getelementptr i8, ptr "@ + s + ", i64 "@ + idx);
                let (g, byte) = reg(g);
                let g = line(g, byte + " = load i8, ptr "@ + ptr);
                let (g, ch) = reg(g);
                let g = line(g, ch + " = zext i8 "@ + byte + " to i32"@);
                (g, OperandV { v: ch, t: "i32"@ })
            } else if dynamic_table(sem, g.cur_fn, name) {
                let (g, elem) = var_elem_code(sem, g, name);
                let (g, t) = reg(g);
                let g = line(g, t + " = load ptr, ptr "@ + b.value);
                let (g, val) = checked_at_code(g, t, idx, elem);
                (g, OperandV { v: val, t: elem })
            } else {
                match array_elem(b.ty) {
                    Some(elem) => {
                        let (g, ptr) = reg(g);
                        let g = line(
                            g,
                            ptr + " = getelementptr "@ + b.ty + ", ptr "@ + b.value
                                + ", i64 0, i64 "@ + idx,
                        );
                        let (g, val) = reg(g);
                        let g = line(g, val + " = load "@ + elem + ", ptr "@ + ptr);
                        (g, OperandV { v: val, t: elem })
                    },
                    None => {
                        let g = fail(g, "内部错误：下标访问的对象不是数组类型（"@ + b.ty + "）"@);
                        (g, OperandV { v: ""@, t: ""@ })
                    },
                }
            }
        },
        None => {
            let g = fail(
                g,
                "内部错误：下标访问的变量 '"@ + name + "' 未入作用域（函数 "@ + g.cur_fn + "）"@,
            );
            (g, OperandV { v: ""@, t: ""@ })
        },
    }
}

/// The address of the field `field` of the struct at `base`, whose type is `t`, and the
/// field's type.
pub open spec fn field_addr_code(
    sem: Sem,
    g: GenV,
    base: Seq<char>,
    base_llvm: Seq<char>,
    t: TypeSpec,
    field: Seq<char>,
    what: Seq<char>,
) -> (GenV, OperandV) {
    match t {
        TypeSpec::Struct(name) => {
            match class_of(sem, name@) {
                Some(c) => {
                    match field_pos(c, field) {
                        Some(i) => {
                            let (g, f) = ty_code(sem, g, c.fields@[i].ty);
                            let (g, ptr) = reg(g);
                            let g = line(
                                g,
                                ptr + " = getelementptr "@ + base_llvm + ", ptr "@ + base
                                    + ", i32 0, i32 "@ + dec(i as int),
                            );
                            (g, OperandV { v: ptr, t: f })
                        },
                        None => {
                            let g = fail(
                                g,
                                "内部错误：struct '"@ + name@ + "' 无字段 '"@ + field
                                    + "'（函数 "@ + g.cur_fn + "）"@,
                            );
                            (g, OperandV { v: ""@, t: ""@ })
                        },
                    }
                },
                None => {
                    let g = fail(
                        g,
                        "内部错误：struct '"@ + name@ + "' 无信息（函数 "@ + g.cur_fn + "）"@,
                    );
                    (g, OperandV { v: ""@, t: ""@ })
                },
            }
        },
        _ => {
            let g = fail(g, what + "（"@ + ty_text(t) + "，函数 "@ + g.cur_fn + "）"@);
            (g, OperandV { v: ""@, t: ""@ })
        },
    }
}

/// The code that reads a field of a tuple value.
pub open spec fn tuple_field_code(
    sem: Sem,
    g: GenV,
    v: Seq<char>,
    t: TypeSpec,
    field: Seq<char>,
) -> (GenV, OperandV) {
    match field_index(t, field) {
        Some(i) => {
            match t {
                TypeSpec::Tuple(fields) => {
                    let (g, agg) = ty_code(sem, g, t);
                    let (g, f) = ty_code(sem, g, fields@[i].ty);
                    let (g, tmp) = reg(g);
                    let g = line(
                        g,
                        tmp + " = extractvalue "@ + agg + " "@ + v + ", "@ + dec(i as int),
                    );
                    (g, OperandV { v: tmp, t: f })
                },
                _ => {
                    (g, OperandV { v: ""@, t: ""@ })
                },
            }
        },
        None => {
            let g = fail(
                g,
                "内部错误：元组字段 '"@ + field + "' 解析失败（函数 "@ + g.cur_fn + "）"@,
            );
            (g, OperandV { v: ""@, t: ""@ })
        },
    }
}

/// The code of a unary operation on a value.
pub open spec fn unary_value_code(
    g: GenV,
    op: UnaryOp,
    v: Seq<char>,
    t: Seq<char>,
) -> (GenV, OperandV) {
    let (g, tmp) = reg(g);
    if op == UnaryOp::Neg {
        let g = if t == "double"@ || t == "float"@ {
            line(g, tmp + " = fneg "@ + t + " "@ + v)
        } else {
            line(g, tmp + " = sub "@ + t + " 0, "@ + v)
        };
        (g, OperandV { v: tmp, t: t })
    } else if t == "i8"@ {
        let g = line(g, tmp + " = sub i8 0, "@ + v);
        (g, OperandV { v: tmp, t: "i8"@ })
    } else {
        let g = line(g, tmp + " = xor i1 "@ + v + ", true"@);
        (g, OperandV { v: tmp, t: "i1"@ })
    }
}

/// The code of a literal.
pub open spec fn literal_code(g: GenV, e: Expr) -> (GenV, OperandV) {
    match e.kind {
        ExprKind::IntLit(v) => {
            (g, OperandV { v: dec(v as int), t: "i64"@ })
        },
        ExprKind::FloatLit { ir, .. } => {
            (note(g, ir@), OperandV { v: ir@, t: "double"@ })
        },
        ExprKind::BoolLit(b) => {
            if typed(e, TyKw::Trit) {
                if b {
                    (g, OperandV { v: "1"@, t: "i8"@ })
                } else {
                    (g, OperandV { v: "-1"@, t: "i8"@ })
                }
            } else if b {
                (g, OperandV { v: "true"@, t: "i1"@ })
            } else {
                (g, OperandV { v: "false"@, t: "i1"@ })
            }
        },
        ExprKind::TritLit(v) => {
            (g, OperandV { v: dec(v as int), t: "i8"@ })
        },
        ExprKind::CharLit(c) => {
            (g, OperandV { v: dec(c as int), t: "i32"@ })
        },
        ExprKind::StrLit(s) => {
            let (g, n) = string_const(g, s@);
            (g, OperandV { v: "@"@ + n, t: "ptr"@ })
        },
        _ => {
            (g, OperandV { v: ""@, t: ""@ })
        },
    }
}

/// The code of a call: of a function that the language provides, or of one of the program.
pub open spec fn call_code(
    sem: Sem,
    g: GenV,
    name: Seq<char>,
    e: Expr,
    forward: bool,
    d: nat,
) -> (GenV, OperandV)
    decreases d, e, 7int, 0int,
{
    if name == "println"@ {
        printf_code(sem, g, e, true, d)
    } else if name == "print"@ {
        printf_code(sem, g, e, false, d)
    } else if name == "len"@ {
        len_code(sem, g, e, d)
    } else if name == "table_push"@ {
        table_push_code(sem, g, e, d)
    } else if name == "table_at"@ {
        table_at_code(sem, g, e, d)
    } else if name == "file_write"@ {
        file_write_code(sem, g, e, "wb"@, d)
    } else if name == "file_append"@ {
        file_write_code(sem, g, e, "ab"@, d)
    } else if name == "file_exists"@ {
        file_exists_code(sem, g, e, d)
    } else if name == "file_delete"@ {
        file_delete_code(sem, g, e, d)
    } else if name == "to_string"@ {
        to_string_code(sem, g, e, d)
    } else if name == "exit"@ {
        exit_code(sem, g, e, d)
    } else if name == "pow"@ {
        pow_code(sem, g, e, d)
    } else if name == "rand_range"@ {
        rand_range_code(sem, g, e, d)
    } else if math_fn(name) {
        math_code(sem, g, name, e, d)
    } else {
        match elem_size(name) {
            Some(n) => {
                let g = mark(g, "tie_table_new"@);
                let (g, tmp) = reg(g);
                let g = library_call(
                    g,
                    tmp + " = call ptr"@,
                    "tie_table_new"@,
                    "i64 "@ + dec(n as int),
                );
                (g, OperandV { v: tmp, t: "ptr"@ })
            },
            None => {
                match bridge(name) {
                    Some(b) => bridge_call_code(sem, g, name, b, e, d),
                    None => user_call_code(sem, g, name, e, forward, d),
                }
            },
        }
    }
}

/// The format of a printed value, the type it is passed as, and the value.
pub open spec fn print_value_code(
    g: GenV,
    v: Seq<char>,
    t: Seq<char>,
    is_unsigned: bool,
    is_char: bool,
    nl: Seq<char>,
) -> GenV {
    if t == "double"@ {
        print_as_code(g, "%f"@ + nl, "double"@, v)
    } else if t == "float"@ {
        let (g, x) = reg(g);
        let g = line(g, x + " = fpext float "@ + v + " to double"@);
        print_as_code(g, "%f"@ + nl, "double"@, x)
    } else if t == "ptr"@ {
        print_as_code(g, "%s"@ + nl, "ptr"@, v)
    } else if t == "i1"@ {
        let (g, x) = reg(g);
        let g = line(g, x + " = zext i1 "@ + v + " to i64"@);
        print_as_code(g, "%lld"@ + nl, "i64"@, x)
    } else if t == "i8"@ || t == "i16"@ {
        let (g, x) = reg(g);
        if is_unsigned {
            let g = line(g, x + " = zext "@ + t + " "@ + v + " to i32"@);
            print_as_code(g, "%u"@ + nl, "i32"@, x)
        } else {
            let g = line(g, x + " = sext "@ + t + " "@ + v + " to i32"@);
            print_as_code(g, "%d"@ + nl, "i32"@, x)
        }
    } else if t == "i32"@ {
        if is_char {
            print_as_code(g, "%c"@ + nl, "i32"@, v)
        } else if is_unsigned {
            print_as_code(g, "%u"@ + nl, "i32"@, v)
        } else {
            print_as_code(g, "%d"@ + nl, "i32"@, v)
        }
    } else if t == "i64"@ && is_unsigned {
        print_as_code(g, "%llu"@ + nl, "i64"@, v)
    } else {
        print_as_code(g, "%lld"@ + nl, "i64"@, v)
    }
}

/// The code that prints one value with a format.
pub open spec fn print_as_code(g: GenV, fmt: Seq<char>, t: Seq<char>, v: Seq<char>) -> GenV {
    let (g, n) = string_const(g, fmt);
    line(g, "call i32 (ptr, ...) @printf(ptr @"@ + n + ", "@ + t + " "@ + v + ")"@)
}

/// The code of `println` and `print`.
pub open spec fn printf_code(sem: Sem, g: GenV, e: Expr, newline: bool, d: nat) -> (GenV, OperandV)
    decreases d, e, 6int, 0int,
{
    if argc(e) == 0 {
        let g = if newline {
            let (g, n) = string_const(g, "\n"@);
            line(g, "call i32 (ptr, ...) @printf(ptr @"@ + n + ")"@)
        } else {
            g
        };
        let (g, tmp) = reg(g);
        (g, OperandV { v: tmp, t: "void"@ })
    } else {
        let (g, a) = arg_code(sem, g, e, 0, d);
        if newline {
            let g = print_value_code(
                g,
                a.v,
                a.t,
                unsigned_arg(e, 0),
                typed_arg(e, 0, TyKw::Char),
                "\n"@,
            );
            let (g, tmp) = reg(g);
            (g, OperandV { v: tmp, t: "void"@ })
        } else {
            let g = print_value_code(
                g,
                a.v,
                a.t,
                unsigned_arg(e, 0),
                typed_arg(e, 0, TyKw::Char),
                ""@,
            );
            let g = line(g, "call i32 @fflush(ptr null)"@);
            let (g, _a) = reg(g);
            let (g, tmp) = reg(g);
            (g, OperandV { v: tmp, t: "void"@ })
        }
    }
}

/// The code of `len`.
pub open spec fn len_code(sem: Sem, g: GenV, e: Expr, d: nat) -> (GenV, OperandV)
    decreases d, e, 6int, 0int,
{
    match literal_len(e) {
        Some(n) => {
            (g, OperandV { v: dec(n as int), t: "i64"@ })
        },
        None => {
            if literal_arg(e) {
                let g = fail(
                    g,
                    "内部错误：len 的表字面量缺少布局元数据（函数 "@ + g.cur_fn + "）"@,
                );
                (g, OperandV { v: ""@, t: ""@ })
            } else {
                let (g, a) = arg_code(sem, g, e, 0, d);
                let (g, n) = len_of_code(g, a.v, a.t, dynamic_arg(sem, g.cur_fn, e));
                (g, OperandV { v: n, t: "i64"@ })
            }
        },
    }
}

/// The code that finds the length of a value of type `t`.
pub open spec fn len_of_code(
    g: GenV,
    v: Seq<char>,
    t: Seq<char>,
    is_dynamic: bool,
) -> (GenV, Seq<char>) {
    match array_shape(t) {
        Some(shape) => (g, dec(shape.0 as int)),
        None => {
            if is_dynamic {
                table_len_code(g, v)
            } else {
                let (g, n) = reg(g);
                let g = line(g, n + " = call i64 @strlen(ptr "@ + v + ")"@);
                (g, n)
            }
        },
    }
}

/// The code of `table_push`.
pub open spec fn table_push_code(sem: Sem, g: GenV, e: Expr, d: nat) -> (GenV, OperandV)
    decreases d, e, 6int, 0int,
{
    match var_arg(e) {
        Some(name) => {
            match bound(g, name) {
                Some(b) => {
                    let (g, t) = reg(g);
                    let g = line(g, t + " = load ptr, ptr "@ + b.value);
                    let (g, x) = arg_code(sem, g, e, 1, d);
                    let g = mark(g, "tie_table_push_"@ + elem_suffix(x.t));
                    let g = library_call(
                        g,
                        "call void"@,
                        "tie_table_push_"@ + elem_suffix(x.t),
                        "ptr "@ + t + ", "@ + x.t + " "@ + x.v,
                    );
                    (g, OperandV { v: ""@, t: "void"@ })
                },
                None => {
                    let g = fail(
                        g,
                        "内部错误：table_push 找不到表变量 '"@ + name + "'（函数 "@ + g.cur_fn
                            + "）"@,
                    );
                    (g, OperandV { v: ""@, t: ""@ })
                },
            }
        },
        None => {
            let g = fail(
                g,
                "内部错误：table_push 第 1 个参数不是表变量（函数 "@ + g.cur_fn + "）"@,
            );
            (g, OperandV { v: ""@, t: ""@ })
        },
    }
}

/// The code of `table_at`.
pub open spec fn table_at_code(sem: Sem, g: GenV, e: Expr, d: nat) -> (GenV, OperandV)
    decreases d, e, 6int, 0int,
{
    let (g, t) = arg_code(sem, g, e, 0, d);
    let (g, i) = arg_code(sem, g, e, 1, d);
    match arg_expr(e, 0) {
        Some(a) => {
            let (g, elem) = dyn_elem_code(sem, g, a);
            let (g, val) = checked_at_code(g, t.v, i.v, elem);
            (g, OperandV { v: val, t: elem })
        },
        None => {
            (g, OperandV { v: ""@, t: ""@ })
        },
    }
}

/// The code that writes a string to a file opened in `mode`.
pub open spec fn file_write_code(
    sem: Sem,
    g: GenV,
    e: Expr,
    mode: Seq<char>,
    d: nat,
) -> (GenV, OperandV)
    decreases d, e, 6int, 0int,
{
    let (g, p) = arg_code(sem, g, e, 0, d);
    let (g, c) = arg_code(sem, g, e, 1, d);
    let (g, n) = string_const(g, mode);
    let (g, f) = reg(g);
    let g = line(g, f + " = call ptr @fopen(ptr "@ + p.v + ", ptr @"@ + n + ")"@);
    let (g, is_null) = reg(g);
    let g = line(g, is_null + " = icmp eq ptr "@ + f + ", null"@);
    let (g, good) = label(g, "file.open.ok"@);
    let (g, bad) = label(g, "file.open.fail"@);
    let (g, merge) = label(g, "file.open.merge"@);
    let g = line(g, "br i1 "@ + is_null + ", label %"@ + bad + ", label %"@ + good);
    let g = start(g, bad);
    let g = line(g, "br label %"@ + merge);
    let g = start(g, good);
    let (g, len) = reg(g);
    let g = line(g, len + " = call i64 @strlen(ptr "@ + c.v + ")"@);
    let (g, written) = reg(g);
    let g = line(
        g,
        written + " = call i64 @fwrite(ptr "@ + c.v + ", i64 1, i64 "@ + len + ", ptr "@ + f + ")"@,
    );
    let g = line(g, "call i32 @fclose(ptr "@ + f + ")"@);
    let (g, _a) = reg(g);
    let (g, ok) = reg(g);
    let g = line(g, ok + " = icmp eq i64 "@ + written + ", "@ + len);
    let g = line(g, "br label %"@ + merge);
    let g = start(g, merge);
    let (g, res) = reg(g);
    let g = line(g, res + " = phi i1 [ false, %"@ + bad + " ], [ "@ + ok + ", %"@ + good + " ]"@);
    (g, OperandV { v: res, t: "i1"@ })
}

/// The code of `file_exists`.
pub open spec fn file_exists_code(sem: Sem, g: GenV, e: Expr, d: nat) -> (GenV, OperandV)
    decreases d, e, 6int, 0int,
{
    let (g, p) = arg_code(sem, g, e, 0, d);
    let (g, n) = string_const(g, "rb"@);
    let (g, f) = reg(g);
    let g = line(g, f + " = call ptr @fopen(ptr "@ + p.v + ", ptr @"@ + n + ")"@);
    let (g, is_null) = reg(g);
    let g = line(g, is_null + " = icmp eq ptr "@ + f + ", null"@);
    let (g, good) = label(g, "file.exists.ok"@);
    let (g, bad) = label(g, "file.exists.fail"@);
    let (g, merge) = label(g, "file.exists.merge"@);
    let g = line(g, "br i1 "@ + is_null + ", label %"@ + bad + ", label %"@ + good);
    let g = start(g, bad);
    let g = line(g, "br label %"@ + merge);
    let g = start(g, good);
    let g = line(g, "call i32 @fclose(ptr "@ + f + ")"@);
    let (g, _a) = reg(g);
    let g = line(g, "br label %"@ + merge);
    let g = start(g, merge);
    let (g, res) = reg(g);
    let g = line(g, res + " = phi i1 [ false, %"@ + bad + " ], [ true, %"@ + good + " ]"@);
    (g, OperandV { v: res, t: "i1"@ })
}

/// The code of `file_delete`.
pub open spec fn file_delete_code(sem: Sem, g: GenV, e: Expr, d: nat) -> (GenV, OperandV)
    decreases d, e, 6int, 0int,
{
    let (g, p) = arg_code(sem, g, e, 0, d);
    let (g, r) = reg(g);
    let g = line(g, r + " = call i32 @remove(ptr "@ + p.v + ")"@);
    let (g, ok) = reg(g);
    let g = line(g, ok + " = icmp eq i32 "@ + r + ", 0"@);
    (g, OperandV { v: ok, t: "i1"@ })
}

/// The code of `to_string`.
pub open spec fn to_string_code(sem: Sem, g: GenV, e: Expr, d: nat) -> (GenV, OperandV)
    decreases d, e, 6int, 0int,
{
    let (g, a) = arg_code(sem, g, e, 0, d);
    if typed_arg(e, 0, TyKw::F32) || typed_arg(e, 0, TyKw::F64) || a.t == "double"@
        || a.t == "float"@ {
        let g = mark(g, "tie_to_string_f64"@);
        let (g, wide) = if a.t == "float"@ {
            let (g, x) = reg(g);
            let g = line(g, x + " = fpext float "@ + a.v + " to double"@);
            (g, x)
        } else {
            (g, a.v)
        };
        let (g, tmp) = reg(g);
        let g = library_call(g, tmp + " = call ptr"@, "tie_to_string_f64"@, "double "@ + wide);
        (g, OperandV { v: tmp, t: "ptr"@ })
    } else {
        let g = mark(g, "tie_to_string_i64"@);
        let (g, wide) = extend_code(g, a.v, a.t, unsigned_arg(e, 0));
        let (g, tmp) = reg(g);
        let g = library_call(g, tmp + " = call ptr"@, "tie_to_string_i64"@, "i64 "@ + wide);
        (g, OperandV { v: tmp, t: "ptr"@ })
    }
}

/// The code of `exit`.
pub open spec fn exit_code(sem: Sem, g: GenV, e: Expr, d: nat) -> (GenV, OperandV)
    decreases d, e, 6int, 0int,
{
    let (g, c) = arg_code(sem, g, e, 0, d);
    let g = line(g, "call i32 @fflush(ptr null)"@);
    let (g, _a) = reg(g);
    let (g, code) = if c.t == "i32"@ {
        (g, c.v)
    } else if c.t == "i64"@ {
        let (g, t) = reg(g);
        let g = line(g, t + " = trunc i64 "@ + c.v + " to i32"@);
        (g, t)
    } else {
        let (g, t) = reg(g);
        let g = line(g, t + " = sext "@ + c.t + " "@ + c.v + " to i32"@);
        (g, t)
    };
    let g = line(g, "call void @exit(i32 "@ + code + ")"@);
    let g = line(g, "unreachable"@);
    let (g, tmp) = reg(g);
    (g, OperandV { v: tmp, t: "void"@ })
}

/// The code of a mathematical function of one number.
pub open spec fn math_code(sem: Sem, g: GenV, name: Seq<char>, e: Expr, d: nat) -> (GenV, OperandV)
    decreases d, e, 6int, 0int,
{
    let (g, a) = arg_code(sem, g, e, 0, d);
    let (g, x) = promote_code(g, a.v, a.t);
    let g = if name == "log"@ {
        let (g, low) = reg(g);
        let g = line(g, low + " = fcmp ole double "@ + x + ", 0.0"@);
        let (g, good) = label(g, "log.ok"@);
        let (g, bad) = label(g, "log.err"@);
        let g = line(g, "br i1 "@ + low + ", label %"@ + bad + ", label %"@ + good);
        let g = start(g, bad);
        let g = runtime_error_code(g, log_refusal(), ""@);
        start(g, good)
    } else {
        g
    };
    let (g, tmp) = reg(g);
    let g = line(g, tmp + " = call double @"@ + name + "(double "@ + x + ")"@);
    (g, OperandV { v: tmp, t: "double"@ })
}

/// The code of `pow`.
pub open spec fn pow_code(sem: Sem, g: GenV, e: Expr, d: nat) -> (GenV, OperandV)
    decreases d, e, 6int, 0int,
{
    let (g, x) = arg_code(sem, g, e, 0, d);
    let (g, y) = arg_code(sem, g, e, 1, d);
    let (g, xd) = promote_code(g, x.v, x.t);
    let (g, yd) = promote_code(g, y.v, y.t);
    let (g, tmp) = reg(g);
    let g = line(g, tmp + " = call double @pow(double "@ + xd + ", double "@ + yd + ")"@);
    (g, OperandV { v: tmp, t: "double"@ })
}

/// The code that ends the program where the flag at `ok` is zero.
pub open spec fn flag_check_code(
    g: GenV,
    name: Seq<char>,
    ok: Seq<char>,
    msg: Seq<char>,
    tail: Seq<char>,
) -> GenV {
    let (g, okv) = reg(g);
    let g = line(g, okv + " = load i8, ptr "@ + ok);
    let (g, is_zero) = reg(g);
    let g = line(g, is_zero + " = icmp eq i8 "@ + okv + ", 0"@);
    let (g, good) = label(g, name + ".ok"@);
    let (g, bad) = label(g, name + ".err"@);
    let g = line(g, "br i1 "@ + is_zero + ", label %"@ + bad + ", label %"@ + good);
    let g = start(g, bad);
    let g = runtime_error_code(g, msg, tail);
    start(g, good)
}

/// The code of `rand_range`.
pub open spec fn rand_range_code(sem: Sem, g: GenV, e: Expr, d: nat) -> (GenV, OperandV)
    decreases d, e, 6int, 0int,
{
    let g = mark(g, "tie_rand_range"@);
    let (g, a) = arg_code(sem, g, e, 0, d);
    let (g, b) = arg_code(sem, g, e, 1, d);
    let (g, low) = extend_code(g, a.v, a.t, unsigned_arg(e, 0));
    let (g, high) = extend_code(g, b.v, b.t, unsigned_arg(e, 1));
    let (g, ok) = alloca(g, "i8"@);
    let g = line(g, "store i8 0, ptr "@ + ok);
    let (g, tmp) = reg(g);
    let g = library_call(
        g,
        tmp + " = call i64"@,
        "tie_rand_range"@,
        "i64 "@ + low + ", i64 "@ + high + ", ptr "@ + ok,
    );
    let g = flag_check_code(g, "rand_range"@, ok, range_refusal(), ""@);
    (g, OperandV { v: tmp, t: "i64"@ })
}

/// The code of a call into the library.
pub open spec fn bridge_call_code(
    sem: Sem,
    g: GenV,
    name: Seq<char>,
    b: Bridge,
    e: Expr,
    d: nat,
) -> (GenV, OperandV)
    decreases d, e, 6int, 0int,
{
    let g = mark(g, bridge_symbol(name));
    let g = if b.frees {
        mark(g, "tie_free_result"@)
    } else {
        g
    };
    let (g, vals) = bridge_vals_code(sem, g, b, e, b.arity, d);
    bridge_end_code(g, name, b, bridge_text(vals, b.ints_from as int), shown(vals, b.shown as int))
}

/// The call itself, once its arguments are there, and what is done with its result.
pub open spec fn bridge_end_code(
    g: GenV,
    name: Seq<char>,
    b: Bridge,
    args: Seq<char>,
    shown: Seq<char>,
) -> (GenV, OperandV) {
    match b.fails {
        Fails::Never => {
            match b.ret {
                Ret::Nothing => {
                    let g = library_call(g, "call void"@, bridge_symbol(name), args);
                    (g, OperandV { v: ""@, t: "void"@ })
                },
                Ret::Truth => {
                    let (g, r) = reg(g);
                    let g = library_call(g, r + " = call i8"@, bridge_symbol(name), args);
                    let (g, ok) = reg(g);
                    let g = line(g, ok + " = icmp ne i8 "@ + r + ", 0"@);
                    (g, OperandV { v: ok, t: "i1"@ })
                },
                _ => {
                    let (g, tmp) = reg(g);
                    let g = library_call(
                        g,
                        tmp + " = call "@ + ret_llvm(b.ret),
                        bridge_symbol(name),
                        args,
                    );
                    (g, OperandV { v: tmp, t: ret_llvm(b.ret) })
                },
            }
        },
        Fails::Null => {
            let (g, tmp) = reg(g);
            let g = library_call(g, tmp + " = call ptr"@, bridge_symbol(name), args);
            let (g, is_null) = reg(g);
            let g = line(g, is_null + " = icmp eq ptr "@ + tmp + ", null"@);
            let (g, good) = label(g, name + ".ok"@);
            let (g, bad) = label(g, name + ".err"@);
            let g = line(g, "br i1 "@ + is_null + ", label %"@ + bad + ", label %"@ + good);
            let g = start(g, bad);
            let g = runtime_error_code(
                g,
                "运行时错误: "@ + name + fail_tail(name),
                ", ptr "@ + shown,
            );
            let g = start(g, good);
            (g, OperandV { v: tmp, t: "ptr"@ })
        },
        Fails::Flag => {
            let (g, ok) = alloca(g, "i8"@);
            let g = line(g, "store i8 0, ptr "@ + ok);
            let (g, tmp) = reg(g);
            let g = library_call(
                g,
                tmp + " = call "@ + ret_llvm(b.ret),
                bridge_symbol(name),
                args + ", ptr "@ + ok,
            );
            let g = flag_check_code(
                g,
                name,
                ok,
                "运行时错误: "@ + name + fail_tail(name),
                ", ptr "@ + shown,
            );
            if b.ret == Ret::Truth {
                let (g, is_true) = reg(g);
                let g = line(g, is_true + " = icmp ne i8 "@ + tmp + ", 0"@);
                (g, OperandV { v: is_true, t: "i1"@ })
            } else {
                (g, OperandV { v: tmp, t: ret_llvm(b.ret) })
            }
        },
    }
}

/// The code of a call of one of the program's functions. With `forward` the receiver of
/// the call goes in front of its arguments.
pub open spec fn user_call_code(
    sem: Sem,
    g: GenV,
    name: Seq<char>,
    e: Expr,
    forward: bool,
    d: nat,
) -> (GenV, OperandV)
    decreases d, e, 6int, 0int,
{
    match sig_of(sem, name) {
        Some(sig) => {
            let (g, vals) = call_args_code(sem, g, name, sig, e, forward, sig.param_tys.len(), d);
            let args = join(vals, ", "@);
            let (g, ret) = ty_code(sem, g, sig.ret_ty);
            let (g, tmp) = reg(g);
            if sig.ret_ty.spec_is_void() {
                let g = line(g, "call void @"@ + dollars(name, 0) + "("@ + args + ")"@);
                (g, OperandV { v: tmp, t: "void"@ })
            } else {
                let g = line(
                    g,
                    tmp + " = call "@ + ret + " @"@ + dollars(name, 0) + "("@ + args + ")"@,
                );
                (g, OperandV { v: tmp, t: ret })
            }
        },
        None => {
            let g = fail(g, "内部错误：函数 '"@ + name + "' 无签名（函数 "@ + g.cur_fn + "）"@);
            (g, OperandV { v: ""@, t: ""@ })
        },
    }
}

/// The code of one argument of a call of a function of the program.
pub open spec fn one_arg_code(
    sem: Sem,
    g: GenV,
    name: Seq<char>,
    sig: FuncSig,
    e: Expr,
    forward: bool,
    n: usize,
    d: nat,
) -> (GenV, Seq<char>)
    decreases d, e, 4int, 0int,
{
    if n == 0 {
        (g, ""@)
    } else if forward && n == 1 {
        if method_fn(name, first_ty(sig)) {
            let (g, a) = receiver_addr_code(sem, g, e, d);
            (g, "ptr "@ + a.v)
        } else {
            let (g, a) = receiver_value_code(sem, g, e, d);
            let (g, t) = param_ty_code(sem, g, sig, n);
            (g, t + " "@ + a.v)
        }
    } else {
        let j: usize = if forward { (n - 2) as usize } else { (n - 1) as usize };
        if j < argc(e) {
            let (g, a) = arg_value_code(sem, g, e, j, d);
            let (g, t) = param_ty_code(sem, g, sig, n);
            (g, t + " "@ + a.v)
        } else {
            match default_of(sig, n) {
                Some(x) => {
                    if d == 0 {
                        let g = fail(
                            g,
                            "内部错误：默认值的展开没有终点（函数 "@ + g.cur_fn + "）"@,
                        );
                        (g, ""@)
                    } else {
                        let (g, a) = value_code(sem, g, *x, (d - 1) as nat);
                        let (g, t) = param_ty_code(sem, g, sig, n);
                        (g, t + " "@ + a.v)
                    }
                },
                None => {
                    let g = fail(
                        g,
                        "内部错误：函数 '"@ + name + "' 缺少第 "@ + dec(n as int)
                            + " 个实参且无默认值（函数 "@ + g.cur_fn + "）"@,
                    );
                    (g, ""@)
                },
            }
        }
    }
}

/// The code of a value that is passed to a function: a table literal becomes a dynamic
/// table.
pub open spec fn value_code(sem: Sem, g: GenV, e: Expr, d: nat) -> (GenV, OperandV)
    decreases d, e, 10int, 0int,
{
    match e.kind {
        ExprKind::TableLit { cells } => {
            let (g, elem) = match e.note.table {
                Some(info) => ty_code(sem, g, info.elem_ty),
                None => (g, "i64"@),
            };
            let g = mark(g, "tie_table_new"@);
            let (g, t) = reg(g);
            let g = library_call(
                g,
                t + " = call ptr"@,
                "tie_table_new"@,
                "i64 "@ + slot_size(elem),
            );
            let g = mark(g, "tie_table_push_"@ + elem_suffix(elem));
            let g = table_cells_code(sem, g, t, elem, e, cells.len(), d);
            (g, OperandV { v: t, t: "ptr"@ })
        },
        _ => expr_code(sem, g, e, d),
    }
}

/// The code that builds a struct from its arguments, the defaults of its fields, and zeros.
pub open spec fn construct_code(
    sem: Sem,
    g: GenV,
    name: Seq<char>,
    c: ClassInfo,
    e: Expr,
    d: nat,
) -> (GenV, OperandV)
    decreases d, e, 7int, 0int,
{
    let (g, agg) = struct_ty_code(sem, g, name);
    let (g, v) = construct_fields_code(sem, g, c, agg, e, c.fields.len(), d);
    (g, OperandV { v: v, t: agg })
}

/// The value of the field `i` of a struct under construction, whose type is `t`.
pub open spec fn field_value_code(
    sem: Sem,
    g: GenV,
    c: ClassInfo,
    t: Seq<char>,
    e: Expr,
    i: usize,
    d: nat,
) -> (GenV, Seq<char>)
    decreases d, e, 5int, 0int,
{
    if i < argc(e) {
        let (g, a) = arg_code(sem, g, e, i, d);
        (g, a.v)
    } else {
        match init_of(c, i) {
            Some(x) => {
                if d == 0 {
                    let g = fail(
                        g,
                        "内部错误：字段默认值的展开没有终点（函数 "@ + g.cur_fn + "）"@,
                    );
                    (g, ""@)
                } else {
                    let (g, a) = expr_code(sem, g, *x, (d - 1) as nat);
                    (g, a.v)
                }
            },
            None => (g, zero_text(t)),
        }
    }
}

/// The address of a struct and the struct's type.
pub open spec fn class_addr_code(sem: Sem, g: GenV, e: Expr, d: nat) -> (GenV, OperandV)
    decreases d, e, 8int, 0int,
{
    match e.kind {
        ExprKind::Var(name) => {
            match bound(g, name@) {
                Some(b) => {
                    (g, OperandV { v: b.value, t: b.ty })
                },
                None => {
                    let g = fail(
                        g,
                        "内部错误：变量 '"@ + name@ + "' 未入作用域（函数 "@ + g.cur_fn + "）"@,
                    );
                    (g, OperandV { v: ""@, t: ""@ })
                },
            }
        },
        ExprKind::FieldAccess { base, field } => {
            let (g, a) = class_addr_code(sem, g, *base, d);
            match base.note.ty {
                Some(t) => field_addr_code(
                    sem,
                    g,
                    a.v,
                    a.t,
                    t,
                    field@,
                    "内部错误：字段链的基类型不是 struct"@,
                ),
                None => {
                    let g = fail(g, "内部错误：字段链缺少基类型（函数 "@ + g.cur_fn + "）"@);
                    (g, OperandV { v: ""@, t: ""@ })
                },
            }
        },
        _ => {
            let g = fail(g, "内部错误：类实例必须可寻址（变量/this/字段链），函数 "@ + g.cur_fn);
            (g, OperandV { v: ""@, t: ""@ })
        },
    }
}

/// The code of a unary expression.
pub open spec fn unary_code(sem: Sem, g: GenV, e: Expr, d: nat) -> (GenV, OperandV)
    decreases d, e, 8int, 0int,
{
    match e.kind {
        ExprKind::Unary { op, operand } => {
            if op == UnaryOp::Neg || op == UnaryOp::Not {
                let (g, a) = expr_code(sem, g, *operand, d);
                unary_value_code(g, op, a.v, a.t)
            } else {
                inc_dec_code(g, op, *operand)
            }
        },
        _ => {
            (g, OperandV { v: ""@, t: ""@ })
        },
    }
}

/// The code of a binary expression.
pub open spec fn binary_code(sem: Sem, g: GenV, e: Expr, d: nat) -> (GenV, OperandV)
    decreases d, e, 8int, 0int,
{
    match e.kind {
        ExprKind::Binary { op, lhs, rhs } => {
            let (g, a) = expr_code(sem, g, *lhs, d);
            let (g, b) = expr_code(sem, g, *rhs, d);
            if typed(*lhs, TyKw::Trit) || typed(*rhs, TyKw::Trit) {
                binary_trit_code(g, op, a.v, a.t, b.v, b.t)
            } else {
                binary_regs_code(
                    g,
                    op,
                    typed(*lhs, TyKw::Str) || typed(*rhs, TyKw::Str),
                    a.v,
                    a.t,
                    b.v,
                    unsigned(*lhs),
                )
            }
        },
        _ => {
            (g, OperandV { v: ""@, t: ""@ })
        },
    }
}

/// The code of a conditional expression.
pub open spec fn ternary_code(sem: Sem, g: GenV, e: Expr, d: nat) -> (GenV, OperandV)
    decreases d, e, 8int, 0int,
{
    match e.kind {
        ExprKind::Ternary { cond, then_expr, else_expr } => {
            let (g, c) = expr_code(sem, g, *cond, d);
            let (g, yes) = label(g, "tern.then"@);
            let (g, no) = label(g, "tern.else"@);
            let (g, merge) = label(g, "tern.merge"@);
            let g = line(g, "br i1 "@ + c.v + ", label %"@ + yes + ", label %"@ + no);
            let g = start(g, yes);
            let (g, a) = expr_code(sem, g, *then_expr, d);
            let g = line(g, "br label %"@ + merge);
            let g = start(g, no);
            let (g, b) = expr_code(sem, g, *else_expr, d);
            let g = line(g, "br label %"@ + merge);
            let g = start(g, merge);
            let (g, phi) = reg(g);
            let g = line(
                g,
                phi + " = phi "@ + a.t + " [ "@ + a.v + ", %"@ + yes + " ], [ "@ + b.v + ", %"@
                    + no + " ]"@,
            );
            (g, OperandV { v: phi, t: a.t })
        },
        _ => {
            (g, OperandV { v: ""@, t: ""@ })
        },
    }
}

/// The code of an element access.
pub open spec fn index_code(sem: Sem, g: GenV, e: Expr, d: nat) -> (GenV, OperandV)
    decreases d, e, 8int, 0int,
{
    match e.kind {
        ExprKind::Index { base, index } => {
            let (g, i) = expr_code(sem, g, *index, d);
            let (g, idx) = extend_code(g, i.v, i.t, unsigned(*index));
            match base.kind {
                ExprKind::Call { .. } | ExprKind::MethodCall { .. } => {
                    let (g, t) = expr_code(sem, g, *base, d);
                    let (g, elem) = dyn_elem_code(sem, g, *base);
                    let (g, val) = checked_at_code(g, t.v, idx, elem);
                    (g, OperandV { v: val, t: elem })
                },
                ExprKind::Var(name) => index_var_code(sem, g, name@, idx, typed(*base, TyKw::Str)),
                _ => {
                    let g = fail(g, "下标访问仅支持表/字符串变量、表字面量或返回表的函数调用"@);
                    (g, OperandV { v: ""@, t: ""@ })
                },
            }
        },
        _ => {
            (g, OperandV { v: ""@, t: ""@ })
        },
    }
}

/// The code of a tuple.
pub open spec fn tuple_code(sem: Sem, g: GenV, e: Expr, d: nat) -> (GenV, OperandV)
    decreases d, e, 8int, 0int,
{
    match e.note.ty {
        Some(t) => {
            match t {
                TypeSpec::Tuple(_) => {
                    let (g, agg) = ty_code(sem, g, t);
                    let (g, v) = tuple_values_code(sem, g, agg, e, tuple_size(e), d);
                    (g, OperandV { v: v, t: agg })
                },
                _ => {
                    let g = fail(
                        g,
                        "内部错误：元组字面量语义类型不是元组（函数 "@ + g.cur_fn + "）"@,
                    );
                    (g, OperandV { v: ""@, t: ""@ })
                },
            }
        },
        None => {
            let g = fail(g, "内部错误：元组字面量缺少语义类型（函数 "@ + g.cur_fn + "）"@);
            (g, OperandV { v: ""@, t: ""@ })
        },
    }
}

/// The code of a field access.
pub open spec fn field_code(sem: Sem, g: GenV, e: Expr, d: nat) -> (GenV, OperandV)
    decreases d, e, 8int, 0int,
{
    match e.kind {
        ExprKind::FieldAccess { base, field } => {
            match base.note.ty {
                Some(t) => {
                    match t {
                        TypeSpec::Tuple(_) => {
                            let (g, b) = expr_code(sem, g, *base, d);
                            tuple_field_code(sem, g, b.v, t, field@)
                        },
                        TypeSpec::Struct(_) => {
                            let (g, b) = class_addr_code(sem, g, *base, d);
                            let (g, f) = field_addr_code(sem, g, b.v, b.t, t, field@, ""@);
                            let (g, val) = reg(g);
                            let g = line(g, val + " = load "@ + f.t + ", ptr "@ + f.v);
                            (g, OperandV { v: val, t: f.t })
                        },
                        _ => {
                            let g = fail(
                                g,
                                "内部错误：字段访问的对象不是元组/类（"@ + ty_text(t) + "，函数 "@
                                    + g.cur_fn + "）"@,
                            );
                            (g, OperandV { v: ""@, t: ""@ })
                        },
                    }
                },
                None => {
                    let g = fail(g, "内部错误：字段访问缺少基类型（函数 "@ + g.cur_fn + "）"@);
                    (g, OperandV { v: ""@, t: ""@ })
                },
            }
        },
        _ => {
            (g, OperandV { v: ""@, t: ""@ })
        },
    }
}

/// The code of an expression.
pub open spec fn expr_code(sem: Sem, g: GenV, e: Expr, d: nat) -> (GenV, OperandV)
    decreases d, e, 9int, 0int,
{
    match e.kind {
        ExprKind::IntLit(_) | ExprKind::FloatLit { .. } | ExprKind::BoolLit(_)
        | ExprKind::TritLit(_) | ExprKind::CharLit(_) | ExprKind::StrLit(_) => literal_code(g, e),
        ExprKind::TypeLit { ty } => {
            let g = fail(
                g,
                "内部错误：case 类型匹配（"@ + ty_text(ty)
                    + "）不应到达 IR 表达式生成（语义层已拦截）"@,
            );
            (g, OperandV { v: ""@, t: ""@ })
        },
        ExprKind::Var(name) => read_var_code(sem, g, name@),
        ExprKind::Call { name, .. } => {
            match class_of(sem, name@) {
                Some(c) => construct_code(sem, g, name@, c, e, d),
                None => {
                    match e.note.resolved {
                        Some(full) => call_code(sem, g, full@, e, false, d),
                        None => call_code(sem, g, name@, e, false, d),
                    }
                },
            }
        },
        ExprKind::Unary { .. } => unary_code(sem, g, e, d),
        ExprKind::Binary { .. } => binary_code(sem, g, e, d),
        ExprKind::Ternary { .. } => ternary_code(sem, g, e, d),
        ExprKind::Range { .. } => {
            let g = fail(g, "范围表达式只能在 for 中使用（不能单独求值）"@);
            (g, OperandV { v: ""@, t: ""@ })
        },
        ExprKind::TableLit { .. } => {
            let g = fail(g, "表字面量只能用于表变量声明（var x: table = [...]）"@);
            (g, OperandV { v: ""@, t: ""@ })
        },
        ExprKind::Index { .. } => index_code(sem, g, e, d),
        ExprKind::TupleLit { .. } => tuple_code(sem, g, e, d),
        ExprKind::FieldAccess { .. } => field_code(sem, g, e, d),
        ExprKind::MethodCall { receiver, method, .. } => {
            match e.note.resolved {
                Some(full) => call_code(sem, g, full@, e, is_value(g, *receiver), d),
                None => {
                    let g = fail(
                        g,
                        "内部错误：方法调用缺少解析记录（"@ + method@ + "，函数 "@ + g.cur_fn
                            + "）"@,
                    );
                    (g, OperandV { v: ""@, t: ""@ })
                },
            }
        },
        ExprKind::Path { .. } => {
            let g = fail(g, "内部错误：命名空间路径不能作为值（函数 "@ + g.cur_fn + "）"@);
            (g, OperandV { v: ""@, t: ""@ })
        },
    }
}

/// The LLVM type of an expression, as its note gives it.
pub open spec fn noted_ty_code(sem: Sem, g: GenV, e: Expr) -> (GenV, Seq<char>) {
    match e.note.ty {
        Some(t) => ty_code(sem, g, t),
        None => (g, "i64"@),
    }
}

/// The code of a variable that holds a dynamic table.
pub open spec fn dyn_table_var_code(sem: Sem, g: GenV, name: Seq<char>, init: Expr) -> GenV {
    match table_var(sem, g.cur_fn, name) {
        Some(info) => {
            let (g, elem) = ty_code(sem, g, info.elem_ty);
            let (g, t) = match init.kind {
                ExprKind::Call { name: callee, .. } => {
                    match init.note.resolved {
                        Some(full) => {
                            let (g, a) = call_code(sem, g, full@, init, false, depth(sem));
                            (g, a.v)
                        },
                        None => {
                            let (g, a) = call_code(sem, g, callee@, init, false, depth(sem));
                            (g, a.v)
                        },
                    }
                },
                ExprKind::MethodCall { .. } => {
                    let (g, a) = expr_code(sem, g, init, depth(sem));
                    (g, a.v)
                },
                _ => {
                    let g = mark(g, "tie_table_new"@);
                    let (g, t) = reg(g);
                    let g = library_call(
                        g,
                        t + " = call ptr"@,
                        "tie_table_new"@,
                        "i64 "@ + slot_size(elem),
                    );
                    (g, t)
                },
            };
            let (g, slot) = alloca(g, "ptr"@);
            let g = line(g, "store ptr "@ + t + ", ptr "@ + slot);
            bind(g, name, slot, "ptr"@)
        },
        None => fail(g, "内部错误：动态表变量 '"@ + name + "' 缺少布局元数据"@),
    }
}

/// The code of a variable that holds a table of fixed length.
pub open spec fn fixed_table_var_code(
    sem: Sem,
    g: GenV,
    name: Seq<char>,
    init: Expr,
    elem_ty: TypeSpec,
    len: usize,
) -> GenV {
    let (g, elem) = ty_code(sem, g, elem_ty);
    let arr = "["@ + dec(len as int) + " x "@ + elem + "]"@;
    let (g, slot) = alloca(g, arr);
    let g = store_cells_code(sem, g, arr, elem, slot, init, cell_count(init));
    bind(g, name, slot, arr)
}

/// The code of a variable that holds a table of fixed length, whose layout stands with the
/// literal or with the variable.
pub open spec fn table_decl_code(sem: Sem, g: GenV, name: Seq<char>, init: Expr) -> GenV {
    match init.note.table {
        Some(info) => fixed_table_var_code(sem, g, name, init, info.elem_ty, info.len),
        None => {
            match table_var(sem, g.cur_fn, name) {
                Some(info) => fixed_table_var_code(sem, g, name, init, info.elem_ty, info.len),
                None => fail(g, "内部错误：表变量 '"@ + name + "' 缺少布局元数据"@),
            }
        },
    }
}

/// The code of a variable declaration.
pub open spec fn var_decl_code(
    sem: Sem,
    g: GenV,
    name: Seq<char>,
    t: Option<TypeSpec>,
    init: Expr,
) -> GenV {
    if dynamic_table(sem, g.cur_fn, name) {
        dyn_table_var_code(sem, g, name, init)
    } else if fixed_table(t, init) {
        table_decl_code(sem, g, name, init)
    } else {
        match trit_literal(t == Some(TypeSpec::Named(TyKw::Trit)), init) {
            Some(v) => {
                let (g, slot) = alloca(g, "i8"@);
                let g = line(g, "store i8 "@ + dec(v as int) + ", ptr "@ + slot);
                bind(g, name, slot, "i8"@)
            },
            None => {
                let (g, a) = expr_code(sem, g, init, depth(sem));
                let (g, llvm) = match t {
                    Some(x) => {
                        if x.spec_is_wide() {
                            noted_ty_code(sem, g, init)
                        } else {
                            ty_code(sem, g, x)
                        }
                    },
                    None => (g, a.t),
                };
                let (g, slot) = alloca(g, llvm);
                let g = line(g, "store "@ + llvm + " "@ + a.v + ", ptr "@ + slot);
                bind(g, name, slot, llvm)
            },
        }
    }
}

/// The code that sets what lies at `ptr`, to a value or to the result of an operation on it
/// and a value.
pub open spec fn store_to_code(
    sem: Sem,
    g: GenV,
    ty: Seq<char>,
    ptr: Seq<char>,
    op: Option<BinaryOp>,
    value: Expr,
) -> GenV {
    match op {
        None => {
            let (g, a) = expr_code(sem, g, value, depth(sem));
            line(g, "store "@ + ty + " "@ + a.v + ", ptr "@ + ptr)
        },
        Some(o) => {
            let (g, a) = expr_code(sem, g, value, depth(sem));
            let (g, before) = reg(g);
            let g = line(g, before + " = load "@ + ty + ", ptr "@ + ptr);
            let (g, x) = binary_regs_code(g, o, ty == "ptr"@, before, ty, a.v, unsigned(value));
            line(g, "store "@ + ty + " "@ + x.v + ", ptr "@ + ptr)
        },
    }
}

/// The code of an assignment to a variable.
pub open spec fn assign_code(
    sem: Sem,
    g: GenV,
    target: Seq<char>,
    op: Option<BinaryOp>,
    value: Expr,
) -> GenV {
    match bound(g, target) {
        Some(b) => store_to_code(sem, g, b.ty, b.value, op, value),
        None => {
            match global_ty(sem, target) {
                Some(t) => {
                    let (g, llvm) = ty_code(sem, g, t);
                    store_to_code(sem, g, llvm, "@"@ + target, op, value)
                },
                None => fail(
                    g,
                    "内部错误：赋值目标 '"@ + target + "' 未入作用域（函数 "@ + g.cur_fn + "）"@,
                ),
            }
        },
    }
}

/// The code of an assignment to a field.
pub open spec fn field_assign_code(
    sem: Sem,
    g: GenV,
    base: Expr,
    field: Seq<char>,
    op: Option<BinaryOp>,
    value: Expr,
) -> GenV {
    let (g, a) = class_addr_code(sem, g, base, depth(sem));
    match base.note.ty {
        Some(t) => {
            let (g, f) = field_addr_code(
                sem,
                g,
                a.v,
                a.t,
                t,
                field,
                "内部错误：字段赋值的对象不是 struct"@,
            );
            store_to_code(sem, g, f.t, f.v, op, value)
        },
        None => fail(g, "内部错误：字段赋值缺少基类型（函数 "@ + g.cur_fn + "）"@),
    }
}

/// The code that sets the element `idx` of the dynamic table variable `name`, which lives
/// at `at`.
pub open spec fn set_dynamic_code(
    sem: Sem,
    g: GenV,
    name: Seq<char>,
    at: Seq<char>,
    idx: Seq<char>,
    op: Option<BinaryOp>,
    value: Expr,
) -> GenV {
    let (g, elem) = var_elem_code(sem, g, name);
    let g = mark(g, "tie_table_set_"@ + elem_suffix(elem));
    let (g, t) = reg(g);
    let g = line(g, t + " = load ptr, ptr "@ + at);
    let (g, new) = match op {
        None => {
            let (g, a) = expr_code(sem, g, value, depth(sem));
            (g, a.v)
        },
        Some(o) => {
            let g = mark(g, "tie_table_at_"@ + elem_suffix(elem));
            let (g, ok) = alloca(g, "i1"@);
            let g = line(g, "store i1 1, ptr "@ + ok);
            let (g, before) = reg(g);
            let g = library_call(
                g,
                before + " = call "@ + elem,
                "tie_table_at_"@ + elem_suffix(elem),
                "ptr "@ + t + ", i64 "@ + idx + ", ptr "@ + ok,
            );
            let (g, a) = expr_code(sem, g, value, depth(sem));
            let (g, x) = binary_regs_code(g, o, elem == "ptr"@, before, elem, a.v, unsigned(value));
            (g, x.v)
        },
    };
    let (g, ok) = alloca(g, "i1"@);
    let g = line(g, "store i1 0, ptr "@ + ok);
    let g = library_call(
        g,
        "call void"@,
        "tie_table_set_"@ + elem_suffix(elem),
        "ptr "@ + t + ", i64 "@ + idx + ", "@ + elem + " "@ + new + ", ptr "@ + ok,
    );
    let (g, okv) = reg(g);
    let g = line(g, okv + " = load i1, ptr "@ + ok);
    let (g, good) = label(g, "index_assign.ok"@);
    let (g, bad) = label(g, "index_assign.err"@);
    let g = line(g, "br i1 "@ + okv + ", label %"@ + good + ", label %"@ + bad);
    let g = start(g, bad);
    let (g, len) = table_len_code(g, t);
    let g = runtime_error_code(
        g,
        bounds_format(),
        ", i64 "@ + idx + ", i64 "@ + len,
    );
    start(g, good)
}

/// The code of an assignment to an element of a table.
pub open spec fn index_assign_code(
    sem: Sem,
    g: GenV,
    target: Expr,
    op: Option<BinaryOp>,
    value: Expr,
) -> GenV {
    match target.kind {
        ExprKind::Index { base, index } => {
            let (g, i) = expr_code(sem, g, *index, depth(sem));
            let (g, idx) = extend_code(g, i.v, i.t, unsigned(*index));
            match base.kind {
                ExprKind::Var(name) => {
                    match bound(g, name@) {
                        Some(b) => {
                            if dynamic_table(sem, g.cur_fn, name@) {
                                set_dynamic_code(sem, g, name@, b.value, idx, op, value)
                            } else {
                                match array_elem(b.ty) {
                                    Some(elem) => {
                                        let (g, ptr) = reg(g);
                                        let g = line(
                                            g,
                                            ptr + " = getelementptr "@ + b.ty + ", ptr "@
                                                + b.value + ", i64 0, i64 "@ + idx,
                                        );
                                        store_to_code(sem, g, elem, ptr, op, value)
                                    },
                                    None => fail(
                                        g,
                                        "内部错误：下标赋值的对象不是数组类型（"@ + b.ty + "）"@,
                                    ),
                                }
                            }
                        },
                        None => fail(
                            g,
                            "内部错误：下标赋值的变量 '"@ + name@ + "' 未入作用域（函数 "@
                                + g.cur_fn + "）"@,
                        ),
                    }
                },
                _ => fail(g, "下标赋值暂只支持单层表变量（t[i]）"@),
            }
        },
        _ => {
            fail(g, "内部错误：下标赋值的目标不是 Index（函数 {}）"@)
        },
    }
}

/// The LLVM type that the current function returns.
pub open spec fn ret_ty_code(sem: Sem, g: GenV) -> (GenV, Seq<char>) {
    match sig_of(sem, g.cur_fn) {
        Some(sig) => ty_code(sem, g, sig.ret_ty),
        None => (g, "i64"@),
    }
}

/// The code of a return.
pub open spec fn return_stmt_code(sem: Sem, g: GenV, e: Option<Rc<Expr>>) -> GenV {
    match e {
        Some(x) => {
            match trit_literal(returns_named(sem, g.cur_fn, TyKw::Trit), *x) {
                Some(v) => line(g, "ret i8 "@ + dec(v as int)),
                None => {
                    let (g, a) = expr_code(sem, g, *x, depth(sem));
                    let (g, t) = ret_ty_code(sem, g);
                    line(g, "ret "@ + t + " "@ + a.v)
                },
            }
        },
        None => {
            if g.cur_fn == "main"@ && returns_named(sem, g.cur_fn, TyKw::Void) {
                line(g, "ret i32 0"@)
            } else {
                line(g, "ret void"@)
            }
        },
    }
}

/// The code of a call or another expression that stands alone.
pub open spec fn expr_stmt_code(sem: Sem, g: GenV, e: Expr) -> GenV {
    let (g, a) = expr_code(sem, g, e, depth(sem));
    let g = if frees_call(e) {
        library_call(g, "call void"@, "tie_free_result"@, "ptr "@ + a.v)
    } else {
        g
    };
    g
}

/// The rest of a block that stands in a scope of its own: the statements, the end of the
/// scope, and the jump to what follows where no statement jumped.
pub open spec fn body_code(sem: Sem, g: GenV, b: Block, to: Seq<char>) -> GenV
    decreases b, 2int, 0int,
{
    let g = block_code(sem, g, b);
    let g = close_scope(g);
    let g = if !terminated(g) {
        line(g, "br label %"@ + to)
    } else {
        g
    };
    g
}

/// The code of an `if`.
pub open spec fn if_stmt_code(sem: Sem, g: GenV, s: Stmt) -> GenV
    decreases s, 8int, 0int,
{
    match s {
        Stmt::If { cond, then_branch, else_branch } => {
            let (g, c) = expr_code(sem, g, *cond, depth(sem));
            let (g, yes) = label(g, "if.then"@);
            let (g, no) = label(g, "if.else"@);
            let (g, merge) = label(g, "if.merge"@);
            let g = line(g, "br i1 "@ + c.v + ", label %"@ + yes + ", label %"@ + no);
            let g = start(g, yes);
            let g = open_scope(g);
            let g = body_code(sem, g, then_branch, merge);
            let g = start(g, no);
            let g = open_scope(g);
            let g = body_code(sem, g, else_branch, merge);
            start(g, merge)
        },
        _ => g,
    }
}

/// The code of a `while`.
pub open spec fn while_stmt_code(sem: Sem, g: GenV, s: Stmt) -> GenV
    decreases s, 8int, 0int,
{
    match s {
        Stmt::While { label: tag, cond, body } => {
            let (g, again) = label(g, "loop.cond"@);
            let (g, inside) = label(g, "loop.body"@);
            let (g, exit) = label(g, "loop.exit"@);
            let g = enter_loop(g, opt_view(tag), again, exit);
            let g = line(g, "br label %"@ + again);
            let g = start(g, again);
            let (g, c) = expr_code(sem, g, *cond, depth(sem));
            let g = line(g, "br i1 "@ + c.v + ", label %"@ + inside + ", label %"@ + exit);
            let g = start(g, inside);
            let g = open_scope(g);
            let g = body_code(sem, g, body, again);
            let g = leave_loop(g);
            start(g, exit)
        },
        _ => g,
    }
}

/// The end of a counting loop: the body, the step of the counter at `slot`, whose value is
/// `now`, and the way out.
pub open spec fn loop_end_code(
    sem: Sem,
    g: GenV,
    b: Block,
    slot: Seq<char>,
    now: Seq<char>,
    again: Seq<char>,
    next: Seq<char>,
    exit: Seq<char>,
) -> GenV
    decreases b, 3int, 0int,
{
    let g = body_code(sem, g, b, next);
    let g = start(g, next);
    let (g, after) = reg(g);
    let g = line(g, after + " = add i64 "@ + now + ", 1"@);
    let g = line(g, "store i64 "@ + after + ", ptr "@ + slot);
    let g = line(g, "br label %"@ + again);
    let g = leave_loop(g);
    start(g, exit)
}

/// The code of a loop over a range.
pub open spec fn for_range_code(
    sem: Sem,
    g: GenV,
    tag: Option<String>,
    var: Seq<char>,
    lo: Expr,
    hi: Expr,
    b: Block,
) -> GenV
    decreases b, 4int, 0int,
{
    let (g, x) = expr_code(sem, g, lo, depth(sem));
    let (g, y) = expr_code(sem, g, hi, depth(sem));
    let (g, from) = extend_code(g, x.v, x.t, unsigned(lo));
    let (g, to) = extend_code(g, y.v, y.t, unsigned(hi));
    let (g, slot) = alloca(g, "i64"@);
    let g = line(g, "store i64 "@ + from + ", ptr "@ + slot);
    let (g, again) = label(g, "for.cond"@);
    let (g, inside) = label(g, "for.body"@);
    let (g, next) = label(g, "for.step"@);
    let (g, exit) = label(g, "for.exit"@);
    let g = enter_loop(g, opt_view(tag), next, exit);
    let g = line(g, "br label %"@ + again);
    let g = start(g, again);
    let (g, now) = reg(g);
    let (g, done) = reg(g);
    let g = line(g, now + " = load i64, ptr "@ + slot);
    let g = line(g, done + " = icmp sge i64 "@ + now + ", "@ + to);
    let g = line(g, "br i1 "@ + done + ", label %"@ + exit + ", label %"@ + inside);
    let g = start(g, inside);
    let g = open_scope(g);
    let g = bind(g, var, slot, "i64"@);
    loop_end_code(sem, g, b, slot, now, again, next, exit)
}

/// The code of a loop over a table of fixed length.
pub open spec fn for_table_code(
    sem: Sem,
    g: GenV,
    tag: Option<String>,
    var: Seq<char>,
    arr: Seq<char>,
    arr_ty: Seq<char>,
    len: Seq<char>,
    elem: Seq<char>,
    b: Block,
) -> GenV
    decreases b, 4int, 0int,
{
    let (g, slot) = alloca(g, "i64"@);
    let g = line(g, "store i64 0, ptr "@ + slot);
    let (g, item) = alloca(g, elem);
    let (g, again) = label(g, "for.cond"@);
    let (g, inside) = label(g, "for.body"@);
    let (g, next) = label(g, "for.step"@);
    let (g, exit) = label(g, "for.exit"@);
    let g = enter_loop(g, opt_view(tag), next, exit);
    let g = line(g, "br label %"@ + again);
    let g = start(g, again);
    let (g, now) = reg(g);
    let (g, done) = reg(g);
    let g = line(g, now + " = load i64, ptr "@ + slot);
    let g = line(g, done + " = icmp sge i64 "@ + now + ", "@ + len);
    let g = line(g, "br i1 "@ + done + ", label %"@ + exit + ", label %"@ + inside);
    let g = start(g, inside);
    let (g, ptr) = reg(g);
    let g = line(g, ptr + " = getelementptr "@ + arr_ty + ", ptr "@ + arr + ", i64 0, i64 "@ + now);
    let (g, val) = reg(g);
    let g = line(g, val + " = load "@ + elem + ", ptr "@ + ptr);
    let g = line(g, "store "@ + elem + " "@ + val + ", ptr "@ + item);
    let g = open_scope(g);
    let g = bind(g, var, item, elem);
    loop_end_code(sem, g, b, slot, now, again, next, exit)
}

/// The code of a loop over a dynamic table.
pub open spec fn for_dynamic_code(
    sem: Sem,
    g: GenV,
    tag: Option<String>,
    var: Seq<char>,
    name: Seq<char>,
    at: Seq<char>,
    b: Block,
) -> GenV
    decreases b, 4int, 0int,
{
    let (g, elem) = var_elem_code(sem, g, name);
    let g = mark(g, "tie_table_at_"@ + elem_suffix(elem));
    let (g, t) = reg(g);
    let g = line(g, t + " = load ptr, ptr "@ + at);
    let (g, slot) = alloca(g, "i64"@);
    let g = line(g, "store i64 0, ptr "@ + slot);
    let (g, item) = alloca(g, elem);
    let (g, again) = label(g, "for.cond"@);
    let (g, inside) = label(g, "for.body"@);
    let (g, next) = label(g, "for.step"@);
    let (g, exit) = label(g, "for.exit"@);
    let g = enter_loop(g, opt_view(tag), next, exit);
    let g = line(g, "br label %"@ + again);
    let g = start(g, again);
    let (g, now) = reg(g);
    let g = line(g, now + " = load i64, ptr "@ + slot);
    let (g, len) = table_len_code(g, t);
    let (g, done) = reg(g);
    let g = line(g, done + " = icmp sge i64 "@ + now + ", "@ + len);
    let g = line(g, "br i1 "@ + done + ", label %"@ + exit + ", label %"@ + inside);
    let g = start(g, inside);
    let (g, ok) = alloca(g, "i1"@);
    let g = line(g, "store i1 1, ptr "@ + ok);
    let (g, val) = reg(g);
    let g = library_call(
        g,
        val + " = call "@ + elem,
        "tie_table_at_"@ + elem_suffix(elem),
        "ptr "@ + t + ", i64 "@ + now + ", ptr "@ + ok,
    );
    let g = line(g, "store "@ + elem + " "@ + val + ", ptr "@ + item);
    let g = open_scope(g);
    let g = bind(g, var, item, elem);
    loop_end_code(sem, g, b, slot, now, again, next, exit)
}

/// The code of a `for`.
pub open spec fn for_stmt_code(sem: Sem, g: GenV, s: Stmt) -> GenV
    decreases s, 8int, 0int,
{
    match s {
        Stmt::For { label: tag, var, iter, body } => {
            match iter.kind {
                ExprKind::Var(name) => {
                    match bound(g, name@) {
                        Some(b) => {
                            match array_shape(b.ty) {
                                Some(shape) => for_table_code(
                                    sem,
                                    g,
                                    tag,
                                    var@,
                                    b.value,
                                    b.ty,
                                    dec(shape.0 as int),
                                    shape.1,
                                    body,
                                ),
                                None => {
                                    if b.ty == "ptr"@ && dynamic_table(sem, g.cur_fn, name@) {
                                        for_dynamic_code(sem, g, tag, var@, name@, b.value, body)
                                    } else {
                                        bad_iter_code(g)
                                    }
                                },
                            }
                        },
                        None => bad_iter_code(g),
                    }
                },
                ExprKind::Range { start: lo, end: hi } => for_range_code(
                    sem,
                    g,
                    tag,
                    var@,
                    *lo,
                    *hi,
                    body,
                ),
                _ => bad_iter_code(g),
            }
        },
        _ => g,
    }
}

/// The error of a loop over something else.
pub open spec fn bad_iter_code(g: GenV) -> GenV {
    fail(g, "for 迭代对象仅支持范围（start..end）或表变量（函数 "@ + g.cur_fn + "）"@)
}

/// The code that tests one pattern of a case.
pub open spec fn pattern_code(sem: Sem, g: GenV, p: Expr, how: HowV) -> (GenV, Seq<char>) {
    match p.kind {
        ExprKind::Range { start: lo, end: hi } => {
            let (g, a) = expr_code(sem, g, *lo, depth(sem));
            let (g, b) = expr_code(sem, g, *hi, depth(sem));
            let t = range_ty(how.is_char);
            let (g, ge) = reg(g);
            let g = line(g, ge + " = icmp sge "@ + t + " "@ + how.subject + ", "@ + a.v);
            let (g, lt) = reg(g);
            let g = line(g, lt + " = icmp slt "@ + t + " "@ + how.subject + ", "@ + b.v);
            let (g, both) = reg(g);
            let g = line(g, both + " = and i1 "@ + ge + ", "@ + lt);
            (g, both)
        },
        ExprKind::TypeLit { .. } => {
            let g = fail(g, "内部错误：case 类型匹配不应到达 IR 生成（语义层已拦截）"@);
            (g, ""@)
        },
        _ => {
            let (g, a) = expr_code(sem, g, p, depth(sem));
            if how.is_str {
                let (g, order) = reg(g);
                let g = line(
                    g,
                    order + " = call i32 @strcmp(ptr "@ + how.subject + ", ptr "@ + a.v + ")"@,
                );
                let (g, c) = reg(g);
                let g = line(g, c + " = icmp eq i32 "@ + order + ", 0"@);
                (g, c)
            } else {
                let (g, c) = reg(g);
                let g = line(g, c + " = "@ + how.test + " "@ + how.subject + ", "@ + a.v);
                (g, c)
            }
        },
    }
}

/// The body of a case.
pub open spec fn case_body_code(
    sem: Sem,
    g: GenV,
    b: Block,
    name: Seq<char>,
    exit: Seq<char>,
) -> GenV
    decreases b, 3int, 0int,
{
    let g = start(g, name);
    let g = open_scope(g);
    body_code(sem, g, b, exit)
}

/// The code of one case: its test stands in the block `here`. Gives the block of the next
/// case's test.
pub open spec fn one_case_code(
    sem: Sem,
    g: GenV,
    c: SwitchCase,
    here: Seq<char>,
    last: bool,
    how: HowV,
) -> (GenV, Seq<char>)
    decreases c, 4int, 0int,
{
    let (g, inside) = label(g, "sw.body"@);
    let (g, next) = if last {
        (g, how.default)
    } else {
        label(g, "sw.cmp"@)
    };
    let g = start(g, here);
    let (g, tests) = conds_code(sem, g, c.patterns, how, c.patterns.len());
    let (g, hit) = any_of_code(g, tests);
    let (g, taken) = match c.when {
        Some(w) => {
            let (g, a) = expr_code(sem, g, *w, depth(sem));
            let (g, both) = reg(g);
            let g = line(g, both + " = and i1 "@ + hit + ", "@ + a.v);
            (g, both)
        },
        None => (g, hit),
    };
    let g = line(g, "br i1 "@ + taken + ", label %"@ + inside + ", label %"@ + next);
    let g = case_body_code(sem, g, c.body, inside, how.exit);
    (g, next)
}

/// The value that a switch compares, from its subject.
pub open spec fn subject_code(
    g: GenV,
    v: Seq<char>,
    t: Seq<char>,
    is_str: bool,
    is_char: bool,
    is_unsigned: bool,
) -> (GenV, Seq<char>) {
    if is_str || t == "i1"@ || t == "double"@ {
        (g, v)
    } else if t == "float"@ {
        let (g, x) = reg(g);
        let g = line(g, x + " = fpext float "@ + v + " to double"@);
        (g, x)
    } else if is_char {
        (g, v)
    } else {
        extend_code(g, v, t, is_unsigned)
    }
}

/// The code of the cases of a switch on the value `v`: a jump table.
pub open spec fn switch_table_code(
    sem: Sem,
    g: GenV,
    cases: Rc<Vec<SwitchCase>>,
    v: Seq<char>,
    default: Seq<char>,
    exit: Seq<char>,
) -> GenV
    decreases cases, 6int, 0int,
{
    let (g, labels) = case_labels_code(g, cases.len());
    let g = line(
        g,
        "switch i64 "@ + v + ", label %"@ + default + " [\n    "@ + entries(cases, labels) + "]"@,
    );
    table_bodies_code(sem, g, cases, labels, exit, cases.len())
}

/// The code of the cases of a switch on the value `v` of type `t`: a jump table, or tests one
/// after the other.
pub open spec fn switch_cases_code(
    sem: Sem,
    g: GenV,
    cases: Rc<Vec<SwitchCase>>,
    v: Seq<char>,
    t: Seq<char>,
    is_str: bool,
    is_char: bool,
    default: Seq<char>,
    exit: Seq<char>,
) -> GenV
    decreases cases, 7int, 0int,
{
    if table_switch(cases, is_str, is_char, t) {
        switch_table_code(sem, g, cases, v, default, exit)
    } else if cases.len() == 0 {
        line(g, "br label %"@ + default)
    } else {
        let (g, first) = label(g, "sw.cmp"@);
        let g = line(g, "br label %"@ + first);
        let how = HowV {
            subject: v,
            test: switch_test(is_str, t, is_char),
            is_str,
            is_char,
            default,
            exit,
        };
        let (g, _next) = cases_code(sem, g, cases, first, how, cases.len());
        g
    }
}

/// The code of a `switch`.
pub open spec fn switch_stmt_code(sem: Sem, g: GenV, s: Stmt) -> GenV
    decreases s, 8int, 0int,
{
    match s {
        Stmt::Switch { subject, cases, default_body } => {
            let (g, a) = expr_code(sem, g, *subject, depth(sem));
            let is_str = typed(*subject, TyKw::Str);
            let is_char = typed(*subject, TyKw::Char);
            let (g, v) = subject_code(g, a.v, a.t, is_str, is_char, unsigned(*subject));
            let (g, exit) = label(g, "sw.exit"@);
            let (g, default) = if default_body.len() > 0 {
                label(g, "sw.default"@)
            } else {
                (g, exit)
            };
            let g = switch_cases_code(sem, g, cases, v, a.t, is_str, is_char, default, exit);
            let g = if default_body.len() > 0 {
                case_body_code(sem, g, default_body, default, exit)
            } else {
                g
            };
            start(g, exit)
        },
        _ => g,
    }
}

/// The code of a statement.
pub open spec fn stmt_code(sem: Sem, g: GenV, s: Stmt) -> GenV
    decreases s, 9int, 0int,
{
    match s {
        Stmt::VarDecl { name, ty, init } => var_decl_code(sem, g, name@, ty, *init),
        Stmt::Expr { expr } => expr_stmt_code(sem, g, *expr),
        Stmt::Assign { target, op, value } => assign_code(sem, g, target@, op, *value),
        Stmt::Return { expr } => return_stmt_code(sem, g, expr),
        Stmt::If { .. } => if_stmt_code(sem, g, s),
        Stmt::While { .. } => while_stmt_code(sem, g, s),
        Stmt::For { .. } => for_stmt_code(sem, g, s),
        Stmt::Break { label: tag } => line(g, "br label %"@ + break_target(g, opt_view(tag))),
        Stmt::Continue { label: tag } => line(g, "br label %"@ + continue_target(g, opt_view(tag))),
        Stmt::Switch { .. } => switch_stmt_code(sem, g, s),
        Stmt::FieldAssign { base, field, op, value } => field_assign_code(
            sem,
            g,
            *base,
            field@,
            op,
            *value,
        ),
        Stmt::IndexAssign { target, op, value } => index_assign_code(sem, g, *target, op, *value),
        Stmt::FnDef { .. } | Stmt::Namespace { .. } | Stmt::Using | Stmt::Struct | Stmt::Import => g,
    }
}

/// The declaration of a library function that the code calls.
pub open spec fn declare_code(g: GenV, symbol: Seq<char>, text: Seq<char>) -> GenV {
    let g = if g.used.contains(symbol) {
        put(g, text)
    } else {
        g
    };
    g
}

/// The beginning of a module.
#[verifier::opaque]
pub open spec fn header_code(g: GenV) -> GenV {
    let g = put(g, "; ModuleID = 'tie'\nsource_filename = \"input.tie\"\n\n"@);
    let g = put(g, "declare i32 @printf(ptr, ...)\n\n"@);
    let g = put(g, "declare i64 @strlen(ptr)\n"@);
    let g = put(g, "declare i32 @strcmp(ptr, ptr)\n"@);
    let g = put(g, "declare ptr @malloc(i64)\n"@);
    let g = put(g, "declare void @llvm.memcpy.p0.p0.i64(ptr, ptr, i64, i1)\n\n"@);
    let g = put(g, "declare ptr @fopen(ptr, ptr)\n"@);
    let g = put(g, "declare i64 @fwrite(ptr, i64, i64, ptr)\n"@);
    let g = put(g, "declare i32 @fclose(ptr)\n"@);
    let g = put(g, "declare i32 @fflush(ptr)\n"@);
    let g = put(g, "declare void @exit(i32)\n"@);
    let g = put(g, "declare i32 @remove(ptr)\n"@);
    let g = put(g, "declare double @sqrt(double)\n"@);
    let g = put(g, "declare double @sin(double)\n"@);
    let g = put(g, "declare double @cos(double)\n"@);
    let g = put(g, "declare double @tan(double)\n"@);
    let g = put(g, "declare double @exp(double)\n"@);
    let g = put(g, "declare double @log(double)\n"@);
    let g = put(g, "declare double @pow(double, double)\n"@);
    let g = put(g, "declare double @floor(double)\n"@);
    let g = put(g, "declare double @ceil(double)\n"@);
    put(g, "declare double @round(double)\n\n"@)
}

/// How many library functions there are.
pub const LIBRARY: usize = 68;

/// The library functions and their declarations.
pub open spec fn declaration(i: int) -> (Seq<char>, Seq<char>) {
    if i == 0 {
        ("tie_read_line"@, "declare ptr @tie_read_line()\n"@)
    } else if i == 1 {
        ("tie_eval_expr"@, "declare ptr @tie_eval_expr(ptr)\n"@)
    } else if i == 2 {
        ("tie_eval_call"@, "declare ptr @tie_eval_call(ptr, ptr)\n"@)
    } else if i == 3 {
        ("tie_free_result"@, "declare void @tie_free_result(ptr)\n"@)
    } else if i == 4 {
        ("tie_file_read"@, "declare ptr @tie_file_read(ptr)\n"@)
    } else if i == 5 {
        ("tie_str_char"@, "declare ptr @tie_str_char(ptr, i64)\n"@)
    } else if i == 6 {
        ("tie_str_len"@, "declare i64 @tie_str_len(ptr)\n"@)
    } else if i == 7 {
        ("tie_to_string_i64"@, "declare ptr @tie_to_string_i64(i64)\n"@)
    } else if i == 8 {
        ("tie_to_string_f64"@, "declare ptr @tie_to_string_f64(double)\n"@)
    } else if i == 9 {
        ("tie_parse_int"@, "declare i64 @tie_parse_int(ptr, ptr)\n"@)
    } else if i == 10 {
        ("tie_parse_float"@, "declare double @tie_parse_float(ptr, ptr)\n"@)
    } else if i == 11 {
        ("tie_parse_trit"@, "declare i8 @tie_parse_trit(ptr, ptr)\n"@)
    } else if i == 12 {
        ("tie_time_now"@, "declare i64 @tie_time_now()\n"@)
    } else if i == 13 {
        ("tie_rand_range"@, "declare i64 @tie_rand_range(i64, i64, ptr)\n"@)
    } else if i == 14 {
        ("tie_arg_count"@, "declare i64 @tie_arg_count()\n"@)
    } else if i == 15 {
        ("tie_arg_string"@, "declare ptr @tie_arg_string(i64)\n"@)
    } else if i == 16 {
        ("tie_list_dir"@, "declare ptr @tie_list_dir(ptr)\n"@)
    } else if i == 17 {
        ("tie_regex_match"@, "declare i8 @tie_regex_match(ptr, ptr, ptr)\n"@)
    } else if i == 18 {
        ("tie_regex_find"@, "declare ptr @tie_regex_find(ptr, ptr)\n"@)
    } else if i == 19 {
        ("tie_regex_find_all"@, "declare ptr @tie_regex_find_all(ptr, ptr)\n"@)
    } else if i == 20 {
        ("tie_regex_replace"@, "declare ptr @tie_regex_replace(ptr, ptr, ptr)\n"@)
    } else if i == 21 {
        ("tie_regex_group"@, "declare ptr @tie_regex_group(ptr, ptr, i64)\n"@)
    } else if i == 22 {
        ("tie_msg_set_lang"@, "declare void @tie_msg_set_lang(ptr)\n"@)
    } else if i == 23 {
        ("tie_msg_get_lang"@, "declare ptr @tie_msg_get_lang()\n"@)
    } else if i == 24 {
        ("tie_msg_register"@, "declare void @tie_msg_register(ptr, ptr, ptr)\n"@)
    } else if i == 25 {
        ("tie_msg_t"@, "declare ptr @tie_msg_t(ptr)\n"@)
    } else if i == 26 {
        ("tie_print_err"@, "declare void @tie_print_err(ptr)\n"@)
    } else if i == 27 {
        ("tie_msg_t_lang"@, "declare ptr @tie_msg_t_lang(ptr, ptr)\n"@)
    } else if i == 28 {
        ("tie_table_new"@, "declare ptr @tie_table_new(i64)\n"@)
    } else if i == 29 {
        ("tie_table_free"@, "declare void @tie_table_free(ptr)\n"@)
    } else if i == 30 {
        ("tie_table_len"@, "declare i64 @tie_table_len(ptr)\n"@)
    } else if i == 31 {
        ("tie_table_push_i64"@, "declare void @tie_table_push_i64(ptr, i64)\n"@)
    } else if i == 32 {
        ("tie_table_push_f64"@, "declare void @tie_table_push_f64(ptr, double)\n"@)
    } else if i == 33 {
        ("tie_table_push_string"@, "declare void @tie_table_push_string(ptr, ptr)\n"@)
    } else if i == 34 {
        ("tie_table_push_bool"@, "declare void @tie_table_push_bool(ptr, i1)\n"@)
    } else if i == 35 {
        ("tie_table_at_i64"@, "declare i64 @tie_table_at_i64(ptr, i64, ptr)\n"@)
    } else if i == 36 {
        ("tie_table_at_f64"@, "declare double @tie_table_at_f64(ptr, i64, ptr)\n"@)
    } else if i == 37 {
        ("tie_table_at_string"@, "declare ptr @tie_table_at_string(ptr, i64, ptr)\n"@)
    } else if i == 38 {
        ("tie_table_at_bool"@, "declare i1 @tie_table_at_bool(ptr, i64, ptr)\n"@)
    } else if i == 39 {
        ("tie_table_set_i64"@, "declare void @tie_table_set_i64(ptr, i64, i64, ptr)\n"@)
    } else if i == 40 {
        ("tie_table_set_f64"@, "declare void @tie_table_set_f64(ptr, i64, double, ptr)\n"@)
    } else if i == 41 {
        ("tie_table_set_string"@, "declare void @tie_table_set_string(ptr, i64, ptr, ptr)\n"@)
    } else if i == 42 {
        ("tie_table_set_bool"@, "declare void @tie_table_set_bool(ptr, i64, i1, ptr)\n"@)
    } else if i == 43 {
        ("tie_http_get"@, "declare ptr @tie_http_get(ptr)\n"@)
    } else if i == 44 {
        ("tie_http_get_file"@, "declare i8 @tie_http_get_file(ptr, ptr)\n"@)
    } else if i == 45 {
        ("tie_exec_code"@, "declare i64 @tie_exec_code(ptr)\n"@)
    } else if i == 46 {
        ("tie_exec_output"@, "declare ptr @tie_exec_output(ptr)\n"@)
    } else if i == 47 {
        ("tie_untar_gz"@, "declare i8 @tie_untar_gz(ptr, ptr)\n"@)
    } else if i == 48 {
        ("tie_unzip"@, "declare i8 @tie_unzip(ptr, ptr)\n"@)
    } else if i == 49 {
        ("tie_mkdir_all"@, "declare i8 @tie_mkdir_all(ptr)\n"@)
    } else if i == 50 {
        ("tie_remove_dir_all"@, "declare i8 @tie_remove_dir_all(ptr)\n"@)
    } else if i == 51 {
        ("tie_copy_dir"@, "declare i8 @tie_copy_dir(ptr, ptr)\n"@)
    } else if i == 52 {
        ("tie_walk_dir"@, "declare ptr @tie_walk_dir(ptr)\n"@)
    } else if i == 53 {
        ("tie_path_join"@, "declare ptr @tie_path_join(ptr, ptr)\n"@)
    } else if i == 54 {
        ("tie_path_basename"@, "declare ptr @tie_path_basename(ptr)\n"@)
    } else if i == 55 {
        ("tie_path_dirname"@, "declare ptr @tie_path_dirname(ptr)\n"@)
    } else if i == 56 {
        ("tie_path_abs"@, "declare ptr @tie_path_abs(ptr)\n"@)
    } else if i == 57 {
        ("tie_path_normalize"@, "declare ptr @tie_path_normalize(ptr)\n"@)
    } else if i == 58 {
        ("tie_cwd"@, "declare ptr @tie_cwd()\n"@)
    } else if i == 59 {
        ("tie_get_env"@, "declare ptr @tie_get_env(ptr)\n"@)
    } else if i == 60 {
        ("tie_set_env"@, "declare void @tie_set_env(ptr, ptr)\n"@)
    } else if i == 61 {
        ("tie_file_copy"@, "declare i8 @tie_file_copy(ptr, ptr)\n"@)
    } else if i == 62 {
        ("tie_file_move"@, "declare i8 @tie_file_move(ptr, ptr)\n"@)
    } else if i == 63 {
        ("tie_byte_read"@, "declare ptr @tie_byte_read(ptr)\n"@)
    } else if i == 64 {
        ("tie_byte_write"@, "declare i8 @tie_byte_write(ptr, ptr)\n"@)
    } else if i == 65 {
        ("tie_bit_read"@, "declare i64 @tie_bit_read(ptr, i64)\n"@)
    } else if i == 66 {
        ("tie_bit_write"@, "declare i8 @tie_bit_write(ptr, i64, i64)\n"@)
    } else {
        ("tie_byte_concat"@, "declare ptr @tie_byte_concat(ptr, ptr)\n"@)
    }
}

/// The declarations of the first `n` library functions, as far as the code calls them.
pub open spec fn declares_code(g: GenV, n: nat) -> GenV
    decreases n,
{
    if n == 0 {
        g
    } else {
        let (symbol, text) = declaration(n - 1);
        declare_code(declares_code(g, (n - 1) as nat), symbol, text)
    }
}

/// The code of a top-level variable.
pub open spec fn global_code(sem: Sem, g: GenV, name: Seq<char>, init: Expr) -> GenV {
    match global_ty(sem, name) {
        Some(t) => {
            let (g, llvm) = ty_code(sem, g, t);
            let (g, v) = match init.kind {
                ExprKind::IntLit(n) => (g, dec(n as int)),
                ExprKind::FloatLit { ir, .. } => (note(g, ir@), ir@),
                ExprKind::BoolLit(b) => {
                    if b {
                        (g, "1"@)
                    } else {
                        (g, "0"@)
                    }
                },
                ExprKind::CharLit(c) => (g, dec(c as int)),
                ExprKind::StrLit(s) => {
                    let (g, n) = string_const(g, s@);
                    (g, "@"@ + n)
                },
                _ => {
                    let g = fail(
                        g,
                        "内部错误：全局变量 '"@ + name + "' 初始化不是字面量（语义层应已拦截）"@,
                    );
                    (g, ""@)
                },
            };
            put(g, "@"@ + name + " = global "@ + llvm + " "@ + v + "\n"@)
        },
        None => g,
    }
}

// ---------- statements, functions, modules ----------
/// Whether a declaration makes a table of fixed length.
pub open spec fn fixed_table(t: Option<TypeSpec>, init: Expr) -> bool {
    match t {
        Some(x) => x.spec_is_table(),
        None => init.kind is TableLit,
    }
}

/// The trit that a literal stands for where a trit is wanted.
pub open spec fn trit_literal(wanted: bool, e: Expr) -> Option<i8> {
    match e.kind {
        ExprKind::BoolLit(b) => if !wanted {
            None
        } else if b {
            Some(1i8)
        } else {
            Some(-1i8)
        },
        ExprKind::TritLit(v) => if wanted {
            Some(v)
        } else {
            None
        },
        _ => None,
    }
}

/// Whether the function `func` returns the named type `k`.
pub open spec fn returns_named(sem: Sem, func: Seq<char>, k: TyKw) -> bool {
    match sig_of(sem, func) {
        Some(sig) => sig.ret_ty == TypeSpec::Named(k),
        None => k == TyKw::I64,
    }
}

/// The number of cells of a table literal.
pub open spec fn cell_count(e: Expr) -> usize {
    match e.kind {
        ExprKind::TableLit { cells } => cells.len(),
        _ => 0,
    }
}

/// Whether an expression calls a function whose result has to be freed.
pub open spec fn frees_call(e: Expr) -> bool {
    match e.kind {
        ExprKind::Call { name, .. } => frees_result(name@),
        _ => false,
    }
}

/// How a switch tests its cases: the value it compares, the instruction, and the blocks
/// that follow where no case holds and after a case.
pub struct HowV {
    pub subject: Seq<char>,
    pub test: Seq<char>,
    pub is_str: bool,
    pub is_char: bool,
    pub default: Seq<char>,
    pub exit: Seq<char>,
}

/// The type in which a range pattern is compared.
pub open spec fn range_ty(is_char: bool) -> Seq<char> {
    if is_char {
        "i32"@
    } else {
        "i64"@
    }
}

/// The instruction that compares a switch's subject, of type `t`, with a literal.
pub open spec fn switch_test(is_str: bool, t: Seq<char>, is_char: bool) -> Seq<char> {
    if is_str {
        "strcmp"@
    } else if t == "i1"@ {
        "icmp eq i1"@
    } else if t == "double"@ || t == "float"@ {
        "fcmp oeq double"@
    } else if is_char {
        "icmp eq i32"@
    } else {
        "icmp eq i64"@
    }
}

/// Whether a case is one integer without a condition.
pub open spec fn plain_case(c: SwitchCase) -> bool {
    c.when is None && c.patterns@.len() == 1 && c.patterns@[0].kind is IntLit
}

/// Whether the subject of a switch is an integer.
pub open spec fn integer_subject(is_str: bool, is_char: bool, t: Seq<char>) -> bool {
    !is_str && !is_char && t != "i1"@ && t != "double"@ && t != "float"@
}

/// Whether a switch becomes a jump table: an integer is compared with one integer in each
/// case, and no case has a condition.
pub open spec fn table_switch(
    cases: Rc<Vec<SwitchCase>>,
    is_str: bool,
    is_char: bool,
    t: Seq<char>,
) -> bool {
    integer_subject(is_str, is_char, t) && cases@.len() > 0 && forall|i: int|
        0 <= i < cases@.len() ==> plain_case(#[trigger] cases@[i])
}

/// The entry of a jump table.
pub open spec fn entry(c: SwitchCase, target: Seq<char>) -> Seq<char> {
    match c.patterns@[0].kind {
        ExprKind::IntLit(v) => "i64 "@ + dec(v as int) + ", label %"@ + target,
        _ => ""@,
    }
}

/// The entries of a jump table.
#[verifier::opaque]
pub open spec fn entries(cases: Rc<Vec<SwitchCase>>, labels: Seq<Seq<char>>) -> Seq<char> {
    join(
        Seq::new(
            cases@.len(),
            |i: int|
                if i < labels.len() {
                    entry(cases@[i], labels[i])
                } else {
                    ""@
                },
        ),
        "\n    "@,
    )
}

/// The labels of `n` cases.
#[verifier::opaque]
pub open spec fn case_labels_code(g: GenV, n: usize) -> (GenV, Seq<Seq<char>>)
    decreases n,
{
    if n == 0 {
        (g, Seq::empty())
    } else {
        let (g, labels) = case_labels_code(g, (n - 1) as usize);
        let (g, l) = label(g, "sw.body"@);
        (g, labels.push(l))
    }
}

/// The bodies of the first `n` cases of a jump table.
pub open spec fn table_bodies_code(
    sem: Sem,
    g: GenV,
    cases: Rc<Vec<SwitchCase>>,
    labels: Seq<Seq<char>>,
    exit: Seq<char>,
    n: usize,
) -> GenV
    decreases cases, 5int, n,
{
    if n == 0 || n > cases@.len() || n > labels.len() {
        g
    } else {
        proof {
            assert(decreases_to!(cases => cases@));
            assert(decreases_to!(cases@ => cases@[n - 1]));
            assert(decreases_to!(cases@[n - 1] => cases@[n - 1].body));
        }
        let g = table_bodies_code(sem, g, cases, labels, exit, (n - 1) as usize);
        case_body_code(sem, g, cases@[n - 1].body, labels[n - 1], exit)
    }
}

/// The tests of the first `n` patterns of a case.
pub open spec fn conds_code(sem: Sem, g: GenV, patterns: Exprs, how: HowV, n: usize) -> (
    GenV,
    Seq<Seq<char>>,
)
    decreases n,
{
    if n == 0 || n > patterns@.len() {
        (g, Seq::empty())
    } else {
        let (g, tests) = conds_code(sem, g, patterns, how, (n - 1) as usize);
        let (g, c) = pattern_code(sem, g, *patterns@[n - 1], how);
        (g, tests.push(c))
    }
}

/// The code that finds whether one of the first `n` tests holds.
pub open spec fn any_first_code(g: GenV, tests: Seq<Seq<char>>, n: usize) -> (GenV, Seq<char>)
    decreases n,
{
    if n <= 1 || n > tests.len() {
        (g, tests[0])
    } else {
        let (g, hit) = any_first_code(g, tests, (n - 1) as usize);
        let (g, either) = reg(g);
        let g = line(g, either + " = or i1 "@ + hit + ", "@ + tests[n - 1]);
        (g, either)
    }
}

/// The code that finds whether one of the tests holds.
pub open spec fn any_of_code(g: GenV, tests: Seq<Seq<char>>) -> (GenV, Seq<char>) {
    if tests.len() == 0 {
        (fail(g, "内部错误：case 没有模式（函数 "@ + g.cur_fn + "）"@), ""@)
    } else {
        any_first_code(g, tests, tests.len() as usize)
    }
}

/// The code of the first `n` cases; the first one's test stands in the block `first`. Gives
/// the block of the next test.
pub open spec fn cases_code(
    sem: Sem,
    g: GenV,
    cases: Rc<Vec<SwitchCase>>,
    first: Seq<char>,
    how: HowV,
    n: usize,
) -> (GenV, Seq<char>)
    decreases cases, 5int, n,
{
    if n == 0 || n > cases@.len() {
        (g, first)
    } else {
        proof {
            assert(decreases_to!(cases => cases@));
            assert(decreases_to!(cases@ => cases@[n - 1]));
        }
        let (g, here) = cases_code(sem, g, cases, first, how, (n - 1) as usize);
        one_case_code(sem, g, cases@[n - 1], here, n == cases@.len(), how)
    }
}

/// The code that stores the first `n` cells of a table literal into the array at `slot`.
pub open spec fn store_cells_code(
    sem: Sem,
    g: GenV,
    arr: Seq<char>,
    elem: Seq<char>,
    slot: Seq<char>,
    e: Expr,
    n: usize,
) -> GenV
    decreases n,
{
    match e.kind {
        ExprKind::TableLit { cells } => {
            if n == 0 || n > cells@.len() {
                g
            } else {
                let i = (n - 1) as usize;
                let g = store_cells_code(sem, g, arr, elem, slot, e, i);
                let (g, a) = expr_code(sem, g, *cells@[n - 1], depth(sem));
                let (g, ptr) = reg(g);
                let g = line(
                    g,
                    ptr + " = getelementptr "@ + arr + ", ptr "@ + slot + ", i64 0, i64 "@ + dec(
                        i as int,
                    ),
                );
                line(g, "store "@ + elem + " "@ + a.v + ", ptr "@ + ptr)
            }
        },
        _ => g,
    }
}

/// The code of the first `n` statements of a block.
pub open spec fn stmts_code(sem: Sem, g: GenV, b: Block, n: nat) -> GenV
    decreases b, 0int, n,
{
    if n == 0 || n > b@.len() {
        g
    } else {
        proof {
            assert(decreases_to!(b => b@));
            assert(decreases_to!(b@ => b@[n - 1]));
        }
        let g = stmts_code(sem, g, b, (n - 1) as nat);
        stmt_code(sem, g, *b@[n - 1])
    }
}

/// The code of a block.
pub open spec fn block_code(sem: Sem, g: GenV, b: Block) -> GenV
    decreases b, 1int, 0int,
{
    stmts_code(sem, g, b, b@.len())
}

/// The type of a function's first parameter.
pub open spec fn first_param(f: FnDef) -> Option<TypeSpec> {
    if f.params@.len() > 0 {
        Some(f.params@[0].ty)
    } else {
        None
    }
}

/// The first `n` parameters of a function, as its definition gives them.
pub open spec fn params_code(sem: Sem, g: GenV, f: FnDef, method: bool, n: nat) -> (
    GenV,
    Seq<Seq<char>>,
)
    decreases n,
{
    if n == 0 || n > f.params@.len() {
        (g, Seq::empty())
    } else {
        let p = f.params@[n - 1];
        let (g, params) = params_code(sem, g, f, method, (n - 1) as nat);
        if method && n == 1 {
            (g, params.push("ptr "@ + ("%"@ + p.name@)))
        } else {
            let (g, t) = ty_code(sem, g, p.ty);
            (g, params.push(t + " "@ + ("%"@ + p.name@)))
        }
    }
}

/// The code that makes the first `n` parameters variables. The receiver of a method stays
/// where it is.
pub open spec fn bind_params_code(sem: Sem, g: GenV, f: FnDef, method: bool, n: nat) -> GenV
    decreases n,
{
    if n == 0 || n > f.params@.len() {
        g
    } else {
        let p = f.params@[n - 1];
        let g = bind_params_code(sem, g, f, method, (n - 1) as nat);
        let (g, t) = ty_code(sem, g, p.ty);
        if method && n == 1 {
            bind(g, p.name@, "%"@ + p.name@, t)
        } else {
            let (g, slot) = reg(g);
            let g = line(g, slot + " = alloca "@ + t);
            let g = line(g, "store "@ + t + " "@ + ("%"@ + p.name@) + ", ptr "@ + slot);
            bind(g, p.name@, slot, t)
        }
    }
}

/// The stack slots of a function, each on a line.
pub open spec fn slots(allocas: Seq<Seq<char>>, n: nat) -> Seq<char>
    decreases n,
{
    if n == 0 || n > allocas.len() {
        Seq::empty()
    } else {
        slots(allocas, (n - 1) as nat) + allocas[n - 1] + "\n"@
    }
}

/// Whether this is the entry of a program that returns nothing; it returns zero to the
/// system.
pub open spec fn void_main(f: FnDef, full: Seq<char>) -> bool {
    full == "main"@ && f.ret_ty.spec_is_void()
}

/// What is written when a function begins.
#[verifier::opaque]
pub open spec fn fn_head_code(sem: Sem, g: GenV, f: FnDef, full: Seq<char>) -> GenV {
    let g = GenV { cur_fn: full, reg: 0, scopes: Seq::empty(), ..g };
    let (g, ret) = if void_main(f, full) {
        (g, "i32"@)
    } else {
        ty_code(sem, g, f.ret_ty)
    };
    let method = method_fn(full, first_param(f));
    let (g, params) = params_code(sem, g, f, method, f.params@.len());
    let g = put(
        g,
        "define "@ + ret + " @"@ + dollars(full, 0) + "("@ + join(params, ", "@) + ") {\n"@,
    );
    let g = start(g, "entry"@);
    let g = open_scope(g);
    bind_params_code(sem, g, f, method, f.params@.len())
}

/// The body of a function, with the slots that it needs put in front of it, in the entry
/// block.
#[verifier::opaque]
pub open spec fn fn_body_code(sem: Sem, g: GenV, f: FnDef) -> GenV {
    let inner = block_code(sem, GenV { out: Seq::empty(), free: false, ..g }, f.body);
    let head = g.out + slots(inner.allocas, inner.allocas.len());
    GenV {
        out: head + inner.out,
        allocas: Seq::empty(),
        free: true,
        bodies: inner.bodies.push((head.len() as int, (head.len() + inner.out.len()) as int)),
        ..inner
    }
}

/// The return that a function needs where its last statement neither returns nor ends the
/// program.
#[verifier::opaque]
pub open spec fn fn_tail_code(sem: Sem, g: GenV, f: FnDef, full: Seq<char>) -> GenV {
    if returned(g) {
        g
    } else if void_main(f, full) {
        line(g, "ret i32 0"@)
    } else if f.ret_ty.spec_is_void() {
        line(g, "ret void"@)
    } else {
        let (g, t) = ty_code(sem, g, f.ret_ty);
        if t == "ptr"@ {
            line(g, "ret "@ + t + " null"@)
        } else {
            line(g, "ret "@ + t + " 0"@)
        }
    }
}

/// The code of the function `f`, whose full name is `full`.
#[verifier::opaque]
pub open spec fn fn_code(sem: Sem, g: GenV, f: FnDef, full: Seq<char>) -> GenV {
    let g = fn_head_code(sem, g, f, full);
    let g = fn_body_code(sem, g, f);
    let g = fn_tail_code(sem, g, f, full);
    let g = put(g, "}\n\n"@);
    close_scope(g)
}

/// The code of the functions among the first `n` statements of a namespace.
pub open spec fn fns_code(sem: Sem, g: GenV, b: Block, prefix: Seq<Seq<char>>, n: nat) -> GenV
    decreases b, n,
{
    if n == 0 || n > b@.len() {
        g
    } else {
        proof {
            assert(decreases_to!(b => b@));
            assert(decreases_to!(b@ => b@[n - 1]));
        }
        let g = fns_code(sem, g, b, prefix, (n - 1) as nat);
        match *b@[n - 1] {
            Stmt::FnDef { def } => fn_code(sem, g, *def, join(prefix.push(def.name@), "::"@)),
            Stmt::Namespace { path, body } => fns_code(
                sem,
                g,
                body,
                prefix + views(path@),
                body@.len(),
            ),
            _ => g,
        }
    }
}

/// The top-level variables among the first `n` statements.
pub open spec fn globals_code(sem: Sem, g: GenV, b: Block, n: nat) -> GenV
    decreases n,
{
    if n == 0 || n > b@.len() {
        g
    } else {
        let g = globals_code(sem, g, b, (n - 1) as nat);
        match *b@[n - 1] {
            Stmt::VarDecl { name, init, .. } => global_code(sem, g, name@, *init),
            _ => g,
        }
    }
}

/// What the generator has written when it is done with a program.
pub open spec fn module_code(sem: Sem, p: Program) -> GenV {
    let g = header_code(blank());
    let g = globals_code(sem, g, p.stmts, p.stmts@.len());
    let g = fns_code(sem, g, p.stmts, Seq::empty(), p.stmts@.len());
    let g = put(g, "\n"@);
    let g = put(g, g.globals);
    declares_code(g, LIBRARY as nat)
}

} // verus!
