//! Where control goes in the code: what the jumps of branches and loops lead to.
use crate::ast::{Block, Expr, ExprKind, Sem, Stmt};
use crate::emit::{
    break_target, close_scope, continue_target, enter_loop, label, leave_loop, line, open_scope,
    opt_view, put, reg, start, terminated, GenV, OperandV,
};
use crate::frames::{begins, kept};
use crate::lower::{
    block_code, body_code, depth, expr_code, if_stmt_code, ternary_code, while_stmt_code,
};
use crate::numbering::at;
use crate::text::{dec, is_digit, lemma_nat_dec_value, nat_dec};
use std::rc::Rc;
use vstd::prelude::*;

verus! {

// ---------- jumps ----------
/// The line that begins the block `name`.
pub open spec fn head(name: Seq<char>) -> Seq<char> {
    name + ":\n  "@
}

/// Whether the block `name` begins at the position `j` of a text.
pub open spec fn opens(text: Seq<char>, name: Seq<char>, j: int) -> bool {
    at(text, j - head(name).len(), head(name))
}

/// Whether a name is one word of a line.
pub open spec fn one_word(name: Seq<char>) -> bool {
    forall|i: int| 0 <= i < name.len() ==> #[trigger] name[i] != '\n' && name[i] != ','
}

pub open spec fn jump(p: Seq<char>) -> Seq<char> {
    "br label %"@ + p + "\n"@
}

pub open spec fn fork(x: Seq<char>, p: Seq<char>, q: Seq<char>) -> Seq<char> {
    "br i1 "@ + x + ", label %"@ + p + ", label %"@ + q + "\n"@
}

/// Whether control that is at the position `i` of a text comes to `j`: a jump stands there, to
/// the block that begins at `j`.
pub open spec fn goes(text: Seq<char>, i: int, j: int) -> bool {
    exists|p: Seq<char>| one_word(p) && #[trigger] at(text, i, jump(p)) && opens(text, p, j)
}

/// Whether control that is at the position `i` of a text comes to `j` where the condition `x` is
/// `b`: a jump on `x` stands there, and the label it names for `b` begins the block at `j`.
pub open spec fn turns(text: Seq<char>, i: int, x: Seq<char>, b: bool, j: int) -> bool {
    exists|p: Seq<char>, q: Seq<char>|
        one_word(p) && one_word(q) && #[trigger] at(text, i, fork(x, p, q)) && opens(
            text,
            if b {
                p
            } else {
                q
            },
            j,
        )
}

/// Whether the code of a block only adds to the text.
pub open spec fn adds(sem: Sem, g: GenV, b: Block) -> bool {
    begins(block_code(sem, g, b).out, g.out)
}

/// Whether control comes from the end of a block's code to `j`, unless the code leaves the block
/// on its own.
pub open spec fn ends_at(text: Seq<char>, sem: Sem, g: GenV, b: Block, j: int) -> bool {
    let e = close_scope(block_code(sem, g, b));
    begins(text, e.out) && (!terminated(e) ==> goes(text, e.out.len() as int, j))
}

pub proof fn lemma_kept_adds(a: GenV, b: GenV, whole: bool)
    requires
        kept(a, b, whole),
    ensures
        begins(b.out, a.out),
{
    reveal(kept);
    reveal(crate::frames::advanced);
}

pub proof fn lemma_at_end(s: Seq<char>, p: Seq<char>)
    ensures
        at(s + p, s.len() as int, p),
{
    assert((s + p).subrange(s.len() as int, (s.len() + p.len()) as int) =~= p);
}

pub proof fn lemma_at_later(s: Seq<char>, t: Seq<char>, i: int, p: Seq<char>)
    requires
        at(s, i, p),
        begins(t, s),
    ensures
        at(t, i, p),
{
    assert(t.subrange(i, i + p.len()) =~= s.subrange(i, i + p.len()));
}

pub proof fn lemma_begins(s: Seq<char>, t: Seq<char>, u: Seq<char>)
    requires
        begins(t, s),
        begins(u, t),
    ensures
        begins(u, s),
{
    assert forall|i: int| 0 <= i < s.len() implies #[trigger] u[i] == s[i] by {
        assert(t[i] == s[i]);
    }
}

pub proof fn lemma_jump_text(g: GenV, p: Seq<char>)
    ensures
        line(g, "br label %"@ + p).out == g.out + jump(p),
        line(g, "br label %"@ + p) == (GenV { out: g.out + jump(p), ..g }),
{
    reveal(put);
    assert(g.out + ("br label %"@ + p) + "\n"@ =~= g.out + jump(p));
}

pub proof fn lemma_fork_text(g: GenV, x: Seq<char>, p: Seq<char>, q: Seq<char>)
    ensures
        line(g, "br i1 "@ + x + ", label %"@ + p + ", label %"@ + q).out == g.out + fork(x, p, q),
{
    reveal(put);
    assert(g.out + ("br i1 "@ + x + ", label %"@ + p + ", label %"@ + q) + "\n"@ =~= g.out + fork(
        x,
        p,
        q,
    ));
}

pub proof fn lemma_start_text(g: GenV, p: Seq<char>)
    ensures
        start(g, p).out == g.out + head(p),
{
    reveal(put);
    assert(g.out + p + ":\n  "@ =~= g.out + head(p));
}

pub proof fn lemma_word(s: Seq<char>, t: Seq<char>)
    requires
        one_word(s),
        one_word(t),
    ensures
        one_word(s + t),
{
}

pub proof fn lemma_label(g: GenV, prefix: Seq<char>)
    requires
        one_word(prefix),
    ensures
        one_word(label(g, prefix).1),
        label(g, prefix).0.out == g.out,
        label(g, prefix).0.loops == g.loops,
        label(g, prefix).0.scopes == g.scopes,
{
    reveal(label);
    reveal_strlit(".");
    let n = g.reg.wrapping_add(1);
    lemma_nat_dec_value(n as nat);
    let d = dec(n as int);
    assert forall|i: int| 0 <= i < d.len() implies #[trigger] d[i] != '\n' && d[i] != ',' by {
        assert(is_digit(nat_dec(n as nat)[i]));
    }
    lemma_word(prefix, "."@);
    lemma_word(prefix + "."@, d);
}

pub proof fn lemma_words()
    ensures
        one_word("if.then"@),
        one_word("if.else"@),
        one_word("if.merge"@),
        one_word("tern.then"@),
        one_word("tern.else"@),
        one_word("tern.merge"@),
        one_word("loop.cond"@),
        one_word("loop.body"@),
        one_word("loop.exit"@),
        one_word("for.cond"@),
        one_word("for.body"@),
        one_word("for.step"@),
        one_word("for.exit"@),
        one_word("sw.body"@),
        one_word("sw.cmp"@),
        one_word("sw.exit"@),
        one_word("sw.default"@),
{
    reveal_strlit("if.then");
    reveal_strlit("if.else");
    reveal_strlit("if.merge");
    reveal_strlit("tern.then");
    reveal_strlit("tern.else");
    reveal_strlit("tern.merge");
    reveal_strlit("loop.cond");
    reveal_strlit("loop.body");
    reveal_strlit("loop.exit");
    reveal_strlit("for.cond");
    reveal_strlit("for.body");
    reveal_strlit("for.step");
    reveal_strlit("for.exit");
    reveal_strlit("sw.body");
    reveal_strlit("sw.cmp");
    reveal_strlit("sw.exit");
    reveal_strlit("sw.default");
}

/// The code of a body: it begins with the code of the block, and goes on to `to`.
pub proof fn lemma_body(sem: Sem, g: GenV, b: Block, to: Seq<char>, text: Seq<char>, j: int)
    requires
        adds(sem, g, b),
        one_word(to),
        begins(text, body_code(sem, g, b, to).out),
        opens(text, to, j),
    ensures
        ends_at(text, sem, g, b, j),
        begins(body_code(sem, g, b, to).out, block_code(sem, g, b).out),
        begins(body_code(sem, g, b, to).out, g.out),
{
    reveal(close_scope);
    let k = block_code(sem, g, b);
    let e = close_scope(k);
    let h = body_code(sem, g, b, to);
    lemma_jump_text(e, to);
    assert(begins(h.out, e.out));
    lemma_begins(e.out, h.out, text);
    lemma_begins(g.out, k.out, h.out);
    if !terminated(e) {
        assert(h.out == e.out + jump(to));
        lemma_at_end(e.out, jump(to));
        lemma_at_later(h.out, text, e.out.len() as int, jump(to));
    }
}

pub proof fn lemma_opens_end(g: GenV, name: Seq<char>, text: Seq<char>)
    requires
        begins(text, start(g, name).out),
    ensures
        opens(text, name, start(g, name).out.len() as int),
        begins(start(g, name).out, g.out),
        begins(text, g.out),
{
    lemma_start_text(g, name);
    lemma_at_end(g.out, head(name));
    lemma_at_later(g.out + head(name), text, g.out.len() as int, head(name));
    assert(begins(g.out + head(name), g.out));
    lemma_begins(g.out, g.out + head(name), text);
}

// ---------- branches ----------
/// The code of an expression in a statement.
pub open spec fn code_of(sem: Sem, g: GenV, e: Rc<Expr>) -> (GenV, OperandV) {
    expr_code(sem, g, *e, depth(sem))
}

/// Where the code of the first branch of an `if` begins.
pub open spec fn if_yes(sem: Sem, g: GenV, cond: Rc<Expr>) -> GenV {
    let (g, c) = code_of(sem, g, cond);
    let (g, yes) = label(g, "if.then"@);
    let (g, no) = label(g, "if.else"@);
    let (g, merge) = label(g, "if.merge"@);
    open_scope(start(line(g, "br i1 "@ + c.v + ", label %"@ + yes + ", label %"@ + no), yes))
}

/// Where the code of the second one begins.
pub open spec fn if_no(sem: Sem, g: GenV, cond: Rc<Expr>, yes: Block) -> GenV {
    let (h, c) = code_of(sem, g, cond);
    let (h, a) = label(h, "if.then"@);
    let (h, no) = label(h, "if.else"@);
    let (h, merge) = label(h, "if.merge"@);
    open_scope(start(body_code(sem, if_yes(sem, g, cond), yes, merge), no))
}

/// Whether in the text of an `if` the condition decides which branch is executed: control comes
/// from the code of the condition to the code of the first block where the condition is true,
/// and to that of the second one where it is false; from the end of either it comes to the end of
/// the `if`.
#[verifier::opaque]
pub open spec fn if_decides(
    sem: Sem,
    g: GenV,
    cond: Rc<Expr>,
    yes: Block,
    no: Block,
    text: Seq<char>,
) -> bool {
    let (h, c) = code_of(sem, g, cond);
    exists|a: GenV, b: GenV|
        {
            &&& #[trigger] turns(text, h.out.len() as int, c.v, true, a.out.len() as int)
            &&& #[trigger] turns(text, h.out.len() as int, c.v, false, b.out.len() as int)
            &&& begins(text, a.out)
            &&& begins(text, b.out)
            &&& ends_at(text, sem, a, yes, text.len() as int)
            &&& ends_at(text, sem, b, no, text.len() as int)
        }
}

/// An `if` executes its first block where its condition is true and its second one where it is
/// false, and goes on behind both.
pub proof fn law_if_code(sem: Sem, g: GenV, cond: Rc<Expr>, yes: Block, no: Block)
    requires
        adds(sem, if_yes(sem, g, cond), yes),
        adds(sem, if_no(sem, g, cond, yes), no),
    ensures
        if_decides(
            sem,
            g,
            cond,
            yes,
            no,
            if_stmt_code(sem, g, Stmt::If { cond, then_branch: yes, else_branch: no }).out,
        ),
{
    reveal(if_decides);
    reveal(open_scope);
    lemma_words();
    let out = if_stmt_code(sem, g, Stmt::If { cond, then_branch: yes, else_branch: no });
    let text = out.out;
    let (h, c) = code_of(sem, g, cond);
    let (h1, p) = label(h, "if.then"@);
    let (h2, q) = label(h1, "if.else"@);
    let (h3, m) = label(h2, "if.merge"@);
    lemma_label(h, "if.then"@);
    lemma_label(h1, "if.else"@);
    lemma_label(h2, "if.merge"@);
    let k = line(h3, "br i1 "@ + c.v + ", label %"@ + p + ", label %"@ + q);
    lemma_fork_text(h3, c.v, p, q);
    let a = if_yes(sem, g, cond);
    let ya = body_code(sem, a, yes, m);
    let b = if_no(sem, g, cond, yes);
    let yb = body_code(sem, b, no, m);
    assert(out == start(yb, m));
    lemma_opens_end(yb, m, text);
    lemma_body(sem, b, no, m, text, text.len() as int);
    lemma_begins(b.out, yb.out, text);
    lemma_opens_end(ya, q, text);
    lemma_body(sem, a, yes, m, text, text.len() as int);
    lemma_begins(a.out, ya.out, text);
    lemma_opens_end(k, p, text);
    lemma_at_end(h.out, fork(c.v, p, q));
    lemma_at_later(k.out, text, h.out.len() as int, fork(c.v, p, q));
    assert(turns(text, h.out.len() as int, c.v, true, a.out.len() as int));
    assert(turns(text, h.out.len() as int, c.v, false, b.out.len() as int));
}

// ---------- a condition's expression ----------
/// Where the code of the first value of a conditional expression begins.
pub open spec fn ternary_yes(sem: Sem, g: GenV, cond: Rc<Expr>, d: nat) -> GenV {
    let (g, c) = expr_code(sem, g, *cond, d);
    let (g, yes) = label(g, "tern.then"@);
    let (g, no) = label(g, "tern.else"@);
    let (g, merge) = label(g, "tern.merge"@);
    start(line(g, "br i1 "@ + c.v + ", label %"@ + yes + ", label %"@ + no), yes)
}

/// Where the code of the second one begins.
pub open spec fn ternary_no(sem: Sem, g: GenV, cond: Rc<Expr>, yes: Rc<Expr>, d: nat) -> GenV {
    let (h, c) = expr_code(sem, g, *cond, d);
    let (h, a) = label(h, "tern.then"@);
    let (h, no) = label(h, "tern.else"@);
    let (h, merge) = label(h, "tern.merge"@);
    let (k, v) = expr_code(sem, ternary_yes(sem, g, cond, d), *yes, d);
    start(line(k, "br label %"@ + merge), no)
}

/// The line that takes `x` where control comes from the block `p`, and `y` where it comes from
/// the block `q`.
pub open spec fn either(
    dst: Seq<char>,
    ty: Seq<char>,
    x: Seq<char>,
    p: Seq<char>,
    y: Seq<char>,
    q: Seq<char>,
) -> Seq<char> {
    dst + " = phi "@ + ty + " [ "@ + x + ", %"@ + p + " ], [ "@ + y + ", %"@ + q + " ]"@ + "\n"@
}

/// Whether in the text of a conditional expression the condition decides: control comes from the
/// code of the condition to the code of the first value where the condition is true, and to that
/// of the second one where it is false; from either it comes to the line that takes the value
/// that belongs to the block it comes from.
#[verifier::opaque]
pub open spec fn ternary_decides(
    sem: Sem,
    g: GenV,
    cond: Rc<Expr>,
    yes: Rc<Expr>,
    no: Rc<Expr>,
    d: nat,
    text: Seq<char>,
    res: OperandV,
) -> bool {
    let (h, c) = expr_code(sem, g, *cond, d);
    exists|a: GenV, b: GenV, p: Seq<char>, q: Seq<char>|
        {
            let (ya, v) = expr_code(sem, a, *yes, d);
            let (yb, w) = expr_code(sem, b, *no, d);
            let m = text.len() - either(res.v, v.t, v.v, p, w.v, q).len();
            &&& #[trigger] turns(text, h.out.len() as int, c.v, true, a.out.len() as int)
            &&& #[trigger] turns(text, h.out.len() as int, c.v, false, b.out.len() as int)
            &&& begins(text, ya.out)
            &&& begins(text, yb.out)
            &&& goes(text, ya.out.len() as int, m)
            &&& goes(text, yb.out.len() as int, m)
            &&& #[trigger] opens(text, p, a.out.len() as int)
            &&& #[trigger] opens(text, q, b.out.len() as int)
            &&& at(text, m, either(res.v, v.t, v.v, p, w.v, q))
            &&& res.t == v.t
        }
}

/// A conditional expression has the value of its first expression where its condition is true,
/// and that of the second one where it is false.
pub proof fn law_ternary_code(
    sem: Sem,
    g: GenV,
    e: Expr,
    cond: Rc<Expr>,
    yes: Rc<Expr>,
    no: Rc<Expr>,
    d: nat,
)
    requires
        e.kind == (ExprKind::Ternary { cond, then_expr: yes, else_expr: no }),
        ({
            let a = ternary_yes(sem, g, cond, d);
            let b = ternary_no(sem, g, cond, yes, d);
            begins(expr_code(sem, a, *yes, d).0.out, a.out) && begins(
                expr_code(sem, b, *no, d).0.out,
                b.out,
            )
        }),
    ensures
        ternary_decides(
            sem,
            g,
            cond,
            yes,
            no,
            d,
            ternary_code(sem, g, e, d).0.out,
            ternary_code(sem, g, e, d).1,
        ),
{
    reveal(ternary_decides);
    lemma_words();
    let out = ternary_code(sem, g, e, d).0;
    let res = ternary_code(sem, g, e, d).1;
    let text = out.out;
    let (h, c) = at_depth(sem, g, cond, d);
    let (h1, p) = label(h, "tern.then"@);
    let (h2, q) = label(h1, "tern.else"@);
    let (h3, m) = label(h2, "tern.merge"@);
    lemma_label(h, "tern.then"@);
    lemma_label(h1, "tern.else"@);
    lemma_label(h2, "tern.merge"@);
    let k = line(h3, "br i1 "@ + c.v + ", label %"@ + p + ", label %"@ + q);
    lemma_fork_text(h3, c.v, p, q);
    let a = ternary_yes(sem, g, cond, d);
    let (ya, v) = at_depth(sem, a, yes, d);
    let za = line(ya, "br label %"@ + m);
    lemma_jump_text(ya, m);
    let b = ternary_no(sem, g, cond, yes, d);
    let (yb, w) = at_depth(sem, b, no, d);
    let zb = line(yb, "br label %"@ + m);
    lemma_jump_text(yb, m);
    let f = start(zb, m);
    let (f1, phi) = reg(f);
    assert(f1.out == f.out) by {
        reveal(reg);
    }
    let last = either(phi, v.t, v.v, p, w.v, q);
    assert(text == f.out + last) by {
        reveal(put);
        assert(text =~= f.out + last);
    }
    lemma_at_end(f.out, last);
    assert(begins(text, f.out));
    lemma_opens_end(zb, m, text);
    assert(begins(zb.out, yb.out));
    lemma_begins(yb.out, zb.out, text);
    lemma_at_end(yb.out, jump(m));
    lemma_at_later(zb.out, text, yb.out.len() as int, jump(m));
    lemma_begins(b.out, yb.out, text);
    lemma_opens_end(za, q, text);
    assert(begins(za.out, ya.out));
    lemma_begins(ya.out, za.out, text);
    lemma_at_end(ya.out, jump(m));
    lemma_at_later(za.out, text, ya.out.len() as int, jump(m));
    lemma_begins(a.out, ya.out, text);
    lemma_opens_end(k, p, text);
    lemma_at_end(h.out, fork(c.v, p, q));
    lemma_at_later(k.out, text, h.out.len() as int, fork(c.v, p, q));
    assert(turns(text, h.out.len() as int, c.v, true, a.out.len() as int));
    assert(turns(text, h.out.len() as int, c.v, false, b.out.len() as int));
    assert(goes(text, ya.out.len() as int, f.out.len() as int));
    assert(goes(text, yb.out.len() as int, f.out.len() as int));
    assert(at(text, f.out.len() as int, either(res.v, v.t, v.v, p, w.v, q)));
}

/// The code of an expression at a depth.
pub open spec fn at_depth(sem: Sem, g: GenV, e: Rc<Expr>, d: nat) -> (GenV, OperandV) {
    expr_code(sem, g, *e, d)
}

// ---------- loops ----------
/// Where the code of the condition of a `while` begins.
pub open spec fn while_top(g: GenV, tag: Option<Seq<char>>) -> GenV {
    let (g, again) = label(g, "loop.cond"@);
    let (g, inside) = label(g, "loop.body"@);
    let (g, exit) = label(g, "loop.exit"@);
    start(line(enter_loop(g, tag, again, exit), "br label %"@ + again), again)
}

/// Where the code of its body begins.
pub open spec fn while_body(sem: Sem, g: GenV, tag: Option<Seq<char>>, cond: Rc<Expr>) -> GenV {
    let (h, again) = label(g, "loop.cond"@);
    let (h, inside) = label(h, "loop.body"@);
    let (h, exit) = label(h, "loop.exit"@);
    let (k, c) = code_of(sem, while_top(g, tag), cond);
    open_scope(start(line(k, "br i1 "@ + c.v + ", label %"@ + inside + ", label %"@ + exit), inside))
}

/// Whether a `break` and a `continue` in the code that begins with `g` lead where they should:
/// out of the loop to `out`, and on to `next`.
pub open spec fn loop_ways(
    text: Seq<char>,
    g: GenV,
    tag: Option<Seq<char>>,
    next: int,
    out: int,
) -> bool {
    &&& opens(text, break_target(g, None), out)
    &&& opens(text, break_target(g, tag), out)
    &&& opens(text, continue_target(g, None), next)
    &&& opens(text, continue_target(g, tag), next)
}

/// Whether in the text of a `while` the condition decides each time: control comes first to the
/// code of the condition; from there to the body where the condition is true, and behind the loop
/// where it is false; from the end of the body back to the condition.
#[verifier::opaque]
pub open spec fn while_decides(
    sem: Sem,
    g: GenV,
    tag: Option<Seq<char>>,
    cond: Rc<Expr>,
    body: Block,
    text: Seq<char>,
) -> bool {
    exists|h: GenV, a: GenV|
        {
            let (k, c) = code_of(sem, h, cond);
            let top = h.out.len() as int;
            let end = text.len() as int;
            &&& goes(text, g.out.len() as int, top)
            &&& #[trigger] begins(text, h.out)
            &&& begins(text, k.out)
            &&& turns(text, k.out.len() as int, c.v, true, a.out.len() as int)
            &&& turns(text, k.out.len() as int, c.v, false, end)
            &&& #[trigger] begins(text, a.out)
            &&& ends_at(text, sem, a, body, top)
            &&& loop_ways(text, a, tag, top, end)
        }
}

/// A `while` tests its condition, executes its body while it is true, and goes on behind the
/// body once it is false.
pub proof fn law_while_code(
    sem: Sem,
    g: GenV,
    tag: Option<String>,
    cond: Rc<Expr>,
    body: Block,
)
    requires
        ({
            let h = while_top(g, opt_view(tag));
            let k = code_of(sem, h, cond).0;
            kept(h, k, true) && adds(sem, while_body(sem, g, opt_view(tag), cond), body)
        }),
    ensures
        while_decides(
            sem,
            g,
            opt_view(tag),
            cond,
            body,
            while_stmt_code(sem, g, Stmt::While { label: tag, cond, body }).out,
        ),
{
    lemma_words();
    let out = while_stmt_code(sem, g, Stmt::While { label: tag, cond, body });
    let tag = opt_view(tag);
    let (h1, again) = label(g, "loop.cond"@);
    let (h2, inside) = label(h1, "loop.body"@);
    let (h3, exit) = label(h2, "loop.exit"@);
    lemma_label(g, "loop.cond"@);
    lemma_label(h1, "loop.body"@);
    lemma_label(h2, "loop.exit"@);
    let h4 = enter_loop(h3, tag, again, exit);
    let h = while_top(g, tag);
    let (k, c) = code_of(sem, h, cond);
    lemma_kept_adds(h, k, true);
    let a = while_body(sem, g, tag, cond);
    assert(h4.out == g.out) by {
        reveal(enter_loop);
    }
    lemma_while(sem, g, tag, cond, body, h4, h, k, c, a, again, inside, exit);
    lemma_ways(h3, tag, again, exit, h, k, c, inside, a);
    reveal(while_decides);
    assert(out == start(leave_loop(body_code(sem, a, body, again)), exit));
    assert(begins(out.out, h.out) && begins(out.out, a.out));
}

/// What leads out of a loop and on in it, at the beginning of its body.
pub proof fn lemma_ways(
    g: GenV,
    tag: Option<Seq<char>>,
    again: Seq<char>,
    exit: Seq<char>,
    h: GenV,
    k: GenV,
    c: OperandV,
    inside: Seq<char>,
    a: GenV,
)
    requires
        h == start(line(enter_loop(g, tag, again, exit), "br label %"@ + again), again),
        kept(h, k, true),
        a == open_scope(
            start(line(k, "br i1 "@ + c.v + ", label %"@ + inside + ", label %"@ + exit), inside),
        ),
    ensures
        break_target(a, None) == exit,
        break_target(a, tag) == exit,
        continue_target(a, None) == again,
        continue_target(a, tag) == again,
{
    reveal(kept);
    reveal(put);
    reveal(open_scope);
    reveal(enter_loop);
    reveal(break_target);
    reveal(continue_target);
}

pub proof fn lemma_while(
    sem: Sem,
    g: GenV,
    tag: Option<Seq<char>>,
    cond: Rc<Expr>,
    body: Block,
    h4: GenV,
    h: GenV,
    k: GenV,
    c: OperandV,
    a: GenV,
    again: Seq<char>,
    inside: Seq<char>,
    exit: Seq<char>,
)
    requires
        one_word(again) && one_word(inside) && one_word(exit),
        h4.out == g.out,
        h == start(line(h4, "br label %"@ + again), again),
        (k, c) == code_of(sem, h, cond),
        begins(k.out, h.out),
        a == open_scope(
            start(line(k, "br i1 "@ + c.v + ", label %"@ + inside + ", label %"@ + exit), inside),
        ),
        adds(sem, a, body),
    ensures
        ({
            let text = start(leave_loop(body_code(sem, a, body, again)), exit).out;
            let top = h.out.len() as int;
            let end = text.len() as int;
            &&& goes(text, g.out.len() as int, top)
            &&& begins(text, h.out)
            &&& begins(text, k.out)
            &&& turns(text, k.out.len() as int, c.v, true, a.out.len() as int)
            &&& turns(text, k.out.len() as int, c.v, false, end)
            &&& begins(text, a.out)
            &&& ends_at(text, sem, a, body, top)
            &&& opens(text, exit, end)
            &&& opens(text, again, top)
        }),
{
    let y = body_code(sem, a, body, again);
    let z = leave_loop(y);
    let text = start(z, exit).out;
    assert(z.out == y.out) by {
        reveal(leave_loop);
    }
    let h5 = line(h4, "br label %"@ + again);
    lemma_jump_text(h4, again);
    let k1 = line(k, "br i1 "@ + c.v + ", label %"@ + inside + ", label %"@ + exit);
    lemma_fork_text(k, c.v, inside, exit);
    assert(a.out == start(k1, inside).out) by {
        reveal(open_scope);
    }
    lemma_opens_end(z, exit, text);
    lemma_body_adds(sem, a, body, again);
    lemma_begins(a.out, y.out, text);
    lemma_opens_end(k1, inside, text);
    lemma_more(k.out, fork(c.v, inside, exit), text);
    lemma_begins(h.out, k.out, text);
    lemma_opens_end(h5, again, text);
    lemma_more(h4.out, jump(again), text);
    lemma_body(sem, a, body, again, text, h.out.len() as int);
    assert(goes(text, g.out.len() as int, h.out.len() as int));
    assert(turns(text, k.out.len() as int, c.v, true, a.out.len() as int));
    assert(turns(text, k.out.len() as int, c.v, false, text.len() as int));
}

/// What was added to a text stands in every text that goes on from there.
pub proof fn lemma_more(s: Seq<char>, p: Seq<char>, text: Seq<char>)
    requires
        begins(text, s + p),
    ensures
        at(text, s.len() as int, p),
        begins(text, s),
{
    lemma_at_end(s, p);
    lemma_at_later(s + p, text, s.len() as int, p);
    assert(begins(s + p, s));
    lemma_begins(s, s + p, text);
}

pub proof fn lemma_body_adds(sem: Sem, g: GenV, b: Block, to: Seq<char>)
    requires
        adds(sem, g, b),
    ensures
        begins(body_code(sem, g, b, to).out, g.out),
{
    reveal(close_scope);
    let k = block_code(sem, g, b);
    lemma_jump_text(close_scope(k), to);
    lemma_begins(g.out, k.out, body_code(sem, g, b, to).out);
}

} // verus!
