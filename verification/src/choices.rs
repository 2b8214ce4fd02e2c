//! Where control goes in the code of a switch, and what its tests find.
use crate::ast::{typed, unsigned, Block, Expr, ExprKind, Sem, Stmt, SwitchCase, TyKw};
use crate::compiled::{lemma_bytes_ordered, lemma_one_numeral, lemma_step_reg};
use crate::emit::{close_scope, label, line, open_scope, put, reg, start, terminated, GenV};
use crate::flow::{
    adds, code_of, fork, head, jump, lemma_at_end, lemma_at_later, lemma_begins, lemma_body_adds,
    lemma_fork_text, lemma_jump_text, lemma_label, lemma_more, lemma_opens_end, lemma_words,
    one_word, opens,
};
use crate::frames::begins;
use crate::llvm::{
    bytes_before, does, flag, known, lemma_line_text, lemma_ran_line, lemma_ran_nothing,
    lemma_ran_same, lemma_reg, lemma_registers_differ, line_of, means, ran, register, roomy,
    text_at, with_reg, Datum, Deed, Mn, State,
};
use crate::lower::{
    any_first_code, any_of_code, block_code, body_code, case_body_code, case_labels_code,
    conds_code, depth, entries, entry, expr_code, one_case_code, pattern_code, plain_case, range_ty,
    subject_code, switch_cases_code, switch_test, table_switch, HowV,
};
use crate::numbering::at;
use crate::text::{dec, join};
use std::rc::Rc;
use vstd::prelude::*;

verus! {

/// Whether the code from `h` to `k` leaves in `t` whether both `x` and `y` hold.
pub open spec fn both_hold(h: GenV, k: GenV, x: Seq<char>, y: Seq<char>, t: Seq<char>) -> bool {
    forall|s: State, a: bool, b: bool|
        roomy(h) && #[trigger] means(s, x, Datum::Int(flag(a))) && #[trigger] means(
            s,
            y,
            Datum::Int(flag(b)),
        ) ==> exists|u: State| #[trigger]
            ran(h, k, s, u) && means(u, t, Datum::Int(flag(a && b))) && u.slots == s.slots
                && u.bytes == s.bytes
}

/// Whether the code of a case tests it from `h` to `k`, and leaves the answer in `t`: one of the
/// patterns fits, and the condition behind them holds, where there is one.
pub open spec fn case_tested(
    sem: Sem,
    c: SwitchCase,
    how: HowV,
    h: GenV,
    k: GenV,
    t: Seq<char>,
) -> bool {
    let (h1, tests) = conds_code(sem, h, c.patterns, how, c.patterns.len());
    let (h2, hit) = any_of_code(h1, tests);
    match c.when {
        Some(w) => {
            let (h3, a) = expr_code(sem, h2, *w, depth(sem));
            both_hold(h3, k, hit, a.v, t)
        },
        None => k.out == h2.out && t == hit,
    }
}

/// Whether the code of a block stands in the text under the name `name`, and goes on to the block
/// `exit` unless it leaves on its own.
#[verifier::opaque]
pub open spec fn block_at(
    text: Seq<char>,
    sem: Sem,
    b: Block,
    name: Seq<char>,
    exit: Seq<char>,
) -> bool {
    exists|a: GenV|
        {
            let e = close_scope(block_code(sem, a, b));
            &&& opens(text, name, a.out.len() as int)
            &&& #[trigger] begins(text, a.out)
            &&& begins(text, e.out)
            &&& !terminated(e) ==> at(text, e.out.len() as int, jump(exit))
        }
}

/// Whether a case stands in the text as it should: its test in the block `here`; where the test
/// holds, control comes to the case's body, and from its end to the end of the switch; where it
/// does not, control comes to `next`, which is the default after the last case.
#[verifier::opaque]
pub open spec fn case_at(
    text: Seq<char>,
    sem: Sem,
    c: SwitchCase,
    here: Seq<char>,
    last: bool,
    how: HowV,
    next: Seq<char>,
) -> bool {
    &&& last ==> next == how.default
    &&& exists|h: GenV, k: GenV, t: Seq<char>, p: Seq<char>|
        {
            &&& opens(text, here, h.out.len() as int)
            &&& begins(text, h.out)
            &&& #[trigger] case_tested(sem, c, how, h, k, t)
            &&& begins(text, k.out)
            &&& one_word(p)
            &&& #[trigger] at(text, k.out.len() as int, fork(t, p, next))
            &&& block_at(text, sem, c.body, p, how.exit)
        }
}

/// Whether the case with the number `n`, counted from one, stands in the text as it should.
pub open spec fn nth_at(
    text: Seq<char>,
    sem: Sem,
    cases: Rc<Vec<SwitchCase>>,
    n: nat,
    here: Seq<char>,
    how: HowV,
    next: Seq<char>,
) -> bool {
    case_at(text, sem, cases@[n - 1], here, n == cases@.len(), how, next)
}

/// Whether the first `n` cases are tried one after the other, the first one in the block `first`;
/// where none of them fits, control comes to `next`.
#[verifier::opaque]
pub open spec fn tried(
    text: Seq<char>,
    sem: Sem,
    cases: Rc<Vec<SwitchCase>>,
    first: Seq<char>,
    how: HowV,
    n: nat,
    next: Seq<char>,
) -> bool
    decreases n,
{
    if n == 0 || n > cases@.len() {
        next == first
    } else {
        exists|here: Seq<char>|
            tried(text, sem, cases, first, how, (n - 1) as nat, here) && #[trigger] nth_at(
                text,
                sem,
                cases,
                n,
                here,
                how,
                next,
            )
    }
}

proof fn lemma_block_later(
    s: Seq<char>,
    t: Seq<char>,
    sem: Sem,
    b: Block,
    name: Seq<char>,
    exit: Seq<char>,
)
    requires
        block_at(s, sem, b, name, exit),
        begins(t, s),
    ensures
        block_at(t, sem, b, name, exit),
{
    reveal(block_at);
    let a = choose|a: GenV|
        {
            let e = close_scope(block_code(sem, a, b));
            &&& opens(s, name, a.out.len() as int)
            &&& #[trigger] begins(s, a.out)
            &&& begins(s, e.out)
            &&& !terminated(e) ==> at(s, e.out.len() as int, jump(exit))
        };
    let e = close_scope(block_code(sem, a, b));
    lemma_at_later(s, t, a.out.len() - head(name).len(), head(name));
    lemma_begins(a.out, s, t);
    lemma_begins(e.out, s, t);
    if !terminated(e) {
        lemma_at_later(s, t, e.out.len() as int, jump(exit));
    }
}

proof fn lemma_case_later(
    s: Seq<char>,
    text: Seq<char>,
    sem: Sem,
    c: SwitchCase,
    here: Seq<char>,
    last: bool,
    how: HowV,
    next: Seq<char>,
)
    requires
        case_at(s, sem, c, here, last, how, next),
        begins(text, s),
    ensures
        case_at(text, sem, c, here, last, how, next),
{
    reveal(case_at);
    let (h, k, t, p) = choose|h: GenV, k: GenV, t: Seq<char>, p: Seq<char>|
        {
            &&& opens(s, here, h.out.len() as int)
            &&& begins(s, h.out)
            &&& #[trigger] case_tested(sem, c, how, h, k, t)
            &&& begins(s, k.out)
            &&& one_word(p)
            &&& #[trigger] at(s, k.out.len() as int, fork(t, p, next))
            &&& block_at(s, sem, c.body, p, how.exit)
        };
    lemma_at_later(s, text, h.out.len() - head(here).len(), head(here));
    lemma_begins(h.out, s, text);
    lemma_begins(k.out, s, text);
    lemma_at_later(s, text, k.out.len() as int, fork(t, p, next));
    lemma_block_later(s, text, sem, c.body, p, how.exit);
}

pub proof fn lemma_tried_later(
    s: Seq<char>,
    t: Seq<char>,
    sem: Sem,
    cases: Rc<Vec<SwitchCase>>,
    first: Seq<char>,
    how: HowV,
    n: nat,
    next: Seq<char>,
)
    requires
        tried(s, sem, cases, first, how, n, next),
        begins(t, s),
    ensures
        tried(t, sem, cases, first, how, n, next),
    decreases n,
{
    reveal(tried);
    if n > 0 && n <= cases@.len() {
        let here = choose|here: Seq<char>|
            tried(s, sem, cases, first, how, (n - 1) as nat, here) && #[trigger] nth_at(
                s,
                sem,
                cases,
                n,
                here,
                how,
                next,
            );
        lemma_tried_later(s, t, sem, cases, first, how, (n - 1) as nat, here);
        lemma_case_later(s, t, sem, cases@[n - 1], here, n == cases@.len(), how, next);
        assert(nth_at(t, sem, cases, n, here, how, next));
    }
}

/// One case more.
pub proof fn lemma_tried_more(
    s: Seq<char>,
    t: Seq<char>,
    sem: Sem,
    cases: Rc<Vec<SwitchCase>>,
    first: Seq<char>,
    how: HowV,
    n: nat,
    here: Seq<char>,
    next: Seq<char>,
)
    requires
        0 < n <= cases@.len(),
        tried(s, sem, cases, first, how, (n - 1) as nat, here),
        begins(t, s),
        case_at(t, sem, cases@[n - 1], here, n == cases@.len(), how, next),
    ensures
        tried(t, sem, cases, first, how, n, next),
{
    lemma_tried_later(s, t, sem, cases, first, how, (n - 1) as nat, here);
    reveal(tried);
    assert(nth_at(t, sem, cases, n, here, how, next));
}

pub proof fn lemma_tried_none(
    text: Seq<char>,
    sem: Sem,
    cases: Rc<Vec<SwitchCase>>,
    first: Seq<char>,
    how: HowV,
    n: nat,
)
    requires
        n == 0 || n > cases@.len(),
    ensures
        tried(text, sem, cases, first, how, n, first),
{
    reveal(tried);
}

/// Where the body of a case begins.
pub open spec fn body_start(g: GenV, name: Seq<char>) -> GenV {
    open_scope(start(g, name))
}

/// The code of a case's body stands under its name and goes on behind the switch.
pub proof fn law_case_body_code(sem: Sem, g: GenV, b: Block, name: Seq<char>, exit: Seq<char>)
    requires
        adds(sem, body_start(g, name), b),
    ensures
        block_at(case_body_code(sem, g, b, name, exit).out, sem, b, name, exit),
        begins(case_body_code(sem, g, b, name, exit).out, start(g, name).out),
{
    reveal(block_at);
    let a = body_start(g, name);
    let y = body_code(sem, a, b, exit);
    let text = y.out;
    assert(a.out == start(g, name).out) by {
        reveal(open_scope);
    }
    lemma_body_adds(sem, a, b, exit);
    lemma_opens_end(g, name, text);
    let k = block_code(sem, a, b);
    let e = close_scope(k);
    lemma_jump_text(e, exit);
    lemma_at_end(e.out, jump(exit));
    assert(begins(text, e.out));
}

/// Where the tests of a case begin.
pub open spec fn tests_start(g: GenV, here: Seq<char>, last: bool) -> GenV {
    let (g, inside) = label(g, "sw.body"@);
    start(
        if last {
            g
        } else {
            label(g, "sw.cmp"@).0
        },
        here,
    )
}

/// Where they end, and what they have found.
pub open spec fn tests_end(sem: Sem, h: GenV, c: SwitchCase, how: HowV) -> (GenV, Seq<char>) {
    let (g, tests) = conds_code(sem, h, c.patterns, how, c.patterns.len());
    let (g, hit) = any_of_code(g, tests);
    match c.when {
        Some(w) => {
            let (g, a) = expr_code(sem, g, *w, depth(sem));
            let (g, both) = reg(g);
            (line(g, both + " = and i1 "@ + hit + ", "@ + a.v), both)
        },
        None => (g, hit),
    }
}

/// Where the body of a case is started.
pub open spec fn case_start(
    sem: Sem,
    g: GenV,
    c: SwitchCase,
    here: Seq<char>,
    last: bool,
    how: HowV,
) -> (GenV, Seq<char>) {
    let (h, inside) = label(g, "sw.body"@);
    let next = if last {
        how.default
    } else {
        label(h, "sw.cmp"@).1
    };
    let (k, taken) = tests_end(sem, tests_start(g, here, last), c, how);
    (line(k, "br i1 "@ + taken + ", label %"@ + inside + ", label %"@ + next), inside)
}

proof fn lemma_and_line(dst: Seq<char>, x: Seq<char>, y: Seq<char>)
    ensures
        dst + " = and i1 "@ + x + ", "@ + y == dst + " = "@ + ("and"@ + " "@ + "i1"@) + " "@ + x
            + ", "@ + y,
        dst + " = or i1 "@ + x + ", "@ + y == dst + " = "@ + ("or"@ + " "@ + "i1"@) + " "@ + x
            + ", "@ + y,
{
    reveal_strlit(" = and i1 ");
    reveal_strlit(" = or i1 ");
    reveal_strlit(" = ");
    reveal_strlit("and");
    reveal_strlit("or");
    reveal_strlit(" ");
    reveal_strlit("i1");
    assert(" = and i1 "@ =~= " = "@ + ("and"@ + " "@ + "i1"@) + " "@);
    assert(" = or i1 "@ =~= " = "@ + ("or"@ + " "@ + "i1"@) + " "@);
    assert(dst + " = and i1 "@ + x + ", "@ + y =~= dst + " = "@ + ("and"@ + " "@ + "i1"@) + " "@
        + x + ", "@ + y);
    assert(dst + " = or i1 "@ + x + ", "@ + y =~= dst + " = "@ + ("or"@ + " "@ + "i1"@) + " "@ + x
        + ", "@ + y);
}

proof fn lemma_both_hold(h: GenV, x: Seq<char>, y: Seq<char>)
    ensures
        both_hold(h, line(reg(h).0, reg(h).1 + " = and i1 "@ + x + ", "@ + y), x, y, reg(h).1),
{
    let (h1, t) = reg(h);
    let k = line(h1, t + " = and i1 "@ + x + ", "@ + y);
    assert forall|s: State, a: bool, b: bool|
        roomy(h) && #[trigger] means(s, x, Datum::Int(flag(a))) && #[trigger] means(
            s,
            y,
            Datum::Int(flag(b)),
        ) implies exists|u: State| #[trigger]
        ran(h, k, s, u) && means(u, t, Datum::Int(flag(a && b))) && u.slots == s.slots && u.bytes
            == s.bytes by {
        lemma_reg(h);
        let d = Deed::Two {
            dst: t,
            m: Mn::And,
            ty: "i1"@,
            l: x,
            r: y,
            x: flag(a),
            y: flag(b),
            d: flag(a && b),
        };
        let u = with_reg(s, t, Datum::Int(flag(a && b)));
        assert(does(d, s, u));
        lemma_ran_nothing(h, h1, s);
        lemma_ran_line(h, h1, s, s, d, u);
        lemma_and_line(t, x, y);
        assert(ran(h, k, s, u));
    }
}

/// A case is tested where the one before it leads to, and does what it should.
pub proof fn law_case_code(
    sem: Sem,
    g: GenV,
    c: SwitchCase,
    here: Seq<char>,
    last: bool,
    how: HowV,
)
    requires
        ({
            let h = tests_start(g, here, last);
            let (k, taken) = tests_end(sem, h, c, how);
            let (u, inside) = case_start(sem, g, c, here, last, how);
            begins(k.out, h.out) && adds(sem, body_start(u, inside), c.body)
        }),
    ensures
        ({
            let (out, next) = one_case_code(sem, g, c, here, last, how);
            case_at(out.out, sem, c, here, last, how, next)
        }),
{
    lemma_words();
    let (out, next) = one_case_code(sem, g, c, here, last, how);
    let text = out.out;
    let (g1, inside) = label(g, "sw.body"@);
    lemma_label(g, "sw.body"@);
    let g2 = if last {
        g1
    } else {
        label(g1, "sw.cmp"@).0
    };
    lemma_label(g1, "sw.cmp"@);
    let h = tests_start(g, here, last);
    let (k, t) = tests_end(sem, h, c, how);
    let (u, p) = case_start(sem, g, c, here, last, how);
    lemma_fork_text(k, t, p, next);
    law_case_body_code(sem, u, c.body, p, how.exit);
    assert(out == case_body_code(sem, u, c.body, p, how.exit));
    lemma_opens_end(u, p, text);
    lemma_more(k.out, fork(t, p, next), text);
    lemma_begins(h.out, k.out, text);
    lemma_opens_end(g2, here, text);
    assert(case_tested(sem, c, how, h, k, t)) by {
        let (h1, tests) = conds_code(sem, h, c.patterns, how, c.patterns.len());
        let (h2, hit) = any_of_code(h1, tests);
        match c.when {
            Some(w) => {
                let (h3, a) = code_of(sem, h2, w);
                lemma_both_hold(h3, hit, a.v);
            },
            None => {},
        }
    }
    assert(at(text, k.out.len() as int, fork(t, p, next)));
    reveal(case_at);
}

// ---------- what the tests find ----------
/// Whether the code from `h` to `k` leaves in `t` whether one of the first `n` tests holds.
pub open spec fn one_holds(
    h: GenV,
    k: GenV,
    tests: Seq<Seq<char>>,
    n: int,
    t: Seq<char>,
    s: State,
    found: Seq<bool>,
) -> bool {
    exists|u: State| #[trigger]
        ran(h, k, s, u) && means(
            u,
            t,
            Datum::Int(flag(exists|i: int| 0 <= i < n && #[trigger] found[i])),
        ) && u.slots == s.slots && u.bytes == s.bytes && forall|x: Seq<char>, d: Datum|
            known(h, x) && #[trigger] means(s, x, d) ==> means(u, x, d)
}

/// Of the tests of a case one is enough.
pub proof fn law_one_test_is_enough(
    h: GenV,
    tests: Seq<Seq<char>>,
    n: usize,
    s: State,
    found: Seq<bool>,
)
    requires
        0 < n <= tests.len(),
        n < 0x1000_0000,
        h.reg < 0x1000_0000,
        found.len() == tests.len(),
        forall|i: int|
            0 <= i < tests.len() ==> known(h, #[trigger] tests[i]) && means(
                s,
                tests[i],
                Datum::Int(flag(found[i])),
            ),
    ensures
        one_holds(
            h,
            any_first_code(h, tests, n).0,
            tests,
            n as int,
            any_first_code(h, tests, n).1,
            s,
            found,
        ),
        any_first_code(h, tests, n).0.reg == h.reg + n - 1,
    decreases n,
{
    let (k, t) = any_first_code(h, tests, n);
    if n <= 1 {
        lemma_ran_nothing(h, h, s);
        assert((exists|i: int| 0 <= i < n && #[trigger] found[i]) == found[0]);
        assert(ran(h, k, s, s));
    } else {
        law_one_test_is_enough(h, tests, (n - 1) as usize, s, found);
        let (k1, hit) = any_first_code(h, tests, (n - 1) as usize);
        let before = exists|i: int| 0 <= i < n - 1 && #[trigger] found[i];
        let u = choose|u: State| #[trigger]
            ran(h, k1, s, u) && means(u, hit, Datum::Int(flag(before))) && u.slots == s.slots
                && u.bytes == s.bytes && forall|x: Seq<char>, d: Datum|
                known(h, x) && #[trigger] means(s, x, d) ==> means(u, x, d);
        let last = found[n - 1];
        assert(known(h, tests[n - 1]));
        assert(means(s, tests[n - 1], Datum::Int(flag(last))));
        assert(means(u, tests[n - 1], Datum::Int(flag(last))));
        lemma_reg(k1);
        let d = Deed::Two {
            dst: t,
            m: Mn::Or,
            ty: "i1"@,
            l: hit,
            r: tests[n - 1],
            x: flag(before),
            y: flag(last),
            d: flag(before || last),
        };
        let v = with_reg(u, t, Datum::Int(flag(before || last)));
        assert(does(d, u, v));
        lemma_ran_same(h, k1, reg(k1).0, s, u);
        lemma_ran_line(h, reg(k1).0, s, u, d, v);
        lemma_line_text(reg(k1).0, line_of(d));
        lemma_and_line(t, hit, tests[n - 1]);
        assert(ran(h, k, s, v));
        let any = exists|i: int| 0 <= i < n && #[trigger] found[i];
        assert(any == (before || last)) by {
            if any {
                let i = choose|i: int| 0 <= i < n && #[trigger] found[i];
                if i < n - 1 {
                    assert(found[i]);
                }
            }
            if before {
                let i = choose|i: int| 0 <= i < n - 1 && #[trigger] found[i];
                assert(found[i]);
            }
        }
        assert forall|x: Seq<char>, e: Datum|
            known(h, x) && #[trigger] means(s, x, e) implies means(v, x, e) by {
            assert(means(u, x, e));
            assert(x != register(k1.reg + 1));
        }
    }
}

// ---------- the whole switch ----------
/// Whether the bodies of the first `n` cases stand in the text under their labels.
#[verifier::opaque]
pub open spec fn bodies_at(
    text: Seq<char>,
    sem: Sem,
    cases: Rc<Vec<SwitchCase>>,
    labels: Seq<Seq<char>>,
    exit: Seq<char>,
    n: int,
) -> bool {
    forall|j: int|
        0 <= j < n && j < cases@.len() && j < labels.len() ==> block_at(
            text,
            sem,
            (#[trigger] cases@[j]).body,
            labels[j],
            exit,
        )
}

/// The line that jumps by a number.
pub open spec fn table_line(
    v: Seq<char>,
    default: Seq<char>,
    cases: Rc<Vec<SwitchCase>>,
    labels: Seq<Seq<char>>,
) -> Seq<char> {
    "switch i64 "@ + v + ", label %"@ + default + " [\n    "@ + entries(cases, labels) + "]"@ + "\n"@
}

/// Whether the cases of a switch on the value `v` stand in the text as they should, from the
/// position `i` on: a jump by the number to the case that has it, or the cases tried one after the
/// other; where none fits, control comes to the block `default`, and from the end of each body to
/// the block `exit`.
#[verifier::opaque]
pub open spec fn cases_at(
    text: Seq<char>,
    sem: Sem,
    i: int,
    cases: Rc<Vec<SwitchCase>>,
    v: Seq<char>,
    t: Seq<char>,
    is_str: bool,
    is_char: bool,
    default: Seq<char>,
    exit: Seq<char>,
) -> bool {
    if table_switch(cases, is_str, is_char, t) {
        exists|labels: Seq<Seq<char>>|
            labels.len() == cases@.len() && #[trigger] at(
                text,
                i,
                table_line(v, default, cases, labels),
            ) && bodies_at(text, sem, cases, labels, exit, cases@.len() as int)
    } else if cases@.len() == 0 {
        at(text, i, jump(default))
    } else {
        exists|first: Seq<char>| #[trigger]
            at(text, i, jump(first)) && one_word(first) && tried(
                text,
                sem,
                cases,
                first,
                HowV {
                    subject: v,
                    test: switch_test(is_str, t, is_char),
                    is_str,
                    is_char,
                    default,
                    exit,
                },
                cases@.len(),
                default,
            )
    }
}

/// Whether the cases of a switch on the value `v` stand in the text from the position `i` on, and
/// the default body behind them, if there is one; all of them come to the end of the text.
#[verifier::opaque]
pub open spec fn switch_from(
    text: Seq<char>,
    sem: Sem,
    i: int,
    cases: Rc<Vec<SwitchCase>>,
    v: Seq<char>,
    t: Seq<char>,
    is_str: bool,
    is_char: bool,
    default_body: Block,
) -> bool {
    exists|default: Seq<char>, exit: Seq<char>|
        {
            &&& one_word(exit)
            &&& one_word(default)
            &&& opens(text, exit, text.len() as int)
            &&& default_body@.len() > 0 ==> block_at(text, sem, default_body, default, exit)
            &&& default_body@.len() == 0 ==> default == exit
            &&& #[trigger] cases_at(text, sem, i, cases, v, t, is_str, is_char, default, exit)
        }
}

/// Whether in the text of a switch the cases decide: they are tried with the value of the subject,
/// and the default body is executed where none fits, if there is one; all of them come to the end
/// of the switch.
#[verifier::opaque]
pub open spec fn switch_decides(
    sem: Sem,
    g: GenV,
    subject: Rc<Expr>,
    cases: Rc<Vec<SwitchCase>>,
    default_body: Block,
    text: Seq<char>,
) -> bool {
    let (h, a) = code_of(sem, g, subject);
    let is_str = typed(*subject, TyKw::Str);
    let is_char = typed(*subject, TyKw::Char);
    let (k, v) = subject_code(h, a.v, a.t, is_str, is_char, unsigned(*subject));
    switch_from(text, sem, k.out.len() as int, cases, v, a.t, is_str, is_char, default_body)
}

pub proof fn lemma_bodies_none(
    text: Seq<char>,
    sem: Sem,
    cases: Rc<Vec<SwitchCase>>,
    labels: Seq<Seq<char>>,
    exit: Seq<char>,
    n: int,
)
    requires
        n == 0,
    ensures
        bodies_at(text, sem, cases, labels, exit, n),
{
    reveal(bodies_at);
}

/// One body more.
pub proof fn lemma_bodies_more(
    s: Seq<char>,
    text: Seq<char>,
    sem: Sem,
    cases: Rc<Vec<SwitchCase>>,
    labels: Seq<Seq<char>>,
    exit: Seq<char>,
    n: int,
)
    requires
        0 < n <= cases@.len(),
        n <= labels.len(),
        bodies_at(s, sem, cases, labels, exit, n - 1),
        begins(text, s),
        block_at(text, sem, cases@[n - 1].body, labels[n - 1], exit),
    ensures
        bodies_at(text, sem, cases, labels, exit, n),
{
    reveal(bodies_at);
    assert forall|j: int|
        0 <= j < n && j < cases@.len() && j < labels.len() implies block_at(
        text,
        sem,
        (#[trigger] cases@[j]).body,
        labels[j],
        exit,
    ) by {
        if j < n - 1 {
            lemma_block_later(s, text, sem, cases@[j].body, labels[j], exit);
        }
    }
}

/// The cases stand where they are, whatever comes behind them.
pub proof fn lemma_cases_later(
    s: Seq<char>,
    text: Seq<char>,
    sem: Sem,
    i: int,
    cases: Rc<Vec<SwitchCase>>,
    v: Seq<char>,
    t: Seq<char>,
    is_str: bool,
    is_char: bool,
    default: Seq<char>,
    exit: Seq<char>,
)
    requires
        cases_at(s, sem, i, cases, v, t, is_str, is_char, default, exit),
        begins(text, s),
    ensures
        cases_at(text, sem, i, cases, v, t, is_str, is_char, default, exit),
{
    reveal(cases_at);
    if table_switch(cases, is_str, is_char, t) {
        let labels = choose|labels: Seq<Seq<char>>|
            labels.len() == cases@.len() && #[trigger] at(
                s,
                i,
                table_line(v, default, cases, labels),
            ) && bodies_at(s, sem, cases, labels, exit, cases@.len() as int);
        lemma_at_later(s, text, i, table_line(v, default, cases, labels));
        reveal(bodies_at);
        assert forall|j: int|
            0 <= j < cases@.len() && j < labels.len() implies block_at(
            text,
            sem,
            (#[trigger] cases@[j]).body,
            labels[j],
            exit,
        ) by {
            lemma_block_later(s, text, sem, cases@[j].body, labels[j], exit);
        }
    } else if cases@.len() == 0 {
        lemma_at_later(s, text, i, jump(default));
    } else {
        let how = HowV {
            subject: v,
            test: switch_test(is_str, t, is_char),
            is_str,
            is_char,
            default,
            exit,
        };
        let first = choose|first: Seq<char>| #[trigger]
            at(s, i, jump(first)) && one_word(first) && tried(
                s,
                sem,
                cases,
                first,
                how,
                cases@.len(),
                default,
            );
        lemma_at_later(s, text, i, jump(first));
        lemma_tried_later(s, text, sem, cases, first, how, cases@.len(), default);
    }
}

/// The cases of a switch, tried one after the other.
pub proof fn lemma_tried_cases(
    text: Seq<char>,
    sem: Sem,
    g: GenV,
    cases: Rc<Vec<SwitchCase>>,
    v: Seq<char>,
    t: Seq<char>,
    is_str: bool,
    is_char: bool,
    default: Seq<char>,
    exit: Seq<char>,
    first: Seq<char>,
    next: Seq<char>,
)
    requires
        !table_switch(cases, is_str, is_char, t),
        cases@.len() > 0,
        first == label(g, "sw.cmp"@).1,
        begins(text, line(label(g, "sw.cmp"@).0, "br label %"@ + first).out),
        tried(
            text,
            sem,
            cases,
            first,
            HowV {
                subject: v,
                test: switch_test(is_str, t, is_char),
                is_str,
                is_char,
                default,
                exit,
            },
            cases@.len(),
            next,
        ),
    ensures
        cases_at(text, sem, g.out.len() as int, cases, v, t, is_str, is_char, default, exit),
{
    lemma_words();
    let how = HowV {
        subject: v,
        test: switch_test(is_str, t, is_char),
        is_str,
        is_char,
        default,
        exit,
    };
    assert(next == default) by {
        reveal(tried);
        reveal(case_at);
    }
    lemma_label(g, "sw.cmp"@);
    lemma_jump_text(label(g, "sw.cmp"@).0, first);
    lemma_more(g.out, jump(first), text);
    reveal(cases_at);
}

/// A switch without cases.
pub proof fn lemma_no_cases(
    sem: Sem,
    g: GenV,
    cases: Rc<Vec<SwitchCase>>,
    v: Seq<char>,
    t: Seq<char>,
    is_str: bool,
    is_char: bool,
    default: Seq<char>,
    exit: Seq<char>,
)
    requires
        cases@.len() == 0,
    ensures
        cases_at(
            line(g, "br label %"@ + default).out,
            sem,
            g.out.len() as int,
            cases,
            v,
            t,
            is_str,
            is_char,
            default,
            exit,
        ),
{
    lemma_jump_text(g, default);
    lemma_at_end(g.out, jump(default));
    reveal(cases_at);
}

/// A switch by a jump table.
pub proof fn lemma_table_cases(
    text: Seq<char>,
    sem: Sem,
    g: GenV,
    cases: Rc<Vec<SwitchCase>>,
    v: Seq<char>,
    t: Seq<char>,
    is_str: bool,
    is_char: bool,
    default: Seq<char>,
    exit: Seq<char>,
    labels: Seq<Seq<char>>,
)
    requires
        table_switch(cases, is_str, is_char, t),
        labels.len() == cases@.len(),
        g.out.len() + table_line(v, default, cases, labels).len() <= text.len(),
        begins(text, g.out + table_line(v, default, cases, labels)),
        bodies_at(text, sem, cases, labels, exit, cases@.len() as int),
    ensures
        cases_at(text, sem, g.out.len() as int, cases, v, t, is_str, is_char, default, exit),
{
    lemma_more(g.out, table_line(v, default, cases, labels), text);
    reveal(cases_at);
}

pub proof fn lemma_table_line(
    g: GenV,
    h: GenV,
    v: Seq<char>,
    default: Seq<char>,
    cases: Rc<Vec<SwitchCase>>,
    labels: Seq<Seq<char>>,
)
    requires
        h.out == g.out,
    ensures
        line(
            h,
            "switch i64 "@ + v + ", label %"@ + default + " [\n    "@ + entries(cases, labels)
                + "]"@,
        ).out == g.out + table_line(v, default, cases, labels),
{
    reveal(put);
    let text = "switch i64 "@ + v + ", label %"@ + default + " [\n    "@ + entries(cases, labels)
        + "]"@;
    assert(g.out + text + "\n"@ =~= g.out + table_line(v, default, cases, labels));
}

pub proof fn lemma_labels_write_nothing(g: GenV, n: usize)
    ensures
        case_labels_code(g, n).0.out == g.out,
        case_labels_code(g, n).1.len() == n,
    decreases n,
{
    reveal(case_labels_code);
    if n > 0 {
        lemma_labels_write_nothing(g, (n - 1) as usize);
        reveal(label);
    }
}

/// The code behind the cases of a switch: the default body, if there is one, and the end.
#[verifier::opaque]
pub open spec fn switch_end_code(
    sem: Sem,
    g: GenV,
    default_body: Block,
    default: Seq<char>,
    exit: Seq<char>,
) -> GenV {
    let g = if default_body.len() > 0 {
        case_body_code(sem, g, default_body, default, exit)
    } else {
        g
    };
    start(g, exit)
}

/// The block that follows where no case of a switch fits.
#[verifier::opaque]
pub open spec fn default_label_code(g: GenV, default_body: Block, exit: Seq<char>) -> (
    GenV,
    Seq<char>,
) {
    if default_body.len() > 0 {
        label(g, "sw.default"@)
    } else {
        (g, exit)
    }
}

/// The code of a switch behind that of its subject, whose value is `v` of the type `t`.
pub open spec fn switch_rest_code(
    sem: Sem,
    g: GenV,
    s: Stmt,
    v: Seq<char>,
    t: Seq<char>,
    is_str: bool,
    is_char: bool,
) -> GenV {
    match s {
        Stmt::Switch { subject, cases, default_body } => {
            let (g, exit) = label(g, "sw.exit"@);
            let (g, default) = default_label_code(g, default_body, exit);
            let g = switch_cases_code(
                sem,
                g,
                cases,
                v,
                t,
                is_str,
                is_char,
                default,
                exit,
            );
            switch_end_code(sem, g, default_body, default, exit)
        },
        _ => g,
    }
}

/// Whether the end of a switch stands in the text as it should.
#[verifier::opaque]
pub open spec fn end_at(
    text: Seq<char>,
    sem: Sem,
    default_body: Block,
    default: Seq<char>,
    exit: Seq<char>,
) -> bool {
    &&& opens(text, exit, text.len() as int)
    &&& default_body@.len() > 0 ==> block_at(text, sem, default_body, default, exit)
}

/// The end of a switch.
pub proof fn lemma_end(
    sem: Sem,
    e: GenV,
    default_body: Block,
    default: Seq<char>,
    exit: Seq<char>,
)
    requires
        default_body@.len() > 0 ==> block_at(e.out, sem, default_body, default, exit),
    ensures
        end_at(start(e, exit).out, sem, default_body, default, exit),
{
    reveal(end_at);
    let text = start(e, exit).out;
    lemma_opens_end(e, exit, text);
    if default_body@.len() > 0 {
        lemma_block_later(e.out, text, sem, default_body, default, exit);
    }
}

/// The cases of a switch and its end.
pub proof fn lemma_switch(
    text: Seq<char>,
    sem: Sem,
    k: GenV,
    cases: Rc<Vec<SwitchCase>>,
    v: Seq<char>,
    t: Seq<char>,
    is_str: bool,
    is_char: bool,
    default_body: Block,
    default: Seq<char>,
    exit: Seq<char>,
    s: Seq<char>,
)
    requires
        exit == label(k, "sw.exit"@).1,
        default == default_label_code(label(k, "sw.exit"@).0, default_body, exit).1,
        cases_at(s, sem, k.out.len() as int, cases, v, t, is_str, is_char, default, exit),
        begins(text, s),
        end_at(text, sem, default_body, default, exit),
    ensures
        switch_from(text, sem, k.out.len() as int, cases, v, t, is_str, is_char, default_body),
{
    reveal(switch_from);
    reveal(end_at);
    reveal(default_label_code);
    lemma_words();
    lemma_label(k, "sw.exit"@);
    lemma_label(label(k, "sw.exit"@).0, "sw.default"@);
    lemma_cases_later(
        s,
        text,
        sem,
        k.out.len() as int,
        cases,
        v,
        t,
        is_str,
        is_char,
        default,
        exit,
    );
}

proof fn lemma_join_has(segs: Seq<Seq<char>>, sep: Seq<char>, i: int)
    requires
        0 <= i < segs.len(),
    ensures
        exists|j: int| #[trigger] at(join(segs, sep), j, segs[i]),
    decreases segs.len(),
{
    let all = join(segs, sep);
    if segs.len() == 1 {
        assert(all.subrange(0, all.len() as int) =~= segs[0]);
        assert(at(all, 0, segs[i]));
    } else {
        let front = join(segs.drop_last(), sep);
        if i == segs.len() - 1 {
            lemma_at_end(front + sep, segs.last());
            assert(at(all, (front + sep).len() as int, segs[i]));
        } else {
            lemma_join_has(segs.drop_last(), sep, i);
            let j = choose|j: int| #[trigger] at(front, j, segs.drop_last()[i]);
            assert(begins(all, front));
            lemma_at_later(front, all, j, segs[i]);
        }
    }
}

/// A jump table leads from the number of each case to that case's label.
pub proof fn law_jump_table(cases: Rc<Vec<SwitchCase>>, labels: Seq<Seq<char>>, i: int, v: i64)
    requires
        labels.len() == cases@.len(),
        0 <= i < cases@.len(),
        plain_case(cases@[i]),
        cases@[i].patterns@[0].kind == ExprKind::IntLit(v),
    ensures
        exists|j: int| #[trigger]
            at(entries(cases, labels), j, "i64 "@ + dec(v as int) + ", label %"@ + labels[i]),
{
    reveal(entries);
    let segs = Seq::new(
        cases@.len(),
        |i: int|
            if i < labels.len() {
                entry(cases@[i], labels[i])
            } else {
                ""@
            },
    );
    assert(entries(cases, labels) == join(segs, "\n    "@));
    lemma_join_has(segs, "\n    "@, i);
    assert(segs[i] == "i64 "@ + dec(v as int) + ", label %"@ + labels[i]);
}

proof fn lemma_range_texts(dst: Seq<char>, t: Seq<char>, x: Seq<char>, y: Seq<char>)
    ensures
        dst + " = icmp sge "@ + t + " "@ + x + ", "@ + y == dst + " = "@ + ("icmp sge"@ + " "@ + t)
            + " "@ + x + ", "@ + y,
        dst + " = icmp slt "@ + t + " "@ + x + ", "@ + y == dst + " = "@ + ("icmp slt"@ + " "@ + t)
            + " "@ + x + ", "@ + y,
{
    reveal_strlit(" = icmp sge ");
    reveal_strlit(" = icmp slt ");
    reveal_strlit("icmp sge");
    reveal_strlit("icmp slt");
    reveal_strlit(" = ");
    reveal_strlit(" ");
    assert(" = icmp sge "@ =~= " = "@ + "icmp sge"@ + " "@);
    assert(" = icmp slt "@ =~= " = "@ + "icmp slt"@ + " "@);
    assert(dst + " = icmp sge "@ + t + " "@ + x + ", "@ + y =~= dst + " = "@ + ("icmp sge"@ + " "@
        + t) + " "@ + x + ", "@ + y);
    assert(dst + " = icmp slt "@ + t + " "@ + x + ", "@ + y =~= dst + " = "@ + ("icmp slt"@ + " "@
        + t) + " "@ + x + ", "@ + y);
}

/// A range fits a number that is not below its first one and below its second.
pub proof fn law_range_patterns_code(
    sem: Sem,
    g: GenV,
    p: Expr,
    how: HowV,
    lo: Rc<Expr>,
    hi: Rc<Expr>,
    s: State,
    x: int,
    y: int,
    z: int,
)
    requires
        p.kind == (ExprKind::Range { start: lo, end: hi }),
        ({
            let (h, a) = code_of(sem, g, lo);
            let (k, b) = code_of(sem, h, hi);
            &&& roomy(k)
            &&& known(k, how.subject) && known(k, b.v)
            &&& means(s, how.subject, Datum::Int(x))
            &&& means(s, a.v, Datum::Int(y)) && means(s, b.v, Datum::Int(z))
        }),
    ensures
        ({
            let (h, a) = code_of(sem, g, lo);
            let (k, b) = code_of(sem, h, hi);
            exists|t: State| #[trigger]
                ran(k, pattern_code(sem, g, p, how).0, s, t) && means(
                    t,
                    pattern_code(sem, g, p, how).1,
                    Datum::Int(flag(y <= x && x < z)),
                ) && t.slots == s.slots
        }),
{
    let (h, a) = code_of(sem, g, lo);
    let (k, b) = code_of(sem, h, hi);
    let ty = range_ty(how.is_char);
    let n = k.reg as int;
    let (r1, r2, r3) = (register(n + 1), register(n + 2), register(n + 3));
    lemma_registers_differ(n + 1, n + 2);
    let ge = x >= y;
    let lt = x < z;
    let d1 = Deed::Two { dst: r1, m: Mn::Sge, ty, l: how.subject, r: a.v, x, y, d: flag(ge) };
    let s1 = with_reg(s, r1, Datum::Int(flag(ge)));
    assert(does(d1, s, s1));
    lemma_ran_nothing(k, k, s);
    lemma_step_reg(k, k, s, s, d1, s1);
    lemma_range_texts(r1, ty, how.subject, a.v);
    let k1 = line(reg(k).0, line_of(d1));
    let d2 = Deed::Two { dst: r2, m: Mn::Slt, ty, l: how.subject, r: b.v, x, y: z, d: flag(lt) };
    let s2 = with_reg(s1, r2, Datum::Int(flag(lt)));
    assert(how.subject != r1 && b.v != r1);
    assert(means(s1, how.subject, Datum::Int(x)) && means(s1, b.v, Datum::Int(z)));
    assert(does(d2, s1, s2));
    lemma_step_reg(k, k1, s, s1, d2, s2);
    lemma_range_texts(r2, ty, how.subject, b.v);
    let k2 = line(reg(k1).0, line_of(d2));
    let d3 = Deed::Two {
        dst: r3,
        m: Mn::And,
        ty: "i1"@,
        l: r1,
        r: r2,
        x: flag(ge),
        y: flag(lt),
        d: flag(ge && lt),
    };
    let s3 = with_reg(s2, r3, Datum::Int(flag(ge && lt)));
    assert(means(s2, r1, Datum::Int(flag(ge))));
    assert(does(d3, s2, s3));
    lemma_step_reg(k, k2, s, s2, d3, s3);
    lemma_and_line(r3, r1, r2);
    assert(ran(k, pattern_code(sem, g, p, how).0, s, s3));
}

/// A number fits a number that equals it.
pub proof fn law_number_patterns_code(
    sem: Sem,
    g: GenV,
    p: Rc<Expr>,
    how: HowV,
    s: State,
    x: int,
    y: int,
)
    requires
        !(p.kind is Range) && !(p.kind is TypeLit),
        !how.is_str,
        how.test == "icmp eq i64"@,
        ({
            let (h, a) = code_of(sem, g, p);
            &&& roomy(h)
            &&& means(s, how.subject, Datum::Int(x)) && means(s, a.v, Datum::Int(y))
        }),
    ensures
        ({
            let (h, a) = code_of(sem, g, p);
            exists|t: State| #[trigger]
                ran(h, pattern_code(sem, g, *p, how).0, s, t) && means(
                    t,
                    pattern_code(sem, g, *p, how).1,
                    Datum::Int(flag(x == y)),
                ) && t.slots == s.slots
        }),
{
    let (h, a) = code_of(sem, g, p);
    let r1 = register(h.reg + 1);
    let d = Deed::Two {
        dst: r1,
        m: Mn::Eq,
        ty: "i64"@,
        l: how.subject,
        r: a.v,
        x,
        y,
        d: flag(x == y),
    };
    let t = with_reg(s, r1, Datum::Int(flag(x == y)));
    assert(does(d, s, t));
    lemma_ran_nothing(h, h, s);
    lemma_step_reg(h, h, s, s, d, t);
    reveal_strlit("icmp eq i64");
    reveal_strlit("icmp eq");
    reveal_strlit(" ");
    reveal_strlit("i64");
    assert("icmp eq i64"@ =~= "icmp eq"@ + " "@ + "i64"@);
    assert(ran(h, pattern_code(sem, g, *p, how).0, s, t));
}

/// A text fits a text that has the same bytes.
pub proof fn law_text_patterns_code(
    sem: Sem,
    g: GenV,
    p: Rc<Expr>,
    how: HowV,
    s: State,
    x: Datum,
    y: Datum,
    t: Seq<int>,
    u: Seq<int>,
)
    requires
        !(p.kind is Range) && !(p.kind is TypeLit),
        how.is_str,
        ({
            let (h, a) = code_of(sem, g, p);
            &&& roomy(h)
            &&& means(s, how.subject, x) && means(s, a.v, y)
        }),
        text_at(s, x, t),
        text_at(s, y, u),
    ensures
        ({
            let (h, a) = code_of(sem, g, p);
            exists|o: State| #[trigger]
                ran(h, pattern_code(sem, g, *p, how).0, s, o) && means(
                    o,
                    pattern_code(sem, g, *p, how).1,
                    Datum::Int(flag(t == u)),
                ) && o.slots == s.slots
        }),
{
    let (h, a) = code_of(sem, g, p);
    let r1 = register(h.reg + 1);
    let r2 = register(h.reg + 2);
    lemma_bytes_ordered(t, u);
    let d = if t == u {
        0int
    } else if bytes_before(t, u) {
        -1int
    } else {
        1int
    };
    let d1 = Deed::Order { dst: r1, p: how.subject, q: a.v, at: x, bt: y, t, u, d };
    let s1 = with_reg(s, r1, Datum::Int(d));
    assert(does(d1, s, s1));
    lemma_ran_nothing(h, h, s);
    lemma_step_reg(h, h, s, s, d1, s1);
    let h1 = line(reg(h).0, line_of(d1));
    let d2 = Deed::Two {
        dst: r2,
        m: Mn::Eq,
        ty: "i32"@,
        l: r1,
        r: dec(0),
        x: d,
        y: 0,
        d: flag(t == u),
    };
    let s2 = with_reg(s1, r2, Datum::Int(flag(t == u)));
    assert(means(s1, dec(0), Datum::Int(0)));
    assert(does(d2, s1, s2));
    lemma_step_reg(h, h1, s, s1, d2, s2);
    lemma_zero_text(r2, r1);
    assert(ran(h, pattern_code(sem, g, *p, how).0, s, s2));
}

proof fn lemma_zero_text(dst: Seq<char>, x: Seq<char>)
    ensures
        dst + " = icmp eq i32 "@ + x + ", 0"@ == dst + " = "@ + ("icmp eq"@ + " "@ + "i32"@) + " "@
            + x + ", "@ + dec(0),
{
    lemma_one_numeral();
    reveal_strlit(" = icmp eq i32 ");
    reveal_strlit("icmp eq");
    reveal_strlit(" = ");
    reveal_strlit(" ");
    reveal_strlit("i32");
    reveal_strlit(", 0");
    reveal_strlit(", ");
    assert(" = icmp eq i32 "@ =~= " = "@ + ("icmp eq"@ + " "@ + "i32"@) + " "@);
    assert(", 0"@ =~= ", "@ + dec(0));
    assert(dst + " = icmp eq i32 "@ + x + ", 0"@ =~= dst + " = "@ + ("icmp eq"@ + " "@ + "i32"@)
        + " "@ + x + ", "@ + dec(0));
}

} // verus!
