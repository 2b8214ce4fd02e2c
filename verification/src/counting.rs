//! Where control goes in the code of a loop over a range or a table, and what its lines do with
//! the counter.
use crate::ast::{unsigned, Block, Expr, Sem};
use crate::emit::{
    alloca, bind, bound, break_target, continue_target, enter_loop, label, leave_loop, library_call,
    line, mark, open_scope, opt_view, put, reg, start, BindV, GenV,
};
use crate::flow::{
    adds, ends_at, fork, goes, jump, lemma_begins, lemma_body, lemma_body_adds, lemma_fork_text,
    lemma_jump_text, lemma_label, lemma_more, lemma_opens_end, lemma_words, loop_ways, one_word,
    turns,
};
use crate::frames::{begins, law_bound_is_found};
use crate::irtext::elem_suffix;
use crate::llvm::{
    does, flag, in_type, known, lemma_line_text, lemma_ran_line, lemma_ran_nothing, lemma_ran_same,
    lemma_reg, lemma_registers_differ, means, ran, register, roomy, with_reg, Datum, Deed, Mn,
    State,
};
use crate::lower::{
    body_code, depth, expr_code, extend_code, for_dynamic_code, for_range_code, for_table_code,
    loop_end_code, table_len_code, var_elem_code,
};
use crate::numbering::at;
use crate::text::{dec, nat_dec};
use vstd::prelude::*;

verus! {

/// Whether the variable at the address `p` holds the number `x`.
pub open spec fn holds(s: State, p: Datum, x: int) -> bool {
    s.slots.dom().contains(p) && s.slots[p] == Datum::Int(x)
}

/// Whether the code from `h` to `k` tests a counter: it leaves the counter's value in `now`, and in
/// `done` whether the value has come to the limit; no variable changes.
pub open spec fn tests(
    h: GenV,
    k: GenV,
    slot: Seq<char>,
    limit: Seq<char>,
    now: Seq<char>,
    done: Seq<char>,
) -> bool {
    forall|s: State, p: Datum, x: int, y: int|
        roomy(h) && means(s, slot, p) && #[trigger] holds(s, p, x) && #[trigger] means(
            s,
            limit,
            Datum::Int(y),
        ) && known(h, limit) ==> exists|t: State|
            #[trigger]
            ran(h, k, s, t) && means(t, now, Datum::Int(x)) && means(
                t,
                done,
                Datum::Int(flag(x >= y)),
            ) && t.slots == s.slots && t.bytes == s.bytes
}

/// Whether the code from `h` to `k` counts on: the counter becomes the number behind that in `now`.
pub open spec fn counts(h: GenV, k: GenV, slot: Seq<char>, now: Seq<char>) -> bool {
    forall|s: State, p: Datum, x: int| #[trigger]
        means(s, slot, p) && #[trigger] means(s, now, Datum::Int(x)) && roomy(h) && known(h, slot) && in_type(
            x + 1,
            "i64"@,
        ) ==> exists|t: State| #[trigger]
            ran(h, k, s, t) && t.slots == s.slots.insert(p, Datum::Int(x + 1)) && t.bytes
                == s.bytes
}

/// The end of the test of a counter.
pub open spec fn tested(
    h: GenV,
    slot: Seq<char>,
    limit: Seq<char>,
) -> (GenV, Seq<char>, Seq<char>) {
    let (h, now) = reg(h);
    let (h, done) = reg(h);
    let h = line(h, now + " = load i64, ptr "@ + slot);
    (line(h, done + " = icmp sge i64 "@ + now + ", "@ + limit), now, done)
}

/// The end of the step of a counter.
pub open spec fn stepped(h: GenV, slot: Seq<char>, now: Seq<char>) -> GenV {
    let (h, after) = reg(h);
    let h = line(h, after + " = add i64 "@ + now + ", 1"@);
    line(h, "store i64 "@ + after + ", ptr "@ + slot)
}

proof fn lemma_text_of_test(done: Seq<char>, now: Seq<char>, limit: Seq<char>)
    ensures
        done + " = icmp sge i64 "@ + now + ", "@ + limit == done + " = "@ + ("icmp sge"@ + " "@
            + "i64"@) + " "@ + now + ", "@ + limit,
{
    reveal_strlit(" = icmp sge i64 ");
    reveal_strlit(" = ");
    reveal_strlit("icmp sge");
    reveal_strlit(" ");
    reveal_strlit("i64");
    assert(" = icmp sge i64 "@ =~= " = "@ + ("icmp sge"@ + " "@ + "i64"@) + " "@);
    assert(done + " = icmp sge i64 "@ + now + ", "@ + limit =~= done + " = "@ + ("icmp sge"@ + " "@
        + "i64"@) + " "@ + now + ", "@ + limit);
}

proof fn lemma_text_of_load(now: Seq<char>, slot: Seq<char>)
    ensures
        now + " = load i64, ptr "@ + slot == now + " = load "@ + "i64"@ + ", ptr "@ + slot,
        "store i64 "@ + now + ", ptr "@ + slot == "store "@ + "i64"@ + " "@ + now + ", ptr "@ + slot,
{
    reveal_strlit(" = load i64, ptr ");
    reveal_strlit(" = load ");
    reveal_strlit("i64");
    reveal_strlit(", ptr ");
    reveal_strlit("store i64 ");
    reveal_strlit("store ");
    reveal_strlit(" ");
    assert(" = load i64, ptr "@ =~= " = load "@ + "i64"@ + ", ptr "@);
    assert("store i64 "@ =~= "store "@ + "i64"@ + " "@);
    assert(now + " = load i64, ptr "@ + slot =~= now + " = load "@ + "i64"@ + ", ptr "@ + slot);
    assert("store i64 "@ + now + ", ptr "@ + slot =~= "store "@ + "i64"@ + " "@ + now + ", ptr "@
        + slot);
}

proof fn lemma_text_of_step(after: Seq<char>, now: Seq<char>)
    ensures
        after + " = add i64 "@ + now + ", 1"@ == after + " = "@ + ("add"@ + " "@ + "i64"@) + " "@
            + now + ", "@ + dec(1),
{
    reveal_strlit(" = add i64 ");
    reveal_strlit(" = ");
    reveal_strlit("add");
    reveal_strlit(" ");
    reveal_strlit("i64");
    reveal_strlit(", ");
    reveal_strlit(", 1");
    reveal_with_fuel(nat_dec, 2);
    assert(dec(1) =~= seq!['1']);
    assert(" = add i64 "@ =~= " = "@ + ("add"@ + " "@ + "i64"@) + " "@);
    assert(", 1"@ =~= ", "@ + dec(1));
    assert(after + " = add i64 "@ + now + ", 1"@ =~= after + " = "@ + ("add"@ + " "@ + "i64"@)
        + " "@ + now + ", "@ + dec(1));
}

/// A counter is tested against its limit.
pub proof fn law_counters_are_tested(h: GenV, slot: Seq<char>, limit: Seq<char>)
    ensures
        tests(h, tested(h, slot, limit).0, slot, limit, tested(h, slot, limit).1, tested(h, slot, limit).2),
{
    let (k, now, done) = tested(h, slot, limit);
    let h1 = reg(h).0;
    let h2 = reg(h1).0;
    let h3 = line(h2, now + " = load i64, ptr "@ + slot);
    assert forall|s: State, p: Datum, x: int, y: int|
        roomy(h) && means(s, slot, p) && #[trigger] holds(s, p, x) && #[trigger] means(
            s,
            limit,
            Datum::Int(y),
        ) && known(h, limit) implies exists|t: State|
        #[trigger]
        ran(h, k, s, t) && means(t, now, Datum::Int(x)) && means(t, done, Datum::Int(flag(x >= y)))
            && t.slots == s.slots && t.bytes == s.bytes by {
        lemma_reg(h);
        lemma_reg(h1);
        lemma_registers_differ(h.reg + 1, h.reg + 2);
        let load = Deed::Load { dst: now, ty: "i64"@, p: slot, at: p, d: Datum::Int(x) };
        let s1 = with_reg(s, now, Datum::Int(x));
        assert(does(load, s, s1));
        lemma_ran_nothing(h, h2, s);
        lemma_ran_line(h, h2, s, s, load, s1);
        lemma_text_of_load(now, slot);
        let test = Deed::Two {
            dst: done,
            m: Mn::Sge,
            ty: "i64"@,
            l: now,
            r: limit,
            x,
            y,
            d: flag(x >= y),
        };
        let s2 = with_reg(s1, done, Datum::Int(flag(x >= y)));
        assert(limit != register(h.reg + 1));
        assert(means(s1, limit, Datum::Int(y)));
        assert(does(test, s1, s2));
        lemma_ran_line(h, h3, s, s1, test, s2);
        lemma_text_of_test(done, now, limit);
        assert(ran(h, k, s, s2));
        assert(means(s2, now, Datum::Int(x)));
    }
}

/// A counter is counted on by one.
pub proof fn law_counters_count(h: GenV, slot: Seq<char>, now: Seq<char>)
    ensures
        counts(h, stepped(h, slot, now), slot, now),
{
    let k = stepped(h, slot, now);
    let (h1, after) = reg(h);
    let h2 = line(h1, after + " = add i64 "@ + now + ", 1"@);
    assert forall|s: State, p: Datum, x: int| #[trigger]
        means(s, slot, p) && #[trigger] means(s, now, Datum::Int(x)) && roomy(h) && known(h, slot) && in_type(
            x + 1,
            "i64"@,
        ) implies exists|t: State| #[trigger]
        ran(h, k, s, t) && t.slots == s.slots.insert(p, Datum::Int(x + 1)) && t.bytes
            == s.bytes by {
        lemma_reg(h);
        let add = Deed::Two {
            dst: after,
            m: Mn::Add,
            ty: "i64"@,
            l: now,
            r: dec(1),
            x,
            y: 1,
            d: x + 1,
        };
        let s1 = with_reg(s, after, Datum::Int(x + 1));
        assert(means(s, dec(1), Datum::Int(1)));
        assert(does(add, s, s1));
        lemma_ran_nothing(h, h1, s);
        lemma_ran_line(h, h1, s, s, add, s1);
        lemma_text_of_step(after, now);
        let store = Deed::Store { ty: "i64"@, v: after, p: slot, at: p, d: Datum::Int(x + 1) };
        let s2 = State { slots: s1.slots.insert(p, Datum::Int(x + 1)), ..s1 };
        assert(slot != register(h.reg + 1));
        assert(means(s1, slot, p));
        assert(does(store, s1, s2));
        lemma_ran_line(h, h2, s, s1, store, s2);
        lemma_text_of_load(after, slot);
        assert(ran(h, k, s, s2));
    }
}

/// Whether in the text of a loop that counts control goes as it should: from `from` to the test;
/// from the test behind the loop where the limit is reached, and else to the beginning of the
/// round; from the end of the body to the step, and from there back to the test. `next` is where
/// the step begins; a `break` leads behind the loop, a `continue` to the step.
pub open spec fn rounds(
    text: Seq<char>,
    sem: Sem,
    tag: Option<Seq<char>>,
    body: Block,
    from: int,
    h: GenV,
    k: GenV,
    done: Seq<char>,
    u: GenV,
    a: GenV,
    n: GenV,
    m: GenV,
) -> bool {
    &&& goes(text, from, h.out.len() as int)
    &&& begins(text, h.out) && begins(text, k.out) && begins(text, u.out) && begins(text, a.out)
    &&& begins(text, n.out) && begins(text, m.out)
    &&& turns(text, k.out.len() as int, done, true, text.len() as int)
    &&& turns(text, k.out.len() as int, done, false, u.out.len() as int)
    &&& ends_at(text, sem, a, body, n.out.len() as int)
    &&& goes(text, m.out.len() as int, h.out.len() as int)
    &&& loop_ways(text, a, tag, n.out.len() as int, text.len() as int)
}

proof fn lemma_rounds(
    sem: Sem,
    tag: Option<Seq<char>>,
    body: Block,
    h4: GenV,
    h: GenV,
    k: GenV,
    done: Seq<char>,
    u: GenV,
    a: GenV,
    slot: Seq<char>,
    now: Seq<char>,
    again: Seq<char>,
    inside: Seq<char>,
    next: Seq<char>,
    exit: Seq<char>,
)
    requires
        one_word(again) && one_word(inside) && one_word(next) && one_word(exit),
        h == start(line(h4, "br label %"@ + again), again),
        begins(k.out, h.out),
        u == start(line(k, "br i1 "@ + done + ", label %"@ + exit + ", label %"@ + inside), inside),
        begins(a.out, u.out),
        adds(sem, a, body),
        break_target(a, None) == exit,
        break_target(a, tag) == exit,
        continue_target(a, None) == next,
        continue_target(a, tag) == next,
    ensures
        ({
            let n = start(body_code(sem, a, body, next), next);
            let m = stepped(n, slot, now);
            rounds(
                loop_end_code(sem, a, body, slot, now, again, next, exit).out,
                sem,
                tag,
                body,
                h4.out.len() as int,
                h,
                k,
                done,
                u,
                a,
                n,
                m,
            )
        }),
{
    let y = body_code(sem, a, body, next);
    let n = start(y, next);
    let m = stepped(n, slot, now);
    let z = line(m, "br label %"@ + again);
    let w = leave_loop(z);
    let text = start(w, exit).out;
    assert(w.out == z.out) by {
        reveal(leave_loop);
    }
    lemma_jump_text(m, again);
    lemma_opens_end(w, exit, text);
    lemma_more(m.out, jump(again), text);
    assert(begins(m.out, n.out)) by {
        reveal(put);
        reveal(reg);
    }
    lemma_begins(n.out, m.out, text);
    lemma_opens_end(y, next, text);
    lemma_body_adds(sem, a, body, next);
    lemma_begins(a.out, y.out, text);
    lemma_begins(u.out, a.out, text);
    let k1 = line(k, "br i1 "@ + done + ", label %"@ + exit + ", label %"@ + inside);
    lemma_fork_text(k, done, exit, inside);
    lemma_opens_end(k1, inside, text);
    lemma_more(k.out, fork(done, exit, inside), text);
    lemma_begins(h.out, k.out, text);
    let h5 = line(h4, "br label %"@ + again);
    lemma_jump_text(h4, again);
    lemma_opens_end(h5, again, text);
    lemma_more(h4.out, jump(again), text);
    lemma_body(sem, a, body, next, text, n.out.len() as int);
    assert(goes(text, h4.out.len() as int, h.out.len() as int));
    assert(goes(text, m.out.len() as int, h.out.len() as int));
    assert(turns(text, k.out.len() as int, done, true, text.len() as int));
    assert(turns(text, k.out.len() as int, done, false, u.out.len() as int));
}

/// Whether in the text of a loop over a range the variable counts from the first number to the
/// one before the second: it is set to the first, tested against the second before each round,
/// and counted on after it.
#[verifier::opaque]
pub open spec fn range_counts(
    sem: Sem,
    g: GenV,
    tag: Option<Seq<char>>,
    var: Seq<char>,
    lo: Expr,
    hi: Expr,
    body: Block,
    text: Seq<char>,
) -> bool {
    let (g1, x) = expr_code(sem, g, lo, depth(sem));
    let (g2, y) = expr_code(sem, g1, hi, depth(sem));
    let (g3, from) = extend_code(g2, x.v, x.t, unsigned(lo));
    let (g4, limit) = extend_code(g3, y.v, y.t, unsigned(hi));
    let (g5, slot) = alloca(g4, "i64"@);
    exists|f: GenV, h: GenV, k: GenV, a: GenV, n: GenV, m: GenV, now: Seq<char>, done: Seq<char>|
        {
            &&& #[trigger] sets(g5, f, slot, from)
            &&& #[trigger] rounds(text, sem, tag, body, f.out.len() as int, h, k, done, a, a, n, m)
            &&& #[trigger] tests(h, k, slot, limit, now, done)
            &&& counts(n, m, slot, now)
            &&& bound(a, var) == Some(BindV { value: slot, ty: "i64"@ })
        }
}

/// Whether the code from `h` to `k` sets a variable of 64 bits.
pub open spec fn sets(h: GenV, k: GenV, slot: Seq<char>, v: Seq<char>) -> bool {
    forall|s: State, p: Datum, x: int| #[trigger]
        means(s, slot, p) && #[trigger] means(s, v, Datum::Int(x)) ==> exists|t: State| #[trigger]
            ran(h, k, s, t) && t.slots == s.slots.insert(p, Datum::Int(x)) && t.regs == s.regs
                && t.bytes == s.bytes
}

proof fn lemma_sets(h: GenV, slot: Seq<char>, v: Seq<char>)
    ensures
        sets(h, line(h, "store i64 "@ + v + ", ptr "@ + slot), slot, v),
{
    let k = line(h, "store i64 "@ + v + ", ptr "@ + slot);
    assert forall|s: State, p: Datum, x: int| #[trigger]
        means(s, slot, p) && #[trigger] means(s, v, Datum::Int(x)) implies exists|t: State|
        #[trigger]
        ran(h, k, s, t) && t.slots == s.slots.insert(p, Datum::Int(x)) && t.regs == s.regs
            && t.bytes == s.bytes by {
        let store = Deed::Store { ty: "i64"@, v, p: slot, at: p, d: Datum::Int(x) };
        let t = State { slots: s.slots.insert(p, Datum::Int(x)), ..s };
        assert(does(store, s, t));
        lemma_ran_nothing(h, h, s);
        lemma_ran_line(h, h, s, s, store, t);
        lemma_text_of_load(v, slot);
        assert(ran(h, k, s, t));
    }
}

/// Where the body of a loop over a range begins.
pub open spec fn range_body(
    sem: Sem,
    g: GenV,
    tag: Option<Seq<char>>,
    var: Seq<char>,
    lo: Expr,
    hi: Expr,
) -> GenV {
    let (g, x) = expr_code(sem, g, lo, depth(sem));
    let (g, y) = expr_code(sem, g, hi, depth(sem));
    let (g, from) = extend_code(g, x.v, x.t, unsigned(lo));
    let (g, limit) = extend_code(g, y.v, y.t, unsigned(hi));
    let (g, slot) = alloca(g, "i64"@);
    let g = line(g, "store i64 "@ + from + ", ptr "@ + slot);
    let (g, again) = label(g, "for.cond"@);
    let (g, inside) = label(g, "for.body"@);
    let (g, next) = label(g, "for.step"@);
    let (g, exit) = label(g, "for.exit"@);
    let g = start(line(enter_loop(g, tag, next, exit), "br label %"@ + again), again);
    let (g, now, done) = tested(g, slot, limit);
    let g = start(line(g, "br i1 "@ + done + ", label %"@ + exit + ", label %"@ + inside), inside);
    bind(open_scope(g), var, slot, "i64"@)
}

/// A loop over a range executes its body once for each number from the first one on, in their
/// order, while it is below the second.
pub proof fn law_range_code(
    sem: Sem,
    g: GenV,
    tag: Option<String>,
    var: Seq<char>,
    lo: Expr,
    hi: Expr,
    body: Block,
)
    requires
        adds(sem, range_body(sem, g, opt_view(tag), var, lo, hi), body),
    ensures
        range_counts(
            sem,
            g,
            opt_view(tag),
            var,
            lo,
            hi,
            body,
            for_range_code(sem, g, tag, var, lo, hi, body).out,
        ),
{
    lemma_words();
    let view = opt_view(tag);
    let (g1, x) = expr_code(sem, g, lo, depth(sem));
    let (g2, y) = expr_code(sem, g1, hi, depth(sem));
    let (g3, from) = extend_code(g2, x.v, x.t, unsigned(lo));
    let (g4, limit) = extend_code(g3, y.v, y.t, unsigned(hi));
    let (g5, slot) = alloca(g4, "i64"@);
    let f = line(g5, "store i64 "@ + from + ", ptr "@ + slot);
    lemma_sets(g5, slot, from);
    let (h1, again) = label(f, "for.cond"@);
    let (h2, inside) = label(h1, "for.body"@);
    let (h3, next) = label(h2, "for.step"@);
    let (h4, exit) = label(h3, "for.exit"@);
    lemma_label(f, "for.cond"@);
    lemma_label(h1, "for.body"@);
    lemma_label(h2, "for.step"@);
    lemma_label(h3, "for.exit"@);
    let h5 = enter_loop(h4, view, next, exit);
    let h = start(line(h5, "br label %"@ + again), again);
    let (k, now, done) = tested(h, slot, limit);
    let u = start(line(k, "br i1 "@ + done + ", label %"@ + exit + ", label %"@ + inside), inside);
    let a = range_body(sem, g, view, var, lo, hi);
    let n = start(body_code(sem, a, body, next), next);
    let m = stepped(n, slot, now);
    assert(h5.out == f.out) by {
        reveal(enter_loop);
    }
    law_counters_are_tested(h, slot, limit);
    law_counters_count(n, slot, now);
    lemma_test_adds(h, slot, limit);
    lemma_names_inside(h4, view, next, exit, again, h, k, done, inside, u, u, var, slot, "i64"@, a);
    lemma_rounds(sem, view, body, h5, h, k, done, u, a, slot, now, again, inside, next, exit);
    let text = for_range_code(sem, g, tag, var, lo, hi, body).out;
    assert(text == loop_end_code(sem, a, body, slot, now, again, next, exit).out);
    assert(rounds(text, sem, view, body, f.out.len() as int, h, k, done, a, a, n, m));
    reveal(range_counts);
}

/// Whether the code from `h` to `k` takes an element of a table of fixed length: the variable at
/// `item` becomes what the element with the number in `now` holds.
pub open spec fn takes(h: GenV, k: GenV, arr: Seq<char>, now: Seq<char>, item: Seq<char>) -> bool {
    forall|s: State, b: int, o: int, i: int, q: Datum|
        #![trigger means(s, arr, Datum::Ptr(b, o)), means(s, now, Datum::Int(i)), means(s, item, q)]
        means(s, arr, Datum::Ptr(b, o)) && means(s, now, Datum::Int(i)) && means(s, item, q)
            && roomy(h) && known(h, item) && s.slots.dom().contains(Datum::Ptr(b, o + i)) ==> exists|t: State|
            #[trigger]
            ran(h, k, s, t) && t.slots == s.slots.insert(q, s.slots[Datum::Ptr(b, o + i)])
                && t.bytes == s.bytes
}

/// The end of the code that takes an element.
pub open spec fn taken(
    g: GenV,
    arr: Seq<char>,
    arr_ty: Seq<char>,
    now: Seq<char>,
    elem: Seq<char>,
    item: Seq<char>,
) -> GenV {
    let (g, ptr) = reg(g);
    let g = line(g, ptr + " = getelementptr "@ + arr_ty + ", ptr "@ + arr + ", i64 0, i64 "@ + now);
    let (g, val) = reg(g);
    let g = line(g, val + " = load "@ + elem + ", ptr "@ + ptr);
    line(g, "store "@ + elem + " "@ + val + ", ptr "@ + item)
}

/// An element of a table of fixed length is taken by its number.
pub proof fn law_elements_are_taken(
    h: GenV,
    arr: Seq<char>,
    arr_ty: Seq<char>,
    now: Seq<char>,
    elem: Seq<char>,
    item: Seq<char>,
)
    ensures
        takes(h, taken(h, arr, arr_ty, now, elem, item), arr, now, item),
{
    let k = taken(h, arr, arr_ty, now, elem, item);
    let (h1, ptr) = reg(h);
    let h2 = line(
        h1,
        ptr + " = getelementptr "@ + arr_ty + ", ptr "@ + arr + ", i64 0, i64 "@ + now,
    );
    let (h3, val) = reg(h2);
    let h4 = line(h3, val + " = load "@ + elem + ", ptr "@ + ptr);
    assert forall|s: State, b: int, o: int, i: int, q: Datum|
        #![trigger means(s, arr, Datum::Ptr(b, o)), means(s, now, Datum::Int(i)), means(s, item, q)]
        means(s, arr, Datum::Ptr(b, o)) && means(s, now, Datum::Int(i)) && means(s, item, q)
            && roomy(h) && known(h, item) && s.slots.dom().contains(
            Datum::Ptr(b, o + i),
        ) implies exists|t: State| #[trigger]
        ran(h, k, s, t) && t.slots == s.slots.insert(q, s.slots[Datum::Ptr(b, o + i)]) && t.bytes
            == s.bytes by {
        lemma_reg(h);
        lemma_line_text(
            h1,
            ptr + " = getelementptr "@ + arr_ty + ", ptr "@ + arr + ", i64 0, i64 "@ + now,
        );
        lemma_reg(h2);
        lemma_registers_differ(h.reg + 1, h.reg + 2);
        let at = Datum::Ptr(b, o + i);
        let d = s.slots[at];
        let d1 = Deed::Element { dst: ptr, ty: arr_ty, p: arr, n: now, b, o, i };
        let s1 = with_reg(s, ptr, at);
        assert(does(d1, s, s1));
        lemma_ran_nothing(h, h1, s);
        lemma_ran_line(h, h1, s, s, d1, s1);
        lemma_ran_same(h, h2, h3, s, s1);
        let d2 = Deed::Load { dst: val, ty: elem, p: ptr, at, d };
        let s2 = with_reg(s1, val, d);
        assert(does(d2, s1, s2));
        lemma_ran_line(h, h3, s, s1, d2, s2);
        let d3 = Deed::Store { ty: elem, v: val, p: item, at: q, d };
        let s3 = State { slots: s2.slots.insert(q, d), ..s2 };
        assert(item != register(h.reg + 1) && item != register(h.reg + 2));
        assert(means(s2, item, q));
        assert(does(d3, s2, s3));
        lemma_ran_line(h, h4, s, s2, d3, s3);
        assert(ran(h, k, s, s3));
    }
}

/// Whether in the text of a loop over a table of fixed length the variable takes the elements
/// one after the other: a counter runs from zero to the length, and before each round the
/// variable becomes the element with the counter's number.
#[verifier::opaque]
pub open spec fn table_counts(
    sem: Sem,
    g: GenV,
    tag: Option<Seq<char>>,
    var: Seq<char>,
    arr: Seq<char>,
    len: Seq<char>,
    elem: Seq<char>,
    body: Block,
    text: Seq<char>,
) -> bool {
    let (g1, slot) = alloca(g, "i64"@);
    exists|
        f: GenV,
        item: Seq<char>,
        h: GenV,
        k: GenV,
        u: GenV,
        a: GenV,
        n: GenV,
        m: GenV,
        now: Seq<char>,
        done: Seq<char>,
    |
        {
            &&& #[trigger] sets(g1, f, slot, dec(0))
            &&& #[trigger] rounds(text, sem, tag, body, f.out.len() as int, h, k, done, u, a, n, m)
            &&& #[trigger] tests(h, k, slot, len, now, done)
            &&& counts(n, m, slot, now)
            &&& takes(u, a, arr, now, item)
            &&& roomy(g) ==> item != slot
            &&& bound(a, var) == Some(#[trigger] var_at(item, elem))
        }
}

/// A variable of a type at an address.
pub open spec fn var_at(value: Seq<char>, ty: Seq<char>) -> BindV {
    BindV { value, ty }
}

/// Where the body of a loop over a table of fixed length begins.
pub open spec fn table_body(
    g: GenV,
    tag: Option<Seq<char>>,
    var: Seq<char>,
    arr: Seq<char>,
    arr_ty: Seq<char>,
    len: Seq<char>,
    elem: Seq<char>,
) -> GenV {
    let (g, slot) = alloca(g, "i64"@);
    let g = line(g, "store i64 0, ptr "@ + slot);
    let (g, item) = alloca(g, elem);
    let (g, again) = label(g, "for.cond"@);
    let (g, inside) = label(g, "for.body"@);
    let (g, next) = label(g, "for.step"@);
    let (g, exit) = label(g, "for.exit"@);
    let g = start(line(enter_loop(g, tag, next, exit), "br label %"@ + again), again);
    let (g, now, done) = tested(g, slot, len);
    let g = start(line(g, "br i1 "@ + done + ", label %"@ + exit + ", label %"@ + inside), inside);
    bind(open_scope(taken(g, arr, arr_ty, now, elem, item)), var, item, elem)
}

/// A loop over a table of fixed length executes its body once for each element, in their order.
pub proof fn law_table_code(
    sem: Sem,
    g: GenV,
    tag: Option<String>,
    var: Seq<char>,
    arr: Seq<char>,
    arr_ty: Seq<char>,
    len: Seq<char>,
    elem: Seq<char>,
    body: Block,
)
    requires
        adds(sem, table_body(g, opt_view(tag), var, arr, arr_ty, len, elem), body),
    ensures
        table_counts(
            sem,
            g,
            opt_view(tag),
            var,
            arr,
            len,
            elem,
            body,
            for_table_code(sem, g, tag, var, arr, arr_ty, len, elem, body).out,
        ),
{
    lemma_words();
    let view = opt_view(tag);
    let (g1, slot) = alloca(g, "i64"@);
    let g2 = line(g1, "store i64 0, ptr "@ + slot);
    lemma_sets(g1, slot, dec(0));
    lemma_text_of_zero(slot);
    let (f, item) = alloca(g2, elem);
    assert(f.out == g2.out && (roomy(g) ==> item != slot)) by {
        reveal(alloca);
        reveal(put);
        assert(reg(g2).0.out == g2.out) by {
            reveal(reg);
        }
        if roomy(g) {
            lemma_reg(g);
            lemma_reg(g2);
            lemma_registers_differ(g.reg + 1, g.reg + 2);
        }
    }
    let (h1, again) = label(f, "for.cond"@);
    let (h2, inside) = label(h1, "for.body"@);
    let (h3, next) = label(h2, "for.step"@);
    let (h4, exit) = label(h3, "for.exit"@);
    lemma_label(f, "for.cond"@);
    lemma_label(h1, "for.body"@);
    lemma_label(h2, "for.step"@);
    lemma_label(h3, "for.exit"@);
    let h5 = enter_loop(h4, view, next, exit);
    let h = start(line(h5, "br label %"@ + again), again);
    let (k, now, done) = tested(h, slot, len);
    let u = start(line(k, "br i1 "@ + done + ", label %"@ + exit + ", label %"@ + inside), inside);
    let v = taken(u, arr, arr_ty, now, elem, item);
    let a = table_body(g, view, var, arr, arr_ty, len, elem);
    let n = start(body_code(sem, a, body, next), next);
    let m = stepped(n, slot, now);
    assert(h5.out == f.out) by {
        reveal(enter_loop);
    }
    law_counters_are_tested(h, slot, len);
    law_counters_count(n, slot, now);
    law_elements_are_taken(u, arr, arr_ty, now, elem, item);
    lemma_test_adds(h, slot, len);
    assert(begins(v.out, u.out) && v.loops == u.loops) by {
        reveal(put);
        reveal(reg);
    }
    lemma_names_inside(h4, view, next, exit, again, h, k, done, inside, u, v, var, item, elem, a);
    lemma_takes_same(u, v, a, arr, now, item);
    lemma_rounds(sem, view, body, h5, h, k, done, u, a, slot, now, again, inside, next, exit);
    let text = for_table_code(sem, g, tag, var, arr, arr_ty, len, elem, body).out;
    assert(text == loop_end_code(sem, a, body, slot, now, again, next, exit).out);
    assert(rounds(text, sem, view, body, f.out.len() as int, h, k, done, u, a, n, m));
    reveal(table_counts);
    assert(sets(g1, f, slot, dec(0))) by {
        lemma_sets_same(g1, g2, f, slot, dec(0));
    }
    assert(bound(a, var) == Some(var_at(item, elem)));
}

proof fn lemma_text_of_zero(slot: Seq<char>)
    ensures
        "store i64 0, ptr "@ + slot == "store i64 "@ + dec(0) + ", ptr "@ + slot,
{
    reveal_strlit("store i64 0, ptr ");
    reveal_strlit("store i64 ");
    reveal_strlit(", ptr ");
    reveal_with_fuel(nat_dec, 2);
    assert(dec(0) =~= seq!['0']);
    assert("store i64 0, ptr "@ =~= "store i64 "@ + dec(0) + ", ptr "@);
    assert("store i64 0, ptr "@ + slot =~= "store i64 "@ + dec(0) + ", ptr "@ + slot);
}

proof fn lemma_sets_same(h: GenV, k: GenV, l: GenV, slot: Seq<char>, v: Seq<char>)
    requires
        sets(h, k, slot, v),
        l.out == k.out,
    ensures
        sets(h, l, slot, v),
{
    assert forall|s: State, p: Datum, x: int| #[trigger]
        means(s, slot, p) && #[trigger] means(s, v, Datum::Int(x)) implies exists|t: State|
        #[trigger]
        ran(h, l, s, t) && t.slots == s.slots.insert(p, Datum::Int(x)) && t.regs == s.regs
            && t.bytes == s.bytes by {
        let t = choose|t: State| #[trigger]
            ran(h, k, s, t) && t.slots == s.slots.insert(p, Datum::Int(x)) && t.regs == s.regs
                && t.bytes == s.bytes;
        lemma_ran_same(h, k, l, s, t);
    }
}

proof fn lemma_takes_same(
    h: GenV,
    k: GenV,
    l: GenV,
    arr: Seq<char>,
    now: Seq<char>,
    item: Seq<char>,
)
    requires
        takes(h, k, arr, now, item),
        l.out == k.out,
    ensures
        takes(h, l, arr, now, item),
{
    assert forall|s: State, b: int, o: int, i: int, q: Datum|
        #![trigger means(s, arr, Datum::Ptr(b, o)), means(s, now, Datum::Int(i)), means(s, item, q)]
        means(s, arr, Datum::Ptr(b, o)) && means(s, now, Datum::Int(i)) && means(s, item, q)
            && roomy(h) && known(h, item) && s.slots.dom().contains(
            Datum::Ptr(b, o + i),
        ) implies exists|t: State| #[trigger]
        ran(h, l, s, t) && t.slots == s.slots.insert(q, s.slots[Datum::Ptr(b, o + i)]) && t.bytes
            == s.bytes by {
        let t = choose|t: State| #[trigger]
            ran(h, k, s, t) && t.slots == s.slots.insert(q, s.slots[Datum::Ptr(b, o + i)])
                && t.bytes == s.bytes;
        lemma_ran_same(h, k, l, s, t);
    }
}

proof fn lemma_names_inside(
    g: GenV,
    tag: Option<Seq<char>>,
    next: Seq<char>,
    exit: Seq<char>,
    again: Seq<char>,
    h: GenV,
    k: GenV,
    done: Seq<char>,
    inside: Seq<char>,
    u: GenV,
    v: GenV,
    var: Seq<char>,
    item: Seq<char>,
    ty: Seq<char>,
    a: GenV,
)
    requires
        h == start(line(enter_loop(g, tag, next, exit), "br label %"@ + again), again),
        k.loops == h.loops,
        u == start(line(k, "br i1 "@ + done + ", label %"@ + exit + ", label %"@ + inside), inside),
        v.loops == u.loops,
        a == bind(open_scope(v), var, item, ty),
    ensures
        a.out == v.out,
        break_target(a, None) == exit,
        break_target(a, tag) == exit,
        continue_target(a, None) == next,
        continue_target(a, tag) == next,
        bound(a, var) == Some(BindV { value: item, ty }),
{
    reveal(put);
    reveal(open_scope);
    reveal(enter_loop);
    reveal(break_target);
    reveal(continue_target);
    reveal(bind);
    law_bound_is_found(open_scope(v), var, item, ty, var);
}

// ---------- dynamic tables ----------
/// Whether the code from `h` to `k` reads a counter into `now`.
pub open spec fn reads(h: GenV, k: GenV, slot: Seq<char>, now: Seq<char>) -> bool {
    forall|s: State, p: Datum, x: int|
        roomy(h) && #[trigger] means(s, slot, p) && #[trigger] holds(s, p, x) ==> exists|t: State|
            #[trigger]
            ran(h, k, s, t) && means(t, now, Datum::Int(x)) && t.slots == s.slots && t.bytes
                == s.bytes
}

/// Whether the code from `h` to `k` leaves in `done` whether `now` has come to `len`.
pub open spec fn reaches(
    h: GenV,
    k: GenV,
    now: Seq<char>,
    len: Seq<char>,
    done: Seq<char>,
) -> bool {
    forall|s: State, x: int, y: int|
        roomy(h) && #[trigger] means(s, now, Datum::Int(x)) && #[trigger] means(
            s,
            len,
            Datum::Int(y),
        ) ==> exists|t: State| #[trigger]
            ran(h, k, s, t) && means(t, done, Datum::Int(flag(x >= y))) && t.slots == s.slots
                && t.bytes == s.bytes
}

/// Whether the text from `h` to `k` asks the library for the element `now` of the table `t`, and
/// keeps it at `item`.
pub open spec fn fetches(
    h: GenV,
    k: GenV,
    t: Seq<char>,
    now: Seq<char>,
    elem: Seq<char>,
    item: Seq<char>,
    ok: Seq<char>,
    val: Seq<char>,
) -> bool {
    k.out == h.out + (val + " = call "@ + elem + " @"@ + ("tie_table_at_"@ + elem_suffix(elem))
        + "("@ + ("ptr "@ + t + ", i64 "@ + now + ", ptr "@ + ok) + ")"@ + "\n"@) + ("store "@ + elem
        + " "@ + val + ", ptr "@ + item + "\n"@)
}

proof fn lemma_reads(h: GenV, slot: Seq<char>)
    ensures
        reads(h, line(reg(h).0, reg(h).1 + " = load i64, ptr "@ + slot), slot, reg(h).1),
{
    let (h1, now) = reg(h);
    let k = line(h1, now + " = load i64, ptr "@ + slot);
    assert forall|s: State, p: Datum, x: int|
        roomy(h) && #[trigger] means(s, slot, p) && #[trigger] holds(s, p, x) implies exists|
        t: State,
    | #[trigger]
        ran(h, k, s, t) && means(t, now, Datum::Int(x)) && t.slots == s.slots && t.bytes
            == s.bytes by {
        lemma_reg(h);
        let load = Deed::Load { dst: now, ty: "i64"@, p: slot, at: p, d: Datum::Int(x) };
        let s1 = with_reg(s, now, Datum::Int(x));
        assert(does(load, s, s1));
        lemma_ran_nothing(h, h1, s);
        lemma_ran_line(h, h1, s, s, load, s1);
        lemma_text_of_load(now, slot);
        assert(ran(h, k, s, s1));
    }
}

proof fn lemma_reaches(h: GenV, now: Seq<char>, len: Seq<char>)
    ensures
        reaches(
            h,
            line(reg(h).0, reg(h).1 + " = icmp sge i64 "@ + now + ", "@ + len),
            now,
            len,
            reg(h).1,
        ),
{
    let (h1, done) = reg(h);
    let k = line(h1, done + " = icmp sge i64 "@ + now + ", "@ + len);
    assert forall|s: State, x: int, y: int|
        roomy(h) && #[trigger] means(s, now, Datum::Int(x)) && #[trigger] means(
            s,
            len,
            Datum::Int(y),
        ) implies exists|t: State| #[trigger]
        ran(h, k, s, t) && means(t, done, Datum::Int(flag(x >= y))) && t.slots == s.slots
            && t.bytes == s.bytes by {
        lemma_reg(h);
        let test = Deed::Two {
            dst: done,
            m: Mn::Sge,
            ty: "i64"@,
            l: now,
            r: len,
            x,
            y,
            d: flag(x >= y),
        };
        let s1 = with_reg(s, done, Datum::Int(flag(x >= y)));
        assert(does(test, s, s1));
        lemma_ran_nothing(h, h1, s);
        lemma_ran_line(h, h1, s, s, test, s1);
        lemma_text_of_test(done, now, len);
        assert(ran(h, k, s, s1));
    }
}

/// Whether in the text of a loop over a dynamic table the variable takes the elements one after
/// the other: a counter runs from zero to the length that the table has before the round, and in
/// each round the variable becomes the element with the counter's number.
#[verifier::opaque]
pub open spec fn dynamic_counts(
    sem: Sem,
    g: GenV,
    tag: Option<Seq<char>>,
    var: Seq<char>,
    name: Seq<char>,
    addr: Seq<char>,
    body: Block,
    text: Seq<char>,
) -> bool {
    let (g1, elem) = var_elem_code(sem, g, name);
    exists|
        p: GenV,
        f: GenV,
        h: GenV,
        h1: GenV,
        k0: GenV,
        k: GenV,
        u: GenV,
        w: GenV,
        a: GenV,
        n: GenV,
        m: GenV,
        t: Seq<char>,
        slot: Seq<char>,
        item: Seq<char>,
        ok: Seq<char>,
        now: Seq<char>,
        len: Seq<char>,
        done: Seq<char>,
        val: Seq<char>,
    |
        {
            &&& at(text, g1.out.len() as int, t + " = load ptr, ptr "@ + addr + "\n"@)
            &&& #[trigger] sets(p, f, slot, dec(0))
            &&& #[trigger] rounds(text, sem, tag, body, f.out.len() as int, h, k, done, u, a, n, m)
            &&& #[trigger] reads(h, h1, slot, now)
            &&& (k0, len) == table_len_code(h1, t)
            &&& #[trigger] reaches(k0, k, now, len, done)
            &&& counts(n, m, slot, now)
            &&& begins(w.out, u.out)
            &&& #[trigger] fetches(w, a, t, now, elem, item, ok, val)
            &&& bound(a, var) == Some(var_at(item, elem))
        }
}

/// Where the body of a loop over a dynamic table begins.
pub open spec fn dynamic_body(
    sem: Sem,
    g: GenV,
    tag: Option<Seq<char>>,
    var: Seq<char>,
    name: Seq<char>,
    addr: Seq<char>,
) -> GenV {
    let (g, elem) = var_elem_code(sem, g, name);
    let g = mark(g, "tie_table_at_"@ + elem_suffix(elem));
    let (g, t) = reg(g);
    let g = line(g, t + " = load ptr, ptr "@ + addr);
    let (g, slot) = alloca(g, "i64"@);
    let g = line(g, "store i64 0, ptr "@ + slot);
    let (g, item) = alloca(g, elem);
    let (g, again) = label(g, "for.cond"@);
    let (g, inside) = label(g, "for.body"@);
    let (g, next) = label(g, "for.step"@);
    let (g, exit) = label(g, "for.exit"@);
    let g = start(line(enter_loop(g, tag, next, exit), "br label %"@ + again), again);
    let (g, now) = reg(g);
    let g = line(g, now + " = load i64, ptr "@ + slot);
    let (g, len) = table_len_code(g, t);
    let (g, done) = reg(g);
    let g = line(g, done + " = icmp sge i64 "@ + now + ", "@ + len);
    let g = start(line(g, "br i1 "@ + done + ", label %"@ + exit + ", label %"@ + inside), inside);
    let (g, ok) = alloca(g, "i1"@);
    let g = line(g, "store i1 1, ptr "@ + ok);
    let (g, val) = reg(g);
    let g = library_call(
        g,
        val + " = call "@ + elem,
        "tie_table_at_"@ + elem_suffix(elem),
        "ptr "@ + t + ", i64 "@ + now + ", ptr "@ + ok,
    );
    let g = line(g, "store "@ + elem + " "@ + val + ", ptr "@ + item);
    bind(open_scope(g), var, item, elem)
}

proof fn lemma_first_line(g: GenV, symbol: Seq<char>, text: Seq<char>)
    ensures
        line(reg(mark(g, symbol)).0, text).out == g.out + (text + "\n"@),
{
    reveal(mark);
    reveal(reg);
    reveal(put);
    assert(g.out + text + "\n"@ =~= g.out + (text + "\n"@));
}

proof fn lemma_slots_add(g: GenV, slot: Seq<char>, elem: Seq<char>, h: GenV, again: Seq<char>)
    requires
        h.out == alloca(line(alloca(g, "i64"@).0, "store i64 0, ptr "@ + slot), elem).0.out,
    ensures
        begins(start(line(h, "br label %"@ + again), again).out, g.out),
{
    reveal(alloca);
    reveal(reg);
    reveal(put);
}

proof fn lemma_len_adds(h: GenV, slot: Seq<char>, t: Seq<char>)
    ensures
        ({
            let now = reg(h).1;
            let h1 = line(reg(h).0, now + " = load i64, ptr "@ + slot);
            let (k0, len) = table_len_code(h1, t);
            let k = line(reg(k0).0, reg(k0).1 + " = icmp sge i64 "@ + now + ", "@ + len);
            begins(k.out, h.out) && k.loops == h.loops
        }),
{
    reveal(put);
    reveal(reg);
    reveal(mark);
    reveal(library_call);
}

proof fn lemma_fetches(
    u: GenV,
    t: Seq<char>,
    now: Seq<char>,
    elem: Seq<char>,
    item: Seq<char>,
)
    ensures
        ({
            let (u1, ok) = alloca(u, "i1"@);
            let w = line(u1, "store i1 1, ptr "@ + ok);
            let val = reg(w).1;
            let v1 = library_call(
                reg(w).0,
                val + " = call "@ + elem,
                "tie_table_at_"@ + elem_suffix(elem),
                "ptr "@ + t + ", i64 "@ + now + ", ptr "@ + ok,
            );
            let v = line(v1, "store "@ + elem + " "@ + val + ", ptr "@ + item);
            &&& begins(w.out, u.out)
            &&& begins(v.out, u.out)
            &&& v.loops == u.loops
            &&& fetches(w, v, t, now, elem, item, ok, val)
        }),
{
    let (u1, ok) = alloca(u, "i1"@);
    let w = line(u1, "store i1 1, ptr "@ + ok);
    let val = reg(w).1;
    let v1 = library_call(
        reg(w).0,
        val + " = call "@ + elem,
        "tie_table_at_"@ + elem_suffix(elem),
        "ptr "@ + t + ", i64 "@ + now + ", ptr "@ + ok,
    );
    let v = line(v1, "store "@ + elem + " "@ + val + ", ptr "@ + item);
    reveal(alloca);
    reveal(put);
    reveal(reg);
    reveal(mark);
    reveal(library_call);
    let call = val + " = call "@ + elem + " @"@ + ("tie_table_at_"@ + elem_suffix(elem)) + "("@ + (
    "ptr "@ + t + ", i64 "@ + now + ", ptr "@ + ok) + ")"@;
    let keep = "store "@ + elem + " "@ + val + ", ptr "@ + item;
    assert(v1.out == w.out + call + "\n"@);
    assert(v.out == v1.out + keep + "\n"@);
    assert(v.out =~= w.out + (call + "\n"@) + (keep + "\n"@));
}

/// A loop over a dynamic table executes its body once for each element, in their order.
pub proof fn law_dynamic_code(
    sem: Sem,
    g: GenV,
    tag: Option<String>,
    var: Seq<char>,
    name: Seq<char>,
    addr: Seq<char>,
    body: Block,
)
    requires
        adds(sem, dynamic_body(sem, g, opt_view(tag), var, name, addr), body),
    ensures
        dynamic_counts(
            sem,
            g,
            opt_view(tag),
            var,
            name,
            addr,
            body,
            for_dynamic_code(sem, g, tag, var, name, addr, body).out,
        ),
{
    lemma_words();
    let view = opt_view(tag);
    let (g1, elem) = var_elem_code(sem, g, name);
    let g2 = mark(g1, "tie_table_at_"@ + elem_suffix(elem));
    let (g3, t) = reg(g2);
    let first = t + " = load ptr, ptr "@ + addr;
    let g4 = line(g3, first);
    lemma_first_line(g1, "tie_table_at_"@ + elem_suffix(elem), first);
    let (p, slot) = alloca(g4, "i64"@);
    let g5 = line(p, "store i64 0, ptr "@ + slot);
    lemma_sets(p, slot, dec(0));
    lemma_text_of_zero(slot);
    let (f, item) = alloca(g5, elem);
    assert(f.out == g5.out) by {
        reveal(alloca);
        reveal(reg);
    }
    lemma_sets_same(p, g5, f, slot, dec(0));
    let (l1, again) = label(f, "for.cond"@);
    let (l2, inside) = label(l1, "for.body"@);
    let (l3, next) = label(l2, "for.step"@);
    let (l4, exit) = label(l3, "for.exit"@);
    lemma_label(f, "for.cond"@);
    lemma_label(l1, "for.body"@);
    lemma_label(l2, "for.step"@);
    lemma_label(l3, "for.exit"@);
    let l5 = enter_loop(l4, view, next, exit);
    let h = start(line(l5, "br label %"@ + again), again);
    assert(l5.out == f.out) by {
        reveal(enter_loop);
    }
    lemma_slots_add(g4, slot, elem, l5, again);
    let now = reg(h).1;
    let h1 = line(reg(h).0, now + " = load i64, ptr "@ + slot);
    lemma_reads(h, slot);
    let (k0, len) = table_len_code(h1, t);
    let done = reg(k0).1;
    let k = line(reg(k0).0, done + " = icmp sge i64 "@ + now + ", "@ + len);
    lemma_reaches(k0, now, len);
    lemma_len_adds(h, slot, t);
    let u = start(line(k, "br i1 "@ + done + ", label %"@ + exit + ", label %"@ + inside), inside);
    let (u1, ok) = alloca(u, "i1"@);
    let w = line(u1, "store i1 1, ptr "@ + ok);
    let val = reg(w).1;
    let v1 = library_call(
        reg(w).0,
        val + " = call "@ + elem,
        "tie_table_at_"@ + elem_suffix(elem),
        "ptr "@ + t + ", i64 "@ + now + ", ptr "@ + ok,
    );
    let v = line(v1, "store "@ + elem + " "@ + val + ", ptr "@ + item);
    lemma_fetches(u, t, now, elem, item);
    let a = dynamic_body(sem, g, view, var, name, addr);
    let n = start(body_code(sem, a, body, next), next);
    let m = stepped(n, slot, now);
    law_counters_count(n, slot, now);
    lemma_names_inside(l4, view, next, exit, again, h, k, done, inside, u, v, var, item, elem, a);
    lemma_rounds(sem, view, body, l5, h, k, done, u, a, slot, now, again, inside, next, exit);
    let text = for_dynamic_code(sem, g, tag, var, name, addr, body).out;
    assert(text == loop_end_code(sem, a, body, slot, now, again, next, exit).out);
    assert(rounds(text, sem, view, body, f.out.len() as int, h, k, done, u, a, n, m));
    lemma_begins(g4.out, h.out, text);
    lemma_more(g1.out, first + "\n"@, text);
    assert(fetches(w, a, t, now, elem, item, ok, val));
    assert(bound(a, var) == Some(var_at(item, elem)));
    reveal(dynamic_counts);
}

proof fn lemma_test_adds(h: GenV, slot: Seq<char>, limit: Seq<char>)
    ensures
        begins(tested(h, slot, limit).0.out, h.out),
        tested(h, slot, limit).0.loops == h.loops,
{
    reveal(put);
    reveal(reg);
}

} // verus!
