//! What the code holds: a library function is called by its name only where it is listed, and
//! nothing reserves a stack slot but the entry block.
use crate::emit::{
    alloca, bind, blank, bound, bound_in, break_target, close_scope, continue_target, enter_loop,
    fail, label, leave_loop, library_call, loop_in, mark, note, open_scope, ordinary, put, reg,
    string_const, GenV,
};
use crate::ast::{
    global_ty, sig_of, BinaryOp, Block, FnDef, Program, Sem, Stmt, SwitchCase, TyKw, UnaryOp,
};
use crate::frames::begins;
use crate::irtable::{
    bridge, bridge_args, bridge_symbol, bridge_text, math_fn, mixed_opcode, one, opcode, predicate,
    ret_llvm, shown, slot_size, step, Ret,
};
use crate::irtext::{array_shape, dollars, elem_suffix, named_llvm, zero_text};
use crate::lower::{
    entries, entry, fns_code, globals_code, header_code, range_ty, slots, switch_test, HowV,
};
use crate::numbering::at;
use crate::text::{dec, join, lemma_nat_dec_value, nat_dec, sep_at, views};
use std::rc::Rc;
use vstd::prelude::*;

verus! {

// ---------- texts ----------
/// Whether what stands behind position `i` is not the beginning of a name of the library, as
/// far as it can be told.
pub open spec fn no_library_name(s: Seq<char>, i: int) -> bool {
    ||| i + 1 < s.len() && s[i + 1] != 't'
    ||| i + 2 < s.len() && s[i + 2] != 'i'
    ||| i + 3 < s.len() && s[i + 3] != 'e'
    ||| i + 4 < s.len() && s[i + 4] != '_'
}

/// Whether what stands behind position `i` is not the reservation of a slot, as far as it can
/// be told.
pub open spec fn no_slot(s: Seq<char>, i: int) -> bool {
    ||| i + 1 < s.len() && s[i + 1] != ' '
    ||| i + 2 < s.len() && s[i + 2] != 'a'
    ||| i + 3 < s.len() && s[i + 3] != 'l'
}

/// Whether a text neither names a function of the library nor reserves a slot, whatever stands
/// behind it.
#[verifier::opaque]
pub open spec fn calm(s: Seq<char>) -> bool {
    forall|i: int|
        0 <= i < s.len() ==> (#[trigger] s[i] == '@' ==> no_library_name(s, i)) && (s[i] == '='
            ==> no_slot(s, i))
}

/// Whether a text names no function of the library, whatever stands behind it.
#[verifier::opaque]
pub open spec fn nameless(s: Seq<char>) -> bool {
    forall|i: int| 0 <= i < s.len() ==> (#[trigger] s[i] == '@' ==> no_library_name(s, i))
}

/// Whether a text is calm once an ordinary name has ended behind it.
#[verifier::opaque]
pub open spec fn half(s: Seq<char>) -> bool {
    forall|i: int|
        0 <= i < s.len() ==> (#[trigger] s[i] == '@' ==> no_library_name(s, i) || s.len() - i
            <= 4) && (s[i] == '=' ==> no_slot(s, i))
}

/// Whether a text ends with the `@` before a name and is calm but for that.
#[verifier::opaque]
pub open spec fn ends_at(s: Seq<char>) -> bool {
    s.len() > 0 && s.last() == '@' && calm(s.drop_last())
}

/// Whether a text ends with ` = ` and is calm but for that.
#[verifier::opaque]
pub open spec fn ends_eq(s: Seq<char>) -> bool {
    s.len() > 2 && s[s.len() - 1] == ' ' && s[s.len() - 2] == '=' && calm(s.take(s.len() - 2))
}

/// Whether a calm text can stand right behind an `@`.
#[verifier::opaque]
pub open spec fn crisp(s: Seq<char>) -> bool {
    calm(s) && s.len() > 0 && s[0] != 't'
}

/// Whether a calm text can stand right behind a ` = `.
#[verifier::opaque]
pub open spec fn lively(s: Seq<char>) -> bool {
    calm(s) && s.len() > 1 && (s[0] != 'a' || s[1] != 'l')
}

/// Whether a calm text ends a name that stands before it.
#[verifier::opaque]
pub open spec fn breaks(s: Seq<char>) -> bool {
    calm(s) && s.len() > 0 && s[0] != 't' && s[0] != 'i' && s[0] != 'e' && s[0] != '_'
}

pub broadcast proof fn calm_add(x: Seq<char>, y: Seq<char>)
    requires
        calm(x),
        calm(y),
    ensures
        #[trigger] calm(x + y),
{
    reveal(calm);
    let s = x + y;
    assert forall|i: int| 0 <= i < s.len() implies (#[trigger] s[i] == '@' ==> no_library_name(s, i))
        && (s[i] == '=' ==> no_slot(s, i)) by {
        if i < x.len() {
            assert(s[i] == x[i]);
        } else {
            assert(s[i] == y[i - x.len()]);
        }
    }
}

pub broadcast proof fn calm_named(x: Seq<char>, y: Seq<char>)
    requires
        #[trigger] ends_at(x),
        crisp(y),
    ensures
        calm(#[trigger] x.add(y)),
{
    reveal(calm);
    reveal(crisp);
    reveal(ends_at);
    let s = x + y;
    let z = x.drop_last();
    assert forall|i: int| 0 <= i < s.len() implies (#[trigger] s[i] == '@' ==> no_library_name(s, i))
        && (s[i] == '=' ==> no_slot(s, i)) by {
        if i < x.len() - 1 {
            assert(s[i] == z[i]);
        } else if i >= x.len() {
            assert(s[i] == y[i - x.len()]);
        } else {
            assert(s[i + 1] == y[0]);
        }
    }
}

pub broadcast proof fn half_named(x: Seq<char>, y: Seq<char>)
    requires
        #[trigger] ends_at(x),
        ordinary(y),
    ensures
        half(#[trigger] x.add(y)),
{
    reveal(ordinary);
    reveal(calm);
    reveal(half);
    reveal(ends_at);
    reveal_strlit("tie_");
    let s = x + y;
    let z = x.drop_last();
    assert forall|i: int| 0 <= i < s.len() implies (#[trigger] s[i] == '@' ==> no_library_name(s, i)
        || s.len() - i <= 4) && (s[i] == '=' ==> no_slot(s, i)) by {
        if i < x.len() - 1 {
            assert(s[i] == z[i]);
        } else if i >= x.len() {
            assert(s[i] == y[i - x.len()]);
        } else if y.len() >= 4 && s[i] == '@' && !no_library_name(s, i) {
            assert(s[i + 1] == y[0] && s[i + 2] == y[1] && s[i + 3] == y[2] && s[i + 4] == y[3]);
            assert(y.subrange(0, 4) =~= "tie_"@);
        }
    }
}

pub broadcast proof fn half_calm(x: Seq<char>)
    requires
        calm(x),
    ensures
        #[trigger] half(x),
{
    reveal(calm);
    reveal(half);
}

pub broadcast proof fn half_add(x: Seq<char>, y: Seq<char>)
    requires
        calm(x),
        half(y),
    ensures
        #[trigger] half(x + y),
{
    reveal(calm);
    reveal(half);
    let s = x + y;
    assert forall|i: int| 0 <= i < s.len() implies (#[trigger] s[i] == '@' ==> no_library_name(s, i)
        || s.len() - i <= 4) && (s[i] == '=' ==> no_slot(s, i)) by {
        if i < x.len() {
            assert(s[i] == x[i]);
        } else {
            assert(s[i] == y[i - x.len()]);
        }
    }
}

pub broadcast proof fn calm_ended(x: Seq<char>, y: Seq<char>)
    requires
        #[trigger] half(x),
        breaks(y),
    ensures
        calm(#[trigger] x.add(y)),
{
    reveal(calm);
    reveal(half);
    reveal(breaks);
    let s = x + y;
    assert forall|i: int| 0 <= i < s.len() implies (#[trigger] s[i] == '@' ==> no_library_name(s, i))
        && (s[i] == '=' ==> no_slot(s, i)) by {
        if i < x.len() {
            assert(s[i] == x[i]);
            assert(s[x.len() as int] == y[0]);
        } else {
            assert(s[i] == y[i - x.len()]);
        }
    }
}

pub broadcast proof fn ends_at_add(x: Seq<char>, y: Seq<char>)
    requires
        calm(x),
        #[trigger] ends_at(y),
    ensures
        ends_at(#[trigger] x.add(y)),
{
    reveal(ends_at);
    assert((x + y).drop_last() =~= x + y.drop_last());
    calm_add(x, y.drop_last());
}

pub broadcast proof fn ends_eq_add(x: Seq<char>)
    requires
        calm(x),
    ensures
        ends_eq(#[trigger] x.add(" = "@)),
{
    reveal(ends_eq);
    reveal(calm);
    reveal_strlit(" = ");
    let s = x + " = "@;
    assert(s.take(s.len() - 2) =~= x + " = "@.take(1));
    calm_add(x, " = "@.take(1));
}

pub broadcast proof fn calm_op(x: Seq<char>, y: Seq<char>)
    requires
        #[trigger] ends_eq(x),
        lively(y),
    ensures
        calm(#[trigger] x.add(y)),
{
    reveal(calm);
    reveal(lively);
    reveal(ends_eq);
    let s = x + y;
    let z = x.take(x.len() - 2);
    assert forall|i: int| 0 <= i < s.len() implies (#[trigger] s[i] == '@' ==> no_library_name(s, i))
        && (s[i] == '=' ==> no_slot(s, i)) by {
        if i < x.len() - 2 {
            assert(s[i] == z[i]);
        } else if i >= x.len() {
            assert(s[i] == y[i - x.len()]);
        } else if i == x.len() - 2 {
            assert(s[i + 1] == x[x.len() - 1]);
            assert(s[i + 2] == y[0] && s[i + 3] == y[1]);
        } else {
            assert(s[i] == ' ');
        }
    }
}

pub broadcast proof fn lively_add(x: Seq<char>, y: Seq<char>)
    requires
        lively(x),
        calm(y),
    ensures
        #[trigger] lively(x + y),
{
    reveal(lively);
    calm_add(x, y);
}

pub broadcast proof fn lively_is_calm(x: Seq<char>)
    requires
        #[trigger] lively(x),
    ensures
        calm(x),
{
    reveal(lively);
}

pub broadcast proof fn crisp_is_calm(x: Seq<char>)
    requires
        #[trigger] crisp(x),
    ensures
        calm(x),
{
    reveal(crisp);
}

pub broadcast proof fn calm_ordinary(x: Seq<char>)
    requires
        #[trigger] ordinary(x),
    ensures
        calm(x),
{
    reveal(ordinary);
    reveal(calm);
}

pub broadcast proof fn calm_empty()
    ensures
        #[trigger] calm(Seq::<char>::empty()),
        !ends_at(Seq::<char>::empty()),
        !breaks(Seq::<char>::empty()),
{
    reveal(calm);
    reveal(ends_at);
    reveal(breaks);
}

pub broadcast proof fn calm_dec(n: int)
    ensures
        #[trigger] calm(dec(n)),
{
    reveal(calm);
    reveal_strlit("-");
    let k = if n < 0 {
        (-n) as nat
    } else {
        n as nat
    };
    lemma_nat_dec_value(k);
    let s = nat_dec(k);
    assert(calm(s));
    calm_add("-"@, s);
}

// ---------- states ----------
/// Whether the texts that a state has at hand are calm: those of variables, of the blocks that
/// loops jump to, of constants and of slots.
#[verifier::opaque]
pub open spec fn settled(g: GenV) -> bool {
    &&& forall|i: int, n: Seq<char>|
        0 <= i < g.scopes.len() && #[trigger] g.scopes[i].dom().contains(n) ==> calm(
            g.scopes[i][n].value,
        ) && calm(g.scopes[i][n].ty)
    &&& forall|i: int|
        0 <= i < g.loops.len() ==> calm((#[trigger] g.loops[i]).next) && calm(g.loops[i].exit)
    &&& forall|s: Seq<char>| #[trigger] g.consts.dom().contains(s) ==> crisp(g.consts[s])
    &&& forall|i: int| 0 <= i < g.allocas.len() ==> nameless(#[trigger] g.allocas[i])
}

/// Whether at position `i` the name of a listed function and a bracket stand.
pub open spec fn listed(s: Seq<char>, i: int, used: Seq<Seq<char>>) -> bool {
    exists|x: Seq<char>| used.contains(x) && #[trigger] at(s, i, x + "("@)
}

/// Whether a text names no function of the library but to call it, listed, and reserves no slot
/// unless it is free to.
#[verifier::opaque]
pub open spec fn clear(s: Seq<char>, used: Seq<Seq<char>>, free: bool) -> bool {
    forall|i: int|
        0 <= i < s.len() ==> (#[trigger] s[i] == '@' ==> no_library_name(s, i) || listed(
            s,
            i + 1,
            used,
        )) && (s[i] == '=' ==> free || no_slot(s, i))
}

/// Whether the bodies of functions reserve no slots.
#[verifier::opaque]
pub open spec fn orderly(g: GenV) -> bool {
    forall|k: int|
        0 <= k < g.bodies.len() ==> 0 <= (#[trigger] g.bodies[k]).0 <= g.bodies[k].1 <= g.out.len()
            && clear(g.out.subrange(g.bodies[k].0, g.bodies[k].1), g.used, false)
}

/// Whether the text of a state is clear and the texts that it has at hand are calm.
#[verifier::opaque]
pub open spec fn good(g: GenV) -> bool {
    settled(g) && clear(g.out, g.used, g.free) && (g.free ==> orderly(g))
}

/// Whether `b` comes from `a` by writing clear text, where the numerals of the program are
/// ordinary and `c` holds.
pub open spec fn tame(a: GenV, b: GenV, c: bool) -> bool {
    &&& b.mild ==> a.mild
    &&& good(a) && b.mild && c ==> good(b)
}

/// Whether a text that comes about on the way from `a` to `b` is calm, where the numerals of the
/// program are ordinary and `c` holds.
pub open spec fn sober(a: GenV, b: GenV, c: bool, t: Seq<char>) -> bool {
    good(a) && b.mild && c ==> calm(t)
}

/// Whether texts that come about on the way from `a` to `b` are calm.
pub open spec fn all_sober(a: GenV, b: GenV, c: bool, t: Seq<Seq<char>>) -> bool {
    good(a) && b.mild && c ==> all_calm(t)
}

#[verifier::opaque]
pub open spec fn all_calm(t: Seq<Seq<char>>) -> bool {
    forall|i: int| 0 <= i < t.len() ==> calm(#[trigger] t[i])
}

proof fn lemma_clear_grows(x: Seq<char>, used: Seq<Seq<char>>, more: Seq<Seq<char>>, free: bool)
    requires
        clear(x, used, free),
        begins(more, used),
    ensures
        clear(x, more, free),
{
    reveal(clear);
    assert forall|i: int| 0 <= i < x.len() implies (#[trigger] x[i] == '@' ==> no_library_name(x, i)
        || listed(x, i + 1, more)) && (x[i] == '=' ==> free || no_slot(x, i)) by {
        if x[i] == '@' && !no_library_name(x, i) {
            let n = choose|n: Seq<char>| used.contains(n) && #[trigger] at(x, i + 1, n + "("@);
            let k = choose|k: int| 0 <= k < used.len() && used[k] == n;
            assert(more[k] == n);
            assert(more.contains(n) && at(x, i + 1, n + "("@));
        }
    }
}

proof fn lemma_clear_add(x: Seq<char>, y: Seq<char>, used: Seq<Seq<char>>, free: bool)
    requires
        clear(x, used, free),
        clear(y, used, free),
    ensures
        clear(x + y, used, free),
{
    reveal(clear);
    let s = x + y;
    assert forall|i: int| 0 <= i < s.len() implies (#[trigger] s[i] == '@' ==> no_library_name(s, i)
        || listed(s, i + 1, used)) && (s[i] == '=' ==> free || no_slot(s, i)) by {
        if i < x.len() {
            assert(s[i] == x[i]);
            if x[i] == '@' && !no_library_name(x, i) {
                let n = choose|n: Seq<char>| used.contains(n) && #[trigger] at(x, i + 1, n + "("@);
                let m = n + "("@;
                assert(s.subrange(i + 1, i + 1 + m.len()) =~= x.subrange(i + 1, i + 1 + m.len()));
                assert(used.contains(n) && at(s, i + 1, n + "("@));
            }
        } else {
            let j = i - x.len();
            assert(s[i] == y[j]);
            if y[j] == '@' && !no_library_name(y, j) {
                let n = choose|n: Seq<char>| used.contains(n) && #[trigger] at(y, j + 1, n + "("@);
                let m = n + "("@;
                assert(s.subrange(i + 1, i + 1 + m.len()) =~= y.subrange(j + 1, j + 1 + m.len()));
                assert(used.contains(n) && at(s, i + 1, n + "("@));
            }
        }
    }
}

proof fn lemma_calm_is_clear(x: Seq<char>, used: Seq<Seq<char>>, free: bool)
    requires
        calm(x),
    ensures
        clear(x, used, free),
{
    reveal(calm);
    reveal(clear);
}

proof fn lemma_orderly(g: GenV, h: GenV)
    requires
        orderly(g),
        begins(h.out, g.out),
        begins(h.used, g.used),
        h.bodies == g.bodies,
    ensures
        orderly(h),
{
    reveal(orderly);
    assert forall|k: int| 0 <= k < h.bodies.len() implies 0 <= (#[trigger] h.bodies[k]).0
        <= h.bodies[k].1 <= h.out.len() && clear(
        h.out.subrange(h.bodies[k].0, h.bodies[k].1),
        h.used,
        false,
    ) by {
        let (x, y) = g.bodies[k];
        assert(h.out.subrange(x, y) =~= g.out.subrange(x, y));
        lemma_clear_grows(g.out.subrange(x, y), g.used, h.used, false);
    }
}

proof fn lemma_same_text(g: GenV, h: GenV)
    requires
        good(g),
        h.out == g.out,
        begins(h.used, g.used),
        settled(h),
        h.free == g.free,
        h.bodies == g.bodies,
    ensures
        good(h),
{
    reveal(good);
    lemma_clear_grows(h.out, g.used, h.used, g.free);
    if g.free {
        lemma_orderly(g, h);
    }
}

pub broadcast proof fn good_fail(g: GenV, m: Seq<char>)
    ensures
        #![trigger fail(g, m)]
        fail(g, m).mild == g.mild,
        good(g) ==> good(fail(g, m)),
{
    reveal(fail);
    reveal(settled);
    reveal(good);
    if good(g) {
        assert(settled(fail(g, m))) by {
            reveal(good);
        }
        lemma_same_text(g, fail(g, m));
    }
}

pub broadcast proof fn good_note(g: GenV, name: Seq<char>)
    ensures
        #![trigger note(g, name)]
        note(g, name).mild == (g.mild && ordinary(name)),
        note(g, name).free == g.free,
        good(g) ==> good(note(g, name)),
{
    reveal(note);
    reveal(settled);
    reveal(good);
    if good(g) {
        assert(settled(note(g, name))) by {
            reveal(good);
        }
        lemma_same_text(g, note(g, name));
    }
}

pub broadcast proof fn good_reg(g: GenV)
    ensures
        #![trigger reg(g)]
        reg(g).0.mild == g.mild,
        good(g) ==> good(reg(g).0),
        calm(reg(g).1),
{
    reveal(reg);
    reveal(settled);
    reveal(calm);
    reveal_strlit("%");
    calm_dec(g.reg.wrapping_add(1) as int);
    calm_add("%"@, dec(g.reg.wrapping_add(1) as int));
    if good(g) {
        assert(settled(reg(g).0)) by {
            reveal(good);
        }
        lemma_same_text(g, reg(g).0);
    }
}

pub broadcast proof fn good_label(g: GenV, prefix: Seq<char>)
    ensures
        #![trigger label(g, prefix)]
        label(g, prefix).0.mild == g.mild,
        good(g) ==> good(label(g, prefix).0),
        calm(prefix) ==> calm(label(g, prefix).1),
{
    reveal(label);
    reveal(settled);
    if calm(prefix) {
        assert(calm("."@)) by {
            reveal(calm);
            reveal_strlit(".");
        }
        calm_dec(g.reg.wrapping_add(1) as int);
        calm_add(prefix, "."@);
        calm_add(prefix + "."@, dec(g.reg.wrapping_add(1) as int));
    }
    if good(g) {
        assert(settled(label(g, prefix).0)) by {
            reveal(good);
        }
        lemma_same_text(g, label(g, prefix).0);
    }
}

proof fn lemma_nameless_slot(r: Seq<char>, ty: Seq<char>)
    requires
        calm(r),
        calm(ty),
    ensures
        nameless(r + " = alloca "@ + ty),
{
    reveal(nameless);
    reveal(calm);
    reveal_strlit(" = alloca ");
    let s = r + " = alloca "@ + ty;
    let n: int = (r.len() + 10) as int;
    assert forall|i: int| 0 <= i < s.len() && #[trigger] s[i] == '@' implies no_library_name(
        s,
        i,
    ) by {
        if i < r.len() {
            assert(s[i] == r[i]);
        } else if i >= n {
            assert(s[i] == ty[i - n]);
        } else {
            assert(s[i] == " = alloca "@[i - r.len()]);
        }
    }
}

pub broadcast proof fn good_alloca(g: GenV, ty: Seq<char>)
    ensures
        #![trigger alloca(g, ty)]
        alloca(g, ty).0.mild == g.mild,
        good(g) && calm(ty) ==> good(alloca(g, ty).0),
        calm(alloca(g, ty).1),
{
    reveal(alloca);
    reveal(reg);
    reveal(settled);
    assert(good(g) ==> settled(g)) by {
        reveal(good);
    }
    let h = alloca(g, ty).0;
    let r = reg(g).1;
    good_reg(g);
    if good(g) && calm(ty) {
        lemma_nameless_slot(r, ty);
        assert forall|i: int| 0 <= i < h.allocas.len() implies nameless(
            #[trigger] h.allocas[i],
        ) by {
            if i < g.allocas.len() {
                assert(h.allocas[i] == g.allocas[i]);
            }
        }
    }
    if good(g) && calm(ty) {
        assert(settled(alloca(g, ty).0)) by {
            reveal(good);
        }
        lemma_same_text(g, alloca(g, ty).0);
    }
}

pub broadcast proof fn good_mark(g: GenV, symbol: Seq<char>)
    ensures
        #![trigger mark(g, symbol)]
        mark(g, symbol).mild == g.mild,
        good(g) ==> good(mark(g, symbol)),
{
    reveal(mark);
    reveal(settled);
    if good(g) {
        assert(settled(mark(g, symbol))) by {
            reveal(good);
        }
        lemma_same_text(g, mark(g, symbol));
    }
}

proof fn lemma_const_name(g: GenV)
    ensures
        crisp(".str."@ + dec(g.str_count.wrapping_add(1) as int)),
{
    reveal(crisp);
    reveal(calm);
    reveal_strlit(".str.");
    let n = dec(g.str_count.wrapping_add(1) as int);
    calm_dec(g.str_count.wrapping_add(1) as int);
    assert(calm(".str."@));
    calm_add(".str."@, n);
    assert((".str."@ + n)[0] == '.');
}

pub broadcast proof fn good_string(g: GenV, s: Seq<char>)
    ensures
        #![trigger string_const(g, s)]
        string_const(g, s).0.mild == g.mild,
        good(g) ==> good(string_const(g, s).0) && crisp(string_const(g, s).1),
{
    reveal(string_const);
    reveal(settled);
    assert(good(g) ==> settled(g)) by {
        reveal(good);
    }
    lemma_const_name(g);
    if good(g) {
        assert(settled(string_const(g, s).0)) by {
            reveal(good);
        }
        lemma_same_text(g, string_const(g, s).0);
    }
}

pub broadcast proof fn good_bind(g: GenV, name: Seq<char>, value: Seq<char>, ty: Seq<char>)
    ensures
        #![trigger bind(g, name, value, ty)]
        bind(g, name, value, ty).mild == g.mild,
        good(g) && calm(value) && calm(ty) ==> good(bind(g, name, value, ty)),
{
    reveal(bind);
    reveal(settled);
    assert(good(g) ==> settled(g)) by {
        reveal(good);
    }
    let h = bind(g, name, value, ty);
    if g.scopes.len() > 0 && good(g) && calm(value) && calm(ty) {
        let k = g.scopes.len() - 1;
        assert forall|i: int, n: Seq<char>|
            0 <= i < h.scopes.len() && #[trigger] h.scopes[i].dom().contains(n) implies calm(
            h.scopes[i][n].value,
        ) && calm(h.scopes[i][n].ty) by {
            if i < k || n != name {
                assert(g.scopes[i].dom().contains(n));
            }
        }
    }
    if good(g) && calm(value) && calm(ty) {
        assert(settled(bind(g, name, value, ty))) by {
            reveal(good);
        }
        lemma_same_text(g, bind(g, name, value, ty));
    }
}

pub broadcast proof fn good_open(g: GenV)
    ensures
        #![trigger open_scope(g)]
        open_scope(g).mild == g.mild,
        open_scope(g).free == g.free,
        good(g) ==> good(open_scope(g)),
{
    reveal(open_scope);
    reveal(settled);
    assert(good(g) ==> settled(g)) by {
        reveal(good);
    }
    let h = open_scope(g);
    if good(g) {
        assert forall|i: int, n: Seq<char>|
            0 <= i < h.scopes.len() && #[trigger] h.scopes[i].dom().contains(n) implies calm(
            h.scopes[i][n].value,
        ) && calm(h.scopes[i][n].ty) by {
            assert(i < g.scopes.len());
            assert(g.scopes[i].dom().contains(n));
        }
    }
    if good(g) {
        assert(settled(open_scope(g))) by {
            reveal(good);
        }
        lemma_same_text(g, open_scope(g));
    }
}

pub broadcast proof fn good_close(g: GenV)
    ensures
        #![trigger close_scope(g)]
        close_scope(g).mild == g.mild,
        close_scope(g).free == g.free,
        good(g) ==> good(close_scope(g)),
{
    reveal(close_scope);
    reveal(settled);
    assert(good(g) ==> settled(g)) by {
        reveal(good);
    }
    let h = close_scope(g);
    if good(g) {
        assert forall|i: int, n: Seq<char>|
            0 <= i < h.scopes.len() && #[trigger] h.scopes[i].dom().contains(n) implies calm(
            h.scopes[i][n].value,
        ) && calm(h.scopes[i][n].ty) by {
            assert(g.scopes[i].dom().contains(n));
        }
    }
    if good(g) {
        assert(settled(close_scope(g))) by {
            reveal(good);
        }
        lemma_same_text(g, close_scope(g));
    }
}

pub broadcast proof fn good_enter(
    g: GenV,
    tag: Option<Seq<char>>,
    next: Seq<char>,
    exit: Seq<char>,
)
    ensures
        #![trigger enter_loop(g, tag, next, exit)]
        enter_loop(g, tag, next, exit).mild == g.mild,
        good(g) && calm(next) && calm(exit) ==> good(enter_loop(g, tag, next, exit)),
{
    reveal(enter_loop);
    reveal(settled);
    assert(good(g) ==> settled(g)) by {
        reveal(good);
    }
    let h = enter_loop(g, tag, next, exit);
    if good(g) && calm(next) && calm(exit) {
        assert forall|i: int| 0 <= i < h.loops.len() implies calm((#[trigger] h.loops[i]).next)
            && calm(h.loops[i].exit) by {
            if i < g.loops.len() {
                assert(h.loops[i] == g.loops[i]);
            }
        }
    }
    if good(g) && calm(next) && calm(exit) {
        assert(settled(enter_loop(g, tag, next, exit))) by {
            reveal(good);
        }
        lemma_same_text(g, enter_loop(g, tag, next, exit));
    }
}

pub broadcast proof fn good_leave(g: GenV)
    ensures
        #![trigger leave_loop(g)]
        leave_loop(g).mild == g.mild,
        good(g) ==> good(leave_loop(g)),
{
    reveal(leave_loop);
    reveal(settled);
    assert(good(g) ==> settled(g)) by {
        reveal(good);
    }
    let h = leave_loop(g);
    if good(g) {
        assert forall|i: int| 0 <= i < h.loops.len() implies calm((#[trigger] h.loops[i]).next)
            && calm(h.loops[i].exit) by {
            assert(h.loops[i] == g.loops[i]);
        }
    }
    if good(g) {
        assert(settled(leave_loop(g))) by {
            reveal(good);
        }
        lemma_same_text(g, leave_loop(g));
    }
}

pub broadcast proof fn good_put(g: GenV, text: Seq<char>)
    ensures
        #![trigger put(g, text)]
        put(g, text).mild == g.mild,
        put(g, text).free == g.free,
        good(g) && calm(text) ==> good(put(g, text)),
{
    reveal(put);
    reveal(settled);
    assert(good(g) ==> settled(put(g, text))) by {
        reveal(good);
    }
    if good(g) && calm(text) {
        lemma_calm_is_clear(text, g.used, g.free);
        lemma_written(g, put(g, text), text);
    }
}

proof fn lemma_written(g: GenV, h: GenV, text: Seq<char>)
    requires
        good(g),
        clear(text, h.used, g.free),
        h.out == g.out + text,
        begins(h.used, g.used),
        settled(h),
        h.free == g.free,
        h.bodies == g.bodies,
    ensures
        good(h),
{
    reveal(good);
    lemma_clear_grows(g.out, g.used, h.used, g.free);
    lemma_clear_add(g.out, text, h.used, g.free);
    if g.free {
        lemma_orderly(g, h);
    }
}

/// Where slots may be reserved, any text may stand that names no function of the library.
pub proof fn lemma_nameless_line(g: GenV, text: Seq<char>)
    requires
        good(g),
        g.free,
        nameless(text),
    ensures
        good(put(put(g, text), "\n"@)),
{
    let h = put(g, text);
    assert(good(h)) by {
        reveal(put);
        assert(settled(h)) by {
            reveal(good);
            reveal(settled);
        }
        assert(clear(text, g.used, true)) by {
            reveal(nameless);
            reveal(clear);
        }
        lemma_written(g, h, text);
    }
    assert(calm("\n"@)) by {
        reveal(calm);
        reveal_strlit("\n");
    }
    good_put(h, "\n"@);
}

/// A name may stand at the end of a line.
pub broadcast proof fn good_line(g: GenV, text: Seq<char>)
    ensures
        #![trigger put(put(g, text), "\n"@)]
        good(g) && half(text) ==> good(put(put(g, text), "\n"@)),
{
    if good(g) && half(text) {
        assert(breaks("\n"@)) by {
            reveal(breaks);
            reveal(calm);
            reveal_strlit("\n");
        }
        calm_ended(text, "\n"@);
        good_put(g, text + "\n"@);
        reveal(put);
        assert(put(put(g, text), "\n"@).out =~= put(g, text + "\n"@).out);
    }
}

pub broadcast proof fn good_call(g: GenV, head: Seq<char>, symbol: Seq<char>, args: Seq<char>)
    ensures
        #![trigger library_call(g, head, symbol, args)]
        library_call(g, head, symbol, args).mild == g.mild,
        good(g) && calm(head) && calm(symbol) && calm(args) ==> good(
            library_call(g, head, symbol, args),
        ),
{
    reveal(library_call);
    reveal(put);
    let m = mark(g, symbol);
    good_mark(g, symbol);
    if good(g) && calm(head) && calm(symbol) && calm(args) {
        let h = library_call(g, head, symbol, args);
        let end = "("@ + args + ")"@ + "\n"@;
        let text = head + " @"@ + symbol + "("@ + args + ")"@ + "\n"@;
        assert(h.out =~= m.out + text);
        assert(m.used.contains(symbol)) by {
            reveal(mark);
            if !g.used.contains(symbol) {
                assert(m.used[g.used.len() as int] == symbol);
            }
        }
        assert(clear(text, m.used, m.free)) by {
            reveal(calm);
            reveal(clear);
            reveal_strlit(" @");
            reveal_strlit("(");
            reveal_strlit(")");
            reveal_strlit("\n");
            let n: int = head.len() as int;
            let rest = symbol + end;
            calm_add(symbol, "("@ + args + ")"@ + "\n"@);
            calm_add("("@ + args + ")"@, "\n"@);
            calm_add("("@ + args, ")"@);
            calm_add("("@, args);
            assert(text =~= head + " @"@ + rest);
            assert forall|i: int| 0 <= i < text.len() implies (#[trigger] text[i] == '@'
                ==> no_library_name(text, i) || listed(text, i + 1, m.used)) && (text[i] == '='
                ==> m.free || no_slot(text, i)) by {
                if i < n {
                    assert(text[i] == head[i]);
                } else if i >= n + 2 {
                    assert(text[i] == rest[i - n - 2]);
                } else if i == n + 1 {
                    let x = symbol + "("@;
                    assert(text.subrange(i + 1, i + 1 + x.len()) =~= x);
                    assert(m.used.contains(symbol) && at(text, i + 1, symbol + "("@));
                }
            }
        }
        assert(settled(h)) by {
            reveal(good);
            reveal(settled);
        }
        lemma_written(m, h, text);
    }
}

// ---------- functions ----------
/// The slot of a parameter, which is reserved where it stands.
pub proof fn lemma_slot_line(g: GenV, r: Seq<char>, ty: Seq<char>)
    requires
        good(g),
        g.free,
        calm(r),
        calm(ty),
    ensures
        good(put(put(g, r + " = alloca "@ + ty), "\n"@)),
{
    lemma_nameless_slot(r, ty);
    lemma_nameless_line(g, r + " = alloca "@ + ty);
}

/// A new function begins.
pub proof fn lemma_fresh(g: GenV, full: Seq<char>)
    requires
        good(g),
    ensures
        good(GenV { cur_fn: full, reg: 0, scopes: Seq::empty(), ..g }),
{
    let h = GenV { cur_fn: full, reg: 0, scopes: Seq::empty(), ..g };
    assert(settled(h)) by {
        reveal(good);
        reveal(settled);
    }
    lemma_same_text(g, h);
}

/// The body of a function is written on its own.
pub proof fn lemma_apart(g: GenV)
    requires
        good(g),
    ensures
        good(GenV { out: Seq::empty(), free: false, ..g }),
{
    let h = GenV { out: Seq::empty(), free: false, ..g };
    reveal(good);
    reveal(settled);
    reveal(clear);
}

proof fn lemma_slots(allocas: Seq<Seq<char>>, used: Seq<Seq<char>>, n: nat)
    requires
        n <= allocas.len(),
        forall|i: int| 0 <= i < allocas.len() ==> nameless(#[trigger] allocas[i]),
    ensures
        clear(slots(allocas, n), used, true),
    decreases n,
{
    if n > 0 {
        lemma_slots(allocas, used, (n - 1) as nat);
        let x = slots(allocas, (n - 1) as nat);
        let y = allocas[n - 1];
        assert(nameless(y));
        assert(clear(y, used, true)) by {
            reveal(nameless);
            reveal(clear);
        }
        assert(clear("\n"@, used, true)) by {
            reveal(clear);
            reveal_strlit("\n");
        }
        lemma_clear_add(x, y, used, true);
        lemma_clear_add(x + y, "\n"@, used, true);
    } else {
        reveal(clear);
    }
}

/// The body of a function, written on its own, and its slots are put together.
pub proof fn lemma_together(g: GenV, inner: GenV)
    requires
        good(g),
        g.free,
        good(inner),
        !inner.free,
        inner.bodies == g.bodies,
        begins(inner.used, g.used),
    ensures
        ({
            let head = g.out + slots(inner.allocas, inner.allocas.len());
            good(
                GenV {
                    out: head + inner.out,
                    allocas: Seq::empty(),
                    free: true,
                    bodies: inner.bodies.push(
                        (head.len() as int, (head.len() + inner.out.len()) as int),
                    ),
                    ..inner
                },
            )
        }),
{
    reveal(good);
    let all = slots(inner.allocas, inner.allocas.len());
    let head = g.out + all;
    let h = GenV {
        out: head + inner.out,
        allocas: Seq::empty(),
        free: true,
        bodies: inner.bodies.push((head.len() as int, (head.len() + inner.out.len()) as int)),
        ..inner
    };
    assert(settled(h)) by {
        reveal(settled);
    }
    assert(clear(all, inner.used, true)) by {
        reveal(settled);
        lemma_slots(inner.allocas, inner.used, inner.allocas.len());
    }
    assert(clear(inner.out, inner.used, true)) by {
        reveal(clear);
    }
    lemma_clear_grows(g.out, g.used, inner.used, true);
    lemma_clear_add(g.out, all, inner.used, true);
    lemma_clear_add(head, inner.out, inner.used, true);
    assert(orderly(h)) by {
        reveal(orderly);
        assert forall|k: int| 0 <= k < h.bodies.len() implies 0 <= (#[trigger] h.bodies[k]).0
            <= h.bodies[k].1 <= h.out.len() && clear(
            h.out.subrange(h.bodies[k].0, h.bodies[k].1),
            h.used,
            false,
        ) by {
            if k < g.bodies.len() {
                let (x, y) = g.bodies[k];
                assert(h.bodies[k] == g.bodies[k]);
                assert(h.out.subrange(x, y) =~= g.out.subrange(x, y));
                lemma_clear_grows(g.out.subrange(x, y), g.used, h.used, false);
            } else {
                assert(h.out.subrange(head.len() as int, (head.len() + inner.out.len()) as int)
                    =~= inner.out);
            }
        }
    }
}

/// The start of a module.
pub proof fn lemma_blank_is_good()
    ensures
        good(blank()),
{
    reveal(good);
    reveal(settled);
    reveal(clear);
    reveal(orderly);
}

/// The text of a module up to the end of its functions.
pub open spec fn functions_part(sem: Sem, p: Program) -> GenV {
    let g = globals_code(sem, header_code(blank()), p.stmts, p.stmts@.len());
    fns_code(sem, g, p.stmts, Seq::empty(), p.stmts@.len())
}

/// Whether the names of the top-level variables and of the functions are ordinary ones.
#[verifier::opaque]
pub open spec fn plain_sem(sem: Sem) -> bool {
    &&& forall|n: Seq<char>| #[trigger] global_ty(sem, n) is Some ==> ordinary(n)
    &&& forall|n: Seq<char>| #[trigger] sig_of(sem, n) is Some ==> ordinary(n)
}

/// Whether the names of a function's parameters are ordinary ones.
#[verifier::opaque]
pub open spec fn plain_params(f: FnDef) -> bool {
    forall|i: int| 0 <= i < f.params@.len() ==> ordinary((#[trigger] f.params@[i]).name@)
}

/// Whether the names of the functions among the first `n` statements of a namespace, and of
/// their parameters, are ordinary ones.
pub open spec fn plain_fns(b: Block, prefix: Seq<Seq<char>>, n: nat) -> bool
    decreases b, n,
{
    n == 0 || n > b@.len() || {
        proof {
            assert(decreases_to!(b => b@));
            assert(decreases_to!(b@ => b@[n - 1]));
        }
        plain_fns(b, prefix, (n - 1) as nat) && match *b@[n - 1] {
            Stmt::FnDef { def } => ordinary(join(prefix.push(def.name@), "::"@)) && plain_params(
                *def,
            ),
            Stmt::Namespace { path, body } => plain_fns(body, prefix + views(path@), body@.len()),
            _ => true,
        }
    }
}

/// Whether the names that a program brings into the text are ordinary ones: none has an `@` or
/// a `=`, and none begins like the functions of the library.
pub open spec fn plain_program(sem: Sem, p: Program) -> bool {
    plain_sem(sem) && plain_fns(p.stmts, Seq::empty(), p.stmts@.len())
}

pub broadcast proof fn ordinary_global(sem: Sem, name: Seq<char>)
    requires
        #[trigger] plain_sem(sem),
        (#[trigger] global_ty(sem, name)) is Some,
    ensures
        ordinary(name),
{
    reveal(plain_sem);
}

pub broadcast proof fn ordinary_function(sem: Sem, name: Seq<char>)
    requires
        #[trigger] plain_sem(sem),
        (#[trigger] sig_of(sem, name)) is Some,
    ensures
        ordinary(name),
{
    reveal(plain_sem);
}

pub broadcast proof fn ordinary_param(f: FnDef, i: int)
    requires
        #[trigger] plain_params(f),
        0 <= i < f.params@.len(),
    ensures
        ordinary((#[trigger] f.params@[i]).name@),
{
    reveal(plain_params);
}

proof fn lemma_dollars(s: Seq<char>, from: int, w: Seq<char>)
    requires
        0 <= from,
        forall|i: int| 0 <= i < s.len() ==> #[trigger] s[i] != '@' && s[i] != '=',
        forall|i: int| 0 <= i < w.len() ==> #[trigger] w[i] != '$',
    ensures
        forall|i: int|
            0 <= i < dollars(s, from).len() ==> #[trigger] dollars(s, from)[i] != '@' && dollars(
                s,
                from,
            )[i] != '=',
        at(dollars(s, from), 0, w) ==> at(s, from, w) || from > s.len(),
    decreases s.len() - from,
{
    let t = dollars(s, from);
    if from < s.len() {
        let k = if sep_at(s, from) {
            from + 2
        } else {
            from + 1
        };
        let v = if w.len() > 0 {
            w.skip(1)
        } else {
            w
        };
        lemma_dollars(s, k, v);
        let rest = dollars(s, k);
        assert forall|i: int| 0 <= i < t.len() implies #[trigger] t[i] != '@' && t[i] != '=' by {
            if i > 0 {
                assert(t[i] == rest[i - 1]);
            }
        }
        if at(t, 0, w) {
            if w.len() == 0 {
                assert(s.subrange(from, from) =~= w);
            } else {
                assert(t.subrange(0, w.len() as int)[0] == t[0]);
                assert(rest.subrange(0, v.len() as int) =~= t.subrange(0, w.len() as int).skip(1));
                assert(s.subrange(from, from + w.len()) =~= seq![s[from]] + s.subrange(
                    from + 1,
                    from + 1 + v.len(),
                ));
                assert(w =~= seq![w[0]] + v);
            }
        }
    } else if at(t, 0, w) && from == s.len() {
        assert(s.subrange(from, from) =~= w);
    }
}

/// The symbol of a function with an ordinary name is an ordinary one.
pub broadcast proof fn ordinary_symbol(name: Seq<char>)
    requires
        ordinary(name),
    ensures
        #[trigger] ordinary(dollars(name, 0)),
{
    reveal(ordinary);
    reveal_strlit("tie_");
    lemma_dollars(name, 0, "tie_"@);
}

// ---------- what is at hand ----------
proof fn lemma_bound_in(g: GenV, name: Seq<char>, n: int)
    requires
        settled(g),
    ensures
        bound_in(g.scopes, name, n) matches Some(b) ==> calm(b.value) && calm(b.ty),
    decreases n,
{
    reveal(settled);
    if 0 < n <= g.scopes.len() {
        if !g.scopes[n - 1].dom().contains(name) {
            lemma_bound_in(g, name, n - 1);
        }
    }
}

pub broadcast proof fn calm_bound(g: GenV, name: Seq<char>)
    requires
        good(g),
    ensures
        (#[trigger] bound(g, name)) matches Some(b) ==> calm(b.value) && calm(b.ty),
{
    reveal(good);
    reveal(bound);
    lemma_bound_in(g, name, g.scopes.len() as int);
}

proof fn lemma_loop_in(g: GenV, tag: Option<Seq<char>>, n: int)
    requires
        settled(g),
    ensures
        loop_in(g.loops, tag, n) matches Some(l) ==> calm(l.next) && calm(l.exit),
    decreases n,
{
    reveal(settled);
    if 0 < n <= g.loops.len() {
        if !(tag is None || g.loops[n - 1].label == tag) {
            lemma_loop_in(g, tag, n - 1);
        }
    }
}

pub broadcast proof fn calm_break(g: GenV, tag: Option<Seq<char>>)
    requires
        good(g),
    ensures
        calm(#[trigger] break_target(g, tag)),
{
    reveal(good);
    reveal(break_target);
    lemma_loop_in(g, tag, g.loops.len() as int);
    broadcast use calm_empty;

}

pub broadcast proof fn calm_continue(g: GenV, tag: Option<Seq<char>>)
    requires
        good(g),
    ensures
        calm(#[trigger] continue_target(g, tag)),
{
    reveal(good);
    reveal(continue_target);
    lemma_loop_in(g, tag, g.loops.len() as int);
    broadcast use calm_empty;

}

// ---------- tables ----------
pub broadcast proof fn calm_join(p: Seq<Seq<char>>, sep: Seq<char>)
    requires
        all_calm(p),
        calm(sep),
    ensures
        #[trigger] calm(join(p, sep)),
    decreases p.len(),
{
    reveal(all_calm);
    if p.len() == 0 {
        broadcast use calm_empty;

    } else if p.len() == 1 {
        assert(calm(p[0]));
    } else {
        let q = p.drop_last();
        assert forall|i: int| 0 <= i < q.len() implies calm(#[trigger] q[i]) by {
            assert(calm(p[i]));
        }
        assert(all_calm(q));
        calm_join(q, sep);
        assert(calm(p[p.len() - 1]));
        calm_add(join(q, sep), sep);
        calm_add(join(q, sep) + sep, p.last());
    }
}

pub broadcast proof fn all_calm_push(p: Seq<Seq<char>>, s: Seq<char>)
    requires
        all_calm(p),
        calm(s),
    ensures
        #[trigger] all_calm(p.push(s)),
{
    reveal(all_calm);
    let q = p.push(s);
    assert forall|i: int| 0 <= i < q.len() implies calm(#[trigger] q[i]) by {
        if i < p.len() {
            assert(q[i] == p[i]);
        }
    }
}

pub broadcast proof fn all_calm_empty()
    ensures
        #[trigger] all_calm(Seq::<Seq<char>>::empty()),
{
    reveal(all_calm);
}

pub broadcast proof fn all_calm_at(p: Seq<Seq<char>>, i: int)
    requires
        all_calm(p),
        0 <= i < p.len(),
    ensures
        calm(#[trigger] p[i]),
{
    reveal(all_calm);
}

pub broadcast proof fn calm_args(vals: Seq<Seq<char>>, from: int)
    requires
        all_calm(vals),
    ensures
        #[trigger] calm(bridge_text(vals, from)),
{
    broadcast use group_tables;

    reveal(all_calm);
    let p = bridge_args(vals, from);
    assert forall|i: int| 0 <= i < p.len() implies calm(#[trigger] p[i]) by {
        assert(calm(vals[i]));
        calm_add("ptr "@, vals[i]);
        calm_add("i64 "@, vals[i]);
    }
    calm_join(p, ", "@);
}

pub broadcast proof fn calm_shown(vals: Seq<Seq<char>>, i: int)
    requires
        all_calm(vals),
    ensures
        #[trigger] calm(shown(vals, i)),
{
    broadcast use group_tables;

    reveal(all_calm);
    if 0 <= i < vals.len() {
        assert(calm(vals[i]));
    }
}

pub broadcast proof fn calm_entries(cases: Rc<Vec<SwitchCase>>, labels: Seq<Seq<char>>)
    requires
        all_calm(labels),
    ensures
        #[trigger] calm(entries(cases, labels)),
{
    broadcast use group_tables;
    broadcast use calm_add;
    broadcast use calm_dec;

    reveal(entries);
    reveal(all_calm);
    let p = Seq::new(
        cases@.len(),
        |i: int|
            if i < labels.len() {
                entry(cases@[i], labels[i])
            } else {
                ""@
            },
    );
    assert forall|i: int| 0 <= i < p.len() implies calm(#[trigger] p[i]) by {
        if i < labels.len() {
            assert(calm(labels[i]));
            assert(p[i] == entry(cases@[i], labels[i]));
        }
    }
    calm_join(p, "\n    "@);
}

pub broadcast proof fn lively_opcode(op: BinaryOp, ty: Seq<char>, u: bool)
    requires
        calm(ty),
    ensures
        #[trigger] lively(opcode(op, ty, u)),
{
    broadcast use group_tables;
    broadcast use lively_add;

}

pub broadcast proof fn lively_mixed(op: BinaryOp)
    ensures
        (#[trigger] mixed_opcode(op)) matches Some(o) ==> lively(o),
{
    broadcast use group_tables;

}

pub broadcast proof fn lively_step(op: UnaryOp, ty: Seq<char>)
    ensures
        #[trigger] lively(step(op, ty)),
{
    broadcast use group_tables;

}

pub broadcast proof fn calm_predicate(op: BinaryOp)
    ensures
        (#[trigger] predicate(op)) matches Some(o) ==> calm(o),
{
    broadcast use group_tables;

}

pub broadcast proof fn calm_one(ty: Seq<char>)
    ensures
        #[trigger] calm(one(ty)),
{
    broadcast use group_tables;

}

pub broadcast proof fn calm_slot_size(ty: Seq<char>)
    ensures
        #[trigger] calm(slot_size(ty)),
{
    broadcast use group_tables;

}

pub broadcast proof fn calm_suffix(ty: Seq<char>)
    ensures
        #[trigger] calm(elem_suffix(ty)),
{
    broadcast use group_tables;

}

pub broadcast proof fn calm_ret(r: Ret)
    ensures
        #[trigger] calm(ret_llvm(r)),
{
    broadcast use group_tables;

}

pub broadcast proof fn calm_zero(ty: Seq<char>)
    ensures
        #[trigger] calm(zero_text(ty)),
{
    broadcast use group_tables;

}

pub broadcast proof fn calm_ty(k: TyKw)
    ensures
        (#[trigger] named_llvm(k)) matches Some(t) ==> calm(t),
{
    broadcast use group_tables;

}

pub broadcast proof fn calm_elem(s: Seq<char>)
    ensures
        (#[trigger] array_shape(s)) matches Some((n, t)) ==> calm(t),
{
    broadcast use group_tables;

}

pub broadcast proof fn calm_bridge(name: Seq<char>)
    ensures
        (#[trigger] bridge(name)) is Some ==> calm(name),
{
    broadcast use group_tables;

}

pub broadcast proof fn calm_symbol(name: Seq<char>)
    requires
        calm(name),
    ensures
        #[trigger] calm(bridge_symbol(name)),
{
    broadcast use group_tables;

    calm_add("tie_"@, name);
}

pub broadcast proof fn ordinary_math(name: Seq<char>)
    ensures
        (#[trigger] math_fn(name)) ==> ordinary(name),
{
    reveal(ordinary);
    reveal_strlit("tie_");
    reveal_strlit("sqrt");
    reveal_strlit("sin");
    reveal_strlit("cos");
    reveal_strlit("tan");
    reveal_strlit("exp");
    reveal_strlit("log");
    reveal_strlit("floor");
    reveal_strlit("ceil");
    reveal_strlit("round");
    if math_fn(name) {
        assert(name.len() >= 4 ==> name.subrange(0, 4)[0] == name[0]);
        if at(name, 0, "tie_"@) {
            assert(name.subrange(0, 4)[0] == "tie_"@[0]);
        }
    }
}

/// Whether the texts with which a switch tests its cases are calm.
pub open spec fn how_calm(how: HowV) -> bool {
    calm(how.subject) && lively(how.test) && calm(how.default) && calm(how.exit)
}

pub broadcast proof fn lively_test(is_str: bool, t: Seq<char>, is_char: bool)
    ensures
        #[trigger] lively(switch_test(is_str, t, is_char)),
{
    broadcast use group_tables;

}

pub broadcast proof fn calm_range_ty(is_char: bool)
    ensures
        #[trigger] calm(range_ty(is_char)),
{
    broadcast use group_tables;

}

// ---------- the words of the generator ----------
pub broadcast proof fn calm_texts_1()
    ensures
        #[trigger] calm(""@),
        calm(" "@),
        calm(" 0"@),
        calm(" 0, "@),
        calm(" = add i64 "@),
        calm(" = and i1 "@),
        calm(" = call "@),
        calm(" = call double @pow(double "@),
        calm(" = call i32 @remove(ptr "@),
        calm(" = call i32 @strcmp(ptr "@),
        calm(" = call i64"@),
        calm(" = call i64 @fwrite(ptr "@),
        calm(" = call i64 @strlen(ptr "@),
        calm(" = call i8"@),
        calm(" = call ptr"@),
        calm(" = call ptr @fopen(ptr "@),
        calm(" = call ptr @malloc(i64 "@),
        calm(" = extractvalue "@),
        calm(" = fcmp ole double "@),
        calm(" = fneg "@),
        calm(" = fpext float "@),
        calm(" = getelementptr "@),
        calm(" = getelementptr i8, ptr "@),
        calm(" = global "@),
        calm(" = icmp "@),
{
    reveal(calm);
    assert(calm(""@)) by {
        reveal_strlit("");
    }
    assert(calm(" "@)) by {
        reveal_strlit(" ");
    }
    assert(calm(" 0"@)) by {
        reveal_strlit(" 0");
    }
    assert(calm(" 0, "@)) by {
        reveal_strlit(" 0, ");
    }
    assert(calm(" = add i64 "@)) by {
        reveal_strlit(" = add i64 ");
    }
    assert(calm(" = and i1 "@)) by {
        reveal_strlit(" = and i1 ");
    }
    assert(calm(" = call "@)) by {
        reveal_strlit(" = call ");
    }
    assert(calm(" = call double @pow(double "@)) by {
        reveal_strlit(" = call double @pow(double ");
    }
    assert(calm(" = call i32 @remove(ptr "@)) by {
        reveal_strlit(" = call i32 @remove(ptr ");
    }
    assert(calm(" = call i32 @strcmp(ptr "@)) by {
        reveal_strlit(" = call i32 @strcmp(ptr ");
    }
    assert(calm(" = call i64"@)) by {
        reveal_strlit(" = call i64");
    }
    assert(calm(" = call i64 @fwrite(ptr "@)) by {
        reveal_strlit(" = call i64 @fwrite(ptr ");
    }
    assert(calm(" = call i64 @strlen(ptr "@)) by {
        reveal_strlit(" = call i64 @strlen(ptr ");
    }
    assert(calm(" = call i8"@)) by {
        reveal_strlit(" = call i8");
    }
    assert(calm(" = call ptr"@)) by {
        reveal_strlit(" = call ptr");
    }
    assert(calm(" = call ptr @fopen(ptr "@)) by {
        reveal_strlit(" = call ptr @fopen(ptr ");
    }
    assert(calm(" = call ptr @malloc(i64 "@)) by {
        reveal_strlit(" = call ptr @malloc(i64 ");
    }
    assert(calm(" = extractvalue "@)) by {
        reveal_strlit(" = extractvalue ");
    }
    assert(calm(" = fcmp ole double "@)) by {
        reveal_strlit(" = fcmp ole double ");
    }
    assert(calm(" = fneg "@)) by {
        reveal_strlit(" = fneg ");
    }
    assert(calm(" = fpext float "@)) by {
        reveal_strlit(" = fpext float ");
    }
    assert(calm(" = getelementptr "@)) by {
        reveal_strlit(" = getelementptr ");
    }
    assert(calm(" = getelementptr i8, ptr "@)) by {
        reveal_strlit(" = getelementptr i8, ptr ");
    }
    assert(calm(" = global "@)) by {
        reveal_strlit(" = global ");
    }
    assert(calm(" = icmp "@)) by {
        reveal_strlit(" = icmp ");
    }
}

pub broadcast proof fn calm_texts_2()
    ensures
        #[trigger] calm(" = icmp eq i32 "@),
        calm(" = icmp eq i64 "@),
        calm(" = icmp eq i8 "@),
        calm(" = icmp eq ptr "@),
        calm(" = icmp ne i8 "@),
        calm(" = icmp sge "@),
        calm(" = icmp sge i64 "@),
        calm(" = icmp sgt i64 "@),
        calm(" = icmp sgt i8 "@),
        calm(" = icmp slt "@),
        calm(" = icmp slt i64 "@),
        calm(" = icmp slt i8 "@),
        calm(" = insertvalue "@),
        calm(" = load "@),
        calm(" = load i1, ptr "@),
        calm(" = load i64, ptr "@),
        calm(" = load i8, ptr "@),
        calm(" = load ptr, ptr "@),
        calm(" = or i1 "@),
        calm(" = phi "@),
        calm(" = phi i1 [ false, %"@),
        calm(" = select i1 "@),
        calm(" = sext "@),
        calm(" = sext i8 "@),
        calm(" = sitofp "@),
{
    reveal(calm);
    assert(calm(" = icmp eq i32 "@)) by {
        reveal_strlit(" = icmp eq i32 ");
    }
    assert(calm(" = icmp eq i64 "@)) by {
        reveal_strlit(" = icmp eq i64 ");
    }
    assert(calm(" = icmp eq i8 "@)) by {
        reveal_strlit(" = icmp eq i8 ");
    }
    assert(calm(" = icmp eq ptr "@)) by {
        reveal_strlit(" = icmp eq ptr ");
    }
    assert(calm(" = icmp ne i8 "@)) by {
        reveal_strlit(" = icmp ne i8 ");
    }
    assert(calm(" = icmp sge "@)) by {
        reveal_strlit(" = icmp sge ");
    }
    assert(calm(" = icmp sge i64 "@)) by {
        reveal_strlit(" = icmp sge i64 ");
    }
    assert(calm(" = icmp sgt i64 "@)) by {
        reveal_strlit(" = icmp sgt i64 ");
    }
    assert(calm(" = icmp sgt i8 "@)) by {
        reveal_strlit(" = icmp sgt i8 ");
    }
    assert(calm(" = icmp slt "@)) by {
        reveal_strlit(" = icmp slt ");
    }
    assert(calm(" = icmp slt i64 "@)) by {
        reveal_strlit(" = icmp slt i64 ");
    }
    assert(calm(" = icmp slt i8 "@)) by {
        reveal_strlit(" = icmp slt i8 ");
    }
    assert(calm(" = insertvalue "@)) by {
        reveal_strlit(" = insertvalue ");
    }
    assert(calm(" = load "@)) by {
        reveal_strlit(" = load ");
    }
    assert(calm(" = load i1, ptr "@)) by {
        reveal_strlit(" = load i1, ptr ");
    }
    assert(calm(" = load i64, ptr "@)) by {
        reveal_strlit(" = load i64, ptr ");
    }
    assert(calm(" = load i8, ptr "@)) by {
        reveal_strlit(" = load i8, ptr ");
    }
    assert(calm(" = load ptr, ptr "@)) by {
        reveal_strlit(" = load ptr, ptr ");
    }
    assert(calm(" = or i1 "@)) by {
        reveal_strlit(" = or i1 ");
    }
    assert(calm(" = phi "@)) by {
        reveal_strlit(" = phi ");
    }
    assert(calm(" = phi i1 [ false, %"@)) by {
        reveal_strlit(" = phi i1 [ false, %");
    }
    assert(calm(" = select i1 "@)) by {
        reveal_strlit(" = select i1 ");
    }
    assert(calm(" = sext "@)) by {
        reveal_strlit(" = sext ");
    }
    assert(calm(" = sext i8 "@)) by {
        reveal_strlit(" = sext i8 ");
    }
    assert(calm(" = sitofp "@)) by {
        reveal_strlit(" = sitofp ");
    }
}

pub broadcast proof fn calm_texts_3()
    ensures
        #[trigger] calm(" = sub "@),
        calm(" = sub i8 0, "@),
        calm(" = trunc i64 "@),
        calm(" = xor i1 "@),
        calm(" = zext "@),
        calm(" = zext i1 "@),
        calm(" = zext i8 "@),
        calm(" [ "@),
        calm(" [\n    "@),
        calm(" ]"@),
        calm(" ], [ "@),
        calm(" ], [ true, %"@),
        calm(" i32 "@),
        calm(" i64 "@),
        calm(" i8 "@),
        calm(" null"@),
        calm(" to double"@),
        calm(" to i32"@),
        calm(" to i64"@),
        calm(" to i8"@),
        calm(" x "@),
        calm("%"@),
        calm("%c"@),
        calm("%d"@),
        calm("%f"@),
{
    reveal(calm);
    assert(calm(" = sub "@)) by {
        reveal_strlit(" = sub ");
    }
    assert(calm(" = sub i8 0, "@)) by {
        reveal_strlit(" = sub i8 0, ");
    }
    assert(calm(" = trunc i64 "@)) by {
        reveal_strlit(" = trunc i64 ");
    }
    assert(calm(" = xor i1 "@)) by {
        reveal_strlit(" = xor i1 ");
    }
    assert(calm(" = zext "@)) by {
        reveal_strlit(" = zext ");
    }
    assert(calm(" = zext i1 "@)) by {
        reveal_strlit(" = zext i1 ");
    }
    assert(calm(" = zext i8 "@)) by {
        reveal_strlit(" = zext i8 ");
    }
    assert(calm(" [ "@)) by {
        reveal_strlit(" [ ");
    }
    assert(calm(" [\n    "@)) by {
        reveal_strlit(" [\n    ");
    }
    assert(calm(" ]"@)) by {
        reveal_strlit(" ]");
    }
    assert(calm(" ], [ "@)) by {
        reveal_strlit(" ], [ ");
    }
    assert(calm(" ], [ true, %"@)) by {
        reveal_strlit(" ], [ true, %");
    }
    assert(calm(" i32 "@)) by {
        reveal_strlit(" i32 ");
    }
    assert(calm(" i64 "@)) by {
        reveal_strlit(" i64 ");
    }
    assert(calm(" i8 "@)) by {
        reveal_strlit(" i8 ");
    }
    assert(calm(" null"@)) by {
        reveal_strlit(" null");
    }
    assert(calm(" to double"@)) by {
        reveal_strlit(" to double");
    }
    assert(calm(" to i32"@)) by {
        reveal_strlit(" to i32");
    }
    assert(calm(" to i64"@)) by {
        reveal_strlit(" to i64");
    }
    assert(calm(" to i8"@)) by {
        reveal_strlit(" to i8");
    }
    assert(calm(" x "@)) by {
        reveal_strlit(" x ");
    }
    assert(calm("%"@)) by {
        reveal_strlit("%");
    }
    assert(calm("%c"@)) by {
        reveal_strlit("%c");
    }
    assert(calm("%d"@)) by {
        reveal_strlit("%d");
    }
    assert(calm("%f"@)) by {
        reveal_strlit("%f");
    }
}

pub broadcast proof fn calm_texts_4()
    ensures
        #[trigger] calm("%lld"@),
        calm("%llu"@),
        calm("%s"@),
        calm("%u"@),
        calm("("@),
        calm("(double "@),
        calm(")"@),
        calm(") {\n"@),
        calm(", "@),
        calm(", %"@),
        calm(", -1"@),
        calm(", 0"@),
        calm(", 0.0"@),
        calm(", 1"@),
        calm(", double "@),
        calm(", i1 false)"@),
        calm(", i32 0, i32 "@),
        calm(", i64 "@),
        calm(", i64 -1, i64 "@),
        calm(", i64 0, i64 "@),
        calm(", i64 1, i64 "@),
        calm(", i8 "@),
        calm(", label %"@),
        calm(", null"@),
        calm(", ptr "@),
{
    reveal(calm);
    assert(calm("%lld"@)) by {
        reveal_strlit("%lld");
    }
    assert(calm("%llu"@)) by {
        reveal_strlit("%llu");
    }
    assert(calm("%s"@)) by {
        reveal_strlit("%s");
    }
    assert(calm("%u"@)) by {
        reveal_strlit("%u");
    }
    assert(calm("("@)) by {
        reveal_strlit("(");
    }
    assert(calm("(double "@)) by {
        reveal_strlit("(double ");
    }
    assert(calm(")"@)) by {
        reveal_strlit(")");
    }
    assert(calm(") {\n"@)) by {
        reveal_strlit(") {\n");
    }
    assert(calm(", "@)) by {
        reveal_strlit(", ");
    }
    assert(calm(", %"@)) by {
        reveal_strlit(", %");
    }
    assert(calm(", -1"@)) by {
        reveal_strlit(", -1");
    }
    assert(calm(", 0"@)) by {
        reveal_strlit(", 0");
    }
    assert(calm(", 0.0"@)) by {
        reveal_strlit(", 0.0");
    }
    assert(calm(", 1"@)) by {
        reveal_strlit(", 1");
    }
    assert(calm(", double "@)) by {
        reveal_strlit(", double ");
    }
    assert(calm(", i1 false)"@)) by {
        reveal_strlit(", i1 false)");
    }
    assert(calm(", i32 0, i32 "@)) by {
        reveal_strlit(", i32 0, i32 ");
    }
    assert(calm(", i64 "@)) by {
        reveal_strlit(", i64 ");
    }
    assert(calm(", i64 -1, i64 "@)) by {
        reveal_strlit(", i64 -1, i64 ");
    }
    assert(calm(", i64 0, i64 "@)) by {
        reveal_strlit(", i64 0, i64 ");
    }
    assert(calm(", i64 1, i64 "@)) by {
        reveal_strlit(", i64 1, i64 ");
    }
    assert(calm(", i8 "@)) by {
        reveal_strlit(", i8 ");
    }
    assert(calm(", label %"@)) by {
        reveal_strlit(", label %");
    }
    assert(calm(", null"@)) by {
        reveal_strlit(", null");
    }
    assert(calm(", ptr "@)) by {
        reveal_strlit(", ptr ");
    }
}

pub broadcast proof fn calm_texts_5()
    ensures
        #[trigger] calm(", true"@),
        calm("-1"@),
        calm(".err"@),
        calm(".ok"@),
        calm("0"@),
        calm("1"@),
        calm("::"@),
        calm(":\n  "@),
        calm("["@),
        calm("\n"@),
        calm("\n    "@),
        calm("]"@),
        calm("ab"@),
        calm("add"@),
        calm("br i1 "@),
        calm("br label %"@),
        calm("call i32 @fclose(ptr "@),
        calm("call i32 @fflush(ptr null)"@),
        calm("call void"@),
        calm("call void @exit(i32 "@),
        calm("call void @exit(i32 1)"@),
        calm("call void @llvm.memcpy.p0.p0.i64(ptr "@),
        calm("define "@),
        calm("double"@),
        calm("double "@),
{
    reveal(calm);
    assert(calm(", true"@)) by {
        reveal_strlit(", true");
    }
    assert(calm("-1"@)) by {
        reveal_strlit("-1");
    }
    assert(calm(".err"@)) by {
        reveal_strlit(".err");
    }
    assert(calm(".ok"@)) by {
        reveal_strlit(".ok");
    }
    assert(calm("0"@)) by {
        reveal_strlit("0");
    }
    assert(calm("1"@)) by {
        reveal_strlit("1");
    }
    assert(calm("::"@)) by {
        reveal_strlit("::");
    }
    assert(calm(":\n  "@)) by {
        reveal_strlit(":\n  ");
    }
    assert(calm("["@)) by {
        reveal_strlit("[");
    }
    assert(calm("\n"@)) by {
        reveal_strlit("\n");
    }
    assert(calm("\n    "@)) by {
        reveal_strlit("\n    ");
    }
    assert(calm("]"@)) by {
        reveal_strlit("]");
    }
    assert(calm("ab"@)) by {
        reveal_strlit("ab");
    }
    assert(calm("add"@)) by {
        reveal_strlit("add");
    }
    assert(calm("br i1 "@)) by {
        reveal_strlit("br i1 ");
    }
    assert(calm("br label %"@)) by {
        reveal_strlit("br label %");
    }
    assert(calm("call i32 @fclose(ptr "@)) by {
        reveal_strlit("call i32 @fclose(ptr ");
    }
    assert(calm("call i32 @fflush(ptr null)"@)) by {
        reveal_strlit("call i32 @fflush(ptr null)");
    }
    assert(calm("call void"@)) by {
        reveal_strlit("call void");
    }
    assert(calm("call void @exit(i32 "@)) by {
        reveal_strlit("call void @exit(i32 ");
    }
    assert(calm("call void @exit(i32 1)"@)) by {
        reveal_strlit("call void @exit(i32 1)");
    }
    assert(calm("call void @llvm.memcpy.p0.p0.i64(ptr "@)) by {
        reveal_strlit("call void @llvm.memcpy.p0.p0.i64(ptr ");
    }
    assert(calm("define "@)) by {
        reveal_strlit("define ");
    }
    assert(calm("double"@)) by {
        reveal_strlit("double");
    }
    assert(calm("double "@)) by {
        reveal_strlit("double ");
    }
}

pub broadcast proof fn calm_texts_6()
    ensures
        #[trigger] calm("entry"@),
        calm("exit"@),
        calm("false"@),
        calm("fcmp oeq double"@),
        calm("file.exists.fail"@),
        calm("file.exists.merge"@),
        calm("file.exists.ok"@),
        calm("file.open.fail"@),
        calm("file.open.merge"@),
        calm("file.open.ok"@),
        calm("file_append"@),
        calm("file_delete"@),
        calm("file_exists"@),
        calm("file_write"@),
        calm("float"@),
        calm("for.body"@),
        calm("for.cond"@),
        calm("for.exit"@),
        calm("for.step"@),
        calm("i1"@),
        calm("i16"@),
        calm("i32"@),
        calm("i64"@),
        calm("i64 "@),
        calm("i8"@),
{
    reveal(calm);
    assert(calm("entry"@)) by {
        reveal_strlit("entry");
    }
    assert(calm("exit"@)) by {
        reveal_strlit("exit");
    }
    assert(calm("false"@)) by {
        reveal_strlit("false");
    }
    assert(calm("fcmp oeq double"@)) by {
        reveal_strlit("fcmp oeq double");
    }
    assert(calm("file.exists.fail"@)) by {
        reveal_strlit("file.exists.fail");
    }
    assert(calm("file.exists.merge"@)) by {
        reveal_strlit("file.exists.merge");
    }
    assert(calm("file.exists.ok"@)) by {
        reveal_strlit("file.exists.ok");
    }
    assert(calm("file.open.fail"@)) by {
        reveal_strlit("file.open.fail");
    }
    assert(calm("file.open.merge"@)) by {
        reveal_strlit("file.open.merge");
    }
    assert(calm("file.open.ok"@)) by {
        reveal_strlit("file.open.ok");
    }
    assert(calm("file_append"@)) by {
        reveal_strlit("file_append");
    }
    assert(calm("file_delete"@)) by {
        reveal_strlit("file_delete");
    }
    assert(calm("file_exists"@)) by {
        reveal_strlit("file_exists");
    }
    assert(calm("file_write"@)) by {
        reveal_strlit("file_write");
    }
    assert(calm("float"@)) by {
        reveal_strlit("float");
    }
    assert(calm("for.body"@)) by {
        reveal_strlit("for.body");
    }
    assert(calm("for.cond"@)) by {
        reveal_strlit("for.cond");
    }
    assert(calm("for.exit"@)) by {
        reveal_strlit("for.exit");
    }
    assert(calm("for.step"@)) by {
        reveal_strlit("for.step");
    }
    assert(calm("i1"@)) by {
        reveal_strlit("i1");
    }
    assert(calm("i16"@)) by {
        reveal_strlit("i16");
    }
    assert(calm("i32"@)) by {
        reveal_strlit("i32");
    }
    assert(calm("i64"@)) by {
        reveal_strlit("i64");
    }
    assert(calm("i64 "@)) by {
        reveal_strlit("i64 ");
    }
    assert(calm("i8"@)) by {
        reveal_strlit("i8");
    }
}

pub broadcast proof fn calm_texts_7()
    ensures
        #[trigger] calm("icmp eq i1"@),
        calm("icmp eq i32"@),
        calm("icmp eq i64"@),
        calm("if.else"@),
        calm("if.merge"@),
        calm("if.then"@),
        calm("index_assign.err"@),
        calm("index_assign.ok"@),
        calm("len"@),
        calm("log"@),
        calm("log.err"@),
        calm("log.ok"@),
        calm("loop.body"@),
        calm("loop.cond"@),
        calm("loop.exit"@),
        calm("main"@),
        calm("mul"@),
        calm("pow"@),
        calm("print"@),
        calm("println"@),
        calm("ptr"@),
        calm("ptr "@),
        calm("rand_range"@),
        calm("rb"@),
        calm("ret "@),
{
    reveal(calm);
    assert(calm("icmp eq i1"@)) by {
        reveal_strlit("icmp eq i1");
    }
    assert(calm("icmp eq i32"@)) by {
        reveal_strlit("icmp eq i32");
    }
    assert(calm("icmp eq i64"@)) by {
        reveal_strlit("icmp eq i64");
    }
    assert(calm("if.else"@)) by {
        reveal_strlit("if.else");
    }
    assert(calm("if.merge"@)) by {
        reveal_strlit("if.merge");
    }
    assert(calm("if.then"@)) by {
        reveal_strlit("if.then");
    }
    assert(calm("index_assign.err"@)) by {
        reveal_strlit("index_assign.err");
    }
    assert(calm("index_assign.ok"@)) by {
        reveal_strlit("index_assign.ok");
    }
    assert(calm("len"@)) by {
        reveal_strlit("len");
    }
    assert(calm("log"@)) by {
        reveal_strlit("log");
    }
    assert(calm("log.err"@)) by {
        reveal_strlit("log.err");
    }
    assert(calm("log.ok"@)) by {
        reveal_strlit("log.ok");
    }
    assert(calm("loop.body"@)) by {
        reveal_strlit("loop.body");
    }
    assert(calm("loop.cond"@)) by {
        reveal_strlit("loop.cond");
    }
    assert(calm("loop.exit"@)) by {
        reveal_strlit("loop.exit");
    }
    assert(calm("main"@)) by {
        reveal_strlit("main");
    }
    assert(calm("mul"@)) by {
        reveal_strlit("mul");
    }
    assert(calm("pow"@)) by {
        reveal_strlit("pow");
    }
    assert(calm("print"@)) by {
        reveal_strlit("print");
    }
    assert(calm("println"@)) by {
        reveal_strlit("println");
    }
    assert(calm("ptr"@)) by {
        reveal_strlit("ptr");
    }
    assert(calm("ptr "@)) by {
        reveal_strlit("ptr ");
    }
    assert(calm("rand_range"@)) by {
        reveal_strlit("rand_range");
    }
    assert(calm("rb"@)) by {
        reveal_strlit("rb");
    }
    assert(calm("ret "@)) by {
        reveal_strlit("ret ");
    }
}

pub broadcast proof fn calm_texts_8()
    ensures
        #[trigger] calm("ret i32 0"@),
        calm("ret i8 "@),
        calm("ret void"@),
        calm("store "@),
        calm("store i1 0, ptr "@),
        calm("store i1 1, ptr "@),
        calm("store i64 "@),
        calm("store i64 0, ptr "@),
        calm("store i8 "@),
        calm("store i8 0, ptr "@),
        calm("store ptr "@),
        calm("strcmp"@),
        calm("sub"@),
        calm("sw.body"@),
        calm("sw.cmp"@),
        calm("sw.default"@),
        calm("sw.exit"@),
        calm("switch i64 "@),
        calm("table_at"@),
        calm("table_at.err"@),
        calm("table_at.ok"@),
        calm("table_push"@),
        calm("tern.else"@),
        calm("tern.merge"@),
        calm("tern.then"@),
{
    reveal(calm);
    assert(calm("ret i32 0"@)) by {
        reveal_strlit("ret i32 0");
    }
    assert(calm("ret i8 "@)) by {
        reveal_strlit("ret i8 ");
    }
    assert(calm("ret void"@)) by {
        reveal_strlit("ret void");
    }
    assert(calm("store "@)) by {
        reveal_strlit("store ");
    }
    assert(calm("store i1 0, ptr "@)) by {
        reveal_strlit("store i1 0, ptr ");
    }
    assert(calm("store i1 1, ptr "@)) by {
        reveal_strlit("store i1 1, ptr ");
    }
    assert(calm("store i64 "@)) by {
        reveal_strlit("store i64 ");
    }
    assert(calm("store i64 0, ptr "@)) by {
        reveal_strlit("store i64 0, ptr ");
    }
    assert(calm("store i8 "@)) by {
        reveal_strlit("store i8 ");
    }
    assert(calm("store i8 0, ptr "@)) by {
        reveal_strlit("store i8 0, ptr ");
    }
    assert(calm("store ptr "@)) by {
        reveal_strlit("store ptr ");
    }
    assert(calm("strcmp"@)) by {
        reveal_strlit("strcmp");
    }
    assert(calm("sub"@)) by {
        reveal_strlit("sub");
    }
    assert(calm("sw.body"@)) by {
        reveal_strlit("sw.body");
    }
    assert(calm("sw.cmp"@)) by {
        reveal_strlit("sw.cmp");
    }
    assert(calm("sw.default"@)) by {
        reveal_strlit("sw.default");
    }
    assert(calm("sw.exit"@)) by {
        reveal_strlit("sw.exit");
    }
    assert(calm("switch i64 "@)) by {
        reveal_strlit("switch i64 ");
    }
    assert(calm("table_at"@)) by {
        reveal_strlit("table_at");
    }
    assert(calm("table_at.err"@)) by {
        reveal_strlit("table_at.err");
    }
    assert(calm("table_at.ok"@)) by {
        reveal_strlit("table_at.ok");
    }
    assert(calm("table_push"@)) by {
        reveal_strlit("table_push");
    }
    assert(calm("tern.else"@)) by {
        reveal_strlit("tern.else");
    }
    assert(calm("tern.merge"@)) by {
        reveal_strlit("tern.merge");
    }
    assert(calm("tern.then"@)) by {
        reveal_strlit("tern.then");
    }
}

pub broadcast proof fn calm_texts_9()
    ensures
        #[trigger] calm("tie_eval_expr"@),
        calm("tie_free_result"@),
        calm("tie_rand_range"@),
        calm("tie_table_at_"@),
        calm("tie_table_len"@),
        calm("tie_table_new"@),
        calm("tie_table_push_"@),
        calm("tie_table_set_"@),
        calm("tie_to_string_f64"@),
        calm("tie_to_string_i64"@),
        calm("to_string"@),
        calm("true"@),
        calm("undef"@),
        calm("unreachable"@),
        calm("void"@),
        calm("wb"@),
        calm("{"@),
        calm("}"@),
        calm("}\n\n"@),
{
    reveal(calm);
    assert(calm("tie_eval_expr"@)) by {
        reveal_strlit("tie_eval_expr");
    }
    assert(calm("tie_free_result"@)) by {
        reveal_strlit("tie_free_result");
    }
    assert(calm("tie_rand_range"@)) by {
        reveal_strlit("tie_rand_range");
    }
    assert(calm("tie_table_at_"@)) by {
        reveal_strlit("tie_table_at_");
    }
    assert(calm("tie_table_len"@)) by {
        reveal_strlit("tie_table_len");
    }
    assert(calm("tie_table_new"@)) by {
        reveal_strlit("tie_table_new");
    }
    assert(calm("tie_table_push_"@)) by {
        reveal_strlit("tie_table_push_");
    }
    assert(calm("tie_table_set_"@)) by {
        reveal_strlit("tie_table_set_");
    }
    assert(calm("tie_to_string_f64"@)) by {
        reveal_strlit("tie_to_string_f64");
    }
    assert(calm("tie_to_string_i64"@)) by {
        reveal_strlit("tie_to_string_i64");
    }
    assert(calm("to_string"@)) by {
        reveal_strlit("to_string");
    }
    assert(calm("true"@)) by {
        reveal_strlit("true");
    }
    assert(calm("undef"@)) by {
        reveal_strlit("undef");
    }
    assert(calm("unreachable"@)) by {
        reveal_strlit("unreachable");
    }
    assert(calm("void"@)) by {
        reveal_strlit("void");
    }
    assert(calm("wb"@)) by {
        reveal_strlit("wb");
    }
    assert(calm("{"@)) by {
        reveal_strlit("{");
    }
    assert(calm("}"@)) by {
        reveal_strlit("}");
    }
    assert(calm("}\n\n"@)) by {
        reveal_strlit("}\n\n");
    }
}

pub broadcast proof fn ends_at_texts_1()
    ensures
        #[trigger] ends_at(" = call double @"@),
        ends_at(" @"@),
        ends_at(", ptr @"@),
        ends_at("@"@),
        ends_at("call i32 (ptr, ...) @printf(ptr @"@),
        ends_at("call void @"@),
{
    reveal(calm);
    reveal(ends_at);
    assert(ends_at(" = call double @"@)) by {
        reveal_strlit(" = call double @");
        assert(calm(" = call double @"@.drop_last()));
    }
    assert(ends_at(" @"@)) by {
        reveal_strlit(" @");
        assert(calm(" @"@.drop_last()));
    }
    assert(ends_at(", ptr @"@)) by {
        reveal_strlit(", ptr @");
        assert(calm(", ptr @"@.drop_last()));
    }
    assert(ends_at("@"@)) by {
        reveal_strlit("@");
        assert(calm("@"@.drop_last()));
    }
    assert(ends_at("call i32 (ptr, ...) @printf(ptr @"@)) by {
        reveal_strlit("call i32 (ptr, ...) @printf(ptr @");
        assert(calm("call i32 (ptr, ...) @printf(ptr @"@.drop_last()));
    }
    assert(ends_at("call void @"@)) by {
        reveal_strlit("call void @");
        assert(calm("call void @"@.drop_last()));
    }
}

pub broadcast proof fn lively_texts_1()
    ensures
        #[trigger] lively("strcmp"@),
        lively("add"@),
        lively("sub"@),
        lively("mul"@),
        lively("icmp eq i1"@),
        lively("icmp eq i32"@),
        lively("icmp eq i64"@),
        lively("fcmp oeq double"@),
{
    reveal(calm);
    reveal(lively);
    assert(lively("strcmp"@)) by {
        reveal_strlit("strcmp");
    }
    assert(lively("add"@)) by {
        reveal_strlit("add");
    }
    assert(lively("sub"@)) by {
        reveal_strlit("sub");
    }
    assert(lively("mul"@)) by {
        reveal_strlit("mul");
    }
    assert(lively("icmp eq i1"@)) by {
        reveal_strlit("icmp eq i1");
    }
    assert(lively("icmp eq i32"@)) by {
        reveal_strlit("icmp eq i32");
    }
    assert(lively("icmp eq i64"@)) by {
        reveal_strlit("icmp eq i64");
    }
    assert(lively("fcmp oeq double"@)) by {
        reveal_strlit("fcmp oeq double");
    }
}

pub broadcast proof fn breaks_texts_1()
    ensures
        #[trigger] breaks("("@),
        breaks("(double "@),
        breaks(" = global "@),
{
    reveal(calm);
    reveal(breaks);
    assert(breaks("("@)) by {
        reveal_strlit("(");
    }
    assert(breaks("(double "@)) by {
        reveal_strlit("(double ");
    }
    assert(breaks(" = global "@)) by {
        reveal_strlit(" = global ");
    }
}

pub broadcast proof fn table_texts_1()
    ensures
        #[trigger] calm("0.0"@),
        calm("1.0"@),
        calm("8"@),
        calm("; ModuleID = 'tie'\nsource_filename = \"input.tie\"\n\n"@),
        calm("Add"@),
        calm("And"@),
        calm("BitAnd"@),
        calm("BitOr"@),
        calm("BitXor"@),
        calm("Div"@),
        calm("Eq"@),
        calm("Ge"@),
        calm("Gt"@),
        calm("Item"@),
        calm("Le"@),
        calm("Lt"@),
        calm("Mod"@),
        calm("Mul"@),
        calm("NotEq"@),
        calm("Or"@),
        calm("Shl"@),
        calm("Shr"@),
        calm("Sub"@),
        calm("add "@),
        calm("add i64"@),
{
    reveal(calm);
    assert(calm("0.0"@)) by {
        reveal_strlit("0.0");
    }
    assert(calm("1.0"@)) by {
        reveal_strlit("1.0");
    }
    assert(calm("8"@)) by {
        reveal_strlit("8");
    }
    assert(calm("; ModuleID = 'tie'\nsource_filename = \"input.tie\"\n\n"@)) by {
        reveal_strlit("; ModuleID = 'tie'\nsource_filename = \"input.tie\"\n\n");
    }
    assert(calm("Add"@)) by {
        reveal_strlit("Add");
    }
    assert(calm("And"@)) by {
        reveal_strlit("And");
    }
    assert(calm("BitAnd"@)) by {
        reveal_strlit("BitAnd");
    }
    assert(calm("BitOr"@)) by {
        reveal_strlit("BitOr");
    }
    assert(calm("BitXor"@)) by {
        reveal_strlit("BitXor");
    }
    assert(calm("Div"@)) by {
        reveal_strlit("Div");
    }
    assert(calm("Eq"@)) by {
        reveal_strlit("Eq");
    }
    assert(calm("Ge"@)) by {
        reveal_strlit("Ge");
    }
    assert(calm("Gt"@)) by {
        reveal_strlit("Gt");
    }
    assert(calm("Item"@)) by {
        reveal_strlit("Item");
    }
    assert(calm("Le"@)) by {
        reveal_strlit("Le");
    }
    assert(calm("Lt"@)) by {
        reveal_strlit("Lt");
    }
    assert(calm("Mod"@)) by {
        reveal_strlit("Mod");
    }
    assert(calm("Mul"@)) by {
        reveal_strlit("Mul");
    }
    assert(calm("NotEq"@)) by {
        reveal_strlit("NotEq");
    }
    assert(calm("Or"@)) by {
        reveal_strlit("Or");
    }
    assert(calm("Shl"@)) by {
        reveal_strlit("Shl");
    }
    assert(calm("Shr"@)) by {
        reveal_strlit("Shr");
    }
    assert(calm("Sub"@)) by {
        reveal_strlit("Sub");
    }
    assert(calm("add "@)) by {
        reveal_strlit("add ");
    }
    assert(calm("add i64"@)) by {
        reveal_strlit("add i64");
    }
}

pub broadcast proof fn table_texts_2()
    ensures
        #[trigger] calm("and "@),
        calm("and i1"@),
        calm("arg_count"@),
        calm("arg_string"@),
        calm("ashr "@),
        calm("bit_read"@),
        calm("bit_write"@),
        calm("bool"@),
        calm("byte_concat"@),
        calm("byte_read"@),
        calm("byte_write"@),
        calm("ceil"@),
        calm("char"@),
        calm("copy_dir"@),
        calm("cos"@),
        calm("cwd"@),
        calm("eq"@),
        calm("eval"@),
        calm("eval_call"@),
        calm("exec_code"@),
        calm("exec_output"@),
        calm("exp"@),
        calm("f32"@),
        calm("f64"@),
        calm("fadd"@),
{
    reveal(calm);
    assert(calm("and "@)) by {
        reveal_strlit("and ");
    }
    assert(calm("and i1"@)) by {
        reveal_strlit("and i1");
    }
    assert(calm("arg_count"@)) by {
        reveal_strlit("arg_count");
    }
    assert(calm("arg_string"@)) by {
        reveal_strlit("arg_string");
    }
    assert(calm("ashr "@)) by {
        reveal_strlit("ashr ");
    }
    assert(calm("bit_read"@)) by {
        reveal_strlit("bit_read");
    }
    assert(calm("bit_write"@)) by {
        reveal_strlit("bit_write");
    }
    assert(calm("bool"@)) by {
        reveal_strlit("bool");
    }
    assert(calm("byte_concat"@)) by {
        reveal_strlit("byte_concat");
    }
    assert(calm("byte_read"@)) by {
        reveal_strlit("byte_read");
    }
    assert(calm("byte_write"@)) by {
        reveal_strlit("byte_write");
    }
    assert(calm("ceil"@)) by {
        reveal_strlit("ceil");
    }
    assert(calm("char"@)) by {
        reveal_strlit("char");
    }
    assert(calm("copy_dir"@)) by {
        reveal_strlit("copy_dir");
    }
    assert(calm("cos"@)) by {
        reveal_strlit("cos");
    }
    assert(calm("cwd"@)) by {
        reveal_strlit("cwd");
    }
    assert(calm("eq"@)) by {
        reveal_strlit("eq");
    }
    assert(calm("eval"@)) by {
        reveal_strlit("eval");
    }
    assert(calm("eval_call"@)) by {
        reveal_strlit("eval_call");
    }
    assert(calm("exec_code"@)) by {
        reveal_strlit("exec_code");
    }
    assert(calm("exec_output"@)) by {
        reveal_strlit("exec_output");
    }
    assert(calm("exp"@)) by {
        reveal_strlit("exp");
    }
    assert(calm("f32"@)) by {
        reveal_strlit("f32");
    }
    assert(calm("f64"@)) by {
        reveal_strlit("f64");
    }
    assert(calm("fadd"@)) by {
        reveal_strlit("fadd");
    }
}

pub broadcast proof fn table_texts_3()
    ensures
        #[trigger] calm("fadd "@),
        calm("fcmp oeq "@),
        calm("fcmp oge "@),
        calm("fcmp ogt "@),
        calm("fcmp ole "@),
        calm("fcmp olt "@),
        calm("fcmp one "@),
        calm("fdiv "@),
        calm("file_copy"@),
        calm("file_move"@),
        calm("file_read"@),
        calm("floor"@),
        calm("fmul "@),
        calm("fsub"@),
        calm("fsub "@),
        calm("get_env"@),
        calm("http_get"@),
        calm("http_get_file"@),
        calm("icmp eq "@),
        calm("icmp ne "@),
        calm("icmp ne i64"@),
        calm("icmp sge "@),
        calm("icmp sge i64"@),
        calm("icmp sgt "@),
        calm("icmp sgt i64"@),
{
    reveal(calm);
    assert(calm("fadd "@)) by {
        reveal_strlit("fadd ");
    }
    assert(calm("fcmp oeq "@)) by {
        reveal_strlit("fcmp oeq ");
    }
    assert(calm("fcmp oge "@)) by {
        reveal_strlit("fcmp oge ");
    }
    assert(calm("fcmp ogt "@)) by {
        reveal_strlit("fcmp ogt ");
    }
    assert(calm("fcmp ole "@)) by {
        reveal_strlit("fcmp ole ");
    }
    assert(calm("fcmp olt "@)) by {
        reveal_strlit("fcmp olt ");
    }
    assert(calm("fcmp one "@)) by {
        reveal_strlit("fcmp one ");
    }
    assert(calm("fdiv "@)) by {
        reveal_strlit("fdiv ");
    }
    assert(calm("file_copy"@)) by {
        reveal_strlit("file_copy");
    }
    assert(calm("file_move"@)) by {
        reveal_strlit("file_move");
    }
    assert(calm("file_read"@)) by {
        reveal_strlit("file_read");
    }
    assert(calm("floor"@)) by {
        reveal_strlit("floor");
    }
    assert(calm("fmul "@)) by {
        reveal_strlit("fmul ");
    }
    assert(calm("fsub"@)) by {
        reveal_strlit("fsub");
    }
    assert(calm("fsub "@)) by {
        reveal_strlit("fsub ");
    }
    assert(calm("get_env"@)) by {
        reveal_strlit("get_env");
    }
    assert(calm("http_get"@)) by {
        reveal_strlit("http_get");
    }
    assert(calm("http_get_file"@)) by {
        reveal_strlit("http_get_file");
    }
    assert(calm("icmp eq "@)) by {
        reveal_strlit("icmp eq ");
    }
    assert(calm("icmp ne "@)) by {
        reveal_strlit("icmp ne ");
    }
    assert(calm("icmp ne i64"@)) by {
        reveal_strlit("icmp ne i64");
    }
    assert(calm("icmp sge "@)) by {
        reveal_strlit("icmp sge ");
    }
    assert(calm("icmp sge i64"@)) by {
        reveal_strlit("icmp sge i64");
    }
    assert(calm("icmp sgt "@)) by {
        reveal_strlit("icmp sgt ");
    }
    assert(calm("icmp sgt i64"@)) by {
        reveal_strlit("icmp sgt i64");
    }
}

pub broadcast proof fn table_texts_4()
    ensures
        #[trigger] calm("icmp sle "@),
        calm("icmp sle i64"@),
        calm("icmp slt "@),
        calm("icmp slt i64"@),
        calm("icmp uge "@),
        calm("icmp ugt "@),
        calm("icmp ule "@),
        calm("icmp ult "@),
        calm("list_dir"@),
        calm("lshr "@),
        calm("mkdir_all"@),
        calm("msg_get_lang"@),
        calm("msg_register"@),
        calm("msg_set_lang"@),
        calm("msg_t"@),
        calm("msg_t_lang"@),
        calm("mul "@),
        calm("mul i64"@),
        calm("ne"@),
        calm("null"@),
        calm("or "@),
        calm("or i1"@),
        calm("parse_float"@),
        calm("parse_int"@),
        calm("parse_trit"@),
{
    reveal(calm);
    assert(calm("icmp sle "@)) by {
        reveal_strlit("icmp sle ");
    }
    assert(calm("icmp sle i64"@)) by {
        reveal_strlit("icmp sle i64");
    }
    assert(calm("icmp slt "@)) by {
        reveal_strlit("icmp slt ");
    }
    assert(calm("icmp slt i64"@)) by {
        reveal_strlit("icmp slt i64");
    }
    assert(calm("icmp uge "@)) by {
        reveal_strlit("icmp uge ");
    }
    assert(calm("icmp ugt "@)) by {
        reveal_strlit("icmp ugt ");
    }
    assert(calm("icmp ule "@)) by {
        reveal_strlit("icmp ule ");
    }
    assert(calm("icmp ult "@)) by {
        reveal_strlit("icmp ult ");
    }
    assert(calm("list_dir"@)) by {
        reveal_strlit("list_dir");
    }
    assert(calm("lshr "@)) by {
        reveal_strlit("lshr ");
    }
    assert(calm("mkdir_all"@)) by {
        reveal_strlit("mkdir_all");
    }
    assert(calm("msg_get_lang"@)) by {
        reveal_strlit("msg_get_lang");
    }
    assert(calm("msg_register"@)) by {
        reveal_strlit("msg_register");
    }
    assert(calm("msg_set_lang"@)) by {
        reveal_strlit("msg_set_lang");
    }
    assert(calm("msg_t"@)) by {
        reveal_strlit("msg_t");
    }
    assert(calm("msg_t_lang"@)) by {
        reveal_strlit("msg_t_lang");
    }
    assert(calm("mul "@)) by {
        reveal_strlit("mul ");
    }
    assert(calm("mul i64"@)) by {
        reveal_strlit("mul i64");
    }
    assert(calm("ne"@)) by {
        reveal_strlit("ne");
    }
    assert(calm("null"@)) by {
        reveal_strlit("null");
    }
    assert(calm("or "@)) by {
        reveal_strlit("or ");
    }
    assert(calm("or i1"@)) by {
        reveal_strlit("or i1");
    }
    assert(calm("parse_float"@)) by {
        reveal_strlit("parse_float");
    }
    assert(calm("parse_int"@)) by {
        reveal_strlit("parse_int");
    }
    assert(calm("parse_trit"@)) by {
        reveal_strlit("parse_trit");
    }
}

pub broadcast proof fn table_texts_5()
    ensures
        #[trigger] calm("path_abs"@),
        calm("path_basename"@),
        calm("path_dirname"@),
        calm("path_join"@),
        calm("path_normalize"@),
        calm("print_err"@),
        calm("read_line"@),
        calm("regex_find"@),
        calm("regex_find_all"@),
        calm("regex_group"@),
        calm("regex_match"@),
        calm("regex_replace"@),
        calm("remove_dir_all"@),
        calm("round"@),
        calm("sdiv "@),
        calm("set_env"@),
        calm("sge"@),
        calm("sgt"@),
        calm("shl "@),
        calm("sin"@),
        calm("sle"@),
        calm("slt"@),
        calm("sqrt"@),
        calm("srem "@),
        calm("str_char"@),
{
    reveal(calm);
    assert(calm("path_abs"@)) by {
        reveal_strlit("path_abs");
    }
    assert(calm("path_basename"@)) by {
        reveal_strlit("path_basename");
    }
    assert(calm("path_dirname"@)) by {
        reveal_strlit("path_dirname");
    }
    assert(calm("path_join"@)) by {
        reveal_strlit("path_join");
    }
    assert(calm("path_normalize"@)) by {
        reveal_strlit("path_normalize");
    }
    assert(calm("print_err"@)) by {
        reveal_strlit("print_err");
    }
    assert(calm("read_line"@)) by {
        reveal_strlit("read_line");
    }
    assert(calm("regex_find"@)) by {
        reveal_strlit("regex_find");
    }
    assert(calm("regex_find_all"@)) by {
        reveal_strlit("regex_find_all");
    }
    assert(calm("regex_group"@)) by {
        reveal_strlit("regex_group");
    }
    assert(calm("regex_match"@)) by {
        reveal_strlit("regex_match");
    }
    assert(calm("regex_replace"@)) by {
        reveal_strlit("regex_replace");
    }
    assert(calm("remove_dir_all"@)) by {
        reveal_strlit("remove_dir_all");
    }
    assert(calm("round"@)) by {
        reveal_strlit("round");
    }
    assert(calm("sdiv "@)) by {
        reveal_strlit("sdiv ");
    }
    assert(calm("set_env"@)) by {
        reveal_strlit("set_env");
    }
    assert(calm("sge"@)) by {
        reveal_strlit("sge");
    }
    assert(calm("sgt"@)) by {
        reveal_strlit("sgt");
    }
    assert(calm("shl "@)) by {
        reveal_strlit("shl ");
    }
    assert(calm("sin"@)) by {
        reveal_strlit("sin");
    }
    assert(calm("sle"@)) by {
        reveal_strlit("sle");
    }
    assert(calm("slt"@)) by {
        reveal_strlit("slt");
    }
    assert(calm("sqrt"@)) by {
        reveal_strlit("sqrt");
    }
    assert(calm("srem "@)) by {
        reveal_strlit("srem ");
    }
    assert(calm("str_char"@)) by {
        reveal_strlit("str_char");
    }
}

pub broadcast proof fn table_texts_6()
    ensures
        #[trigger] calm("str_len"@),
        calm("string"@),
        calm("struct"@),
        calm("sub "@),
        calm("sub i64"@),
        calm("table<T>"@),
        calm("table_new_bool"@),
        calm("table_new_f64"@),
        calm("table_new_i64"@),
        calm("table_new_string"@),
        calm("tan"@),
        calm("tie_"@),
        calm("time_now"@),
        calm("u16"@),
        calm("u32"@),
        calm("u64"@),
        calm("u8"@),
        calm("udiv "@),
        calm("untar_gz"@),
        calm("unzip"@),
        calm("urem "@),
        calm("walk_dir"@),
        calm("xor "@),
{
    reveal(calm);
    assert(calm("str_len"@)) by {
        reveal_strlit("str_len");
    }
    assert(calm("string"@)) by {
        reveal_strlit("string");
    }
    assert(calm("struct"@)) by {
        reveal_strlit("struct");
    }
    assert(calm("sub "@)) by {
        reveal_strlit("sub ");
    }
    assert(calm("sub i64"@)) by {
        reveal_strlit("sub i64");
    }
    assert(calm("table<T>"@)) by {
        reveal_strlit("table<T>");
    }
    assert(calm("table_new_bool"@)) by {
        reveal_strlit("table_new_bool");
    }
    assert(calm("table_new_f64"@)) by {
        reveal_strlit("table_new_f64");
    }
    assert(calm("table_new_i64"@)) by {
        reveal_strlit("table_new_i64");
    }
    assert(calm("table_new_string"@)) by {
        reveal_strlit("table_new_string");
    }
    assert(calm("tan"@)) by {
        reveal_strlit("tan");
    }
    assert(calm("tie_"@)) by {
        reveal_strlit("tie_");
    }
    assert(calm("time_now"@)) by {
        reveal_strlit("time_now");
    }
    assert(calm("u16"@)) by {
        reveal_strlit("u16");
    }
    assert(calm("u32"@)) by {
        reveal_strlit("u32");
    }
    assert(calm("u64"@)) by {
        reveal_strlit("u64");
    }
    assert(calm("u8"@)) by {
        reveal_strlit("u8");
    }
    assert(calm("udiv "@)) by {
        reveal_strlit("udiv ");
    }
    assert(calm("untar_gz"@)) by {
        reveal_strlit("untar_gz");
    }
    assert(calm("unzip"@)) by {
        reveal_strlit("unzip");
    }
    assert(calm("urem "@)) by {
        reveal_strlit("urem ");
    }
    assert(calm("walk_dir"@)) by {
        reveal_strlit("walk_dir");
    }
    assert(calm("xor "@)) by {
        reveal_strlit("xor ");
    }
}

pub broadcast proof fn table_lively_texts_1()
    ensures
        #[trigger] lively("add "@),
        lively("sub "@),
        lively("mul "@),
        lively("fadd "@),
        lively("fsub "@),
        lively("fmul "@),
        lively("fdiv "@),
        lively("udiv "@),
        lively("sdiv "@),
        lively("urem "@),
        lively("srem "@),
        lively("fadd"@),
        lively("fsub"@),
        lively("and "@),
        lively("and i1"@),
        lively("ashr "@),
        lively("fcmp oeq "@),
        lively("fcmp oge "@),
        lively("fcmp ogt "@),
        lively("fcmp ole "@),
        lively("fcmp olt "@),
        lively("fcmp one "@),
        lively("icmp eq "@),
        lively("icmp ne "@),
        lively("icmp ne i64"@),
{
    reveal(calm);
    reveal(lively);
    assert(lively("add "@)) by {
        reveal_strlit("add ");
    }
    assert(lively("sub "@)) by {
        reveal_strlit("sub ");
    }
    assert(lively("mul "@)) by {
        reveal_strlit("mul ");
    }
    assert(lively("fadd "@)) by {
        reveal_strlit("fadd ");
    }
    assert(lively("fsub "@)) by {
        reveal_strlit("fsub ");
    }
    assert(lively("fmul "@)) by {
        reveal_strlit("fmul ");
    }
    assert(lively("fdiv "@)) by {
        reveal_strlit("fdiv ");
    }
    assert(lively("udiv "@)) by {
        reveal_strlit("udiv ");
    }
    assert(lively("sdiv "@)) by {
        reveal_strlit("sdiv ");
    }
    assert(lively("urem "@)) by {
        reveal_strlit("urem ");
    }
    assert(lively("srem "@)) by {
        reveal_strlit("srem ");
    }
    assert(lively("fadd"@)) by {
        reveal_strlit("fadd");
    }
    assert(lively("fsub"@)) by {
        reveal_strlit("fsub");
    }
    assert(lively("and "@)) by {
        reveal_strlit("and ");
    }
    assert(lively("and i1"@)) by {
        reveal_strlit("and i1");
    }
    assert(lively("ashr "@)) by {
        reveal_strlit("ashr ");
    }
    assert(lively("fcmp oeq "@)) by {
        reveal_strlit("fcmp oeq ");
    }
    assert(lively("fcmp oge "@)) by {
        reveal_strlit("fcmp oge ");
    }
    assert(lively("fcmp ogt "@)) by {
        reveal_strlit("fcmp ogt ");
    }
    assert(lively("fcmp ole "@)) by {
        reveal_strlit("fcmp ole ");
    }
    assert(lively("fcmp olt "@)) by {
        reveal_strlit("fcmp olt ");
    }
    assert(lively("fcmp one "@)) by {
        reveal_strlit("fcmp one ");
    }
    assert(lively("icmp eq "@)) by {
        reveal_strlit("icmp eq ");
    }
    assert(lively("icmp ne "@)) by {
        reveal_strlit("icmp ne ");
    }
    assert(lively("icmp ne i64"@)) by {
        reveal_strlit("icmp ne i64");
    }
}

pub broadcast proof fn table_lively_texts_2()
    ensures
        #[trigger] lively("icmp sge "@),
        lively("icmp sge i64"@),
        lively("icmp sgt "@),
        lively("icmp sgt i64"@),
        lively("icmp sle "@),
        lively("icmp sle i64"@),
        lively("icmp slt "@),
        lively("icmp slt i64"@),
        lively("icmp uge "@),
        lively("icmp ugt "@),
        lively("icmp ule "@),
        lively("icmp ult "@),
        lively("lshr "@),
        lively("or "@),
        lively("or i1"@),
        lively("shl "@),
        lively("xor "@),
        lively("add i64"@),
        lively("sub i64"@),
        lively("mul i64"@),
{
    reveal(calm);
    reveal(lively);
    assert(lively("icmp sge "@)) by {
        reveal_strlit("icmp sge ");
    }
    assert(lively("icmp sge i64"@)) by {
        reveal_strlit("icmp sge i64");
    }
    assert(lively("icmp sgt "@)) by {
        reveal_strlit("icmp sgt ");
    }
    assert(lively("icmp sgt i64"@)) by {
        reveal_strlit("icmp sgt i64");
    }
    assert(lively("icmp sle "@)) by {
        reveal_strlit("icmp sle ");
    }
    assert(lively("icmp sle i64"@)) by {
        reveal_strlit("icmp sle i64");
    }
    assert(lively("icmp slt "@)) by {
        reveal_strlit("icmp slt ");
    }
    assert(lively("icmp slt i64"@)) by {
        reveal_strlit("icmp slt i64");
    }
    assert(lively("icmp uge "@)) by {
        reveal_strlit("icmp uge ");
    }
    assert(lively("icmp ugt "@)) by {
        reveal_strlit("icmp ugt ");
    }
    assert(lively("icmp ule "@)) by {
        reveal_strlit("icmp ule ");
    }
    assert(lively("icmp ult "@)) by {
        reveal_strlit("icmp ult ");
    }
    assert(lively("lshr "@)) by {
        reveal_strlit("lshr ");
    }
    assert(lively("or "@)) by {
        reveal_strlit("or ");
    }
    assert(lively("or i1"@)) by {
        reveal_strlit("or i1");
    }
    assert(lively("shl "@)) by {
        reveal_strlit("shl ");
    }
    assert(lively("xor "@)) by {
        reveal_strlit("xor ");
    }
    assert(lively("add i64"@)) by {
        reveal_strlit("add i64");
    }
    assert(lively("sub i64"@)) by {
        reveal_strlit("sub i64");
    }
    assert(lively("mul i64"@)) by {
        reveal_strlit("mul i64");
    }
}

pub broadcast proof fn header_texts_1()
    ensures
        #[trigger] calm("; ModuleID = 'tie'\nsource_filename = \"input.tie\"\n\n"@),
        calm("declare i32 @printf(ptr, ...)\n\n"@),
        calm("declare i64 @strlen(ptr)\n"@),
        calm("declare i32 @strcmp(ptr, ptr)\n"@),
        calm("declare ptr @malloc(i64)\n"@),
        calm("declare void @llvm.memcpy.p0.p0.i64(ptr, ptr, i64, i1)\n\n"@),
        calm("declare ptr @fopen(ptr, ptr)\n"@),
        calm("declare i64 @fwrite(ptr, i64, i64, ptr)\n"@),
        calm("declare i32 @fclose(ptr)\n"@),
        calm("declare i32 @fflush(ptr)\n"@),
        calm("declare void @exit(i32)\n"@),
        calm("declare i32 @remove(ptr)\n"@),
        calm("declare double @sqrt(double)\n"@),
        calm("declare double @sin(double)\n"@),
        calm("declare double @cos(double)\n"@),
        calm("declare double @tan(double)\n"@),
        calm("declare double @exp(double)\n"@),
        calm("declare double @log(double)\n"@),
        calm("declare double @pow(double, double)\n"@),
        calm("declare double @floor(double)\n"@),
        calm("declare double @ceil(double)\n"@),
        calm("declare double @round(double)\n\n"@),
{
    reveal(calm);
    assert(calm("; ModuleID = 'tie'\nsource_filename = \"input.tie\"\n\n"@)) by {
        reveal_strlit("; ModuleID = 'tie'\nsource_filename = \"input.tie\"\n\n");
    }
    assert(calm("declare i32 @printf(ptr, ...)\n\n"@)) by {
        reveal_strlit("declare i32 @printf(ptr, ...)\n\n");
    }
    assert(calm("declare i64 @strlen(ptr)\n"@)) by {
        reveal_strlit("declare i64 @strlen(ptr)\n");
    }
    assert(calm("declare i32 @strcmp(ptr, ptr)\n"@)) by {
        reveal_strlit("declare i32 @strcmp(ptr, ptr)\n");
    }
    assert(calm("declare ptr @malloc(i64)\n"@)) by {
        reveal_strlit("declare ptr @malloc(i64)\n");
    }
    assert(calm("declare void @llvm.memcpy.p0.p0.i64(ptr, ptr, i64, i1)\n\n"@)) by {
        reveal_strlit("declare void @llvm.memcpy.p0.p0.i64(ptr, ptr, i64, i1)\n\n");
    }
    assert(calm("declare ptr @fopen(ptr, ptr)\n"@)) by {
        reveal_strlit("declare ptr @fopen(ptr, ptr)\n");
    }
    assert(calm("declare i64 @fwrite(ptr, i64, i64, ptr)\n"@)) by {
        reveal_strlit("declare i64 @fwrite(ptr, i64, i64, ptr)\n");
    }
    assert(calm("declare i32 @fclose(ptr)\n"@)) by {
        reveal_strlit("declare i32 @fclose(ptr)\n");
    }
    assert(calm("declare i32 @fflush(ptr)\n"@)) by {
        reveal_strlit("declare i32 @fflush(ptr)\n");
    }
    assert(calm("declare void @exit(i32)\n"@)) by {
        reveal_strlit("declare void @exit(i32)\n");
    }
    assert(calm("declare i32 @remove(ptr)\n"@)) by {
        reveal_strlit("declare i32 @remove(ptr)\n");
    }
    assert(calm("declare double @sqrt(double)\n"@)) by {
        reveal_strlit("declare double @sqrt(double)\n");
    }
    assert(calm("declare double @sin(double)\n"@)) by {
        reveal_strlit("declare double @sin(double)\n");
    }
    assert(calm("declare double @cos(double)\n"@)) by {
        reveal_strlit("declare double @cos(double)\n");
    }
    assert(calm("declare double @tan(double)\n"@)) by {
        reveal_strlit("declare double @tan(double)\n");
    }
    assert(calm("declare double @exp(double)\n"@)) by {
        reveal_strlit("declare double @exp(double)\n");
    }
    assert(calm("declare double @log(double)\n"@)) by {
        reveal_strlit("declare double @log(double)\n");
    }
    assert(calm("declare double @pow(double, double)\n"@)) by {
        reveal_strlit("declare double @pow(double, double)\n");
    }
    assert(calm("declare double @floor(double)\n"@)) by {
        reveal_strlit("declare double @floor(double)\n");
    }
    assert(calm("declare double @ceil(double)\n"@)) by {
        reveal_strlit("declare double @ceil(double)\n");
    }
    assert(calm("declare double @round(double)\n\n"@)) by {
        reveal_strlit("declare double @round(double)\n\n");
    }
}

pub broadcast group group_words {
    calm_texts_1,
    calm_texts_2,
    calm_texts_3,
    calm_texts_4,
    calm_texts_5,
    calm_texts_6,
    calm_texts_7,
    calm_texts_8,
    calm_texts_9,
    ends_at_texts_1,
    lively_texts_1,
    breaks_texts_1,
}

pub broadcast group group_tables {
    table_texts_1,
    table_texts_2,
    table_texts_3,
    table_texts_4,
    table_texts_5,
    table_texts_6,
    table_lively_texts_1,
    table_lively_texts_2,
    group_words,
}

pub broadcast group group_calm {
    calm_add,
    calm_named,
    half_named,
    half_calm,
    half_add,
    calm_ended,
    ends_at_add,
    ends_eq_add,
    calm_op,
    lively_is_calm,
    crisp_is_calm,
    calm_ordinary,
    calm_empty,
    calm_dec,
    good_fail,
    good_note,
    good_reg,
    good_label,
    good_alloca,
    good_mark,
    good_string,
    good_bind,
    good_open,
    good_close,
    good_enter,
    good_leave,
    good_put,
    good_line,
    good_call,
    ordinary_global,
    ordinary_function,
    ordinary_param,
    ordinary_symbol,
    calm_bound,
    calm_break,
    calm_continue,
    calm_join,
    all_calm_push,
    all_calm_empty,
    all_calm_at,
    calm_args,
    calm_shown,
    calm_entries,
    lively_opcode,
    lively_mixed,
    lively_step,
    calm_predicate,
    calm_one,
    calm_slot_size,
    calm_suffix,
    calm_ret,
    calm_zero,
    calm_ty,
    calm_elem,
    calm_bridge,
    calm_symbol,
    ordinary_math,
    lively_test,
    calm_range_ty,
    group_words,
}

} // verus!
