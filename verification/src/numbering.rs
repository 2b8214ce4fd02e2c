//! The numbering of instructions: every function's registers are renumbered from 1 in the
//! order in which the text mentions them.
use crate::irtext::{parse_u32, parse_unsigned};
use crate::text::{chars_of, dec, dec_u64, is_digit, lit, string_of};
use std::collections::HashMap;
use vstd::prelude::*;

verus! {

/// The numbers given out so far in a function, and the next one.
pub struct Numbers {
    pub map: Map<u32, u32>,
    pub next: u32,
}

pub open spec fn fresh() -> Numbers {
    Numbers { map: Map::empty(), next: 1 }
}

/// The number of the register that was called `n`; a register seen for the first time gets
/// the next number.
pub open spec fn number(s: Numbers, n: u32) -> (u32, Numbers) {
    if s.map.dom().contains(n) {
        (s.map[n], s)
    } else {
        (s.next, Numbers { map: s.map.insert(n, s.next), next: s.next.wrapping_add(1) })
    }
}

/// Uses up a number without a register.
pub open spec fn skip(s: Numbers) -> Numbers {
    Numbers { next: s.next.wrapping_add(1), ..s }
}

/// Whether a character is white space.
pub open spec fn white(c: char) -> bool {
    let n = c as u32;
    9 <= n <= 13 || n == 0x20 || n == 0x85 || n == 0xa0 || n == 0x1680 || 0x2000 <= n <= 0x200a || n
        == 0x2028 || n == 0x2029 || n == 0x202f || n == 0x205f || n == 0x3000
}

pub fn is_white(c: char) -> (r: bool)
    ensures
        r == white(c),
{
    let n: u32 = c as u32;
    (9 <= n && n <= 13) || n == 0x20 || n == 0x85 || n == 0xa0 || n == 0x1680 || (0x2000 <= n && n
        <= 0x200a) || n == 0x2028 || n == 0x2029 || n == 0x202f || n == 0x205f || n == 0x3000
}

/// The first position from `i` on, before `e`, that holds no white space, else `e`.
pub open spec fn black_from(s: Seq<char>, i: int, e: int) -> int
    decreases e - i,
{
    if i < 0 || i >= e || e > s.len() {
        e
    } else if white(s[i]) {
        black_from(s, i + 1, e)
    } else {
        i
    }
}

pub fn find_black(v: &Vec<char>, from: usize, e: usize) -> (r: usize)
    requires
        from <= e <= v@.len(),
    ensures
        r == black_from(v@, from as int, e as int),
        from <= r <= e,
{
    let mut i: usize = from;
    while i < e
        invariant
            from <= i <= e <= v@.len(),
            black_from(v@, from as int, e as int) == black_from(v@, i as int, e as int),
        decreases e - i,
    {
        if !is_white(v[i]) {
            return i;
        }
        i = i + 1;
    }
    e
}

/// The end of the digits that start at `i`.
pub open spec fn digits_end(s: Seq<char>, i: int) -> int
    decreases s.len() - i,
{
    if i < 0 || i >= s.len() || !is_digit(s[i]) {
        i
    } else {
        digits_end(s, i + 1)
    }
}

fn find_digits_end(v: &Vec<char>, from: usize) -> (r: usize)
    requires
        from <= v@.len(),
    ensures
        r == digits_end(v@, from as int),
        from <= r <= v@.len(),
{
    let mut i: usize = from;
    while i < v.len()
        invariant
            from <= i <= v@.len(),
            digits_end(v@, from as int) == digits_end(v@, i as int),
        decreases v@.len() - i,
    {
        if !(v[i] >= '0' && v[i] <= '9') {
            return i;
        }
        i = i + 1;
    }
    i
}

/// The number that digits spell; one that does not fit counts as 0.
pub open spec fn register(s: Seq<char>) -> u32 {
    match parse_unsigned(s, u32::MAX as int) {
        Some(n) => n as u32,
        None => 0u32,
    }
}

/// `s[i..]` with every `%` and number renumbered.
pub open spec fn refs(s: Seq<char>, i: int, st: Numbers) -> (Seq<char>, Numbers)
    decreases s.len() - i, 0int,
    when 0 <= i
    via refs_decreases
{
    if i >= s.len() {
        (Seq::empty(), st)
    } else if s[i] == '%' && digits_end(s, i + 1) > i + 1 {
        let e = digits_end(s, i + 1);
        let (n, st2) = number(st, register(s.subrange(i + 1, e)));
        let (rest, st3) = refs(s, e, st2);
        ("%"@ + dec(n as int) + rest, st3)
    } else {
        let (rest, st2) = refs(s, i + 1, st);
        (seq![s[i]] + rest, st2)
    }
}

#[via_fn]
proof fn refs_decreases(s: Seq<char>, i: int, st: Numbers) {
    if 0 <= i < s.len() {
        lemma_digits_end(s, i + 1);
    }
}

pub proof fn lemma_digits_end(s: Seq<char>, i: int)
    requires
        0 <= i <= s.len(),
    ensures
        i <= digits_end(s, i) <= s.len(),
        forall|j: int| i <= j < digits_end(s, i) ==> is_digit(s[j]),
    decreases s.len() - i,
{
    if i < s.len() && is_digit(s[i]) {
        lemma_digits_end(s, i + 1);
    }
}

/// Whether `p` stands at position `i`.
pub open spec fn at(s: Seq<char>, i: int, p: Seq<char>) -> bool {
    0 <= i && i + p.len() <= s.len() && s.subrange(i, i + p.len()) == p
}

pub fn stands_at(v: &Vec<char>, i: usize, p: &str) -> (r: bool)
    requires
        i <= v@.len(),
    ensures
        r == at(v@, i as int, p@),
{
    let q = chars_of(p);
    let n: usize = v.len();
    if q.len() > n - i {
        return false;
    }
    for k in 0..q.len()
        invariant
            q@ == p@,
            n == v@.len(),
            i + q@.len() <= n,
            forall|j: int| 0 <= j < k ==> v@[i + j] == q@[j],
    {
        if v[i + k] != q[k] {
            assert(v@.subrange(i as int, i + p@.len())[k as int] != p@[k as int]);
            return false;
        }
    }
    assert(v@.subrange(i as int, i + p@.len()) =~= p@);
    true
}

/// Whether `p` stands at some position from `i` on.
pub open spec fn holds_from(s: Seq<char>, i: int, p: Seq<char>) -> bool
    decreases s.len() - i + 1,
{
    if i < 0 || i > s.len() {
        false
    } else {
        at(s, i, p) || holds_from(s, i + 1, p)
    }
}

fn holds(v: &Vec<char>, p: &str) -> (r: bool)
    ensures
        r == holds_from(v@, 0, p@),
{
    let mut i: usize = 0;
    loop
        invariant
            i <= v@.len(),
            holds_from(v@, 0, p@) == holds_from(v@, i as int, p@),
        decreases v@.len() - i,
    {
        if stands_at(v, i, p) {
            return true;
        }
        if i == v.len() {
            assert(!holds_from(v@, i + 1, p@));
            return false;
        }
        i = i + 1;
    }
}

/// Whether a line, without its leading white space, stays as it is.
pub open spec fn kept(t: Seq<char>) -> bool {
    t.len() == 0 || t[0] == ';' || t.last() == ':' || at(t, 0, "declare "@) || at(
        t,
        0,
        "attributes "@,
    ) || at(t, 0, "source_filename"@) || at(t, 0, "target "@) || at(t, 0, "ModuleID"@)
}

fn is_kept(t: &Vec<char>) -> (r: bool)
    ensures
        r == kept(t@),
{
    let n: usize = t.len();
    n == 0 || t[0] == ';' || t[n - 1] == ':' || stands_at(t, 0, "declare ") || stands_at(
        t,
        0,
        "attributes ",
    ) || stands_at(t, 0, "source_filename") || stands_at(t, 0, "target ") || stands_at(
        t,
        0,
        "ModuleID",
    )
}

/// An instruction, without its leading white space, renumbered. A call that gives a value
/// but has no register of its own gets the next number; one that takes a variable number of
/// arguments uses up two.
pub open spec fn instruction(t: Seq<char>, st: Numbers) -> (Seq<char>, Numbers) {
    let e = digits_end(t, 1);
    if t.len() > 0 && t[0] == '%' {
        if e > 1 {
            let (n, st2) = number(st, register(t.subrange(1, e)));
            let (rest, st3) = refs(t.skip(e), 0, st2);
            ("%"@ + dec(n as int) + rest, st3)
        } else {
            refs(t, 0, st)
        }
    } else {
        let (text, st2) = refs(t, 0, st);
        if at(t, 0, "call "@) && !at(t, 0, "call void "@) {
            let st3 = if holds_from(t, 0, "(ptr, ...)"@) {
                skip(skip(st2))
            } else {
                skip(st2)
            };
            ("%"@ + dec(st2.next as int) + " = "@ + text, st3)
        } else {
            (text, st2)
        }
    }
}

/// A line renumbered.
pub open spec fn line(s: Seq<char>, st: Numbers) -> (Seq<char>, Numbers) {
    let t = s.skip(black_from(s, 0, s.len() as int));
    if at(t, 0, "define "@) {
        (s, fresh())
    } else if kept(t) {
        (s, st)
    } else {
        instruction(t, st)
    }
}

/// The end of the line that starts at `i`: the next line feed, or the end of the text.
pub open spec fn line_end(s: Seq<char>, i: int) -> int
    decreases s.len() - i,
{
    if i < 0 || i >= s.len() {
        s.len() as int
    } else if s[i] == '\n' {
        i
    } else {
        line_end(s, i + 1)
    }
}

/// The line from `i` to the line feed at `e`, without a carriage return before the line feed.
pub open spec fn line_at(s: Seq<char>, i: int, e: int) -> Seq<char> {
    if e < s.len() && i < e && s[e - 1] == '\r' {
        s.subrange(i, e - 1)
    } else {
        s.subrange(i, e)
    }
}

/// The lines from position `i` on, renumbered, each ended by a line feed.
pub open spec fn renumber_from(s: Seq<char>, i: int, st: Numbers) -> Seq<char>
    decreases s.len() - i + 1,
    when 0 <= i
    via renumber_decreases
{
    if i >= s.len() {
        Seq::empty()
    } else {
        let e = line_end(s, i);
        let (text, st2) = line(line_at(s, i, e), st);
        text + "\n"@ + renumber_from(s, e + 1, st2)
    }
}

#[via_fn]
proof fn renumber_decreases(s: Seq<char>, i: int, st: Numbers) {
    if 0 <= i < s.len() {
        lemma_line_end(s, i);
    }
}

pub proof fn lemma_line_end(s: Seq<char>, i: int)
    requires
        0 <= i <= s.len(),
    ensures
        i <= line_end(s, i) <= s.len(),
    decreases s.len() - i,
{
    if i < s.len() && s[i] != '\n' {
        lemma_line_end(s, i + 1);
    }
}

/// The text renumbered.
pub open spec fn renumbered(s: Seq<char>) -> Seq<char> {
    renumber_from(s, 0, fresh())
}

/// The numbers given out so far.
struct State {
    map: HashMap<u32, u32>,
    next: u32,
}

impl View for State {
    type V = Numbers;

    closed spec fn view(&self) -> Numbers {
        Numbers { map: self.map@, next: self.next }
    }
}

impl State {
    fn new() -> (s: State)
        ensures
            s@ == fresh(),
    {
        State { map: HashMap::new(), next: 1 }
    }

    fn number(&mut self, n: u32) -> (r: u32)
        ensures
            (r, final(self)@) == number(old(self)@, n),
    {
        broadcast use vstd::std_specs::hash::group_hash_axioms;

        let known: Option<u32> = match self.map.get(&n) {
            Some(k) => Some(*k),
            None => None,
        };
        match known {
            Some(k) => k,
            None => {
                let k: u32 = self.next;
                self.map.insert(n, k);
                self.next = k.wrapping_add(1);
                k
            },
        }
    }

    fn skip(&mut self) -> (r: u32)
        ensures
            r == old(self)@.next,
            final(self)@ == skip(old(self)@),
    {
        let k: u32 = self.next;
        self.next = k.wrapping_add(1);
        k
    }

    /// `v[from..]` with every register renumbered.
    fn refs(&mut self, v: &Vec<char>, from: usize) -> (r: String)
        requires
            from <= v@.len(),
        ensures
            (r@, final(self)@) == refs(v@, from as int, old(self)@),
    {
        let mut out = String::new();
        let mut i: usize = from;
        assert(out@ + refs(v@, i as int, self@).0 =~= refs(v@, i as int, self@).0);
        while i < v.len()
            invariant
                from <= i <= v@.len(),
                out@ + refs(v@, i as int, self@).0 == refs(v@, from as int, old(self)@).0,
                refs(v@, i as int, self@).1 == refs(v@, from as int, old(self)@).1,
            decreases v@.len() - i,
        {
            let ghost before = out@;
            let ghost all = refs(v@, i as int, self@);
            if v[i] == '%' {
                let e = find_digits_end(v, i + 1);
                if e > i + 1 {
                    let digits = string_of(v, i + 1, e);
                    let n = self.number(register_of(digits.as_str()));
                    let d = dec_u64(n as u64);
                    out.append("%");
                    out.append(d.as_str());
                    assert(out@ + refs(v@, e as int, self@).0 =~= before + all.0);
                    i = e;
                } else {
                    out.push('%');
                    assert(out@ + refs(v@, i + 1, self@).0 =~= before + all.0);
                    i = i + 1;
                }
            } else {
                out.push(v[i]);
                assert(out@ + refs(v@, i + 1, self@).0 =~= before + all.0);
                i = i + 1;
            }
        }
        assert(out@ + refs(v@, i as int, self@).0 =~= out@);
        out
    }

    fn instruction(&mut self, t: &Vec<char>) -> (r: String)
        ensures
            (r@, final(self)@) == instruction(t@, old(self)@),
    {
        if t.len() > 0 && t[0] == '%' {
            let e = find_digits_end(t, 1);
            if e > 1 {
                let digits = string_of(t, 1, e);
                let n = self.number(register_of(digits.as_str()));
                let d = dec_u64(n as u64);
                let tail = string_of(t, e, t.len());
                let w = chars_of(tail.as_str());
                assert(w@ =~= t@.skip(e as int));
                let rest = self.refs(&w, 0);
                let mut out = lit("%");
                out.append(d.as_str());
                out.append(rest.as_str());
                out
            } else {
                self.refs(t, 0)
            }
        } else {
            let text = self.refs(t, 0);
            if stands_at(t, 0, "call ") && !stands_at(t, 0, "call void ") {
                let n = self.skip();
                if holds(t, "(ptr, ...)") {
                    self.skip();
                }
                let d = dec_u64(n as u64);
                let mut out = lit("%");
                out.append(d.as_str());
                out.append(" = ");
                out.append(text.as_str());
                out
            } else {
                text
            }
        }
    }

    fn line(&mut self, s: &Vec<char>) -> (r: String)
        ensures
            (r@, final(self)@) == line(s@, old(self)@),
    {
        let from = find_black(s, 0, s.len());
        let trimmed = string_of(s, from, s.len());
        let t = chars_of(trimmed.as_str());
        assert(t@ =~= s@.skip(from as int));
        if stands_at(&t, 0, "define ") {
            let fresh_state = State::new();
            self.map = fresh_state.map;
            self.next = fresh_state.next;
            let r = string_of(s, 0, s.len());
            assert(r@ =~= s@);
            r
        } else if is_kept(&t) {
            let r = string_of(s, 0, s.len());
            assert(r@ =~= s@);
            r
        } else {
            self.instruction(&t)
        }
    }
}

fn register_of(s: &str) -> (n: u32)
    ensures
        n == register(s@),
{
    match parse_u32(s) {
        Some(n) => n,
        None => 0,
    }
}

fn find_line_end(v: &Vec<char>, from: usize) -> (r: usize)
    requires
        from <= v@.len(),
    ensures
        r == line_end(v@, from as int),
        from <= r <= v@.len(),
{
    let mut i: usize = from;
    while i < v.len()
        invariant
            from <= i <= v@.len(),
            line_end(v@, from as int) == line_end(v@, i as int),
        decreases v@.len() - i,
    {
        if v[i] == '\n' {
            return i;
        }
        i = i + 1;
    }
    i
}

/// Renumbers the instructions of a module, given as its characters.
pub fn renumber_ir(v: &Vec<char>) -> (r: String)
    ensures
        r@ == renumbered(v@),
{
    let mut st = State::new();
    let mut out = String::new();
    let mut i: usize = 0;
    assert(out@ + renumber_from(v@, 0, st@) =~= renumber_from(v@, 0, st@));
    while i < v.len()
        invariant
            i <= v@.len(),
            out@ + renumber_from(v@, i as int, st@) == renumbered(v@),
        decreases v@.len() - i,
    {
        let ghost before = out@;
        let ghost all = renumber_from(v@, i as int, st@);
        let e = find_line_end(v, i);
        let stop: usize = if e < v.len() && i < e && v[e - 1] == '\r' {
            e - 1
        } else {
            e
        };
        let piece = string_of(v, i, stop);
        let l = chars_of(piece.as_str());
        assert(l@ == line_at(v@, i as int, e as int));
        let text = st.line(&l);
        out.append(text.as_str());
        out.append("\n");
        assert(out@ + renumber_from(v@, e + 1, st@) =~= before + all);
        if e == v.len() {
            assert(renumber_from(v@, e + 1, st@) =~= Seq::<char>::empty());
            assert(out@ + renumber_from(v@, e + 1, st@) =~= out@);
            return out;
        }
        i = e + 1;
    }
    assert(out@ + renumber_from(v@, i as int, st@) =~= out@);
    out
}

// ---------- laws ----------
/// Whether the numbers given out differ from each other and lie below the next one.
pub open spec fn distinct(s: Numbers) -> bool {
    &&& forall|a: u32| #[trigger] s.map.dom().contains(a) ==> 1 <= s.map[a] < s.next
    &&& forall|a: u32, b: u32|
        #![trigger s.map.dom().contains(a), s.map.dom().contains(b)]
        s.map.dom().contains(a) && s.map.dom().contains(b) && a != b ==> s.map[a] != s.map[b]
}

/// Whether every register of `a` has the same number in `b`, and `b` gave out no fewer.
pub open spec fn extends(b: Numbers, a: Numbers) -> bool {
    &&& a.next <= b.next
    &&& forall|r: u32| #[trigger]
        a.map.dom().contains(r) ==> b.map.dom().contains(r) && b.map[r] == a.map[r]
}

/// Registers that differ keep different numbers, and a register keeps the number it got,
/// while there are numbers left.
pub proof fn law_numbers_stay_distinct(s: Numbers, n: u32)
    requires
        distinct(s),
        1 <= s.next < u32::MAX,
    ensures
        distinct(number(s, n).1),
        distinct(skip(s)),
        number(number(s, n).1, n).0 == number(s, n).0,
        extends(number(s, n).1, s),
        extends(skip(s), s),
{
}

proof fn lemma_refs(s: Seq<char>, i: int, st: Numbers)
    requires
        0 <= i <= s.len(),
        distinct(st),
        1 <= st.next,
        st.next + (s.len() - i) < u32::MAX,
    ensures
        distinct(refs(s, i, st).1),
        extends(refs(s, i, st).1, st),
        refs(s, i, st).1.next <= st.next + (s.len() - i),
    decreases s.len() - i,
{
    if i < s.len() {
        lemma_digits_end(s, i + 1);
        if s[i] == '%' && digits_end(s, i + 1) > i + 1 {
            let e = digits_end(s, i + 1);
            let n = register(s.subrange(i + 1, e));
            law_numbers_stay_distinct(st, n);
            lemma_refs(s, e, number(st, n).1);
        } else {
            lemma_refs(s, i + 1, st);
        }
    }
}

/// A line within a function gives different registers different numbers and keeps the
/// numbers given out before it, while there are numbers left. A register that it defines and
/// that no line before it mentioned gets a number above all of those.
pub proof fn law_lines_keep_numbers(s: Seq<char>, st: Numbers)
    requires
        distinct(st),
        1 <= st.next,
        st.next + s.len() + 2 < u32::MAX,
        !at(s.skip(black_from(s, 0, s.len() as int)), 0, "define "@),
    ensures
        distinct(line(s, st).1),
        extends(line(s, st).1, st),
        ({
            let t = s.skip(black_from(s, 0, s.len() as int));
            let n = register(t.subrange(1, digits_end(t, 1)));
            t.len() > 0 && t[0] == '%' && digits_end(t, 1) > 1 && !kept(t)
                && !st.map.dom().contains(n) ==> line(s, st).1.map.dom().contains(n) && line(
                s,
                st,
            ).1.map[n] == st.next && forall|r: u32| #[trigger]
                st.map.dom().contains(r) ==> st.map[r] < st.next
        }),
{
    let b = black_from(s, 0, s.len() as int);
    lemma_black_from(s, 0, s.len() as int);
    let t = s.skip(b);
    if !kept(t) {
        let e = digits_end(t, 1);
        if t.len() > 0 {
            lemma_digits_end(t, 1);
        }
        if t.len() > 0 && t[0] == '%' && e > 1 {
            let n = register(t.subrange(1, e));
            law_numbers_stay_distinct(st, n);
            lemma_refs(t.skip(e), 0, number(st, n).1);
        } else {
            lemma_refs(t, 0, st);
            let mid = refs(t, 0, st).1;
            law_numbers_stay_distinct(mid, 0);
            law_numbers_stay_distinct(skip(mid), 0);
        }
    }
}

proof fn lemma_black_from(s: Seq<char>, i: int, e: int)
    requires
        0 <= i <= e <= s.len(),
    ensures
        i <= black_from(s, i, e) <= e,
    decreases e - i,
{
    if i < e && white(s[i]) {
        lemma_black_from(s, i + 1, e);
    }
}

/// Every function starts its numbers anew.
pub proof fn law_numbers_start_at_one(s: Seq<char>, st: Numbers)
    requires
        at(s.skip(black_from(s, 0, s.len() as int)), 0, "define "@),
    ensures
        line(s, st) == (s, fresh()),
        distinct(fresh()),
{
}

/// The numbers given out before line `k` of a function.
pub open spec fn before(lines: Seq<Seq<char>>, k: nat, st: Numbers) -> Numbers
    decreases k,
{
    if k == 0 || k > lines.len() {
        st
    } else {
        line(lines[k - 1], before(lines, (k - 1) as nat, st)).1
    }
}

/// More numbers than the first `k` lines can use up.
pub open spec fn budget(lines: Seq<Seq<char>>, k: nat) -> nat
    decreases k,
{
    if k == 0 || k > lines.len() {
        2
    } else {
        budget(lines, (k - 1) as nat) + lines[k - 1].len() + 2
    }
}

/// The number of the instruction on a line, where it gives a value.
pub open spec fn line_number(s: Seq<char>, st: Numbers) -> Option<u32> {
    let t = s.skip(black_from(s, 0, s.len() as int));
    let e = digits_end(t, 1);
    if at(t, 0, "define "@) || kept(t) {
        None
    } else if t[0] == '%' {
        if e > 1 {
            Some(number(st, register(t.subrange(1, e))).0)
        } else {
            None
        }
    } else if at(t, 0, "call "@) && !at(t, 0, "call void "@) {
        Some(refs(t, 0, st).1.next)
    } else {
        None
    }
}

/// Whether a line within a function mentions no register at its start that lines before it
/// mentioned.
pub open spec fn defines_anew(s: Seq<char>, st: Numbers) -> bool {
    let t = s.skip(black_from(s, 0, s.len() as int));
    let e = digits_end(t, 1);
    &&& !at(t, 0, "define "@)
    &&& !kept(t) && t[0] == '%' && e > 1 ==> !st.map.dom().contains(register(t.subrange(1, e)))
}

proof fn lemma_line(s: Seq<char>, st: Numbers)
    requires
        distinct(st),
        1 <= st.next,
        st.next + s.len() + 2 < u32::MAX,
        defines_anew(s, st),
    ensures
        distinct(line(s, st).1),
        st.next <= line(s, st).1.next <= st.next + s.len() + 2,
        line_number(s, st) matches Some(n) ==> st.next <= n < line(s, st).1.next,
        line_number(s, st) matches Some(n) ==> at(line(s, st).0, 0, "%"@ + dec(n as int)),
{
    law_lines_keep_numbers(s, st);
    lemma_black_from(s, 0, s.len() as int);
    let t = s.skip(black_from(s, 0, s.len() as int));
    if !kept(t) {
        let e = digits_end(t, 1);
        lemma_digits_end(t, 1);
        let text = line(s, st).0;
        if t[0] == '%' && e > 1 {
            let (n, st2) = number(st, register(t.subrange(1, e)));
            lemma_refs(t.skip(e), 0, st2);
            assert(text.subrange(0, ("%"@ + dec(n as int)).len() as int) =~= "%"@ + dec(n as int));
        } else {
            lemma_refs(t, 0, st);
            if line_number(s, st) is Some {
                let n = refs(t, 0, st).1.next;
                assert(text.subrange(0, ("%"@ + dec(n as int)).len() as int) =~= "%"@ + dec(
                    n as int,
                ));
            }
        }
    }
}

proof fn lemma_before(lines: Seq<Seq<char>>, k: nat, st: Numbers)
    requires
        k <= lines.len(),
        distinct(st),
        1 <= st.next,
        st.next + budget(lines, k) < u32::MAX,
        forall|j: int| 0 <= j < k ==> defines_anew(#[trigger] lines[j], before(lines, j as nat, st)),
    ensures
        distinct(before(lines, k, st)),
        st.next <= before(lines, k, st).next,
        before(lines, k, st).next + 2 <= st.next + budget(lines, k),
    decreases k,
{
    if k > 0 {
        lemma_before(lines, (k - 1) as nat, st);
        assert(defines_anew(lines[k - 1], before(lines, (k - 1) as nat, st)));
        lemma_line(lines[k - 1], before(lines, (k - 1) as nat, st));
    }
}

proof fn lemma_before_grows(lines: Seq<Seq<char>>, i: nat, k: nat, st: Numbers)
    requires
        i <= k <= lines.len(),
        distinct(st),
        1 <= st.next,
        st.next + budget(lines, k) < u32::MAX,
        forall|j: int| 0 <= j < k ==> defines_anew(#[trigger] lines[j], before(lines, j as nat, st)),
    ensures
        before(lines, i, st).next <= before(lines, k, st).next,
    decreases k - i,
{
    if i < k {
        lemma_before_grows(lines, i, (k - 1) as nat, st);
        lemma_before(lines, (k - 1) as nat, st);
        assert(defines_anew(lines[k - 1], before(lines, (k - 1) as nat, st)));
        lemma_line(lines[k - 1], before(lines, (k - 1) as nat, st));
    }
}

/// Down the lines of a function whose registers are defined before they are mentioned, the
/// numbers of the instructions grow, while there are numbers left; each line starts with its
/// number.
pub proof fn law_numbers_grow(lines: Seq<Seq<char>>, i: nat, j: nat, st: Numbers)
    requires
        i < j < lines.len(),
        distinct(st),
        1 <= st.next,
        st.next + budget(lines, lines.len()) < u32::MAX,
        forall|k: int|
            0 <= k < lines.len() ==> defines_anew(
                #[trigger] lines[k],
                before(lines, k as nat, st),
            ),
    ensures
        line_number(lines[i as int], before(lines, i, st)) matches Some(a) ==> line_number(
            lines[j as int],
            before(lines, j, st),
        ) matches Some(b) ==> a < b && at(
            line(lines[j as int], before(lines, j, st)).0,
            0,
            "%"@ + dec(b as int),
        ),
{
    lemma_budget(lines, i + 1, lines.len());
    lemma_budget(lines, j + 1, lines.len());
    lemma_before(lines, i, st);
    lemma_before(lines, j, st);
    lemma_before_grows(lines, i + 1, j, st);
    assert(defines_anew(lines[i as int], before(lines, i, st)));
    assert(defines_anew(lines[j as int], before(lines, j, st)));
    lemma_line(lines[i as int], before(lines, i, st));
    lemma_line(lines[j as int], before(lines, j, st));
}

proof fn lemma_budget(lines: Seq<Seq<char>>, i: nat, k: nat)
    requires
        i <= k <= lines.len(),
    ensures
        budget(lines, i) <= budget(lines, k),
    decreases k - i,
{
    if i < k {
        lemma_budget(lines, i, (k - 1) as nat);
    }
}

} // verus!
