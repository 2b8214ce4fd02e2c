//! Text: concatenation, decimal numerals and `::` paths over `Seq<char>`.
use vstd::prelude::*;

verus! {

/// `String::push` of std appends exactly the given character.
pub assume_specification[ String::push ](s: &mut String, c: char)
    ensures
        final(s)@ == old(s)@.push(c),
;

/// The `PartialEq` impl of std's `str` compares two strings for equal contents.
pub assume_specification[ <str as PartialEq<str>>::eq ](a: &str, b: &str) -> (r: bool)
    ensures
        r == (a@ == b@),
;

/// Whether two strings hold the same characters.
pub fn same(a: &str, b: &str) -> (r: bool)
    ensures
        r == (a@ == b@),
{
    *a == *b
}

/// The characters of a string, by position.
pub fn chars_of(s: &str) -> (v: Vec<char>)
    ensures
        v@ == s@,
{
    let mut v: Vec<char> = Vec::new();
    for c in it: s.chars()
        invariant
            v@ == it.seq().take(it.index() as int),
            it.seq() == s@,
    {
        v.push(c);
    }
    v
}

/// The string made of the characters `v[from..to]`.
pub fn string_of(v: &Vec<char>, from: usize, to: usize) -> (s: String)
    requires
        from <= to <= v@.len(),
    ensures
        s@ == v@.subrange(from as int, to as int),
{
    let mut s = String::new();
    for i in from..to
        invariant
            s@ == v@.subrange(from as int, i as int),
            to <= v@.len(),
    {
        s.push(v[i]);
        assert(v@.subrange(from as int, i + 1) =~= v@.subrange(from as int, i as int).push(
            v@[i as int],
        ));
    }
    s
}

pub fn lit(a: &str) -> (r: String)
    ensures
        r@ == a@,
{
    String::from_str(a)
}

pub fn cat2(a: &str, b: &str) -> (r: String)
    ensures
        r@ == a@ + b@,
{
    let mut s = String::from_str(a);
    s.append(b);
    s
}

pub fn cat3(a: &str, b: &str, c: &str) -> (r: String)
    ensures
        r@ == a@ + b@ + c@,
{
    let mut s = String::from_str(a);
    s.append(b);
    s.append(c);
    s
}

pub fn cat4(a: &str, b: &str, c: &str, d: &str) -> (r: String)
    ensures
        r@ == a@ + b@ + c@ + d@,
{
    let mut s = cat3(a, b, c);
    s.append(d);
    s
}

pub fn cat5(a: &str, b: &str, c: &str, d: &str, e: &str) -> (r: String)
    ensures
        r@ == a@ + b@ + c@ + d@ + e@,
{
    let mut s = cat3(a, b, c);
    s.append(d);
    s.append(e);
    s
}

pub fn cat6(a: &str, b: &str, c: &str, d: &str, e: &str, f: &str) -> (r: String)
    ensures
        r@ == a@ + b@ + c@ + d@ + e@ + f@,
{
    let mut s = cat5(a, b, c, d, e);
    s.append(f);
    s
}

pub fn cat7(a: &str, b: &str, c: &str, d: &str, e: &str, f: &str, g: &str) -> (r: String)
    ensures
        r@ == a@ + b@ + c@ + d@ + e@ + f@ + g@,
{
    let mut s = cat5(a, b, c, d, e);
    s.append(f);
    s.append(g);
    s
}

pub fn cat8(a: &str, b: &str, c: &str, d: &str, e: &str, f: &str, g: &str, h: &str) -> (r: String)
    ensures
        r@ == a@ + b@ + c@ + d@ + e@ + f@ + g@ + h@,
{
    let mut s = cat7(a, b, c, d, e, f, g);
    s.append(h);
    s
}

pub fn cat9(a: &str, b: &str, c: &str, d: &str, e: &str, f: &str, g: &str, h: &str, i: &str) -> (r: String)
    ensures
        r@ == a@ + b@ + c@ + d@ + e@ + f@ + g@ + h@ + i@,
{
    let mut s = cat7(a, b, c, d, e, f, g);
    s.append(h);
    s.append(i);
    s
}

pub fn cat10(a: &str, b: &str, c: &str, d: &str, e: &str, f: &str, g: &str, h: &str, i: &str, j: &str) -> (r: String)
    ensures
        r@ == a@ + b@ + c@ + d@ + e@ + f@ + g@ + h@ + i@ + j@,
{
    let mut s = cat7(a, b, c, d, e, f, g);
    s.append(h);
    s.append(i);
    s.append(j);
    s
}

pub fn cat11(a: &str, b: &str, c: &str, d: &str, e: &str, f: &str, g: &str, h: &str, i: &str, j: &str, k: &str) -> (r: String)
    ensures
        r@ == a@ + b@ + c@ + d@ + e@ + f@ + g@ + h@ + i@ + j@ + k@,
{
    let mut s = cat7(a, b, c, d, e, f, g);
    s.append(h);
    s.append(i);
    s.append(j);
    s.append(k);
    s
}

pub fn cat12(a: &str, b: &str, c: &str, d: &str, e: &str, f: &str, g: &str, h: &str, i: &str, j: &str, k: &str, l: &str) -> (r: String)
    ensures
        r@ == a@ + b@ + c@ + d@ + e@ + f@ + g@ + h@ + i@ + j@ + k@ + l@,
{
    let mut s = cat7(a, b, c, d, e, f, g);
    s.append(h);
    s.append(i);
    s.append(j);
    s.append(k);
    s.append(l);
    s
}

// ---------- decimal numerals ----------
/// The digit `d` as a character.
pub open spec fn digit_char(d: int) -> char {
    ('0' as int + d) as char
}

/// The decimal numeral of a natural number, without leading zeros.
pub open spec fn nat_dec(n: nat) -> Seq<char>
    decreases n,
{
    if n < 10 {
        seq![digit_char(n as int)]
    } else {
        nat_dec(n / 10).push(digit_char((n % 10) as int))
    }
}

/// The decimal numeral of an integer.
pub open spec fn dec(n: int) -> Seq<char> {
    if n < 0 {
        "-"@ + nat_dec((-n) as nat)
    } else {
        nat_dec(n as nat)
    }
}

fn push_digit(s: &mut String, d: u64)
    requires
        d < 10,
    ensures
        final(s)@ == old(s)@.push(digit_char(d as int)),
{
    s.push((48 + d as u8) as char);
}

/// The decimal numeral of `n`.
pub fn dec_u64(n: u64) -> (s: String)
    ensures
        s@ == nat_dec(n as nat),
        s@ == dec(n as int),
    decreases n,
{
    if n < 10 {
        let mut s = String::new();
        push_digit(&mut s, n);
        assert(s@ =~= seq![digit_char(n as int)]);
        s
    } else {
        let mut s = dec_u64(n / 10);
        push_digit(&mut s, n % 10);
        s
    }
}

pub fn dec_usize(n: usize) -> (s: String)
    ensures
        s@ == dec(n as int),
{
    dec_u64(n as u64)
}

/// The decimal numeral of `n`, with a leading `-` where `n` is negative.
pub fn dec_i64(n: i64) -> (s: String)
    ensures
        s@ == dec(n as int),
{
    if n < 0 {
        let m: u64 = (-(n as i128)) as u64;
        let t = dec_u64(m);
        cat2("-", t.as_str())
    } else {
        dec_u64(n as u64)
    }
}

pub open spec fn is_digit(c: char) -> bool {
    '0' <= c && c <= '9'
}

pub open spec fn all_digits(s: Seq<char>) -> bool {
    forall|i: int| 0 <= i < s.len() ==> is_digit(#[trigger] s[i])
}

/// The number that a sequence of digits denotes.
pub open spec fn digits_value(s: Seq<char>) -> int
    decreases s.len(),
{
    if s.len() == 0 {
        0
    } else {
        10 * digits_value(s.drop_last()) + (s.last() as int - '0' as int)
    }
}

/// The integer that a numeral denotes: an optional sign, then at least one digit.
pub open spec fn numeral(s: Seq<char>) -> Option<int> {
    let signed = s.len() > 0 && (s[0] == '-' || s[0] == '+');
    let ds = if signed {
        s.skip(1)
    } else {
        s
    };
    if ds.len() == 0 || !all_digits(ds) {
        None
    } else if signed && s[0] == '-' {
        Some(-digits_value(ds))
    } else {
        Some(digits_value(ds))
    }
}

/// What parsing `s` as a 64-bit integer gives.
pub open spec fn parse_int(s: Seq<char>) -> Option<i64> {
    match numeral(s) {
        Some(n) => if i64::MIN <= n <= i64::MAX {
            Some(n as i64)
        } else {
            None
        },
        None => None,
    }
}

/// Parses a 64-bit integer: an optional sign and at least one digit, nothing else,
/// and a value in range.
pub fn parse_i64(s: &str) -> (r: Option<i64>)
    ensures
        r == parse_int(s@),
{
    let v = chars_of(s);
    let n: usize = v.len();
    let neg: bool = n > 0 && v[0] == '-';
    let signed: bool = neg || (n > 0 && v[0] == '+');
    let from: usize = if signed { 1 } else { 0 };
    let ghost ds = v@.skip(from as int);
    assert(signed ==> ds == s@.skip(1));
    assert(!signed ==> ds =~= s@);
    if from == n {
        return None;
    }
    let limit: u128 = 0x1_0000_0000_0000_0000u128;
    let mut acc: u128 = 0;
    let mut i: usize = from;
    let mut over: bool = false;
    while i < n
        invariant
            from <= i <= n,
            n == v@.len(),
            ds == v@.skip(from as int),
            ds == (if s@.len() > 0 && (s@[0] == '-' || s@[0] == '+') {
                s@.skip(1)
            } else {
                s@
            }),
            limit == 0x1_0000_0000_0000_0000u128,
            forall|j: int| 0 <= j < i - from ==> is_digit(#[trigger] ds[j]),
            !over ==> acc == digits_value(ds.take(i - from)) && acc < limit,
            over ==> digits_value(ds.take(i - from)) >= limit,
        decreases n - i,
    {
        let c: char = v[i];
        assert(c == ds[i - from]);
        if !(c >= '0' && c <= '9') {
            assert(!is_digit(ds[i - from]));
            assert(numeral(s@) is None);
            return None;
        }
        proof {
            assert(ds.take(i + 1 - from).drop_last() =~= ds.take(i - from));
            assert(ds.take(i + 1 - from).last() == c);
        }
        if !over {
            acc = acc * 10 + (c as u32 - 48) as u128;
            if acc >= limit {
                over = true;
            }
        }
        i = i + 1;
    }
    assert(ds.take(n - from) =~= ds);
    assert(all_digits(ds));
    if over {
        return None;
    }
    if neg {
        if acc <= 0x8000_0000_0000_0000u128 {
            Some((-(acc as i128)) as i64)
        } else {
            None
        }
    } else {
        if acc <= 0x7fff_ffff_ffff_ffffu128 {
            Some(acc as i64)
        } else {
            None
        }
    }
}

pub proof fn lemma_nat_dec_value(n: nat)
    ensures
        nat_dec(n).len() > 0,
        all_digits(nat_dec(n)),
        digits_value(nat_dec(n)) == n,
    decreases n,
{
    if n < 10 {
        let s = nat_dec(n);
        assert(s.drop_last() =~= Seq::<char>::empty());
        assert(s.last() == digit_char(n as int));
        assert(digits_value(s.drop_last()) == 0);
    } else {
        lemma_nat_dec_value(n / 10);
        let s = nat_dec(n);
        let t = nat_dec(n / 10);
        assert(s.drop_last() =~= t);
        assert(s.last() == digit_char((n % 10) as int));
        assert forall|i: int| 0 <= i < s.len() implies is_digit(#[trigger] s[i]) by {
            if i < t.len() {
                assert(s[i] == t[i]);
                assert(is_digit(t[i]));
            }
        }
    }
}

/// Printing a 64-bit integer and parsing the numeral gives the integer back.
pub proof fn law_parse_undoes_print(n: i64)
    ensures
        parse_int(dec(n as int)) == Some(n),
{
    reveal_strlit("-");
    if n < 0 {
        lemma_nat_dec_value((-n) as nat);
        let s = dec(n as int);
        assert(s.skip(1) =~= nat_dec((-n) as nat));
        assert(s[0] == '-');
    } else {
        lemma_nat_dec_value(n as nat);
        let s = dec(n as int);
        assert(is_digit(s[0]));
    }
}

// ---------- paths ----------
/// The strings that a list of strings holds.
pub open spec fn views(v: Seq<String>) -> Seq<Seq<char>> {
    v.map_values(|s: String| s@)
}

/// The segments joined by a separator.
pub open spec fn join(segs: Seq<Seq<char>>, sep: Seq<char>) -> Seq<char>
    decreases segs.len(),
{
    if segs.len() == 0 {
        Seq::empty()
    } else if segs.len() == 1 {
        segs[0]
    } else {
        join(segs.drop_last(), sep) + sep + segs.last()
    }
}

/// Texts one after the other.
pub open spec fn flat(texts: Seq<Seq<char>>) -> Seq<char>
    decreases texts.len(),
{
    if texts.len() == 0 {
        Seq::empty()
    } else {
        flat(texts.drop_last()) + texts.last()
    }
}

/// Joins the strings by a separator.
pub fn join_strings(segs: &Vec<String>, sep: &str) -> (s: String)
    ensures
        s@ == join(views(segs@), sep@),
{
    let mut s = String::new();
    if segs.len() == 0 {
        return s;
    }
    s = segs[0].clone();
    proof {
        assert(views(segs@).take(1) =~= seq![segs@[0]@]);
    }
    for i in 1..segs.len()
        invariant
            segs@.len() > 0,
            s@ == join(views(segs@).take(i as int), sep@),
    {
        let ghost t = views(segs@).take(i + 1);
        s.append(sep);
        s.append(segs[i].as_str());
        proof {
            assert(t.drop_last() =~= views(segs@).take(i as int));
            assert(t.last() == segs@[i as int]@);
        }
    }
    proof {
        assert(views(segs@).take(segs@.len() as int) =~= views(segs@));
    }
    s
}

/// Whether `::` stands at position `i`.
pub open spec fn sep_at(s: Seq<char>, i: int) -> bool {
    0 <= i && i + 1 < s.len() && s[i] == ':' && s[i + 1] == ':'
}

/// The segments of `s[from..]` between the `::`, where the segment in progress began
/// at `start`; separators are taken from the left and do not overlap.
pub open spec fn split_from(s: Seq<char>, start: int, from: int) -> Seq<Seq<char>>
    decreases s.len() - from,
{
    if from < start || from < 0 || from >= s.len() {
        seq![s.subrange(start, s.len() as int)]
    } else if sep_at(s, from) {
        seq![s.subrange(start, from)] + split_from(s, from + 2, from + 2)
    } else {
        split_from(s, start, from + 1)
    }
}

/// The segments of a `::` path.
pub open spec fn split_path(s: Seq<char>) -> Seq<Seq<char>> {
    split_from(s, 0, 0)
}

/// Splits a path at each `::`.
pub fn split_path_string(s: &str) -> (r: Vec<String>)
    ensures
        views(r@) == split_path(s@),
        r@.len() > 0,
{
    let v = chars_of(s);
    let n: usize = v.len();
    let mut out: Vec<String> = Vec::new();
    let mut start: usize = 0;
    let mut i: usize = 0;
    while i < n
        invariant
            n == v@.len(),
            v@ == s@,
            0 <= start <= i <= n,
            views(out@) + split_from(v@, start as int, i as int) == split_path(v@),
        decreases n - i,
    {
        if i + 1 < n && v[i] == ':' && v[i + 1] == ':' {
            let ghost before = views(out@);
            let seg = string_of(&v, start, i);
            out.push(seg);
            assert(views(out@) =~= before.push(v@.subrange(start as int, i as int)));
            assert(views(out@) + split_from(v@, i + 2, i + 2) =~= before + split_from(
                v@,
                start as int,
                i as int,
            ));
            i = i + 2;
            start = i;
        } else {
            i = i + 1;
        }
    }
    let ghost before = views(out@);
    let seg = string_of(&v, start, n);
    out.push(seg);
    assert(views(out@) =~= before + split_from(v@, start as int, i as int));
    out
}

proof fn lemma_join_front(first: Seq<char>, rest: Seq<Seq<char>>, sep: Seq<char>)
    requires
        rest.len() > 0,
    ensures
        join(seq![first] + rest, sep) == first + sep + join(rest, sep),
    decreases rest.len(),
{
    let all = seq![first] + rest;
    assert(all.last() == rest.last());
    if rest.len() == 1 {
        assert(all.drop_last() =~= seq![first]);
        assert(join(seq![first], sep) == first);
        assert(join(rest, sep) == rest.last());
    } else {
        lemma_join_front(first, rest.drop_last(), sep);
        assert(all.drop_last() =~= seq![first] + rest.drop_last());
        assert(first + sep + join(rest.drop_last(), sep) + sep + rest.last() =~= first + sep
            + join(rest, sep));
    }
}

proof fn lemma_split_joins(s: Seq<char>, start: int, from: int)
    requires
        0 <= start <= from <= s.len(),
    ensures
        split_from(s, start, from).len() > 0,
        join(split_from(s, start, from), "::"@) == s.subrange(start, s.len() as int),
    decreases s.len() - from,
{
    reveal_strlit("::");
    if from < s.len() {
        if sep_at(s, from) {
            lemma_split_joins(s, from + 2, from + 2);
            lemma_join_front(
                s.subrange(start, from),
                split_from(s, from + 2, from + 2),
                "::"@,
            );
            assert(s.subrange(start, from) + "::"@ + s.subrange(from + 2, s.len() as int)
                =~= s.subrange(start, s.len() as int));
        } else {
            lemma_split_joins(s, start, from + 1);
        }
    }
}

/// The segments of a path, joined again, are the path.
pub proof fn law_split_joins_back(s: Seq<char>)
    ensures
        join(split_path(s), "::"@) == s,
{
    lemma_split_joins(s, 0, 0);
    assert(s.subrange(0, s.len() as int) =~= s);
}

/// Whether `::` occurs in `s`.
pub open spec fn has_sep(s: Seq<char>) -> bool {
    exists|i: int| sep_at(s, i)
}

/// Whether `s` holds `::`.
pub fn contains_sep(s: &str) -> (r: bool)
    ensures
        r == has_sep(s@),
{
    let v = chars_of(s);
    let n: usize = v.len();
    let mut i: usize = 0;
    while n > 0 && i < n - 1
        invariant
            n == v@.len(),
            v@ == s@,
            0 <= i <= n,
            forall|j: int| 0 <= j < i ==> !sep_at(v@, j),
        decreases n - i,
    {
        if v[i] == ':' && v[i + 1] == ':' {
            assert(sep_at(v@, i as int));
            return true;
        }
        i = i + 1;
    }
    false
}

/// Whether `p` starts `s`.
pub open spec fn starts_with(s: Seq<char>, p: Seq<char>) -> bool {
    p.len() <= s.len() && s.take(p.len() as int) == p
}

/// Whether `s` begins with `p`.
pub fn has_prefix(s: &str, p: &str) -> (r: bool)
    ensures
        r == starts_with(s@, p@),
{
    let a = chars_of(s);
    let b = chars_of(p);
    if b.len() > a.len() {
        return false;
    }
    for i in 0..b.len()
        invariant
            a@ == s@,
            b@ == p@,
            b@.len() <= a@.len(),
            forall|j: int| 0 <= j < i ==> a@[j] == b@[j],
    {
        if a[i] != b[i] {
            assert(s@.take(p@.len() as int)[i as int] != p@[i as int]);
            return false;
        }
    }
    assert(s@.take(p@.len() as int) =~= p@);
    true
}

} // verus!
