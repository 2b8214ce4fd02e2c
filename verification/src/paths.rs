//! Paths as text: file names, extensions, joining, and the resolution of `.` and `..`.
use crate::text::{cat2, cat3, chars_of, flat, join, join_strings, lit, same, string_of, views};
use vstd::prelude::*;

verus! {

/// How the parts of a path are told apart: as on Unix, as on Windows, or as on Windows behind a
/// prefix that is taken word for word.
#[derive(Clone, Copy, Debug, PartialEq, Eq, Structural)]
pub enum Style {
    Unix,
    Windows,
    Verbatim,
}

/// Whether a character separates the parts of a path.
pub open spec fn separator(c: char, style: Style) -> bool {
    match style {
        Style::Unix => c == '/',
        Style::Windows => c == '/' || c == '\\',
        Style::Verbatim => c == '\\',
    }
}

pub fn is_separator(c: char, style: Style) -> (r: bool)
    ensures
        r == separator(c, style),
{
    match style {
        Style::Unix => c == '/',
        Style::Windows => c == '/' || c == '\\',
        Style::Verbatim => c == '\\',
    }
}

/// The way in which a system tells the parts of a path apart.
pub open spec fn system(windows: bool) -> Style {
    if windows {
        Style::Windows
    } else {
        Style::Unix
    }
}

fn system_of(windows: bool) -> (r: Style)
    ensures
        r == system(windows),
{
    if windows {
        Style::Windows
    } else {
        Style::Unix
    }
}

/// The character that stands between the parts of a path.
pub open spec fn main_separator(windows: bool) -> Seq<char> {
    if windows {
        "\\"@
    } else {
        "/"@
    }
}

fn main_separator_of(windows: bool) -> (r: &'static str)
    ensures
        r@ == main_separator(windows),
{
    if windows {
        "\\"
    } else {
        "/"
    }
}

/// The first separator of a text from `i` on, else its end.
pub open spec fn next_separator(s: Seq<char>, i: int, style: Style) -> int
    decreases s.len() - i,
{
    if i < 0 || i >= s.len() {
        s.len() as int
    } else if separator(s[i], style) {
        i
    } else {
        next_separator(s, i + 1, style)
    }
}

fn find_separator(v: &Vec<char>, from: usize, style: Style) -> (r: usize)
    requires
        from <= v@.len(),
    ensures
        r == next_separator(v@, from as int, style),
        from <= r <= v@.len(),
{
    let mut i: usize = from;
    while i < v.len()
        invariant
            from <= i <= v@.len(),
            next_separator(v@, from as int, style) == next_separator(v@, i as int, style),
        decreases v@.len() - i,
    {
        if is_separator(v[i], style) {
            return i;
        }
        i = i + 1;
    }
    i
}

// ---------- prefixes ----------
/// What stands before the root of a path on Windows: nothing, a drive, a share or a device, or
/// a prefix behind which everything is taken word for word.
#[derive(Clone, Copy, Debug, PartialEq, Eq, Structural)]
pub enum Lead {
    Nothing,
    Drive,
    Share,
    Verbatim,
}

/// Whether a letter and a colon stand at `i`.
pub open spec fn drive_at(s: Seq<char>, i: int) -> bool {
    0 <= i && i + 1 < s.len() && s[i + 1] == ':' && ('a' <= s[i] <= 'z' || 'A' <= s[i] <= 'Z')
}

/// The end of the two names from `i` on that `style` tells apart; that of the first one where
/// there is no second.
pub open spec fn two_names(s: Seq<char>, i: int, style: Style) -> int {
    let e = next_separator(s, i, style);
    let f = next_separator(s, e + 1, style);
    if e + 1 < f {
        f
    } else {
        e
    }
}

/// Whether a path starts with the two backslashes, the question mark and the backslash of
/// those that are taken word for word.
pub open spec fn word_for_word(s: Seq<char>) -> bool {
    s.len() >= 4 && s[0] == '\\' && s[1] == '\\' && s[2] == '?' && s[3] == '\\'
}

/// Whether a path that is taken word for word names a share.
pub open spec fn verbatim_share(s: Seq<char>) -> bool {
    s.len() >= 8 && s[4] == 'U' && s[5] == 'N' && s[6] == 'C' && separator(s[7], Style::Windows)
}

/// Whether a path that is taken word for word names a drive.
pub open spec fn verbatim_drive(s: Seq<char>) -> bool {
    drive_at(s, 4) && (s.len() == 6 || separator(s[6], Style::Windows))
}

/// The length and the kind of the prefix of a path: `C:`, `\\\\server\\share`, `\\\\.\\device`,
/// `\\\\?\\name`, `\\\\?\\C:` or `\\\\?\\UNC\\server\\share`.
pub open spec fn lead(s: Seq<char>, windows: bool) -> (int, Lead) {
    if !windows {
        (0, Lead::Nothing)
    } else if s.len() >= 2 && separator(s[0], Style::Windows) && separator(s[1], Style::Windows) {
        if word_for_word(s) {
            if verbatim_share(s) {
                (two_names(s, 8, Style::Verbatim), Lead::Verbatim)
            } else if verbatim_drive(s) {
                (6, Lead::Verbatim)
            } else {
                (next_separator(s, 4, Style::Verbatim), Lead::Verbatim)
            }
        } else if s.len() >= 4 && s[2] == '.' && separator(s[3], Style::Windows) {
            (next_separator(s, 4, Style::Windows), Lead::Share)
        } else {
            let e = next_separator(s, 2, Style::Windows);
            let f = two_names(s, 2, Style::Windows);
            if 2 < e < f {
                (f, Lead::Share)
            } else {
                (0, Lead::Nothing)
            }
        }
    } else if drive_at(s, 0) {
        (2, Lead::Drive)
    } else {
        (0, Lead::Nothing)
    }
}

fn is_drive_at(v: &Vec<char>, i: usize) -> (r: bool)
    requires
        i <= v@.len(),
    ensures
        r == drive_at(v@, i as int),
{
    v.len() - i >= 2 && v[i + 1] == ':' && (('a' <= v[i] && v[i] <= 'z') || ('A' <= v[i] && v[i]
        <= 'Z'))
}

fn find_two_names(v: &Vec<char>, from: usize, style: Style) -> (r: usize)
    requires
        from <= v@.len(),
    ensures
        r == two_names(v@, from as int, style),
        from <= r <= v@.len(),
{
    let e = find_separator(v, from, style);
    if e < v.len() {
        let f = find_separator(v, e + 1, style);
        if e + 1 < f {
            f
        } else {
            e
        }
    } else {
        e
    }
}

fn find_lead(v: &Vec<char>, windows: bool) -> (r: (usize, Lead))
    ensures
        (r.0 as int, r.1) == lead(v@, windows),
        r.0 <= v@.len(),
{
    if !windows {
        (0, Lead::Nothing)
    } else if v.len() >= 2 && is_separator(v[0], Style::Windows) && is_separator(
        v[1],
        Style::Windows,
    ) {
        if v.len() >= 4 && v[0] == '\\' && v[1] == '\\' && v[2] == '?' && v[3] == '\\' {
            if v.len() >= 8 && v[4] == 'U' && v[5] == 'N' && v[6] == 'C' && is_separator(
                v[7],
                Style::Windows,
            ) {
                (find_two_names(v, 8, Style::Verbatim), Lead::Verbatim)
            } else if is_drive_at(v, 4) && (v.len() == 6 || is_separator(v[6], Style::Windows)) {
                (6, Lead::Verbatim)
            } else {
                (find_separator(v, 4, Style::Verbatim), Lead::Verbatim)
            }
        } else if v.len() >= 4 && v[2] == '.' && is_separator(v[3], Style::Windows) {
            (find_separator(v, 4, Style::Windows), Lead::Share)
        } else {
            let e = find_separator(v, 2, Style::Windows);
            let f = find_two_names(v, 2, Style::Windows);
            if 2 < e && e < f {
                (f, Lead::Share)
            } else {
                (0, Lead::Nothing)
            }
        }
    } else if is_drive_at(v, 0) {
        (2, Lead::Drive)
    } else {
        (0, Lead::Nothing)
    }
}

// ---------- where the parts lie ----------
/// The way in which the parts of a path are told apart.
pub open spec fn style(s: Seq<char>, windows: bool) -> Style {
    if lead(s, windows).1 == Lead::Verbatim {
        Style::Verbatim
    } else {
        system(windows)
    }
}

/// Whether a separator stands behind the prefix of a path.
pub open spec fn rooted(s: Seq<char>, windows: bool) -> bool {
    let d = lead(s, windows).0;
    s.len() > d && separator(s[d], system(windows))
}

/// Whether a path starts at a root: that of a share or a device is there in any case.
pub open spec fn has_root(s: Seq<char>, windows: bool) -> bool {
    rooted(s, windows) || lead(s, windows).1 == Lead::Share || lead(s, windows).1
        == Lead::Verbatim
}

/// Whether a path that does not start at a root starts with the part `.`.
pub open spec fn here(s: Seq<char>, windows: bool) -> bool {
    let d = lead(s, windows).0;
    !has_root(s, windows) && s.len() > d && s[d] == '.' && (s.len() == d + 1 || separator(
        s[d + 1],
        system(windows),
    ))
}

/// Where the parts of a path start: behind its prefix, its root or a `.` at its start.
pub open spec fn body(s: Seq<char>, windows: bool) -> int {
    let d = lead(s, windows).0;
    if rooted(s, windows) || here(s, windows) {
        d + 1
    } else {
        d
    }
}

/// The end of `s[..e]` without the separators and the parts `.` at its end; nothing before
/// `lo` is taken away, and word for word `.` is a part like any other.
pub open spec fn trimmed_end(s: Seq<char>, e: int, lo: int, style: Style) -> int
    decreases e,
{
    if e <= lo || lo < 0 || e > s.len() {
        lo
    } else if separator(s[e - 1], style) {
        trimmed_end(s, e - 1, lo, style)
    } else if style != Style::Verbatim && s[e - 1] == '.' && (e - 1 == lo || separator(
        s[e - 2],
        style,
    )) {
        trimmed_end(s, e - 1, lo, style)
    } else {
        e
    }
}

/// The start of the part of a path that ends at `e`, not before `lo`.
pub open spec fn part_start(s: Seq<char>, e: int, lo: int, style: Style) -> int
    decreases e,
{
    if e <= lo || lo < 0 || e > s.len() {
        lo
    } else if separator(s[e - 1], style) {
        e
    } else {
        part_start(s, e - 1, lo, style)
    }
}

/// The start and the end of the last part of a path; `None` where it has none.
pub open spec fn last_part(s: Seq<char>, windows: bool) -> Option<(int, int)> {
    let lo = body(s, windows);
    let e = trimmed_end(s, s.len() as int, lo, style(s, windows));
    if e > lo {
        Some((part_start(s, e, lo, style(s, windows)), e))
    } else {
        None
    }
}

/// The start and the end of the file name: the last part, but for `.` and `..`.
pub open spec fn file_name(s: Seq<char>, windows: bool) -> Option<(int, int)> {
    match last_part(s, windows) {
        Some((b, e)) => if s.subrange(b, e) == "."@ || s.subrange(b, e) == ".."@ {
            None
        } else {
            Some((b, e))
        },
        None => None,
    }
}

fn style_of(v: &Vec<char>, windows: bool) -> (r: Style)
    ensures
        r == style(v@, windows),
{
    if find_lead(v, windows).1 == Lead::Verbatim {
        Style::Verbatim
    } else {
        system_of(windows)
    }
}

fn is_rooted(v: &Vec<char>, windows: bool) -> (r: bool)
    ensures
        r == rooted(v@, windows),
{
    let d = find_lead(v, windows).0;
    v.len() > d && is_separator(v[d], system_of(windows))
}

fn is_here(v: &Vec<char>, windows: bool) -> (r: bool)
    ensures
        r == here(v@, windows),
{
    let (d, kind) = find_lead(v, windows);
    !is_rooted(v, windows) && kind != Lead::Share && kind != Lead::Verbatim && v.len() > d && v[d]
        == '.' && (v.len() == d + 1 || is_separator(v[d + 1], system_of(windows)))
}

fn find_body(v: &Vec<char>, windows: bool) -> (r: usize)
    ensures
        r == body(v@, windows),
        r <= v@.len(),
{
    let d = find_lead(v, windows).0;
    let n: usize = v.len();
    if d < n && (is_rooted(v, windows) || is_here(v, windows)) {
        d + 1
    } else {
        d
    }
}

fn find_trimmed_end(v: &Vec<char>, to: usize, lo: usize, style: Style) -> (r: usize)
    requires
        lo <= to <= v@.len(),
    ensures
        r == trimmed_end(v@, to as int, lo as int, style),
        lo <= r <= to,
{
    let mut e: usize = to;
    while e > lo
        invariant
            lo <= e <= to <= v@.len(),
            trimmed_end(v@, to as int, lo as int, style) == trimmed_end(
                v@,
                e as int,
                lo as int,
                style,
            ),
        decreases e,
    {
        if !is_separator(v[e - 1], style) && !(style != Style::Verbatim && v[e - 1] == '.' && (e - 1
            == lo || is_separator(v[e - 2], style))) {
            return e;
        }
        e = e - 1;
    }
    lo
}

fn find_part_start(v: &Vec<char>, to: usize, lo: usize, style: Style) -> (r: usize)
    requires
        lo <= to <= v@.len(),
    ensures
        r == part_start(v@, to as int, lo as int, style),
        lo <= r <= to,
{
    let mut e: usize = to;
    while e > lo
        invariant
            lo <= e <= to <= v@.len(),
            part_start(v@, to as int, lo as int, style) == part_start(
                v@,
                e as int,
                lo as int,
                style,
            ),
        decreases e,
    {
        if is_separator(v[e - 1], style) {
            return e;
        }
        e = e - 1;
    }
    lo
}

fn find_last_part(v: &Vec<char>, windows: bool) -> (r: Option<(usize, usize)>)
    ensures
        match r {
            Some((b, e)) => last_part(v@, windows) == Some((b as int, e as int)) && body(
                v@,
                windows,
            ) <= b <= e <= v@.len(),
            None => last_part(v@, windows) is None,
        },
{
    let lo = find_body(v, windows);
    let style = style_of(v, windows);
    let e = find_trimmed_end(v, v.len(), lo, style);
    if e > lo {
        Some((find_part_start(v, e, lo, style), e))
    } else {
        None
    }
}

fn find_file_name(v: &Vec<char>, windows: bool) -> (r: Option<(usize, usize)>)
    ensures
        match r {
            Some((b, e)) => file_name(v@, windows) == Some((b as int, e as int)) && b <= e
                <= v@.len(),
            None => file_name(v@, windows) is None,
        },
{
    match find_last_part(v, windows) {
        Some((b, e)) => {
            let name = string_of(v, b, e);
            if same(name.as_str(), ".") || same(name.as_str(), "..") {
                None
            } else {
                Some((b, e))
            }
        },
        None => None,
    }
}

// ---------- names and directories ----------
/// The last part of a path; the path itself where that names nothing.
pub open spec fn basename(s: Seq<char>, windows: bool) -> Seq<char> {
    match file_name(s, windows) {
        Some((b, e)) => s.subrange(b, e),
        None => s,
    }
}

/// The last part of a path.
pub fn tie_path_basename(path: &str, windows: bool) -> (r: String)
    ensures
        r@ == basename(path@, windows),
{
    let v = chars_of(path);
    match find_file_name(&v, windows) {
        Some((b, e)) => string_of(&v, b, e),
        None => lit(path),
    }
}

/// The path without its last part; nothing where there is no other.
pub open spec fn dirname(s: Seq<char>, windows: bool) -> Seq<char> {
    match last_part(s, windows) {
        Some((b, _)) => s.take(trimmed_end(s, b, body(s, windows), style(s, windows))),
        None => Seq::empty(),
    }
}

/// The directory of a path.
pub fn tie_path_dirname(path: &str, windows: bool) -> (r: String)
    ensures
        r@ == dirname(path@, windows),
{
    let v = chars_of(path);
    match find_last_part(&v, windows) {
        Some((b, _)) => {
            let e = find_trimmed_end(&v, b, find_body(&v, windows), style_of(&v, windows));
            let r = string_of(&v, 0, e);
            assert(r@ =~= path@.take(e as int));
            r
        },
        None => String::new(),
    }
}

/// The last dot of a file name that starts at `b`, searched from `e` back; a dot at its
/// start does not count.
pub open spec fn last_dot(s: Seq<char>, b: int, e: int) -> Option<int>
    decreases e - b,
{
    if b < 0 || e <= b + 1 || e > s.len() {
        None
    } else if s[e - 1] == '.' {
        Some(e - 1)
    } else {
        last_dot(s, b, e - 1)
    }
}

/// The path with the extension of its file name replaced, or added where there is none. A
/// path that names no file stays as it is.
pub open spec fn extended(s: Seq<char>, ext: Seq<char>, windows: bool) -> Seq<char> {
    match file_name(s, windows) {
        Some((b, e)) => match last_dot(s, b, e) {
            Some(i) => s.take(i) + "."@ + ext,
            None => s.take(e) + "."@ + ext,
        },
        None => s,
    }
}

fn find_last_dot(v: &Vec<char>, b: usize, to: usize) -> (r: Option<usize>)
    requires
        b <= to <= v@.len(),
    ensures
        match r {
            Some(i) => last_dot(v@, b as int, to as int) == Some(i as int) && i < to,
            None => last_dot(v@, b as int, to as int) is None,
        },
{
    let mut e: usize = to;
    while e > b && e - b > 1
        invariant
            b <= e <= to <= v@.len(),
            last_dot(v@, b as int, to as int) == last_dot(v@, b as int, e as int),
        decreases e,
    {
        if v[e - 1] == '.' {
            return Some(e - 1);
        }
        e = e - 1;
    }
    None
}

/// The path with another extension.
pub fn with_extension(path: &str, ext: &str, windows: bool) -> (r: String)
    ensures
        r@ == extended(path@, ext@, windows),
{
    let v = chars_of(path);
    match find_file_name(&v, windows) {
        Some((b, e)) => {
            let end: usize = match find_last_dot(&v, b, e) {
                Some(i) => i,
                None => e,
            };
            let stem = string_of(&v, 0, end);
            assert(stem@ =~= path@.take(end as int));
            cat3(stem.as_str(), ".", ext)
        },
        None => lit(path),
    }
}

// ---------- parts ----------
/// The text as one part, where it is not empty.
pub open spec fn one_part(s: Seq<char>) -> Seq<Seq<char>> {
    if s.len() > 0 {
        seq![s]
    } else {
        Seq::empty()
    }
}

/// The parts between the separators of a text; separators side by side count as one.
pub open spec fn parts(s: Seq<char>, style: Style) -> Seq<Seq<char>>
    decreases s.len(),
{
    let e = next_separator(s, 0, style);
    if 0 <= e < s.len() {
        one_part(s.take(e)) + parts(s.skip(e + 1), style)
    } else {
        one_part(s)
    }
}

/// The parts of a path, `.` and `..` among them.
pub open spec fn path_parts(s: Seq<char>, windows: bool) -> Seq<Seq<char>> {
    parts(s.skip(body(s, windows)), style(s, windows))
}

/// What is left when the first `n` parts of `q` follow the parts `p`: `.` is dropped, and `..`
/// takes the name before it away, where there is one.
pub open spec fn followed(p: Seq<Seq<char>>, q: Seq<Seq<char>>, n: nat) -> Seq<Seq<char>>
    decreases n,
{
    if n == 0 || n > q.len() {
        p
    } else {
        let before = followed(p, q, (n - 1) as nat);
        if q[n - 1] == "."@ {
            before
        } else if q[n - 1] == ".."@ {
            if before.len() > 0 && before.last() != "."@ && before.last() != ".."@ {
                before.drop_last()
            } else {
                before
            }
        } else {
            before.push(q[n - 1])
        }
    }
}

proof fn lemma_next_separator(s: Seq<char>, i: int, style: Style)
    requires
        0 <= i <= s.len(),
    ensures
        i <= next_separator(s, i, style) <= s.len(),
        next_separator(s, i, style) < s.len() ==> separator(s[next_separator(s, i, style)], style),
        forall|j: int| i <= j < next_separator(s, i, style) ==> !separator(s[j], style),
    decreases s.len() - i,
{
    if i < s.len() && !separator(s[i], style) {
        lemma_next_separator(s, i + 1, style);
    }
}

proof fn lemma_first_separator(s: Seq<char>, i: int, e: int, style: Style)
    requires
        0 <= i <= e <= s.len(),
        e < s.len() ==> separator(s[e], style),
        forall|j: int| i <= j < e ==> !separator(s[j], style),
    ensures
        next_separator(s, i, style) == e,
    decreases e - i,
{
    if i < e {
        lemma_first_separator(s, i + 1, e, style);
    }
}

fn find_parts(v: &Vec<char>, from: usize, style: Style) -> (r: Vec<String>)
    requires
        from <= v@.len(),
    ensures
        views(r@) == parts(v@.skip(from as int), style),
{
    let mut r: Vec<String> = Vec::new();
    let mut b: usize = from;
    let mut i: usize = from;
    let ghost all = parts(v@.skip(from as int), style);
    assert(views(r@) + all =~= all);
    while i < v.len()
        invariant
            from <= b <= i <= v@.len(),
            forall|j: int| b <= j < i ==> !separator(v@[j], style),
            views(r@) + parts(v@.skip(b as int), style) == all,
        decreases v@.len() - i,
    {
        if is_separator(v[i], style) {
            let ghost rest = v@.skip(b as int);
            let ghost before = views(r@);
            proof {
                lemma_first_separator(rest, 0, i - b, style);
                assert(rest.skip(i - b + 1) =~= v@.skip(i + 1));
                assert(rest.take(i - b) =~= v@.subrange(b as int, i as int));
            }
            if b < i {
                let name = string_of(v, b, i);
                r.push(name);
                assert(views(r@) =~= before + one_part(name@));
            }
            assert(views(r@) =~= before + one_part(rest.take(i - b)));
            assert(views(r@) + parts(v@.skip(i + 1), style) =~= before + parts(rest, style));
            b = i + 1;
        }
        i = i + 1;
    }
    let ghost rest = v@.skip(b as int);
    let ghost before = views(r@);
    proof {
        lemma_first_separator(rest, 0, rest.len() as int, style);
    }
    if b < v.len() {
        let name = string_of(v, b, v.len());
        assert(name@ =~= rest);
        r.push(name);
    }
    assert(views(r@) =~= before + one_part(rest));
    r
}

fn find_path_parts(v: &Vec<char>, windows: bool) -> (r: Vec<String>)
    ensures
        views(r@) == path_parts(v@, windows),
{
    find_parts(v, find_body(v, windows), style_of(v, windows))
}

fn follow(p: Vec<String>, q: &Vec<String>) -> (r: Vec<String>)
    ensures
        views(r@) == followed(views(p@), views(q@), q@.len()),
{
    let ghost start = views(p@);
    let mut r: Vec<String> = p;
    for i in 0..q.len()
        invariant
            views(r@) == followed(start, views(q@), i as nat),
    {
        let ghost before = views(r@);
        assert(views(q@)[i as int] == q@[i as int]@);
        if same(q[i].as_str(), ".") {
        } else if same(q[i].as_str(), "..") {
            let n: usize = r.len();
            if n > 0 {
                assert(before.last() == r@[n - 1]@);
                if !same(r[n - 1].as_str(), ".") && !same(r[n - 1].as_str(), "..") {
                    r.pop();
                    assert(views(r@) =~= before.drop_last());
                }
            }
        } else {
            r.push(q[i].clone());
            assert(views(r@) =~= before.push(q@[i as int]@));
        }
    }
    r
}

// ---------- joining ----------
/// The path `b` behind the path `a`, which is taken word for word: nothing would look at `.`
/// and `..` any more, so they are resolved.
pub open spec fn joined_verbatim(a: Seq<char>, b: Seq<char>) -> Seq<char> {
    let from = if rooted(b, true) {
        Seq::empty()
    } else {
        path_parts(a, true)
    };
    let q = path_parts(b, true);
    let p = followed(from, q, q.len());
    a.take(lead(a, true).0) + (if rooted(a, true) || rooted(b, true) || p.len() > 0 {
        main_separator(true)
    } else {
        Seq::empty()
    }) + join(p, main_separator(true))
}

/// The path `b`, taken from the directory `a`. A path with a prefix stands for itself, and so
/// does one that starts at the root, but for the prefix of `a`.
pub open spec fn joined(a: Seq<char>, b: Seq<char>, windows: bool) -> Seq<char> {
    let (d, kind) = lead(a, windows);
    if lead(b, windows).1 != Lead::Nothing {
        b
    } else if kind == Lead::Verbatim && b.len() > 0 {
        joined_verbatim(a, b)
    } else if rooted(b, windows) {
        a.take(d) + b
    } else if a.len() == 0 || (a.len() == d && kind == Lead::Drive) || separator(
        a.last(),
        system(windows),
    ) {
        a + b
    } else {
        a + main_separator(windows) + b
    }
}

/// Joins two paths.
pub fn tie_path_join(a: &str, b: &str, windows: bool) -> (r: String)
    ensures
        r@ == joined(a@, b@, windows),
{
    let v = chars_of(a);
    let w = chars_of(b);
    let n: usize = v.len();
    let (d, kind) = find_lead(&v, windows);
    let at = string_of(&v, 0, d);
    assert(at@ =~= a@.take(d as int));
    if find_lead(&w, windows).1 != Lead::Nothing {
        lit(b)
    } else if kind == Lead::Verbatim && w.len() > 0 {
        let from: Vec<String> = if is_rooted(&w, windows) {
            let none: Vec<String> = Vec::new();
            assert(views(none@) =~= Seq::<Seq<char>>::empty());
            none
        } else {
            find_path_parts(&v, windows)
        };
        let q = find_path_parts(&w, windows);
        let p = follow(from, &q);
        let root = if is_rooted(&v, windows) || is_rooted(&w, windows) || p.len() > 0 {
            main_separator_of(windows)
        } else {
            ""
        };
        proof {
            reveal_strlit("");
            assert(""@ =~= Seq::<char>::empty());
        }
        cat3(at.as_str(), root, join_strings(&p, main_separator_of(windows)).as_str())
    } else if is_rooted(&w, windows) {
        cat2(at.as_str(), b)
    } else if n == 0 || (n == d && kind == Lead::Drive) || is_separator(
        v[n - 1],
        system_of(windows),
    ) {
        cat2(a, b)
    } else {
        cat3(a, main_separator_of(windows), b)
    }
}

// ---------- normal form ----------
/// What is left of the first `n` parts.
pub open spec fn resolved(p: Seq<Seq<char>>, n: nat) -> Seq<Seq<char>> {
    followed(Seq::empty(), p, n)
}

/// The parts of a path with `.` and `..` resolved; a `..` on the root is ignored.
pub open spec fn resolved_parts(s: Seq<char>, windows: bool) -> Seq<Seq<char>> {
    let p = path_parts(s, windows);
    resolved(p, p.len())
}

/// What a path keeps in any case: its prefix, and its root.
pub open spec fn anchors(s: Seq<char>, windows: bool) -> Seq<Seq<char>> {
    let (d, kind) = lead(s, windows);
    one_part(s.take(d)) + (if rooted(s, windows) || kind == Lead::Share {
        seq![main_separator(windows)]
    } else {
        Seq::empty()
    })
}

/// The first `n` pieces, each joined to those before it.
pub open spec fn collected(p: Seq<Seq<char>>, n: nat, windows: bool) -> Seq<char>
    decreases n,
{
    if n == 0 || n > p.len() {
        Seq::empty()
    } else {
        joined(collected(p, (n - 1) as nat, windows), p[n - 1], windows)
    }
}

/// The normal form of a path: no `.`, no `..` and no needless separator. A path that leads
/// nowhere is `.`.
pub open spec fn normalized(s: Seq<char>, windows: bool) -> Seq<char> {
    let p = anchors(s, windows) + resolved_parts(s, windows);
    if p.len() == 0 {
        "."@
    } else {
        collected(p, p.len(), windows)
    }
}

/// Brings a path into its normal form.
pub fn normalize_path(path: &str, windows: bool) -> (r: String)
    ensures
        r@ == normalized(path@, windows),
{
    let v = chars_of(path);
    let (d, kind) = find_lead(&v, windows);
    let p = find_path_parts(&v, windows);
    let none: Vec<String> = Vec::new();
    assert(views(none@) =~= Seq::<Seq<char>>::empty());
    let q = follow(none, &p);
    let mut pieces: Vec<String> = Vec::new();
    assert(views(pieces@) =~= Seq::<Seq<char>>::empty());
    if d > 0 {
        let at = string_of(&v, 0, d);
        assert(at@ =~= path@.take(d as int));
        pieces.push(at);
        assert(views(pieces@) =~= seq![path@.take(d as int)]);
    }
    assert(views(pieces@) =~= one_part(path@.take(d as int)));
    let ghost before = views(pieces@);
    if is_rooted(&v, windows) || kind == Lead::Share {
        pieces.push(lit(main_separator_of(windows)));
        assert(views(pieces@) =~= before + seq![main_separator(windows)]);
    }
    assert(views(pieces@) =~= anchors(path@, windows));
    let ghost head = views(pieces@);
    assert(head + views(q@).take(0) =~= head);
    for i in 0..q.len()
        invariant
            views(pieces@) == head + views(q@).take(i as int),
    {
        let ghost before = views(pieces@);
        pieces.push(q[i].clone());
        assert(views(pieces@) =~= before.push(q@[i as int]@));
        assert(views(q@).take(i + 1) =~= views(q@).take(i as int).push(q@[i as int]@));
        assert(views(pieces@) =~= head + views(q@).take(i + 1));
    }
    assert(views(q@).take(q@.len() as int) =~= views(q@));
    if pieces.len() == 0 {
        return lit(".");
    }
    let mut t = String::new();
    assert(t@ =~= Seq::<char>::empty());
    for i in 0..pieces.len()
        invariant
            t@ == collected(views(pieces@), i as nat, windows),
    {
        assert(views(pieces@)[i as int] == pieces@[i as int]@);
        t = tie_path_join(t.as_str(), pieces[i].as_str(), windows);
    }
    t
}

/// Brings a path into its normal form.
pub fn tie_path_normalize(path: &str, windows: bool) -> (r: String)
    ensures
        r@ == normalized(path@, windows),
{
    normalize_path(path, windows)
}

// ---------- directories that hold others ----------
/// A letter of a drive, whichever case it is written in.
pub open spec fn drive_letter(c: char) -> char {
    if 'a' <= c <= 'z' {
        (c as u8 - 32) as char
    } else {
        c
    }
}

/// A text with the slash as the backslash that it stands for.
pub open spec fn backslashed(s: Seq<char>) -> Seq<char> {
    s.map_values(
        |c: char|
            if c == '/' {
                '\\'
            } else {
                c
            },
    )
}

/// The prefix of a path, written in one way of those that mean the same.
pub open spec fn plain_lead(s: Seq<char>, windows: bool) -> Seq<char> {
    let (d, kind) = lead(s, windows);
    match kind {
        Lead::Nothing => Seq::empty(),
        Lead::Drive => seq![drive_letter(s[0]), ':'],
        Lead::Share => backslashed(s.take(d)),
        Lead::Verbatim => if verbatim_share(s) {
            backslashed(s.take(8)) + s.subrange(8, d)
        } else if verbatim_drive(s) {
            s.take(4) + seq![drive_letter(s[4]), ':']
        } else {
            s.take(d)
        },
    }
}

/// Those of the first `n` parts that say something: word for word all of them, else all but
/// `.`.
pub open spec fn telling(p: Seq<Seq<char>>, n: nat, style: Style) -> Seq<Seq<char>>
    decreases n,
{
    if n == 0 || n > p.len() {
        Seq::empty()
    } else {
        let before = telling(p, (n - 1) as nat, style);
        if style != Style::Verbatim && p[n - 1] == "."@ {
            before
        } else {
            before.push(p[n - 1])
        }
    }
}

/// What a path leads through: its prefix, its root, a `.` at its start, and its parts.
pub open spec fn stations(s: Seq<char>, windows: bool) -> Seq<Seq<char>> {
    let kind = lead(s, windows).1;
    let p = path_parts(s, windows);
    one_part(plain_lead(s, windows)) + (if rooted(s, windows) || kind == Lead::Share {
        seq![main_separator(windows)]
    } else if kind == Lead::Nothing && here(s, windows) {
        seq!["."@]
    } else {
        Seq::empty()
    }) + telling(p, p.len(), style(s, windows))
}

/// Whether a path leads through the whole of another one.
pub open spec fn lies_in(path: Seq<char>, dir: Seq<char>, windows: bool) -> bool {
    stations(dir, windows).is_prefix_of(stations(path, windows))
}

fn drive_letter_of(c: char) -> (r: char)
    ensures
        r == drive_letter(c),
{
    if 'a' <= c && c <= 'z' {
        (c as u8 - 32) as char
    } else {
        c
    }
}

fn backslashed_of(v: &Vec<char>, to: usize) -> (r: Vec<char>)
    requires
        to <= v@.len(),
    ensures
        r@ == backslashed(v@.take(to as int)),
{
    let mut r: Vec<char> = Vec::new();
    for i in 0..to
        invariant
            to <= v@.len(),
            r@.len() == i,
            forall|j: int| 0 <= j < i ==> r@[j] == backslashed(v@.take(to as int))[j],
    {
        if v[i] == '/' {
            r.push('\\');
        } else {
            r.push(v[i]);
        }
    }
    assert(r@ =~= backslashed(v@.take(to as int)));
    r
}

fn find_plain_lead(v: &Vec<char>, windows: bool) -> (r: String)
    ensures
        r@ == plain_lead(v@, windows),
{
    let (d, kind) = find_lead(v, windows);
    let mut t: Vec<char> = Vec::new();
    match kind {
        Lead::Nothing => {
            assert(t@ =~= plain_lead(v@, windows));
        },
        Lead::Drive => {
            t.push(drive_letter_of(v[0]));
            t.push(':');
            assert(t@ =~= plain_lead(v@, windows));
        },
        Lead::Share => {
            t = backslashed_of(v, d);
        },
        Lead::Verbatim => {
            if v.len() >= 8 && v[4] == 'U' && v[5] == 'N' && v[6] == 'C' && is_separator(
                v[7],
                Style::Windows,
            ) {
                proof {
                    lemma_next_separator(v@, 8, Style::Verbatim);
                }
                t = backslashed_of(v, 8);
                let r = string_of(&t, 0, t.len());
                assert(r@ =~= t@);
                return cat2(r.as_str(), string_of(v, 8, d).as_str());
            } else if is_drive_at(v, 4) && (v.len() == 6 || is_separator(v[6], Style::Windows)) {
                t.push(v[0]);
                t.push(v[1]);
                t.push(v[2]);
                t.push(v[3]);
                t.push(drive_letter_of(v[4]));
                t.push(':');
                assert(t@ =~= plain_lead(v@, windows));
            } else {
                let r = string_of(v, 0, d);
                assert(r@ =~= v@.take(d as int));
                return r;
            }
        },
    }
    let r = string_of(&t, 0, t.len());
    assert(r@ =~= t@);
    r
}

fn find_stations(v: &Vec<char>, windows: bool) -> (r: Vec<String>)
    ensures
        views(r@) == stations(v@, windows),
{
    let kind = find_lead(v, windows).1;
    let mut r: Vec<String> = Vec::new();
    assert(views(r@) =~= Seq::<Seq<char>>::empty());
    let at = find_plain_lead(v, windows);
    let ghost first = at@;
    if chars_of(at.as_str()).len() > 0 {
        r.push(at);
        assert(views(r@) =~= seq![first]);
    }
    assert(views(r@) =~= one_part(first));
    if is_rooted(v, windows) || kind == Lead::Share {
        r.push(lit(main_separator_of(windows)));
        assert(views(r@) =~= one_part(first) + seq![main_separator(windows)]);
    } else if kind == Lead::Nothing && is_here(v, windows) {
        r.push(lit("."));
        assert(views(r@) =~= one_part(first) + seq!["."@]);
    } else {
        assert(views(r@) =~= one_part(first) + Seq::<Seq<char>>::empty());
    }
    let ghost head = views(r@);
    let p = find_path_parts(v, windows);
    let style = style_of(v, windows);
    assert(head + telling(views(p@), 0, style) =~= head);
    for i in 0..p.len()
        invariant
            views(r@) == head + telling(views(p@), i as nat, style),
    {
        let ghost before = views(r@);
        assert(views(p@)[i as int] == p@[i as int]@);
        if style == Style::Verbatim || !same(p[i].as_str(), ".") {
            r.push(p[i].clone());
            assert(views(r@) =~= before.push(p@[i as int]@));
            assert(views(r@) =~= head + telling(views(p@), (i + 1) as nat, style));
        }
    }
    r
}

/// Whether a path leads through the directory `dir`.
pub fn is_in(path: &str, dir: &str, windows: bool) -> (r: bool)
    ensures
        r == lies_in(path@, dir@, windows),
{
    let a = find_stations(&chars_of(path), windows);
    let b = find_stations(&chars_of(dir), windows);
    if a.len() < b.len() {
        return false;
    }
    for i in 0..b.len()
        invariant
            b@.len() <= a@.len(),
            views(a@) == stations(path@, windows),
            views(b@) == stations(dir@, windows),
            forall|j: int| 0 <= j < i ==> views(a@)[j] == views(b@)[j],
    {
        assert(views(a@)[i as int] == a@[i as int]@ && views(b@)[i as int] == b@[i as int]@);
        if !same(a[i].as_str(), b[i].as_str()) {
            return false;
        }
    }
    assert(views(b@) =~= views(a@).subrange(0, views(b@).len() as int));
    true
}

// ---------- laws ----------
/// Whether a text can be a part of a path.
pub open spec fn is_part(s: Seq<char>, style: Style) -> bool {
    s.len() > 0 && forall|i: int| 0 <= i < s.len() ==> !separator(#[trigger] s[i], style)
}

/// Whether a text is a part of a path in normal form.
pub open spec fn is_normal_part(s: Seq<char>, style: Style) -> bool {
    is_part(s, style) && s != "."@ && s != ".."@
}

proof fn lemma_parts_are_parts(s: Seq<char>, style: Style)
    ensures
        forall|i: int| 0 <= i < parts(s, style).len() ==> is_part(
            #[trigger] parts(s, style)[i],
            style,
        ),
    decreases s.len(),
{
    let e = next_separator(s, 0, style);
    lemma_next_separator(s, 0, style);
    if e < s.len() {
        lemma_parts_are_parts(s.skip(e + 1), style);
        let first = one_part(s.take(e));
        let rest = parts(s.skip(e + 1), style);
        assert forall|i: int| 0 <= i < parts(s, style).len() implies is_part(
            #[trigger] parts(s, style)[i],
            style,
        ) by {
            if i >= first.len() {
                assert(parts(s, style)[i] == rest[i - first.len()]);
            }
        }
    }
}

proof fn lemma_resolved_is_normal(p: Seq<Seq<char>>, n: nat, style: Style)
    requires
        n <= p.len(),
        forall|i: int| 0 <= i < p.len() ==> is_part(#[trigger] p[i], style),
    ensures
        forall|i: int| 0 <= i < resolved(p, n).len() ==> is_normal_part(
            #[trigger] resolved(p, n)[i],
            style,
        ),
    decreases n,
{
    if n > 0 {
        lemma_resolved_is_normal(p, (n - 1) as nat, style);
        let before = resolved(p, (n - 1) as nat);
        assert(is_part(p[n - 1], style));
        assert forall|i: int| 0 <= i < resolved(p, n).len() implies is_normal_part(
            #[trigger] resolved(p, n)[i],
            style,
        ) by {
            if i < before.len() {
                assert(resolved(p, n)[i] == before[i]);
            }
        }
    }
}

/// Splitting at a separator is splitting what is before it and what is behind it.
proof fn lemma_parts_add(x: Seq<char>, c: char, y: Seq<char>, style: Style)
    requires
        separator(c, style),
    ensures
        parts(x + seq![c] + y, style) == parts(x, style) + parts(y, style),
    decreases x.len(),
{
    let t = x + seq![c] + y;
    let e = next_separator(x, 0, style);
    lemma_next_separator(x, 0, style);
    lemma_first_separator(t, 0, e, style);
    assert(t.take(e) =~= x.take(e));
    if e < x.len() {
        lemma_parts_add(x.skip(e + 1), c, y, style);
        assert(t.skip(e + 1) =~= x.skip(e + 1) + seq![c] + y);
        assert(parts(t, style) =~= parts(x, style) + parts(y, style));
    } else {
        assert(x.take(e) =~= x);
        assert(t.skip(e + 1) =~= y);
    }
}

proof fn lemma_one_part(s: Seq<char>, style: Style)
    requires
        is_part(s, style),
    ensures
        parts(s, style) == seq![s],
{
    lemma_first_separator(s, 0, s.len() as int, style);
}

/// Parts that are joined by separators come back.
proof fn lemma_joined_parts(p: Seq<Seq<char>>)
    requires
        forall|i: int| 0 <= i < p.len() ==> is_part(#[trigger] p[i], Style::Unix),
    ensures
        parts(join(p, "/"@), Style::Unix) == p,
        p.len() > 0 ==> join(p, "/"@).len() > 0 && !separator(
            join(p, "/"@)[0],
            Style::Unix,
        ),
        p.len() > 0 ==> !separator(join(p, "/"@).last(), Style::Unix),
        forall|i: int|
            0 <= i < join(p, "/"@).len() - 1 ==> !(separator(
                #[trigger] join(p, "/"@)[i],
                Style::Unix,
            ) && separator(join(p, "/"@)[i + 1], Style::Unix)),
    decreases p.len(),
{
    reveal_strlit("/");
    let sep = "/"@;
    let t = join(p, sep);
    if p.len() == 0 {
        lemma_first_separator(t, 0, 0, Style::Unix);
        assert(parts(t, Style::Unix) =~= p);
    } else if p.len() == 1 {
        lemma_one_part(p[0], Style::Unix);
        assert(parts(t, Style::Unix) =~= p);
        assert(is_part(t, Style::Unix));
    } else {
        let q = p.drop_last();
        assert forall|i: int| 0 <= i < q.len() implies is_part(#[trigger] q[i], Style::Unix) by {
            assert(is_part(p[i], Style::Unix));
        }
        lemma_joined_parts(q);
        let x = join(q, sep);
        assert(is_part(p[p.len() - 1], Style::Unix));
        assert(sep =~= seq![sep[0]]);
        lemma_parts_add(x, sep[0], p.last(), Style::Unix);
        lemma_one_part(p.last(), Style::Unix);
        assert(q + seq![p.last()] =~= p);
        assert forall|i: int| 0 <= i < t.len() - 1 implies !(separator(#[trigger] t[i], Style::Unix)
            && separator(t[i + 1], Style::Unix)) by {
            if i < x.len() - 1 {
                assert(t[i] == x[i] && t[i + 1] == x[i + 1]);
            } else if i == x.len() - 1 {
                assert(t[i] == x.last());
            } else {
                assert(t[i + 1] == p.last()[i - x.len()]);
            }
        }
        assert(t.last() == p.last().last());
        assert(t[0] == x[0]);
    }
}

/// What is left of the parts of a path that stand alone.
proof fn lemma_collected(root: bool, q: Seq<Seq<char>>)
    requires
        forall|i: int| 0 <= i < q.len() ==> is_part(#[trigger] q[i], Style::Unix),
    ensures
        ({
            let head = if root {
                seq!["/"@]
            } else {
                Seq::<Seq<char>>::empty()
            };
            collected(head + q, (head + q).len(), false) == flat(head) + join(q, "/"@)
        }),
    decreases q.len(),
{
    reveal_strlit("/");
    let head = if root {
        seq!["/"@]
    } else {
        Seq::<Seq<char>>::empty()
    };
    let p = head + q;
    assert(flat(head) =~= if root { "/"@ } else { Seq::<char>::empty() }) by {
        reveal_with_fuel(flat, 2);
        assert(seq!["/"@].drop_last() =~= Seq::<Seq<char>>::empty());
    }
    if q.len() == 0 {
        assert(p =~= head);
        reveal_with_fuel(collected, 2);
        assert(join(q, "/"@) =~= Seq::<char>::empty());
        assert(collected(p, p.len(), false) =~= flat(head) + join(q, "/"@));
    } else {
        let r = q.drop_last();
        assert forall|i: int| 0 <= i < r.len() implies is_part(#[trigger] r[i], Style::Unix) by {
            assert(is_part(q[i], Style::Unix));
        }
        lemma_collected(root, r);
        lemma_joined_parts(r);
        let x = flat(head) + join(r, "/"@);
        lemma_collected_prefix(head + r, p, (p.len() - 1) as nat);
        assert(is_part(q[q.len() - 1], Style::Unix));
        assert(!separator(q.last()[0], Style::Unix));
        assert(p[p.len() - 1] == q.last());
        assert(collected(p, p.len(), false) == joined(x, q.last(), false));
        if r.len() > 0 {
            assert(x.last() == join(r, "/"@).last());
            assert(joined(x, q.last(), false) =~= flat(head) + join(q, "/"@));
        } else {
            assert(join(r, "/"@) =~= Seq::<char>::empty());
            assert(joined(x, q.last(), false) =~= flat(head) + join(q, "/"@));
        }
    }
}

proof fn lemma_collected_prefix(a: Seq<Seq<char>>, b: Seq<Seq<char>>, n: nat)
    requires
        n <= a.len() <= b.len(),
        forall|i: int| 0 <= i < n ==> a[i] == b[i],
    ensures
        collected(a, n, false) == collected(b, n, false),
    decreases n,
{
    if n > 0 {
        lemma_collected_prefix(a, b, (n - 1) as nat);
    }
}

/// The parts of a path in normal form, read as on Unix, are what is left of those of the path.
proof fn lemma_normal_parts(s: Seq<char>)
    ensures
        ({
            let q = resolved_parts(s, false);
            let t = normalized(s, false);
            &&& forall|i: int| 0 <= i < q.len() ==> is_normal_part(#[trigger] q[i], Style::Unix)
            &&& rooted(t, false) == rooted(s, false)
            &&& q.len() == 0 && !rooted(s, false) ==> t == "."@ && parts(t, Style::Unix)
                == seq!["."@]
            &&& q.len() > 0 || rooted(s, false) ==> parts(t, Style::Unix) == q && path_parts(
                t,
                false,
            ) == q
            &&& t.len() > 0
            &&& forall|i: int|
                0 <= i < t.len() - 1 ==> !(#[trigger] t[i] == '/' && t[i + 1] == '/')
        }),
{
    reveal_strlit("/");
    reveal_strlit(".");
    let rest = s.skip(body(s, false));
    let p = parts(rest, Style::Unix);
    lemma_parts_are_parts(rest, Style::Unix);
    lemma_resolved_is_normal(p, p.len(), Style::Unix);
    let q = resolved_parts(s, false);
    assert forall|i: int| 0 <= i < q.len() implies is_part(#[trigger] q[i], Style::Unix) by {
        assert(is_normal_part(q[i], Style::Unix));
    }
    lemma_joined_parts(q);
    lemma_collected(rooted(s, false), q);
    let x = join(q, "/"@);
    let t = normalized(s, false);
    assert(s.take(0) =~= Seq::<char>::empty());
    reveal_with_fuel(flat, 2);
    if rooted(s, false) {
        assert(anchors(s, false) =~= seq!["/"@]);
        assert("/"@ =~= seq!['/']);
        assert(seq!["/"@].drop_last() =~= Seq::<Seq<char>>::empty());
        assert(flat(seq!["/"@]) =~= "/"@);
        assert(t =~= Seq::<char>::empty() + seq!['/'] + x);
        lemma_parts_add(Seq::empty(), '/', x, Style::Unix);
        lemma_first_separator(Seq::empty(), 0, 0, Style::Unix);
        assert(parts(Seq::empty(), Style::Unix) =~= Seq::<Seq<char>>::empty());
        assert(parts(t, Style::Unix) =~= q);
        assert(t.skip(1) =~= x);
        assert forall|i: int| 0 <= i < t.len() - 1 implies !(#[trigger] t[i] == '/' && t[i + 1]
            == '/') by {
            if i > 0 {
                assert(t[i] == x[i - 1] && t[i + 1] == x[i]);
                assert(!(separator(x[i - 1], Style::Unix) && separator(
                    x[i - 1 + 1],
                    Style::Unix,
                )));
            } else if q.len() > 0 {
                assert(t[1] == x[0]);
            }
        }
    } else {
        assert(anchors(s, false) =~= Seq::<Seq<char>>::empty());
        assert(anchors(s, false) + q =~= q);
        if q.len() > 0 {
            assert(flat(Seq::<Seq<char>>::empty()) =~= Seq::<char>::empty());
            assert(t =~= x);
            assert forall|i: int| 0 <= i < t.len() - 1 implies !(#[trigger] t[i] == '/' && t[i + 1]
                == '/') by {
                assert(!(separator(x[i], Style::Unix) && separator(x[i + 1], Style::Unix)));
            }
            if here(t, false) {
                lemma_first_separator(t, 0, 1, Style::Unix);
                assert(t.take(1) =~= "."@);
                if t.len() == 1 {
                    assert(t =~= "."@);
                }
                assert(parts(t, Style::Unix)[0] == "."@);
                assert(is_normal_part(q[0], Style::Unix));
            }
            assert(t.skip(0) =~= t);
        } else {
            assert(t =~= "."@);
            lemma_one_part(t, Style::Unix);
        }
    }
}

proof fn lemma_normal_stays(p: Seq<Seq<char>>, n: nat)
    requires
        n <= p.len(),
        forall|i: int| 0 <= i < p.len() ==> #[trigger] p[i] != "."@ && p[i] != ".."@,
    ensures
        resolved(p, n) == p.take(n as int),
    decreases n,
{
    if n > 0 {
        lemma_normal_stays(p, (n - 1) as nat);
        assert(p[n - 1] != "."@);
        assert(p.take(n as int) =~= p.take(n - 1).push(p[n - 1]));
    } else {
        assert(p.take(0) =~= Seq::<Seq<char>>::empty());
    }
}

/// The normal form of a normal form is itself, read as on Unix.
pub proof fn law_normal_twice(s: Seq<char>)
    ensures
        normalized(normalized(s, false), false) == normalized(s, false),
{
    let t = normalized(s, false);
    let q = resolved_parts(s, false);
    lemma_normal_parts(s);
    assert(t.take(0) =~= Seq::<char>::empty());
    assert(s.take(0) =~= Seq::<char>::empty());
    if q.len() == 0 && !rooted(s, false) {
        reveal_strlit(".");
        let rest = t.skip(1);
        assert(rest.len() == 0);
        lemma_first_separator(rest, 0, 0, Style::Unix);
        assert(path_parts(t, false) =~= Seq::<Seq<char>>::empty());
        assert(anchors(t, false) =~= Seq::<Seq<char>>::empty());
        assert((anchors(t, false) + resolved_parts(t, false)).len() == 0);
    } else {
        assert forall|i: int| 0 <= i < q.len() implies #[trigger] q[i] != "."@ && q[i]
            != ".."@ by {
            assert(is_normal_part(q[i], Style::Unix));
        }
        lemma_normal_stays(q, q.len());
        assert(q.take(q.len() as int) =~= q);
        assert(anchors(t, false) =~= anchors(s, false));
    }
}

/// A normal form, read as on Unix, is never empty, has no part `..`, no two separators side by
/// side, and a part `.` only where it is nothing else; it starts at the root where the path
/// does.
pub proof fn law_normal_form(s: Seq<char>)
    ensures
        normalized(s, false).len() > 0,
        !parts(normalized(s, false), Style::Unix).contains(".."@),
        parts(normalized(s, false), Style::Unix).contains("."@) ==> normalized(s, false) == "."@,
        forall|i: int|
            0 <= i < normalized(s, false).len() - 1 ==> !(#[trigger] normalized(s, false)[i] == '/'
                && normalized(s, false)[i + 1] == '/'),
        rooted(normalized(s, false), false) == rooted(s, false),
{
    reveal_strlit(".");
    reveal_strlit("..");
    lemma_normal_parts(s);
    let q = resolved_parts(s, false);
    if q.len() == 0 && !rooted(s, false) {
        assert("."@.len() != ".."@.len());
    }
}

/// Parts other than `.` and `..` all stay, in their order.
pub proof fn law_plain_parts_stay(p: Seq<Seq<char>>)
    requires
        forall|i: int| 0 <= i < p.len() ==> #[trigger] p[i] != "."@ && p[i] != ".."@,
    ensures
        resolved(p, p.len()) == p,
{
    lemma_normal_stays(p, p.len());
    assert(p.take(p.len() as int) =~= p);
}

/// A part followed by `..` leaves no trace, and neither does a `..` on the root.
pub proof fn law_parent_undoes_part(p: Seq<Seq<char>>, name: Seq<char>)
    requires
        name != "."@,
        name != ".."@,
    ensures
        resolved(p.push(name).push(".."@), p.len() + 2) == resolved(p, p.len()),
        resolved(seq![".."@], 1) == Seq::<Seq<char>>::empty(),
{
    reveal_strlit(".");
    reveal_strlit("..");
    let one = p.push(name);
    let two = one.push(".."@);
    lemma_resolved_prefix(p, two, p.len());
    assert(two[p.len() as int] == name);
    assert(resolved(two, p.len() + 1) == resolved(p, p.len()).push(name));
    assert("."@.len() != ".."@.len());
    assert(resolved(two, p.len() + 2) == resolved(two, p.len() + 1).drop_last());
    assert(resolved(p, p.len()).push(name).drop_last() =~= resolved(p, p.len()));
    reveal_with_fuel(followed, 2);
}

proof fn lemma_resolved_prefix(a: Seq<Seq<char>>, b: Seq<Seq<char>>, n: nat)
    requires
        n <= a.len() <= b.len(),
        forall|i: int| 0 <= i < n ==> a[i] == b[i],
    ensures
        resolved(a, n) == resolved(b, n),
    decreases n,
{
    if n > 0 {
        lemma_resolved_prefix(a, b, (n - 1) as nat);
    }
}

/// A path on a share keeps the share: another path from its root starts there.
pub proof fn law_shares_stay(a: Seq<char>, b: Seq<char>)
    requires
        lead(a, true).1 == Lead::Share,
        lead(b, true).1 == Lead::Nothing,
        rooted(b, true),
    ensures
        joined(a, b, true) == a.take(lead(a, true).0) + b,
{
}

} // verus!
