//! Regular expressions, as the `regex` crate understands them.
use crate::host::{c_str, c_string};
use crate::text::views;
use vstd::prelude::*;

verus! {

/// Whether `Regex::new` accepts the pattern.
pub uninterp spec fn regex_valid(pattern: Seq<char>) -> bool;

/// What `Regex::is_match` answers.
pub uninterp spec fn regex_matches(pattern: Seq<char>, s: Seq<char>) -> bool;

/// The text of the match that `Regex::find` returns.
pub uninterp spec fn regex_first(pattern: Seq<char>, s: Seq<char>) -> Option<Seq<char>>;

/// The texts of the matches that `Regex::find_iter` runs through.
pub uninterp spec fn regex_all(pattern: Seq<char>, s: Seq<char>) -> Seq<Seq<char>>;

/// The text that `Regex::replace_all` returns.
pub uninterp spec fn regex_replaced(pattern: Seq<char>, s: Seq<char>, to: Seq<char>) -> Seq<char>;

/// The text of the group that `Captures::get` returns, of the captures that
/// `Regex::captures` returns.
pub uninterp spec fn regex_captured(pattern: Seq<char>, s: Seq<char>, i: int) -> Option<Seq<char>>;

/// `Regex::is_match` of the regex crate: `None` where `Regex::new` refuses the pattern,
/// else what the search answers. The answer has a name; how the engine searches is not
/// stated.
#[verifier::external_body]
pub(crate) fn is_match(pattern: &str, s: &str) -> (r: Option<bool>)
    ensures
        r is Some == regex_valid(pattern@),
        r is Some ==> r->0 == regex_matches(pattern@, s@),
{
    match regex::Regex::new(pattern) {
        Ok(re) => Some(re.is_match(s)),
        Err(_) => None,
    }
}

/// `Regex::find` of the regex crate: the text of the leftmost match, where there is one.
/// There is one exactly where `Regex::is_match` says so.
#[verifier::external_body]
pub(crate) fn find(pattern: &str, s: &str) -> (r: Option<Option<String>>)
    ensures
        r is Some == regex_valid(pattern@),
        r is Some ==> match r->0 {
            Some(t) => regex_first(pattern@, s@) == Some(t@),
            None => regex_first(pattern@, s@) is None,
        },
        r is Some ==> (r->0 is Some) == regex_matches(pattern@, s@),
{
    match regex::Regex::new(pattern) {
        Ok(re) => Some(re.find(s).map(|m| m.as_str().to_string())),
        Err(_) => None,
    }
}

/// `Regex::find_iter` of the regex crate: the texts of the matches, in order.
#[verifier::external_body]
pub(crate) fn find_all(pattern: &str, s: &str) -> (r: Option<Vec<String>>)
    ensures
        r is Some == regex_valid(pattern@),
        r is Some ==> views(r->0@) == regex_all(pattern@, s@),
{
    match regex::Regex::new(pattern) {
        Ok(re) => Some(re.find_iter(s).map(|m| m.as_str().to_string()).collect()),
        Err(_) => None,
    }
}

/// `Regex::replace_all` of the regex crate: the text with every match replaced, `$1` and
/// `$name` in the replacement standing for groups.
#[verifier::external_body]
pub(crate) fn replace_all(pattern: &str, s: &str, to: &str) -> (r: Option<String>)
    ensures
        r is Some == regex_valid(pattern@),
        r is Some ==> r->0@ == regex_replaced(pattern@, s@, to@),
{
    match regex::Regex::new(pattern) {
        Ok(re) => Some(re.replace_all(s, to).into_owned()),
        Err(_) => None,
    }
}

/// `Regex::captures` and `Captures::get` of the regex crate: the text of the group `i` of
/// the leftmost match, where there is one. Group 0 is the match as a whole.
#[verifier::external_body]
pub(crate) fn captured(pattern: &str, s: &str, i: usize) -> (r: Option<Option<String>>)
    ensures
        r is Some == regex_valid(pattern@),
        r is Some ==> match r->0 {
            Some(t) => regex_captured(pattern@, s@, i as int) == Some(t@),
            None => regex_captured(pattern@, s@, i as int) is None,
        },
        r is Some && i == 0 ==> match r->0 {
            Some(t) => regex_first(pattern@, s@) == Some(t@),
            None => regex_first(pattern@, s@) is None,
        },
{
    match regex::Regex::new(pattern) {
        Ok(re) => Some(re.captures(s).and_then(|c| c.get(i).map(|m| m.as_str().to_string()))),
        Err(_) => None,
    }
}

// ---------- the functions of the run-time library ----------
/// What a search for one text hands over: the text, or nothing.
pub open spec fn found_text(t: Option<Seq<char>>) -> Seq<char> {
    match t {
        Some(s) => c_str(s),
        None => Seq::empty(),
    }
}

/// Hands over what a search for one text found.
pub fn found_string(t: Option<String>) -> (r: String)
    ensures
        r@ == found_text(
            match t {
                Some(s) => Some(s@),
                None => None,
            },
        ),
{
    match t {
        Some(s) => c_string(s.as_str()),
        None => String::new(),
    }
}

/// What a search for all matches hands over.
pub open spec fn found_texts(v: Seq<Seq<char>>) -> Seq<Seq<char>> {
    v.map_values(|s: Seq<char>| c_str(s))
}

/// Hands over the matches that a search found.
pub fn found_strings(v: &Vec<String>) -> (r: Vec<String>)
    ensures
        views(r@) == found_texts(views(v@)),
{
    let mut r: Vec<String> = Vec::new();
    for i in 0..v.len()
        invariant
            r@.len() == i,
            forall|j: int| 0 <= j < i ==> (#[trigger] r@[j])@ == c_str(v@[j]@),
    {
        r.push(c_string(v[i].as_str()));
    }
    assert(views(r@) =~= found_texts(views(v@)));
    r
}

/// The group `i`: no pattern has one below 0 or beyond 32 bits.
pub open spec fn group_text(pattern: Seq<char>, s: Seq<char>, i: i64) -> Option<Seq<char>> {
    if 0 <= i <= u32::MAX {
        regex_captured(pattern, s, i as int)
    } else {
        None
    }
}

/// Whether the pattern matches somewhere in `s`; `None` for a pattern that is refused.
pub fn tie_regex_match(s: &str, pattern: &str) -> (r: Option<bool>)
    ensures
        r is Some <==> regex_valid(pattern@),
        r is Some ==> r->0 == regex_matches(pattern@, s@),
{
    is_match(pattern, s)
}

/// The first match in `s`, or nothing; `None` for a pattern that is refused.
pub fn tie_regex_find(s: &str, pattern: &str) -> (r: Option<String>)
    ensures
        r is Some <==> regex_valid(pattern@),
        r is Some ==> r->0@ == found_text(regex_first(pattern@, s@)),
{
    match find(pattern, s) {
        Some(t) => Some(found_string(t)),
        None => None,
    }
}

/// All matches in `s`; `None` for a pattern that is refused.
pub fn tie_regex_find_all(s: &str, pattern: &str) -> (r: Option<Vec<String>>)
    ensures
        r is Some <==> regex_valid(pattern@),
        r is Some ==> views(r->0@) == found_texts(regex_all(pattern@, s@)),
{
    match find_all(pattern, s) {
        Some(v) => Some(found_strings(&v)),
        None => None,
    }
}

/// `s` with every match replaced by `to`; `None` for a pattern that is refused.
pub fn tie_regex_replace(s: &str, pattern: &str, to: &str) -> (r: Option<String>)
    ensures
        r is Some <==> regex_valid(pattern@),
        r is Some ==> r->0@ == found_text(Some(regex_replaced(pattern@, s@, to@))),
{
    match replace_all(pattern, s, to) {
        Some(t) => Some(found_string(Some(t))),
        None => None,
    }
}

/// The group `i` of the first match in `s`, or nothing; `None` for a pattern that is
/// refused.
pub fn tie_regex_group(s: &str, pattern: &str, i: i64) -> (r: Option<String>)
    ensures
        r is Some <==> regex_valid(pattern@),
        r is Some ==> r->0@ == found_text(group_text(pattern@, s@, i)),
        r is Some && i == 0 ==> r->0@ == found_text(regex_first(pattern@, s@)),
{
    if 0 <= i && i <= 0xffff_ffff {
        match captured(pattern, s, i as usize) {
            Some(t) => Some(found_string(t)),
            None => None,
        }
    } else {
        match is_match(pattern, s) {
            Some(_) => Some(String::new()),
            None => None,
        }
    }
}

} // verus!
