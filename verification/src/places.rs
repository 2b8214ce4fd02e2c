//! How paths fall into directories and names, and what a URL asks for.
use crate::http::{find_char, port, request, url_target, TargetV};
use crate::irtext::parse_unsigned;
use crate::numbering::at;
use crate::paths::{
    basename, body, dirname, file_name, joined, last_part, lead, part_start, rooted, separator,
    trimmed_end, Lead, Style,
};
use crate::text::{all_digits, digits_value, is_digit, lemma_nat_dec_value, nat_dec, starts_with};
use vstd::prelude::*;

verus! {

// ---------- paths ----------
/// Whether a text is the name of a file or a directory on Unix.
pub open spec fn is_name(s: Seq<char>) -> bool {
    &&& s.len() > 0
    &&& s != "."@ && s != ".."@
    &&& forall|i: int| 0 <= i < s.len() ==> #[trigger] s[i] != '/'
}

/// Whether a path ends with the name of something: not with a separator or the part `.`.
pub open spec fn ends_in_name(s: Seq<char>) -> bool {
    &&& s.len() > 0
    &&& s.last() != '/'
    &&& !(s.last() == '.' && (s.len() == 1 || s[s.len() - 2] == '/'))
}

proof fn lemma_part_start(s: Seq<char>, e: int, b: int, lo: int)
    requires
        0 <= lo <= b <= e <= s.len(),
        0 < b,
        s[b - 1] == '/',
        forall|i: int| b <= i < e ==> #[trigger] s[i] != '/',
    ensures
        part_start(s, e, lo, Style::Unix) == b,
    decreases e,
{
    if e > b {
        lemma_part_start(s, e - 1, b, lo);
    }
}

/// Read as on Unix, a name in a directory is the directory, a separator and the name; the two are
/// found again in the path.
pub proof fn law_directories_and_names(dir: Seq<char>, name: Seq<char>)
    requires
        is_name(name),
        ends_in_name(dir),
    ensures
        joined(dir, name, false) == dir + "/"@ + name,
        basename(joined(dir, name, false), false) == name,
        dirname(joined(dir, name, false), false) == dir,
{
    reveal_strlit("/");
    reveal_strlit(".");
    reveal_strlit("..");
    let s = dir + "/"@ + name;
    let b = dir.len() as int + 1;
    let n = s.len() as int;
    assert(dir.take(0) =~= Seq::<char>::empty());
    assert(name[0] != '/');
    assert(!rooted(name, false));
    assert(joined(dir, name, false) == s);
    let lo = body(s, false);
    assert(s[0] == dir[0]);
    assert(s[b - 1] == '/');
    assert(s.subrange(b, n) =~= name);
    assert forall|i: int| b <= i < n implies #[trigger] s[i] != '/' by {
        assert(s[i] == name[i - b]);
    }
    assert(s[n - 1] == name.last());
    if s[n - 1] == '.' && (n - 1 == lo || s[n - 2] == '/') {
        if name.len() > 1 {
            assert(s[n - 2] == name[name.len() - 2]);
        } else {
            assert(name =~= "."@);
        }
    }
    assert(trimmed_end(s, n, lo, Style::Unix) == n);
    lemma_part_start(s, n, b, lo);
    assert(last_part(s, false) == Some((b, n)));
    assert(file_name(s, false) == Some((b, n)));
    assert(trimmed_end(s, b, lo, Style::Unix) == trimmed_end(s, b - 1, lo, Style::Unix));
    assert(s[b - 2] == dir.last());
    if dir.len() > 1 {
        assert(s[b - 3] == dir[dir.len() - 2]);
        assert(s[1] == dir[1]);
    }
    assert(lo < dir.len()) by {
        if dir.len() == 1 {
            assert(s[0] == dir.last());
        }
    }
    assert(trimmed_end(s, b - 1, lo, Style::Unix) == dir.len());
    assert(s.take(dir.len() as int) =~= dir);
}

/// A path from the root stands for itself; behind nothing, or behind a separator, nothing is put
/// between.
pub proof fn law_joining(a: Seq<char>, b: Seq<char>)
    ensures
        b.len() > 0 && b[0] == '/' ==> joined(a, b, false) == b,
        joined(Seq::empty(), b, false) == b,
        a.len() > 0 && a.last() == '/' && !(b.len() > 0 && b[0] == '/') ==> joined(a, b, false) == a
            + b,
{
    assert(a.take(0) + b =~= b);
    assert(Seq::<char>::empty() + b =~= b);
    assert(Seq::<char>::empty().take(0) + b =~= b);
}

/// On Windows the backslash is put between.
pub proof fn law_joining_on_windows(a: Seq<char>, b: Seq<char>)
    requires
        lead(a, true).1 == Lead::Nothing,
        lead(b, true).1 == Lead::Nothing,
        a.len() > 0,
        a.last() != '/' && a.last() != '\\',
        b.len() > 0,
        b[0] != '/' && b[0] != '\\',
    ensures
        joined(a, b, true) == a + "\\"@ + b,
        lead(a, true).0 == 0 ==> joined(a, "\\"@ + b, true) == "\\"@ + b || lead("\\"@ + b, true).1
            != Lead::Nothing,
{
    reveal_strlit("\\");
    let c = "\\"@ + b;
    assert(c[0] == '\\');
    assert(a.take(0) + c =~= c);
}

// ---------- URLs ----------
proof fn lemma_find_char(s: Seq<char>, c: char, i: int, n: int)
    requires
        0 <= i <= n <= s.len(),
        n < s.len() ==> s[n] == c,
        forall|j: int| i <= j < n ==> #[trigger] s[j] != c,
    ensures
        find_char(s, c, i) == if n < s.len() {
            Some(n)
        } else {
            None::<int>
        },
    decreases n - i,
{
    if i < n {
        lemma_find_char(s, c, i + 1, n);
    }
}

/// Whether a text is the name of a host.
pub open spec fn is_host(s: Seq<char>) -> bool {
    forall|i: int| 0 <= i < s.len() ==> #[trigger] s[i] != '/' && s[i] != ':'
}

/// A URL names the host, the port where it writes one, and what is asked of the host; without a
/// port it is that of the protocol, without a path the root.
pub proof fn law_urls(host: Seq<char>, p: u16, path: Seq<char>)
    requires
        is_host(host),
        path.len() > 0 && path[0] == '/',
    ensures
        url_target("http://"@ + host + path) == Some(
            TargetV { host, port: 80, host_port: host, path },
        ),
        url_target("http://"@ + host) == Some(
            TargetV { host, port: 80, host_port: host, path: "/"@ },
        ),
        url_target("http://"@ + (host + ":"@ + nat_dec(p as nat)) + path) == Some(
            TargetV { host, port: p, host_port: host + ":"@ + nat_dec(p as nat), path },
        ),
{
    reveal_strlit("http://");
    reveal_strlit(":");
    lemma_target(host, path);
    lemma_nat_dec_value(p as nat);
    let d = nat_dec(p as nat);
    let hp = host + ":"@ + d;
    assert forall|i: int| 0 <= i < hp.len() implies #[trigger] hp[i] != '/' by {
        if i > host.len() {
            assert(hp[i] == d[i - host.len() - 1]);
            assert(is_digit(d[i - host.len() - 1]));
        }
    }
    lemma_rest(hp, path);
    lemma_find_char(hp, ':', 0, host.len() as int);
    assert(hp.take(host.len() as int) =~= host);
    assert(hp.skip(host.len() as int + 1) =~= d);
    lemma_first_is_no_sign(d);
    assert(port(d) == p);
}

proof fn lemma_first_is_no_sign(d: Seq<char>)
    requires
        d.len() > 0,
        all_digits(d),
        0 <= digits_value(d) <= u16::MAX,
    ensures
        parse_unsigned(d, u16::MAX as int) == Some(digits_value(d) as int),
{
    assert(is_digit(d[0]));
}

proof fn lemma_rest(hp: Seq<char>, path: Seq<char>)
    requires
        forall|i: int| 0 <= i < hp.len() ==> #[trigger] hp[i] != '/',
        path.len() > 0 && path[0] == '/',
    ensures
        starts_with("http://"@ + hp + path, "http://"@),
        ("http://"@ + hp + path).skip("http://"@.len() as int) == hp + path,
        find_char(hp + path, '/', 0) == Some(hp.len() as int),
        (hp + path).take(hp.len() as int) == hp,
        (hp + path).skip(hp.len() as int) == path,
{
    let url = "http://"@ + hp + path;
    let n = "http://"@.len() as int;
    assert(url.take(n) =~= "http://"@);
    assert(url.subrange(0, n) =~= "http://"@);
    assert(url.skip(n) =~= hp + path);
    lemma_find_char(hp + path, '/', 0, hp.len() as int);
    assert((hp + path).take(hp.len() as int) =~= hp);
    assert((hp + path).skip(hp.len() as int) =~= path);
}

proof fn lemma_target(host: Seq<char>, path: Seq<char>)
    requires
        is_host(host),
        path.len() > 0 && path[0] == '/',
    ensures
        url_target("http://"@ + host + path) == Some(
            TargetV { host, port: 80, host_port: host, path },
        ),
        url_target("http://"@ + host) == Some(
            TargetV { host, port: 80, host_port: host, path: "/"@ },
        ),
{
    lemma_rest(host, path);
    lemma_find_char(host, ':', 0, host.len() as int);
    let url = "http://"@ + host;
    let n = "http://"@.len() as int;
    assert(url.take(n) =~= "http://"@);
    assert(url.subrange(0, n) =~= "http://"@);
    assert(url.skip(n) =~= host);
    lemma_find_char(host, '/', 0, host.len() as int);
}

/// No other protocol is spoken.
pub proof fn law_other_protocols(url: Seq<char>)
    requires
        !starts_with(url, "http://"@),
    ensures
        url_target(url) is None,
{
}

/// A request asks for the path, and names the host as the URL does.
pub proof fn law_requests(t: TargetV)
    ensures
        at(request(t), 0, "GET "@ + t.path + " HTTP/1.1\r\n"@),
        at(
            request(t),
            ("GET "@ + t.path + " HTTP/1.1\r\n"@).len() as int,
            "Host: "@ + t.host_port + "\r\n"@,
        ),
{
    reveal_strlit(" HTTP/1.1\r\nHost: ");
    reveal_strlit(" HTTP/1.1\r\n");
    reveal_strlit("Host: ");
    reveal_strlit("\r\nConnection: close\r\n\r\n");
    reveal_strlit("\r\n");
    let r = request(t);
    let first = "GET "@ + t.path + " HTTP/1.1\r\n"@;
    let second = "Host: "@ + t.host_port + "\r\n"@;
    let third = "\r\nConnection: close\r\n\r\n"@.skip(2);
    assert(" HTTP/1.1\r\nHost: "@ =~= " HTTP/1.1\r\n"@ + "Host: "@);
    assert("\r\nConnection: close\r\n\r\n"@ =~= "\r\n"@ + third);
    assert(r =~= first + second + third);
    assert(r.subrange(0, first.len() as int) =~= first);
    assert(r.subrange(first.len() as int, (first.len() + second.len()) as int) =~= second);
}

} // verus!
