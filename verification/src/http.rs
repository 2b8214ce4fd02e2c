//! Plain HTTP: what a URL asks for, the request, and the body of the answer.
use crate::irtext::{parse_u16, parse_unsigned};
use crate::text::{cat5, chars_of, has_prefix, lit, starts_with, string_of};
use vstd::prelude::*;

verus! {

/// Where a request goes and what it asks for.
#[derive(Debug)]
pub struct Target {
    pub host: String,
    pub port: u16,
    /// The host with the port as the URL writes it.
    pub host_port: String,
    pub path: String,
}

/// What a `Target` is, as characters.
pub struct TargetV {
    pub host: Seq<char>,
    pub port: u16,
    pub host_port: Seq<char>,
    pub path: Seq<char>,
}

impl View for Target {
    type V = TargetV;

    open spec fn view(&self) -> TargetV {
        TargetV {
            host: self.host@,
            port: self.port,
            host_port: self.host_port@,
            path: self.path@,
        }
    }
}

/// The first position of `c` in `s` from `i` on.
pub open spec fn find_char(s: Seq<char>, c: char, i: int) -> Option<int>
    decreases s.len() - i,
{
    if i < 0 || i >= s.len() {
        None
    } else if s[i] == c {
        Some(i)
    } else {
        find_char(s, c, i + 1)
    }
}

/// The port that digits name; anything else means 80.
pub open spec fn port(s: Seq<char>) -> u16 {
    match parse_unsigned(s, u16::MAX as int) {
        Some(n) => n as u16,
        None => 80u16,
    }
}

/// The target of a URL; only `http://` is spoken.
pub open spec fn url_target(url: Seq<char>) -> Option<TargetV> {
    if !starts_with(url, "http://"@) {
        None
    } else {
        let rest = url.skip("http://"@.len() as int);
        let (host_port, path) = match find_char(rest, '/', 0) {
            Some(i) => (rest.take(i), rest.skip(i)),
            None => (rest, "/"@),
        };
        Some(
            match find_char(host_port, ':', 0) {
                Some(i) => TargetV {
                    host: host_port.take(i),
                    port: port(host_port.skip(i + 1)),
                    host_port,
                    path,
                },
                None => TargetV { host: host_port, port: 80, host_port, path },
            },
        )
    }
}

fn find(v: &Vec<char>, c: char) -> (r: Option<usize>)
    ensures
        match r {
            Some(i) => find_char(v@, c, 0) == Some(i as int) && i < v@.len(),
            None => find_char(v@, c, 0) is None,
        },
{
    for i in 0..v.len()
        invariant
            find_char(v@, c, 0) == find_char(v@, c, i as int),
    {
        if v[i] == c {
            return Some(i);
        }
    }
    None
}

/// Takes a URL apart.
pub fn parse_url(url: &str) -> (r: Option<Target>)
    ensures
        match r {
            Some(t) => url_target(url@) == Some(t@),
            None => url_target(url@) is None,
        },
{
    if !has_prefix(url, "http://") {
        return None;
    }
    proof {
        reveal_strlit("http://");
    }
    let all = chars_of(url);
    let rest_text = string_of(&all, 7, all.len());
    assert(rest_text@ =~= url@.skip(7));
    let rest = chars_of(rest_text.as_str());
    let (host_port, path) = match find(&rest, '/') {
        Some(i) => {
            let a = string_of(&rest, 0, i);
            let b = string_of(&rest, i, rest.len());
            assert(a@ =~= rest@.take(i as int));
            assert(b@ =~= rest@.skip(i as int));
            (a, b)
        },
        None => (rest_text, lit("/")),
    };
    let hp = chars_of(host_port.as_str());
    match find(&hp, ':') {
        Some(i) => {
            let host = string_of(&hp, 0, i);
            let digits = string_of(&hp, i + 1, hp.len());
            assert(host@ =~= hp@.take(i as int));
            assert(digits@ =~= hp@.skip(i + 1));
            let port: u16 = match parse_u16(digits.as_str()) {
                Some(n) => n,
                None => 80,
            };
            Some(Target { host, port, host_port, path })
        },
        None => Some(Target { host: host_port.clone(), port: 80, host_port, path }),
    }
}

/// The request for a target.
pub open spec fn request(t: TargetV) -> Seq<char> {
    "GET "@ + t.path + " HTTP/1.1\r\nHost: "@ + t.host_port + "\r\nConnection: close\r\n\r\n"@
}

pub fn request_text(t: &Target) -> (r: String)
    ensures
        r@ == request(t@),
{
    cat5(
        "GET ",
        t.path.as_str(),
        " HTTP/1.1\r\nHost: ",
        t.host_port.as_str(),
        "\r\nConnection: close\r\n\r\n",
    )
}

/// The bytes with which a good answer starts: the protocol's version and the code 200.
pub open spec fn good_start(minor: u8) -> Seq<u8> {
    seq![72u8, 84u8, 84u8, 80u8, 47u8, 49u8, 46u8, minor, 32u8, 50u8, 48u8, 48u8]
}

/// Whether an answer reports success.
pub open spec fn good(resp: Seq<u8>) -> bool {
    resp.len() >= 12 && (resp.take(12) == good_start(49) || resp.take(12) == good_start(48))
}

/// Whether an empty line ends at `i + 4`.
pub open spec fn blank_line(resp: Seq<u8>, i: int) -> bool {
    0 <= i && i + 4 <= resp.len() && resp[i] == 13 && resp[i + 1] == 10 && resp[i + 2] == 13
        && resp[i + 3] == 10
}

/// The first empty line from `i` on.
pub open spec fn find_blank_line(resp: Seq<u8>, i: int) -> Option<int>
    decreases resp.len() - i,
{
    if i < 0 || i >= resp.len() {
        None
    } else if blank_line(resp, i) {
        Some(i)
    } else {
        find_blank_line(resp, i + 1)
    }
}

/// The body of an answer: the bytes behind the first empty line, where the answer reports
/// success.
pub open spec fn body(resp: Seq<u8>) -> Option<Seq<u8>> {
    if !good(resp) {
        None
    } else {
        match find_blank_line(resp, 0) {
            Some(i) => Some(resp.skip(i + 4)),
            None => None,
        }
    }
}

fn is_good(resp: &Vec<u8>) -> (r: bool)
    ensures
        r == good(resp@),
{
    if resp.len() < 12 {
        return false;
    }
    let minor: u8 = resp[7];
    let ok = resp[0] == 72 && resp[1] == 84 && resp[2] == 84 && resp[3] == 80 && resp[4] == 47
        && resp[5] == 49 && resp[6] == 46 && (minor == 49 || minor == 48) && resp[8] == 32
        && resp[9] == 50 && resp[10] == 48 && resp[11] == 48;
    proof {
        let head = resp@.take(12);
        if ok {
            assert(head =~= good_start(minor));
        } else {
            if head == good_start(49) {
                assert(head[0] == 72 && head[1] == 84 && head[2] == 84 && head[3] == 80 && head[4]
                    == 47 && head[5] == 49 && head[6] == 46 && head[7] == 49 && head[8] == 32
                    && head[9] == 50 && head[10] == 48 && head[11] == 48);
            }
            if head == good_start(48) {
                assert(head[0] == 72 && head[1] == 84 && head[2] == 84 && head[3] == 80 && head[4]
                    == 47 && head[5] == 49 && head[6] == 46 && head[7] == 48 && head[8] == 32
                    && head[9] == 50 && head[10] == 48 && head[11] == 48);
            }
        }
    }
    ok
}

/// The body of an answer.
pub fn http_body(resp: &Vec<u8>) -> (r: Option<Vec<u8>>)
    ensures
        match r {
            Some(b) => body(resp@) == Some(b@),
            None => body(resp@) is None,
        },
{
    if !is_good(resp) {
        return None;
    }
    let n: usize = resp.len();
    let mut i: usize = 0;
    while i < n
        invariant
            n == resp@.len(),
            i <= n,
            good(resp@),
            find_blank_line(resp@, 0) == find_blank_line(resp@, i as int),
        decreases n - i,
    {
        if n - i >= 4 && resp[i] == 13 && resp[i + 1] == 10 && resp[i + 2] == 13 && resp[i + 3]
            == 10 {
            let mut out: Vec<u8> = Vec::new();
            let mut k: usize = i + 4;
            assert(out@ =~= resp@.subrange(i + 4, k as int));
            while k < n
                invariant
                    n == resp@.len(),
                    i + 4 <= k <= n,
                    out@ == resp@.subrange(i + 4, k as int),
                decreases n - k,
            {
                out.push(resp[k]);
                assert(out@ =~= resp@.subrange(i + 4, k + 1));
                k = k + 1;
            }
            assert(out@ =~= resp@.skip(i + 4));
            return Some(out);
        }
        i = i + 1;
    }
    None
}

// ---------- laws ----------
/// What a server sends behind its header comes back byte for byte.
pub proof fn law_body_comes_back(head: Seq<u8>, payload: Seq<u8>)
    requires
        good(head),
        forall|i: int| !blank_line(head + seq![13u8, 10u8, 13u8], i),
    ensures
        body(head + seq![13u8, 10u8, 13u8, 10u8] + payload) == Some(payload),
{
    let resp = head + seq![13u8, 10u8, 13u8, 10u8] + payload;
    assert(resp.take(12) =~= head.take(12));
    lemma_first_blank(resp, head, payload, 0);
    assert(resp.skip(head.len() as int + 4) =~= payload);
}

proof fn lemma_first_blank(resp: Seq<u8>, head: Seq<u8>, payload: Seq<u8>, i: int)
    requires
        resp == head + seq![13u8, 10u8, 13u8, 10u8] + payload,
        forall|i: int| !blank_line(head + seq![13u8, 10u8, 13u8], i),
        0 <= i <= head.len(),
    ensures
        find_blank_line(resp, i) == Some(head.len() as int),
    decreases head.len() - i,
{
    if i < head.len() {
        let part = head + seq![13u8, 10u8, 13u8];
        assert(!blank_line(part, i));
        assert(forall|k: int| 0 <= k < part.len() ==> part[k] == resp[k]);
        assert(!blank_line(resp, i));
        lemma_first_blank(resp, head, payload, i + 1);
    } else {
        assert(blank_line(resp, i));
    }
}

} // verus!
