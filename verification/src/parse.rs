//! Parsing the proxy-server string the operating system persists.
//!
//! The accepted forms are `host:port` and the legacy multi-protocol form
//! `proto1=host1:port1;proto2=host2:port2;...`. Parsing never fails: an
//! address that fits no known shape degrades to the whole string as the host
//! with port 80.

use vstd::prelude::*;
use vstd::string::{StrSliceExecFns, StringExecFns};

use crate::digits::{append_dec, dec_digits, is_digit, parse_u16_str, parses_u16, u16_value};
use crate::text::{
    find_first, find_first_str, find_last, find_last_str, first_non_space, lemma_find_first,
    lemma_find_last, skip_spaces, split_on, split_str,
};

verus! {

/// What `url::Url::parse` extracts from an address once an `http` scheme is
/// prefixed: `None` when the prefixed string is no valid URL, otherwise the
/// URL's host text (if it has one) and its explicit port (if it names one).
/// The outcome depends on the address characters alone.
pub uninterp spec fn url_split(s: Seq<char>) -> Option<(Option<Seq<char>>, Option<u16>)>;

/// The view of an optional host string.
pub open spec fn host_view(h: Option<String>) -> Option<Seq<char>> {
    match h {
        Some(s) => Some(s@),
        None => None,
    }
}

/// Relies on `url::Url::parse` (crate `url`): parsing `http://` followed by
/// the address either fails or yields a URL whose host and explicit port are
/// returned; the result is a function of the address alone.
#[verifier::external_body]
fn url_host_port(address: &str) -> (r: Option<(Option<String>, Option<u16>)>)
    ensures
        match r {
            Some(hp) => url_split(address@) == Some((host_view(hp.0), hp.1)),
            None => url_split(address@) is None,
        },
{
    match url::Url::parse(format!("http://{}", address).as_str()) {
        Ok(u) => Some((u.host_str().map(|h| h.to_string()), u.port())),
        Err(_) => None,
    }
}

/// The host and port an address denotes: the text before the last `:` with
/// the port after it when that port is a 16-bit number; else what a URL parse
/// extracts, the port defaulting to 80 and a missing host to empty; else the
/// whole address as the host with port 80.
pub open spec fn spec_parse_addr(s: Seq<char>) -> (Seq<char>, u16) {
    let i = find_last(s, ':');
    if i >= 0 && parses_u16(s.skip(i + 1)) {
        (s.take(i), u16_value(s.skip(i + 1)))
    } else {
        match url_split(s) {
            Some(hp) => (
                match hp.0 {
                    Some(h) => h,
                    None => Seq::empty(),
                },
                match hp.1 {
                    Some(p) => p,
                    None => 80,
                },
            ),
            None => (s, 80),
        }
    }
}

/// Whether a segment of the multi-protocol form carries the `http` key:
/// after leading whitespace it starts with `http=`, case-insensitively.
pub open spec fn has_http_key(seg: Seq<char>) -> bool {
    let t = skip_spaces(seg);
    &&& t.len() >= 5
    &&& (t[0] == 'h' || t[0] == 'H')
    &&& (t[1] == 't' || t[1] == 'T')
    &&& (t[2] == 't' || t[2] == 'T')
    &&& (t[3] == 'p' || t[3] == 'P')
    &&& t[4] == '='
}

/// Index of the first segment carrying the `http` key, or `parts.len()` when
/// none does.
pub open spec fn first_http_index(parts: Seq<Seq<char>>) -> int
    decreases parts.len(),
{
    if parts.len() == 0 {
        0
    } else if has_http_key(parts[0]) {
        0
    } else {
        1 + first_http_index(parts.drop_first())
    }
}

pub proof fn lemma_first_http_index(parts: Seq<Seq<char>>)
    ensures
        0 <= first_http_index(parts) <= parts.len(),
        first_http_index(parts) < parts.len() ==> has_http_key(
            parts[first_http_index(parts)],
        ),
        forall|j: int| 0 <= j < first_http_index(parts) ==> !has_http_key(#[trigger] parts[j]),
    decreases parts.len(),
{
    if parts.len() > 0 && !has_http_key(parts[0]) {
        lemma_first_http_index(parts.drop_first());
        assert forall|j: int| 0 <= j < first_http_index(parts) implies !has_http_key(
            #[trigger] parts[j],
        ) by {
            if j > 0 {
                assert(parts.drop_first()[j - 1] == parts[j]);
            }
        }
        if first_http_index(parts) < parts.len() {
            assert(parts.drop_first()[first_http_index(parts) - 1]
                == parts[first_http_index(parts)]);
        }
    }
}

/// The text between the first `=` of a segment and its next `=` or end;
/// empty when the segment has no `=`.
pub open spec fn value_after_eq(seg: Seq<char>) -> Seq<char> {
    let parts = split_on(seg, '=');
    if parts.len() >= 2 {
        parts[1]
    } else {
        Seq::empty()
    }
}

/// The segment of the multi-protocol form that is read: the first with the
/// `http` key, else the first segment.
pub open spec fn chosen_segment(s: Seq<char>) -> Seq<char> {
    let parts = split_on(s, ';');
    if first_http_index(parts) < parts.len() {
        parts[first_http_index(parts)]
    } else {
        parts[0]
    }
}

/// The host and port the whole persisted proxy-server string denotes. A
/// string with an `=` is the legacy multi-protocol form: it is split on `;`,
/// one segment is chosen, and the value after that segment's `=` is read as
/// an address; any other string is read as an address directly.
pub open spec fn spec_parse_server(s: Seq<char>) -> (Seq<char>, u16) {
    if s.contains('=') {
        spec_parse_addr(value_after_eq(chosen_segment(s)))
    } else {
        spec_parse_addr(s)
    }
}

/// Whether a segment carries the `http` key.
fn has_http_key_str(seg: &str) -> (r: bool)
    ensures
        r == has_http_key(seg@),
{
    let n = seg.unicode_len();
    let k = first_non_space(seg);
    let ghost t = skip_spaces(seg@);
    if n - k >= 5 {
        assert(t.len() == n - k);
        let c0 = seg.get_char(k);
        let c1 = seg.get_char(k + 1);
        let c2 = seg.get_char(k + 2);
        let c3 = seg.get_char(k + 3);
        let c4 = seg.get_char(k + 4);
        assert(t[0] == seg@[k as int] && t[1] == seg@[k + 1] && t[2] == seg@[k + 2] && t[3]
            == seg@[k + 3] && t[4] == seg@[k + 4]);
        (c0 == 'h' || c0 == 'H') && (c1 == 't' || c1 == 'T') && (c2 == 't' || c2 == 'T') && (c3
            == 'p' || c3 == 'P') && c4 == '='
    } else {
        false
    }
}

/// Reads one address (no multi-protocol handling) as host and port.
pub fn parse_proxy_address(address: &str) -> (r: (String, u16))
    ensures
        (r.0@, r.1) == spec_parse_addr(address@),
{
    let n = address.unicode_len();
    proof {
        lemma_find_last(address@, ':');
    }
    match find_last_str(address, ':') {
        Some(i) => {
            let suffix = address.substring_char(i + 1, n);
            assert(suffix@ =~= address@.skip(i + 1));
            match parse_u16_str(suffix) {
                Some(p) => {
                    let host = address.substring_char(0, i).to_owned();
                    assert(host@ =~= address@.take(i as int));
                    return (host, p);
                },
                None => {},
            }
        },
        None => {},
    }
    match url_host_port(address) {
        Some(hp) => {
            let host = match hp.0 {
                Some(h) => h,
                None => String::new(),
            };
            let port = match hp.1 {
                Some(p) => p,
                None => 80,
            };
            (host, port)
        },
        None => (address.to_owned(), 80),
    }
}

/// Reads the whole persisted proxy-server string as host and port.
pub fn parse_server(raw: &str) -> (r: (String, u16))
    ensures
        (r.0@, r.1) == spec_parse_server(raw@),
{
    proof {
        lemma_find_first(raw@, '=');
    }
    match find_first_str(raw, '=') {
        None => parse_proxy_address(raw),
        Some(_) => {
            let parts = split_str(raw, ';');
            let ghost sparts = split_on(raw@, ';');
            assert(sparts.len() >= 1);
            let m = parts.len();
            let mut i: usize = 0;
            let mut idx: usize = 0;
            let mut found: bool = false;
            while i < m
                invariant
                    m == parts@.len(),
                    m == sparts.len(),
                    forall|k: int| 0 <= k < m ==> (#[trigger] parts@[k])@ == sparts[k],
                    i <= m,
                    !found ==> idx == 0,
                    !found ==> forall|j: int| 0 <= j < i ==> !has_http_key(#[trigger] sparts[j]),
                    found ==> idx < i && has_http_key(sparts[idx as int]) && forall|j: int|
                        0 <= j < idx ==> !has_http_key(#[trigger] sparts[j]),
                decreases m - i,
            {
                if !found {
                    if has_http_key_str(parts[i].as_str()) {
                        found = true;
                        idx = i;
                    }
                }
                i += 1;
            }
            proof {
                lemma_first_http_index(sparts);
                if found {
                    assert(first_http_index(sparts) == idx as int);
                } else {
                    assert(first_http_index(sparts) == m as int);
                }
            }
            let seg: &String = if found {
                &parts[idx]
            } else {
                &parts[0]
            };
            assert(seg@ == chosen_segment(raw@));
            let eq_parts = split_str(seg.as_str(), '=');
            let value: String = if eq_parts.len() >= 2 {
                eq_parts[1].clone()
            } else {
                String::new()
            };
            assert(value@ == value_after_eq(seg@));
            parse_proxy_address(value.as_str())
        },
    }
}

/// The server string written for a manual proxy: `host:port` with the port
/// in decimal.
pub open spec fn host_port_seq(host: Seq<char>, port: nat) -> Seq<char> {
    host + seq![':'] + dec_digits(port)
}

/// Writes `host:port` with the port in decimal.
pub fn format_host_port(host: &str, port: u16) -> (r: String)
    ensures
        r@ == host_port_seq(host@, port as nat),
{
    let mut out = host.to_owned();
    proof {
        reveal_strlit(":");
    }
    out.append(":");
    assert(out@ =~= host@ + seq![':']);
    append_dec(&mut out, port);
    out
}

/// Parsing reconstructs a written server string: for any host without an
/// `=` and any port, the text `host:port` parses back to exactly that host
/// and port. (A host containing `=` would be read as the legacy
/// multi-protocol form instead.)
pub proof fn lemma_parse_formats_back(host: Seq<char>, port: u16)
    requires
        !host.contains('='),
    ensures
        spec_parse_server(host_port_seq(host, port as nat)) == (host, port),
{
    let d = dec_digits(port as nat);
    let s = host_port_seq(host, port as nat);
    crate::digits::lemma_dec_digits(port as nat);
    assert forall|j: int| 0 <= j < s.len() implies s[j] != '=' by {
        if j < host.len() {
            assert(s[j] == host[j]);
            assert(host.contains(host[j])) by {
                assert(host[j] == host[j]);
            }
        } else if j == host.len() {
            assert(s[j] == ':');
        } else {
            assert(s[j] == d[j - host.len() - 1]);
            assert(is_digit(d[j - host.len() - 1]));
        }
    }
    assert(!s.contains('='));
    lemma_find_last(s, ':');
    let i = find_last(s, ':');
    assert(s[host.len() as int] == ':');
    assert(s.contains(':')) by {
        assert(s[host.len() as int] == ':');
    }
    assert(i >= 0);
    assert forall|j: int| host.len() < j < s.len() implies s[j] != ':' by {
        assert(s[j] == d[j - host.len() - 1]);
        assert(is_digit(d[j - host.len() - 1]));
    }
    assert(i == host.len()) by {
        if i > host.len() {
            assert(s[i] != ':');
        }
        if i < host.len() {
            assert(s[host.len() as int] != ':');
        }
    }
    assert(s.skip(i + 1) =~= d);
    assert(s.take(i) =~= host);
    assert(d.len() > 0 && d[0] != '+');
    assert(parses_u16(d));
    assert(u16_value(d) == port);
}

} // verus!
