//! Endpoint URLs: splitting `scheme://host:port/..` into its parts and
//! writing the parts back.
use vstd::prelude::*;

use crate::text::{
    chars_of, find, find_authority_end, find_last, parse_i64, signed_decimal_text, string_between,
};

verus! {

/// The parts of an endpoint URL that the registries speak of.
#[derive(Debug, PartialEq)]
pub struct Endpoint {
    /// The text before `://`.
    pub scheme: String,
    /// The authority part up to its last colon.
    pub host: String,
    /// The number after that colon, or 0.
    pub port: i64,
}

/// What an [`Endpoint`] holds.
pub struct EndpointView {
    pub scheme: Seq<char>,
    pub host: Seq<char>,
    pub port: int,
}

impl View for Endpoint {
    type V = EndpointView;

    open spec fn view(&self) -> EndpointView {
        EndpointView { scheme: self.scheme@, host: self.host@, port: self.port as int }
    }
}

/// Host and port of an authority: the port is what follows the last colon,
/// 0 where that is no number or there is no colon.
pub open spec fn host_and_port(authority: Seq<char>) -> (Seq<char>, int) {
    match crate::text::last_index(authority, ':', authority.len() as int) {
        Some(colon) => (
            authority.subrange(0, colon),
            match crate::text::parsed_i64(authority.skip(colon + 1)) {
                Some(port) => port,
                None => 0,
            },
        ),
        None => (authority, 0),
    }
}

/// The parts of an endpoint URL; nothing where it holds no `://`. What
/// follows the authority (a path, a query, a fragment) is dropped.
pub open spec fn endpoint_parts(endpoint: Seq<char>) -> Option<EndpointView> {
    match crate::text::find_from(endpoint, "://"@, 0) {
        None => None,
        Some(at) => {
            let start = at + 3;
            let end = crate::text::authority_end(endpoint, start);
            let (host, port) = host_and_port(endpoint.subrange(start, end));
            Some(EndpointView { scheme: endpoint.subrange(0, at), host, port })
        },
    }
}

/// Splits an endpoint URL into scheme, host and port.
pub fn split_endpoint(endpoint: &str) -> (r: Option<Endpoint>)
    ensures
        match r {
            Some(e) => endpoint_parts(endpoint@) == Some(e@),
            None => endpoint_parts(endpoint@) is None,
        },
{
    proof {
        reveal_strlit("://");
    }
    let chars = chars_of(endpoint);
    let mark = chars_of("://");
    let found = find(&chars, &mark, 0);
    match found {
        None => None,
        Some(at) => {
            assert(at + 3 <= chars.len());
            let start: usize = at + 3;
            let end: usize = find_authority_end(&chars, start);
            let ghost authority = chars@.subrange(start as int, end as int);
            let scheme = string_between(&chars, 0, at);
            match find_last(&chars, ':', start, end) {
                Some(colon) => {
                    let host = string_between(&chars, start, colon);
                    assert(host@ =~= authority.subrange(0, colon - start));
                    assert(authority.skip(colon - start + 1) =~= chars@.subrange(
                        colon + 1,
                        end as int,
                    ));
                    let port: i64 = match parse_i64(&chars, colon + 1, end) {
                        Some(port) => port,
                        None => 0,
                    };
                    Some(Endpoint { scheme, host, port })
                },
                None => {
                    let host = string_between(&chars, start, end);
                    Some(Endpoint { scheme, host, port: 0 })
                },
            }
        },
    }
}

/// Every endpoint is a URL.
pub open spec fn all_urls(endpoints: Seq<Seq<char>>) -> bool {
    forall|i: int|
        0 <= i < endpoints.len()
            ==> endpoint_parts(#[trigger] endpoints[i]) is Some
}

/// The first endpoint that is no URL.
pub open spec fn first_bad(endpoints: Seq<Seq<char>>) -> Seq<char>
    decreases endpoints.len(),
{
    if endpoints.len() == 0 {
        Seq::empty()
    } else if endpoint_parts(endpoints[0]) is None {
        endpoints[0]
    } else {
        first_bad(endpoints.skip(1))
    }
}

/// The first endpoint that is no URL is the one before which all are.
pub(crate) proof fn lemma_first_bad(endpoints: Seq<Seq<char>>, at: int)
    requires
        0 <= at < endpoints.len(),
        endpoint_parts(endpoints[at]) is None,
        forall|i: int|
            0 <= i < at ==> endpoint_parts(
                #[trigger] endpoints[i],
            ) is Some,
    ensures
        first_bad(endpoints) == endpoints[at],
    decreases at,
{
    if at > 0 {
        assert forall|i: int| 0 <= i < at - 1 implies endpoint_parts(
            #[trigger] endpoints.skip(1)[i],
        ) is Some by {
            assert(endpoints.skip(1)[i] == endpoints[i + 1]);
        }
        assert(endpoints.skip(1)[at - 1] == endpoints[at]);
        lemma_first_bad(endpoints.skip(1), at - 1);
    }
}

/// The text `host:port`.
pub open spec fn host_port_text(host: Seq<char>, port: int) -> Seq<char> {
    host + ":"@ + crate::text::signed_decimal(port)
}

/// Writes `host:port`.
pub fn host_port(host: &str, port: i64) -> (s: String)
    ensures
        s@ == host_port_text(host@, port as int),
{
    let mut s: String = host.to_owned();
    s.append(":");
    s.append(signed_decimal_text(port).as_str());
    s
}

/// The text `scheme://host:port`.
pub open spec fn endpoint_text(scheme: Seq<char>, host: Seq<char>, port: int) -> Seq<char> {
    scheme + "://"@ + host_port_text(host, port)
}

/// Writes `scheme://host:port`.
pub fn endpoint_url(scheme: &str, host: &str, port: i64) -> (s: String)
    ensures
        s@ == endpoint_text(scheme@, host@, port as int),
{
    let mut s: String = scheme.to_owned();
    s.append("://");
    s.append(host_port(host, port).as_str());
    s
}

proof fn lemma_first_mark(s: Seq<char>, at: int, from: int)
    requires
        0 <= from <= at,
        crate::text::occurs_at(s, "://"@, at),
        forall|i: int| 0 <= i < at ==> s[i] != ':',
    ensures
        crate::text::find_from(s, "://"@, from) == Some(at),
    decreases at - from,
{
    reveal_strlit("://");
    if from < at {
        assert(s.subrange(from, from + 3)[0] != "://"@[0]);
        lemma_first_mark(s, at, from + 1);
    }
}

proof fn lemma_authority_end(s: Seq<char>, from: int)
    requires
        0 <= from <= s.len(),
        forall|i: int| from <= i < s.len() ==> s[i] != '/' && s[i] != '?' && s[i] != '#',
    ensures
        crate::text::authority_end(s, from) == s.len(),
    decreases s.len() - from,
{
    if from < s.len() {
        lemma_authority_end(s, from + 1);
    }
}

proof fn lemma_last_colon(s: Seq<char>, colon: int, to: int)
    requires
        0 <= colon < to <= s.len(),
        s[colon] == ':',
        forall|i: int| colon < i < to ==> s[i] != ':',
    ensures
        crate::text::last_index(s, ':', to) == Some(colon),
    decreases to,
{
    if to - 1 > colon {
        lemma_last_colon(s, colon, to - 1);
    }
}

/// Splitting a written endpoint gives its parts back, for every scheme
/// without a colon, every host without `/`, `?` and `#`, and every port.
pub proof fn endpoint_reads_back(scheme: Seq<char>, host: Seq<char>, port: i64)
    requires
        !scheme.contains(':'),
        !host.contains('/'),
        !host.contains('?'),
        !host.contains('#'),
    ensures
        endpoint_parts(endpoint_text(scheme, host, port as int)) == Some(
            EndpointView { scheme, host, port: port as int },
        ),
{
    reveal_strlit("://");
    reveal_strlit(":");
    let number = crate::text::signed_decimal(port as int);
    let authority = host_port_text(host, port as int);
    let s = endpoint_text(scheme, host, port as int);
    let at = scheme.len() as int;
    let start = at + 3;
    crate::text::number_reads_back(port);
    crate::text::number_is_plain(port);
    assert(s.subrange(at, at + 3) =~= "://"@);
    assert forall|i: int| 0 <= i < at implies s[i] != ':' by {
        assert(s[i] == scheme[i]);
        assert(scheme.contains(scheme[i]));
    }
    lemma_first_mark(s, at, 0);
    assert(s.subrange(0, at) =~= scheme);
    assert(s.subrange(start, s.len() as int) =~= authority);
    assert forall|i: int| start <= i < s.len() implies s[i] != '/' && s[i] != '?'
        && s[i] != '#' by {
        let k = i - start;
        assert(s[i] == authority[k]);
        if k < host.len() {
            assert(authority[k] == host[k]);
            assert(host.contains(host[k]));
        } else if k > host.len() {
            assert(authority[k] == number[k - host.len() - 1]);
        }
    }
    lemma_authority_end(s, start);
    let colon = host.len() as int;
    assert forall|i: int| colon < i < authority.len() implies authority[i] != ':' by {
        assert(authority[i] == number[i - colon - 1]);
    }
    lemma_last_colon(authority, colon, authority.len() as int);
    assert(authority.subrange(0, colon) =~= host);
    assert(authority.skip(colon + 1) =~= number);
}

/// The scheme is what stands before `://`, and the authority what stands
/// between that and the first `/`, `?` or `#`; what follows changes nothing.
pub proof fn tail_is_dropped(scheme: Seq<char>, authority: Seq<char>, tail: Seq<char>)
    requires
        !scheme.contains(':'),
        !authority.contains('/'),
        !authority.contains('?'),
        !authority.contains('#'),
        tail.len() > 0 ==> tail[0] == '/' || tail[0] == '?' || tail[0] == '#',
    ensures
        endpoint_parts(scheme + "://"@ + authority + tail) matches Some(e) && e.scheme == scheme
            && (e.host, e.port) == host_and_port(authority),
{
    reveal_strlit("://");
    let s = scheme + "://"@ + authority + tail;
    let at = scheme.len() as int;
    let start = at + 3;
    let end = start + authority.len();
    assert(s.subrange(at, at + 3) =~= "://"@);
    assert forall|i: int| 0 <= i < at implies s[i] != ':' by {
        assert(s[i] == scheme[i]);
        assert(scheme.contains(scheme[i]));
    }
    lemma_first_mark(s, at, 0);
    assert(s.subrange(0, at) =~= scheme);
    crate::text::authority_ends_at_first_mark(s, start);
    let found = crate::text::authority_end(s, start);
    assert(found >= end) by {
        if found < end {
            assert(s[found] == authority[found - start]);
            assert(authority.contains(authority[found - start]));
        }
    }
    assert(found <= end) by {
        if found > end {
            assert(s[end] == tail[0]);
        }
    }
    assert(s.subrange(start, end) =~= authority);
}

/// The port is the number after the authority's last colon, 0 where that is no
/// number; without a colon the authority is the host.
pub proof fn port_follows_the_last_colon(host: Seq<char>, port: Seq<char>)
    requires
        !port.contains(':'),
    ensures
        host_and_port(host + seq![':'] + port).0 == host,
        crate::text::parsed_i64(port) matches Some(n) ==> host_and_port(
            host + seq![':'] + port,
        ).1 == n,
        crate::text::parsed_i64(port) is None ==> host_and_port(host + seq![':'] + port).1 == 0,
        host_and_port(port) == (port, 0int),
{
    let s = host + seq![':'] + port;
    let colon = host.len() as int;
    assert forall|i: int| colon < i < s.len() implies s[i] != ':' by {
        assert(s[i] == port[i - colon - 1]);
        assert(port.contains(port[i - colon - 1]));
    }
    lemma_last_colon(s, colon, s.len() as int);
    assert(s.subrange(0, colon) =~= host);
    assert(s.skip(colon + 1) =~= port);
    crate::text::last_place_is_found(port, ':', port.len() as int);
    if let Some(i) = crate::text::last_index(port, ':', port.len() as int) {
        assert(port.contains(port[i]));
    }
}

/// A text is an endpoint exactly where `://` stands somewhere in it.
pub proof fn endpoint_holds_its_mark(s: Seq<char>)
    ensures
        endpoint_parts(s) is Some == exists|head: Seq<char>, tail: Seq<char>|
            s == #[trigger] (head + "://"@ + tail),
{
    crate::text::contained_text_has_two_sides(s, "://"@);
}

/// The endpoint that is reported as no URL is one that holds no `://`, and
/// every one before it holds it.
pub proof fn first_bad_endpoint_is_reported(endpoints: Seq<Seq<char>>)
    requires
        !all_urls(endpoints),
    ensures
        exists|at: int|
            0 <= at < endpoints.len() && first_bad(endpoints) == #[trigger] endpoints[at]
                && endpoint_parts(endpoints[at]) is None && forall|i: int|
                0 <= i < at ==> endpoint_parts(#[trigger] endpoints[i]) is Some,
    decreases endpoints.len(),
{
    if endpoint_parts(endpoints[0]) is None {
        assert(first_bad(endpoints) == endpoints[0]);
    } else {
        let rest = endpoints.skip(1);
        assert(!all_urls(rest)) by {
            let i = choose|i: int|
                0 <= i < endpoints.len() && endpoint_parts(#[trigger] endpoints[i]) is None;
            assert(rest[i - 1] == endpoints[i]);
        }
        first_bad_endpoint_is_reported(rest);
        let k = choose|at: int|
            0 <= at < rest.len() && first_bad(rest) == #[trigger] rest[at] && endpoint_parts(
                rest[at],
            ) is None && forall|i: int|
                0 <= i < at ==> endpoint_parts(#[trigger] rest[i]) is Some;
        assert(endpoints[k + 1] == rest[k]);
        assert forall|i: int| 0 <= i < k + 1 implies endpoint_parts(#[trigger] endpoints[i])
            is Some by {
            if i > 0 {
                assert(rest[i - 1] == endpoints[i]);
            }
        }
    }
}

} // verus!
