//! Route forwarding: the plan for the outbound request that mirrors an
//! inbound one, and the translation of the upstream response.

use vstd::prelude::*;

use crate::config::RouteConfiguration;
use crate::config::TlsVersion;
use crate::error::ApplicationError;
use crate::text::{clone_opt_string, opt_view, push_char, range_string, scan_char};

verus! {

/// The HTTP protocol versions a request can carry through the forwarder.
#[derive(Debug, Clone, Copy, PartialEq, Eq, Structural)]
pub enum HttpVersion {
    Http09,
    Http10,
    Http11,
    Http2,
    Http3,
}

/// The first position of the character, or the length when it is absent.
pub open spec fn find_char(s: Seq<char>, c: char) -> int
    decreases s.len(),
{
    if s.len() == 0 {
        0
    } else if s[0] == c {
        0
    } else {
        1 + find_char(s.drop_first(), c)
    }
}

/// A scan that finds no `c` before `k`, and `c` at `k` unless `k` is the
/// end, has found the first position.
pub proof fn lemma_find_char_at(s: Seq<char>, c: char, k: int)
    requires
        0 <= k <= s.len(),
        forall|q: int| 0 <= q < k ==> s[q] != c,
        k < s.len() ==> s[k] == c,
    ensures
        find_char(s, c) == if k < s.len() {
            k
        } else {
            s.len() as int
        },
    decreases k,
{
    if k > 0 {
        lemma_find_char_at(s.drop_first(), c, k - 1);
    } else {
        if s.len() > 0 {
        }
    }
}

/// One query segment split at its first `=`: the key before it, the rest
/// after it; a segment without `=` keeps an empty value.
pub open spec fn pair_of(seg: Seq<char>) -> (Seq<char>, Seq<char>) {
    let p = find_char(seg, '=');
    if p >= seg.len() {
        (seg, Seq::<char>::empty())
    } else {
        (seg.subrange(0, p), seg.subrange(p + 1, seg.len() as int))
    }
}

/// The query string split on `&` into key/value pairs.
pub open spec fn split_query(s: Seq<char>) -> Seq<(Seq<char>, Seq<char>)>
    decreases s.len(),
{
    let a = find_char(s, '&');
    if 0 <= a < s.len() {
        seq![pair_of(s.subrange(0, a))] + split_query(s.subrange(a + 1, s.len() as int))
    } else {
        seq![pair_of(s)]
    }
}

/// The views of a pair list.
pub open spec fn pairs_view(s: Seq<(String, String)>) -> Seq<(Seq<char>, Seq<char>)> {
    s.map_values(|p: (String, String)| (p.0@, p.1@))
}

/// The pairs of the query segments from position `pos` on.
fn parse_query_from(cs: &Vec<char>, pos: usize) -> (r: Vec<(String, String)>)
    requires
        pos <= cs@.len(),
    ensures
        pairs_view(r@) == split_query(cs@.subrange(pos as int, cs@.len() as int)),
    decreases cs@.len() - pos,
{
    let ghost seg_all = cs@.subrange(pos as int, cs@.len() as int);
    let amp = scan_char(cs, '&', pos);
    proof {
        assert(forall|q: int|
            0 <= q < amp - pos ==> seg_all[q] == cs@[pos + q] && seg_all[q] != '&');
        if amp < cs@.len() {
            assert(seg_all[amp - pos] == '&');
        }
        lemma_find_char_at(seg_all, '&', amp - pos);
    }
    let ghost seg = cs@.subrange(pos as int, amp as int);
    let eq_pos = scan_char(cs, '=', pos);
    let pair: (String, String) = if eq_pos < amp {
        proof {
            assert(forall|q: int|
                0 <= q < eq_pos - pos ==> seg[q] == cs@[pos + q] && seg[q] != '=');
            assert(seg[eq_pos - pos] == '=');
            lemma_find_char_at(seg, '=', eq_pos - pos);
        }
        let key = range_string(cs, pos, eq_pos);
        let value = range_string(cs, eq_pos + 1, amp);
        proof {
            assert(key@ =~= seg.subrange(0, eq_pos - pos));
            assert(value@ =~= seg.subrange(eq_pos - pos + 1, seg.len() as int));
        }
        (key, value)
    } else {
        proof {
            assert(forall|q: int| 0 <= q < seg.len() ==> seg[q] == cs@[pos + q] && seg[q] != '=');
            lemma_find_char_at(seg, '=', seg.len() as int);
        }
        let key = range_string(cs, pos, amp);
        let value = String::new();
        proof {
            assert(key@ =~= seg);
        }
        (key, value)
    };
    proof {
        assert((pair.0@, pair.1@) == pair_of(seg));
    }
    if amp == cs.len() {
        let mut out: Vec<(String, String)> = Vec::new();
        out.push(pair);
        proof {
            assert(seg =~= seg_all);
            assert(pairs_view(out@) =~= seq![pair_of(seg_all)]);
        }
        out
    } else {
        let rest = parse_query_from(cs, amp + 1);
        let mut out: Vec<(String, String)> = Vec::new();
        out.push(pair);
        let mut rest_vec = rest;
        out.append(&mut rest_vec);
        proof {
            assert(seg =~= seg_all.subrange(0, amp - pos));
            assert(cs@.subrange(amp + 1, cs@.len() as int) =~= seg_all.subrange(
                amp - pos + 1,
                seg_all.len() as int,
            ));
            assert(pairs_view(out@) =~= seq![pair_of(seg_all.subrange(0, amp - pos))]
                + split_query(seg_all.subrange(amp - pos + 1, seg_all.len() as int)));
        }
        out
    }
}

/// The query string split on `&`, each segment split at its first `=`.
pub fn parse_query(query: &str) -> (r: Vec<(String, String)>)
    ensures
        pairs_view(r@) == split_query(query@),
{
    let cs = crate::text::chars_of(query);
    let r = parse_query_from(&cs, 0);
    proof {
        assert(cs@.subrange(0, cs@.len() as int) =~= query@);
    }
    r
}

/// The inbound request, reduced to the plain values the forwarder reads.
#[derive(Debug)]
pub struct InboundRequest {
    /// The method, byte for byte.
    pub method: String,
    /// The protocol version; absent when the server saw one the forwarder
    /// does not carry.
    pub version: Option<HttpVersion>,
    /// The headers, in order.
    pub headers: Vec<(String, String)>,
    /// The path of the request.
    pub path: String,
    /// The raw query string.
    pub query: String,
    /// The body, if one was read.
    pub body: Option<String>,
}

/// How to build the outbound client: the route's knobs, copied.
#[derive(Debug, PartialEq)]
pub struct ClientPlan {
    /// Connect timeout, in milliseconds.
    pub connect_timeout: Option<u64>,
    /// Read timeout, in milliseconds.
    pub read_timeout: Option<u64>,
    /// Restrict to HTTP/1.
    pub http1_only: bool,
    /// Accept certificates that do not validate.
    pub accept_invalid_certs: bool,
    /// Accept certificates whose hostname does not match.
    pub accept_invalid_hostnames: bool,
    /// The lowest TLS version to offer.
    pub min_tls_version: Option<TlsVersion>,
    /// Route everything through this proxy.
    pub proxy_url: Option<String>,
}

/// The outbound request, fully described.
#[derive(Debug)]
pub struct OutboundPlan {
    /// The upstream URL: the route's URL with the inbound path appended.
    pub url: String,
    /// The method, copied from the inbound request.
    pub method: String,
    /// The protocol version, mirrored from the inbound request.
    pub version: HttpVersion,
    /// The headers, copied in order.
    pub headers: Vec<(String, String)>,
    /// The query pairs, re-attached from the inbound query string.
    pub query: Vec<(String, String)>,
    /// The body, copied verbatim.
    pub body: Option<String>,
    /// How to build the client.
    pub client: ClientPlan,
    /// Sleep this many milliseconds before the request.
    pub delay_before: Option<u64>,
    /// Sleep this many milliseconds after composing the response.
    pub delay_after: Option<u64>,
}

/// Copy the client knobs out of a route.
pub fn client_plan(route: &RouteConfiguration) -> (r: ClientPlan)
    ensures
        r.connect_timeout == route.connect_timeout,
        r.read_timeout == route.read_timeout,
        r.http1_only == route.http1_only,
        r.accept_invalid_certs == route.accept_invalid_certs,
        r.accept_invalid_hostnames == route.accept_invalid_hostnames,
        r.min_tls_version == route.min_tls_version,
        opt_view(r.proxy_url) == opt_view(route.proxy_url),
{
    ClientPlan {
        connect_timeout: route.connect_timeout,
        read_timeout: route.read_timeout,
        http1_only: route.http1_only,
        accept_invalid_certs: route.accept_invalid_certs,
        accept_invalid_hostnames: route.accept_invalid_hostnames,
        min_tls_version: route.min_tls_version,
        proxy_url: clone_opt_string(&route.proxy_url),
    }
}

/// The plan is exactly the outbound mirror of the inbound request along the
/// route.
pub open spec fn plan_matches(p: OutboundPlan, route: RouteConfiguration, req: InboundRequest) -> bool {
    &&& p.url@ == route.url@ + req.path@
    &&& p.method == req.method
    &&& Option::Some(p.version) == req.version
    &&& p.headers@ == req.headers@
    &&& pairs_view(p.query@) == split_query(req.query@)
    &&& p.body == req.body
    &&& p.client.connect_timeout == route.connect_timeout
    &&& p.client.read_timeout == route.read_timeout
    &&& p.client.http1_only == route.http1_only
    &&& p.client.accept_invalid_certs == route.accept_invalid_certs
    &&& p.client.accept_invalid_hostnames == route.accept_invalid_hostnames
    &&& p.client.min_tls_version == route.min_tls_version
    &&& opt_view(p.client.proxy_url) == opt_view(route.proxy_url)
    &&& p.delay_before == route.delay_before
    &&& p.delay_after == route.delay_after
}

/// Describe the outbound request that mirrors the inbound one: the upstream
/// URL is the route's URL with the inbound path appended, method, version,
/// headers and body are copied, and the query string is re-attached as
/// pairs.  An inbound version the forwarder does not carry is a routing
/// error.
pub fn plan_outbound_request(route: &RouteConfiguration, req: &InboundRequest) -> (r: Result<
    OutboundPlan,
    ApplicationError,
>)
    ensures
        r is Ok <==> req.version is Some,
        r matches Ok(p) ==> plan_matches(p, *route, *req),
        r matches Err(e) ==> e is RoutingError,
{
    let version = match req.version {
        Option::Some(v) => v,
        Option::None => {
            return Err(ApplicationError::RoutingError("Invalid version".to_owned()));
        },
    };
    let mut url = route.url.clone();
    url.append(req.path.as_str());
    Ok(
        OutboundPlan {
            url,
            method: req.method.clone(),
            version,
            headers: crate::text::copy_pairs(&req.headers),
            query: parse_query(req.query.as_str()),
            body: clone_opt_string(&req.body),
            client: client_plan(route),
            delay_before: route.delay_before,
            delay_after: route.delay_after,
        },
    )
}

/// The upstream response, reduced to plain values.
#[derive(Debug, PartialEq)]
pub struct UpstreamResponse {
    /// The status code.
    pub status: u16,
    /// The headers, values as raw bytes.
    pub headers: Vec<(String, Vec<u8>)>,
    /// The body text.
    pub body: String,
}

/// A response ready to send back to the inbound client.
#[derive(Debug, PartialEq)]
pub struct TranslatedResponse {
    /// The status code, known valid.
    pub status: u16,
    /// The headers, values as text.
    pub headers: Vec<(String, String)>,
    /// The body text.
    pub body: String,
}

/// The byte can stand in a header value: printable ASCII or space.
pub open spec fn header_byte_ok(b: u8) -> bool {
    32 <= b <= 126
}

/// Every value byte of every header can stand in a header value.
pub open spec fn headers_ok(hs: Seq<(String, Vec<u8>)>) -> bool {
    forall|i: int|
        0 <= i < hs.len() ==> forall|j: int|
            0 <= j < (#[trigger] hs[i]).1@.len() ==> header_byte_ok(#[trigger] hs[i].1@[j])
}

/// A header value's bytes as text.
pub open spec fn bytes_as_chars(bs: Seq<u8>) -> Seq<char> {
    bs.map_values(|b: u8| b as char)
}

/// Render one header value.
fn header_value_string(bs: &Vec<u8>) -> (r: Result<String, ()>)
    ensures
        r is Ok <==> forall|j: int| 0 <= j < bs@.len() ==> header_byte_ok(#[trigger] bs@[j]),
        r matches Ok(v) ==> v@ == bytes_as_chars(bs@),
{
    let mut out = String::new();
    let mut i: usize = 0;
    while i < bs.len()
        invariant
            i <= bs@.len(),
            out@ == bytes_as_chars(bs@.subrange(0, i as int)),
            forall|j: int| 0 <= j < i ==> header_byte_ok(#[trigger] bs@[j]),
        decreases bs@.len() - i,
    {
        let b = bs[i];
        if b < 32 || b > 126 {
            return Err(());
        }
        push_char(&mut out, b as char);
        i = i + 1;
        proof {
            assert(out@ =~= bytes_as_chars(bs@.subrange(0, i as int)));
        }
    }
    proof {
        assert(bs@.subrange(0, bs@.len() as int) =~= bs@);
    }
    Ok(out)
}

/// Translate the upstream response: the status must be a numeric HTTP status
/// and every header value must be ASCII text; the body is copied.
pub fn translate_response(upstream: UpstreamResponse) -> (r: Result<
    TranslatedResponse,
    ApplicationError,
>)
    ensures
        r is Ok <==> (100 <= upstream.status <= 999 && headers_ok(upstream.headers@)),
        r matches Ok(t) ==> {
            &&& t.status == upstream.status
            &&& t.headers@.len() == upstream.headers@.len()
            &&& forall|i: int|
                0 <= i < upstream.headers@.len() ==> (#[trigger] t.headers@[i]).0
                    == upstream.headers@[i].0 && t.headers@[i].1@ == bytes_as_chars(
                    upstream.headers@[i].1@,
                )
            &&& t.body == upstream.body
        },
        r matches Err(e) ==> e is RoutingError,
{
    if upstream.status < 100 || upstream.status > 999 {
        return Err(ApplicationError::RoutingError("Invalid status code".to_owned()));
    }
    let mut headers: Vec<(String, String)> = Vec::new();
    let n = upstream.headers.len();
    let mut i: usize = 0;
    while i < n
        invariant
            i <= n,
            n == upstream.headers@.len(),
            headers@.len() == i,
            forall|j: int| 0 <= j < i ==> forall|q: int|
                0 <= q < (#[trigger] upstream.headers@[j]).1@.len() ==> header_byte_ok(
                    #[trigger] upstream.headers@[j].1@[q],
                ),
            forall|j: int|
                0 <= j < i ==> (#[trigger] headers@[j]).0 == upstream.headers@[j].0
                    && headers@[j].1@ == bytes_as_chars(upstream.headers@[j].1@),
        decreases n - i,
    {
        match header_value_string(&upstream.headers[i].1) {
            Ok(v) => {
                headers.push((upstream.headers[i].0.clone(), v));
            },
            Err(()) => {
                proof {
                    assert(!headers_ok(upstream.headers@));
                }
                return Err(
                    ApplicationError::RoutingError("Invalid header value".to_owned()),
                );
            },
        }
        i = i + 1;
    }
    Ok(TranslatedResponse { status: upstream.status, headers, body: upstream.body })
}

} // verus!
