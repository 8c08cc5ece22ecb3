//! The editor's row model: flat views of the configuration types, and the
//! conversions between them.

use vstd::prelude::*;

use crate::collections::{has_key, StringMap, StringSet};
use crate::config::{
    EndpointConfiguration, EndpointType, HttpsConfiguration, MockResponseConfiguration,
    RouteConfiguration, ServerConfiguration, SetupConfiguration, TcpListenerData, TlsVersion,
};
use crate::route::find_char;
use crate::text::{clone_opt_string, opt_view};

verus! {

/// A setup, flattened for the editor.
#[derive(Debug, PartialEq)]
pub struct SetupRow {
    /// The identifier of the setup.
    pub id: String,
    /// The name of the setup.
    pub name: String,
    /// The description of the setup.
    pub description: String,
    /// The process running the setup, if one is.
    pub process_id: Option<u32>,
    /// The required parameter names, in their stored order.
    pub params: Option<Vec<String>>,
}

impl SetupRow {
    /// Build a row from its parts.
    pub fn new(
        id: &str,
        name: &str,
        description: &str,
        process_id: Option<u32>,
        params: Option<StringSet>,
    ) -> (r: SetupRow)
        ensures
            r.id@ == id@,
            r.name@ == name@,
            r.description@ == description@,
            r.process_id == process_id,
            match params {
                Option::Some(ps) => r.params matches Some(v) && v@ == ps@,
                Option::None => r.params is None,
            },
    {
        SetupRow {
            id: id.to_owned(),
            name: name.to_owned(),
            description: description.to_owned(),
            process_id,
            params: match params {
                Option::Some(ps) => Option::Some(ps.into_names()),
                Option::None => Option::None,
            },
        }
    }

    /// The row of a setup: identifiers and names copied, no process, the
    /// required parameter names in their stored order.
    pub fn from(setup: SetupConfiguration) -> (r: SetupRow)
        ensures
            r.id@ == setup.id@,
            r.name@ == setup.name@,
            r.description@ == setup.description@,
            r.process_id is None,
            match setup.params {
                Option::Some(ps) => r.params matches Some(v) && v@ == ps@,
                Option::None => r.params is None,
            },
    {
        SetupRow {
            id: setup.id.clone(),
            name: setup.name.clone(),
            description: setup.description.clone(),
            process_id: Option::None,
            params: match setup.params {
                Option::Some(ps) => Option::Some(ps.into_names()),
                Option::None => Option::None,
            },
        }
    }
}

/// A predefined parameter set, flattened for the editor.
#[derive(Debug, PartialEq)]
pub struct PredefinedSet {
    /// The name of the set.
    pub name: String,
    /// The values the set supplies, by parameter name.
    pub values: StringMap,
}

impl PredefinedSet {
    /// Build a row from its parts.
    pub fn new(name: &str, values: StringMap) -> (r: PredefinedSet)
        ensures
            r.name@ == name@,
            r.values@ == values@,
    {
        PredefinedSet { name: name.to_owned(), values }
    }
}

/// A TLS configuration, flattened for the editor.
#[derive(Debug, PartialEq)]
pub struct HttpsRow {
    /// Path of the server certificate.
    pub server_certificate: String,
    /// Path of the private key.
    pub private_key: String,
    /// The TLS port.
    pub https_port: u16,
    /// Path of the client certificate, if mutual TLS is demanded.
    pub client_certificate: Option<String>,
    /// The accepted protocol versions, as text.
    pub supported_tls_versions: Vec<String>,
}

impl HttpsRow {
    /// The row of a TLS configuration: paths and port copied, versions
    /// rendered as text.
    pub fn from(https_config: &HttpsConfiguration) -> (r: HttpsRow)
        ensures
            r.server_certificate@ == https_config.server_certificate@,
            r.private_key@ == https_config.private_key@,
            r.https_port == https_config.https_port,
            opt_view(r.client_certificate) == opt_view(https_config.client_certificate),
            r.supported_tls_versions@.len() == https_config.supported_tls_versions@.len(),
            forall|i: int|
                0 <= i < https_config.supported_tls_versions@.len() ==> (
                #[trigger] r.supported_tls_versions@[i])@
                    == https_config.supported_tls_versions@[i].label_spec(),
    {
        let n = https_config.supported_tls_versions.len();
        let mut versions: Vec<String> = Vec::new();
        let mut i: usize = 0;
        while i < n
            invariant
                i <= n,
                n == https_config.supported_tls_versions@.len(),
                versions@.len() == i,
                forall|j: int|
                    0 <= j < i ==> (#[trigger] versions@[j])@
                        == https_config.supported_tls_versions@[j].label_spec(),
            decreases n - i,
        {
            versions.push(https_config.supported_tls_versions[i].label());
            i = i + 1;
        }
        HttpsRow {
            server_certificate: https_config.server_certificate.clone(),
            private_key: https_config.private_key.clone(),
            https_port: https_config.https_port,
            client_certificate: clone_opt_string(&https_config.client_certificate),
            supported_tls_versions: versions,
        }
    }

    /// The TLS configuration of a row: versions read back from text.
    pub fn into_config(self) -> (r: HttpsConfiguration)
        ensures
            r.server_certificate == self.server_certificate,
            r.private_key == self.private_key,
            r.https_port == self.https_port,
            r.client_certificate == self.client_certificate,
            r.supported_tls_versions@.len() == self.supported_tls_versions@.len(),
            forall|i: int|
                0 <= i < self.supported_tls_versions@.len() ==> (
                #[trigger] r.supported_tls_versions@[i]) == TlsVersion::from_label_spec(
                    self.supported_tls_versions@[i]@,
                ),
    {
        let n = self.supported_tls_versions.len();
        let mut versions: Vec<TlsVersion> = Vec::new();
        let mut i: usize = 0;
        while i < n
            invariant
                i <= n,
                n == self.supported_tls_versions@.len(),
                versions@.len() == i,
                forall|j: int|
                    0 <= j < i ==> (#[trigger] versions@[j]) == TlsVersion::from_label_spec(
                        self.supported_tls_versions@[j]@,
                    ),
            decreases n - i,
        {
            versions.push(TlsVersion::from_label(self.supported_tls_versions[i].as_str()));
            i = i + 1;
        }
        HttpsConfiguration {
            server_certificate: self.server_certificate,
            private_key: self.private_key,
            https_port: self.https_port,
            client_certificate: self.client_certificate,
            supported_tls_versions: versions,
        }
    }
}

/// A route, flattened for the editor.
#[derive(Debug, PartialEq)]
pub struct RouteRow {
    /// The upstream URL.
    pub url: String,
    /// The proxy to use, if any.
    pub proxy_url: Option<String>,
    /// Restrict to HTTP/1.
    pub http1_only: bool,
    /// Accept certificates that do not validate.
    pub accept_invalid_certs: bool,
    /// Accept certificates whose hostname does not match.
    pub accept_invalid_hostnames: bool,
    /// The lowest TLS version, as text.
    pub min_tls_version: Option<String>,
    /// The highest TLS version, as text.
    pub max_tls_version: Option<String>,
    /// Read timeout, in milliseconds.
    pub read_timeout: Option<u64>,
    /// Connect timeout, in milliseconds.
    pub connect_timeout: Option<u64>,
    /// Delay before the request, in milliseconds.
    pub delay_before: Option<u64>,
    /// Delay after the response, in milliseconds.
    pub delay_after: Option<u64>,
}

/// A version option rendered as text.
pub open spec fn opt_label(v: Option<TlsVersion>) -> Option<Seq<char>> {
    match v {
        Option::Some(x) => Option::Some(x.label_spec()),
        Option::None => Option::None,
    }
}

impl RouteRow {
    /// The row of a route: knobs copied, versions rendered as text; the log
    /// file is not carried.
    pub fn from(route: &RouteConfiguration) -> (r: RouteRow)
        ensures
            r.url@ == route.url@,
            opt_view(r.proxy_url) == opt_view(route.proxy_url),
            r.http1_only == route.http1_only,
            r.accept_invalid_certs == route.accept_invalid_certs,
            r.accept_invalid_hostnames == route.accept_invalid_hostnames,
            opt_view(r.min_tls_version) == opt_label(route.min_tls_version),
            opt_view(r.max_tls_version) == opt_label(route.max_tls_version),
            r.read_timeout == route.read_timeout,
            r.connect_timeout == route.connect_timeout,
            r.delay_before == route.delay_before,
            r.delay_after == route.delay_after,
    {
        RouteRow {
            url: route.url.clone(),
            proxy_url: clone_opt_string(&route.proxy_url),
            http1_only: route.http1_only,
            accept_invalid_certs: route.accept_invalid_certs,
            accept_invalid_hostnames: route.accept_invalid_hostnames,
            min_tls_version: match &route.min_tls_version {
                Option::Some(v) => Option::Some(v.label()),
                Option::None => Option::None,
            },
            max_tls_version: match &route.max_tls_version {
                Option::Some(v) => Option::Some(v.label()),
                Option::None => Option::None,
            },
            read_timeout: route.read_timeout,
            connect_timeout: route.connect_timeout,
            delay_before: route.delay_before,
            delay_after: route.delay_after,
        }
    }
}

impl RouteConfiguration {
    /// The route of a row: versions read back from text, no log file.
    pub fn from(route: &RouteRow) -> (r: RouteConfiguration)
        ensures
            r.url@ == route.url@,
            opt_view(r.proxy_url) == opt_view(route.proxy_url),
            r.log is None,
            r.http1_only == route.http1_only,
            r.accept_invalid_certs == route.accept_invalid_certs,
            r.accept_invalid_hostnames == route.accept_invalid_hostnames,
            r.min_tls_version == (match opt_view(route.min_tls_version) {
                Option::Some(s) => Option::Some(TlsVersion::from_label_spec(s)),
                Option::None => Option::<TlsVersion>::None,
            }),
            r.max_tls_version == (match opt_view(route.max_tls_version) {
                Option::Some(s) => Option::Some(TlsVersion::from_label_spec(s)),
                Option::None => Option::<TlsVersion>::None,
            }),
            r.read_timeout == route.read_timeout,
            r.connect_timeout == route.connect_timeout,
            r.delay_before == route.delay_before,
            r.delay_after == route.delay_after,
    {
        RouteConfiguration::new(
            route.url.clone(),
            clone_opt_string(&route.proxy_url),
            Option::None,
            route.http1_only,
            route.accept_invalid_certs,
            route.accept_invalid_hostnames,
            match &route.min_tls_version {
                Option::Some(s) => Option::Some(TlsVersion::from_label(s.as_str())),
                Option::None => Option::None,
            },
            match &route.max_tls_version {
                Option::Some(s) => Option::Some(TlsVersion::from_label(s.as_str())),
                Option::None => Option::None,
            },
            route.read_timeout,
            route.connect_timeout,
            route.delay_before,
            route.delay_after,
        )
    }
}

/// A TCP listener, flattened for the editor.
#[derive(Debug, PartialEq)]
pub struct TcpListenerRow {
    /// The identifier of the listener.
    pub id: String,
    /// The payload file, if any.
    pub file: Option<String>,
    /// The literal payload, if any.
    pub data: Option<String>,
    /// Delay before writing, in milliseconds.
    pub delay_write_ms: Option<u64>,
    /// The port of the listener.
    pub port: u16,
    /// Whether connections are accepted.
    pub accept: bool,
    /// When the connection is closed, as text.
    pub close_connection: String,
}

impl TcpListenerRow {
    /// The row of a listener: fields copied, the close mode rendered as
    /// text.
    pub fn from(tcp_listener: &TcpListenerData) -> (r: TcpListenerRow)
        ensures
            r.id@ == tcp_listener.id@,
            opt_view(r.file) == opt_view(tcp_listener.file),
            opt_view(r.data) == opt_view(tcp_listener.data),
            r.delay_write_ms == tcp_listener.delay_write_ms,
            r.port == tcp_listener.port,
            r.accept == tcp_listener.accept,
            r.close_connection@ == tcp_listener.close_connection.label_spec(),
    {
        TcpListenerRow {
            id: tcp_listener.id.clone(),
            file: clone_opt_string(&tcp_listener.file),
            data: clone_opt_string(&tcp_listener.data),
            delay_write_ms: tcp_listener.delay_write_ms,
            port: tcp_listener.port,
            accept: tcp_listener.accept,
            close_connection: tcp_listener.close_connection.label(),
        }
    }
}

/// A mock response, flattened for the editor: the headers as one text block
/// of `name: value` lines.
#[derive(Debug, PartialEq)]
pub struct MockRow {
    /// The body of the mock, if any.
    pub response: Option<String>,
    /// The status text of the mock.
    pub status: String,
    /// The headers, one `name: value` line each.
    pub headers: String,
    /// Delay before answering, in milliseconds.
    pub delay: u64,
}

/// One header line of the text block.
pub open spec fn header_line(p: (String, String)) -> Seq<char> {
    p.0@ + ": "@ + p.1@ + "\n"@
}

/// The text block of a header list.
pub open spec fn headers_text(hs: Seq<(String, String)>) -> Seq<char>
    decreases hs.len(),
{
    if hs.len() == 0 {
        Seq::<char>::empty()
    } else {
        header_line(hs[0]) + headers_text(hs.drop_first())
    }
}

impl MockRow {
    /// The row of a mock response: headers folded into one line per entry.
    pub fn from(mock: &MockResponseConfiguration) -> (r: MockRow)
        ensures
            opt_view(r.response) == opt_view(mock.response),
            r.status@ == mock.status@,
            r.headers@ == headers_text(mock.headers@),
            r.delay == mock.delay,
    {
        let entries = mock.headers.entries();
        let n = entries.len();
        let mut text = String::new();
        let mut i: usize = 0;
        proof {
            assert(mock.headers@.subrange(0, n as int) =~= mock.headers@);
            assert(Seq::<char>::empty() + headers_text(mock.headers@) =~= headers_text(
                mock.headers@,
            ));
        }
        while i < n
            invariant
                i <= n,
                n == mock.headers@.len(),
                entries@ == mock.headers@,
                headers_text(mock.headers@) == text@ + headers_text(
                    mock.headers@.subrange(i as int, n as int),
                ),
            decreases n - i,
        {
            let ghost rem = mock.headers@.subrange(i as int, n as int);
            let ghost before = text@;
            text.append(entries[i].0.as_str());
            text.append(": ");
            text.append(entries[i].1.as_str());
            text.append("\n");
            i = i + 1;
            proof {
                assert(text@ == before + header_line(mock.headers@[i - 1]));
                assert(rem[0] == mock.headers@[i - 1]);
                assert(rem.drop_first() =~= mock.headers@.subrange(i as int, n as int));
                assert(before + (header_line(rem[0]) + headers_text(rem.drop_first())) =~= (before
                    + header_line(rem[0])) + headers_text(rem.drop_first()));
            }
        }
        proof {
            assert(mock.headers@.subrange(n as int, n as int) =~= Seq::<(String, String)>::empty());
            assert(text@ + Seq::<char>::empty() =~= text@);
        }
        MockRow {
            response: clone_opt_string(&mock.response),
            status: mock.status.clone(),
            headers: text,
            delay: mock.delay,
        }
    }
}

/// A scan bounded above: the first position of the character in the range,
/// or the range's end.
fn scan_char_range(cs: &Vec<char>, c: char, from: usize, to: usize) -> (r: usize)
    requires
        from <= to <= cs@.len(),
    ensures
        from <= r <= to,
        forall|q: int| from <= q < r ==> cs@[q] != c,
        r < to ==> cs@[r as int] == c,
{
    let mut i: usize = from;
    while i < to
        invariant
            from <= i <= to <= cs@.len(),
            forall|q: int| from <= q < i ==> cs@[q] != c,
        decreases to - i,
    {
        if cs[i] == c {
            return i;
        }
        i = i + 1;
    }
    to
}

/// The character counts as whitespace when trimming a header part.
pub open spec fn is_ws(c: char) -> bool {
    c == ' ' || c == '\t' || c == '\r' || c == '\n'
}

/// The text without its leading whitespace.
pub open spec fn trim_front(s: Seq<char>) -> Seq<char>
    decreases s.len(),
{
    if s.len() > 0 && is_ws(s[0]) {
        trim_front(s.drop_first())
    } else {
        s
    }
}

/// The text without its trailing whitespace.
pub open spec fn trim_back(s: Seq<char>) -> Seq<char>
    decreases s.len(),
{
    if s.len() > 0 && is_ws(s.last()) {
        trim_back(s.drop_last())
    } else {
        s
    }
}

/// The text without leading and trailing whitespace.
pub open spec fn trim_spec(s: Seq<char>) -> Seq<char> {
    trim_back(trim_front(s))
}

/// A scan over leading whitespace has found where the trimmed text starts.
proof fn lemma_trim_front_at(s: Seq<char>, k: int)
    requires
        0 <= k <= s.len(),
        forall|q: int| 0 <= q < k ==> is_ws(s[q]),
        k < s.len() ==> !is_ws(s[k]),
    ensures
        trim_front(s) == s.subrange(k, s.len() as int),
    decreases k,
{
    if k == 0 {
        assert(s.subrange(0, s.len() as int) =~= s);
    } else {
        lemma_trim_front_at(s.drop_first(), k - 1);
        assert(s.drop_first().subrange(k - 1, s.len() - 1) =~= s.subrange(k, s.len() as int));
    }
}

/// A scan over trailing whitespace has found where the trimmed text ends.
proof fn lemma_trim_back_at(s: Seq<char>, k: int)
    requires
        0 <= k <= s.len(),
        forall|q: int| k <= q < s.len() ==> is_ws(s[q]),
        k > 0 ==> !is_ws(s[k - 1]),
    ensures
        trim_back(s) == s.subrange(0, k),
    decreases s.len(),
{
    if k < s.len() {
        lemma_trim_back_at(s.drop_last(), k);
    } else {
        assert(s.subrange(0, s.len() as int) =~= s);
    }
}

/// The range of the text, trimmed of whitespace on both sides.
fn trim_range(cs: &Vec<char>, from: usize, to: usize) -> (r: String)
    requires
        from <= to <= cs@.len(),
    ensures
        r@ == trim_spec(cs@.subrange(from as int, to as int)),
{
    let ghost seg = cs@.subrange(from as int, to as int);
    let mut a: usize = from;
    while a < to && (cs[a] == ' ' || cs[a] == '\t' || cs[a] == '\r' || cs[a] == '\n')
        invariant
            from <= a <= to <= cs@.len(),
            forall|q: int| from <= q < a ==> is_ws(cs@[q]),
        decreases to - a,
    {
        a = a + 1;
    }
    let mut b: usize = to;
    while b > a && (cs[b - 1] == ' ' || cs[b - 1] == '\t' || cs[b - 1] == '\r' || cs[b - 1]
        == '\n')
        invariant
            from <= a <= b <= to <= cs@.len(),
            forall|q: int| b <= q < to ==> is_ws(cs@[q]),
        decreases b - a,
    {
        b = b - 1;
    }
    let out = crate::text::range_string(cs, a, b);
    proof {
        assert(forall|q: int| 0 <= q < a - from ==> is_ws(seg[q]));
        if a < to {
            assert(!is_ws(seg[a - from]));
        }
        lemma_trim_front_at(seg, a - from);
        let t = seg.subrange(a - from, seg.len() as int);
        assert(trim_front(seg) == t);
        assert(forall|q: int| b - a <= q < t.len() ==> is_ws(t[q]));
        if b > a {
            assert(!is_ws(t[b - a - 1]));
        }
        lemma_trim_back_at(t, b - a);
        assert(t.subrange(0, b - a) =~= cs@.subrange(a as int, b as int));
    }
    out
}

/// The text split on the character.
pub open spec fn split_on(s: Seq<char>, c: char) -> Seq<Seq<char>>
    decreases s.len(),
{
    let a = find_char(s, c);
    if 0 <= a < s.len() {
        seq![s.subrange(0, a)] + split_on(s.subrange(a + 1, s.len() as int), c)
    } else {
        seq![s]
    }
}

/// The key and value one header line carries: the trimmed text before the
/// first colon, and the trimmed text between the first and second colons.
pub open spec fn header_entry_of(seg: Seq<char>) -> (Seq<char>, Seq<char>) {
    let p = find_char(seg, ':');
    let rest = seg.subrange(p + 1, seg.len() as int);
    let q = find_char(rest, ':');
    let second = if 0 <= q < rest.len() {
        rest.subrange(0, q)
    } else {
        rest
    };
    (trim_spec(seg.subrange(0, p)), trim_spec(second))
}

/// The entries of the header lines: empty lines and lines without a colon
/// are passed over.
pub open spec fn parsed_header_entries(lines: Seq<Seq<char>>) -> Seq<(Seq<char>, Seq<char>)>
    decreases lines.len(),
{
    if lines.len() == 0 {
        Seq::<(Seq<char>, Seq<char>)>::empty()
    } else {
        let l = lines[0];
        let rest = parsed_header_entries(lines.drop_first());
        if l.len() > 0 && 0 <= find_char(l, ':') < l.len() {
            seq![header_entry_of(l)] + rest
        } else {
            rest
        }
    }
}

/// The entries the header text block carries.
pub open spec fn mock_header_entries(text: Seq<char>) -> Seq<(Seq<char>, Seq<char>)> {
    parsed_header_entries(split_on(text, '\n'))
}

/// The entries the header text from position `pos` on carries.
pub open spec fn entries_from(cs: Seq<char>, pos: int) -> Seq<(Seq<char>, Seq<char>)> {
    mock_header_entries(cs.subrange(pos, cs.len() as int))
}

/// The pair carries the same key and value text as some stored pair.
pub open spec fn stored_pair(m: Seq<(String, String)>, x: (String, String)) -> bool {
    exists|p: int|
        #![trigger m[p]]
        0 <= p < m.len() && m[p].0@ == x.0@ && m[p].1@ == x.1@
}

/// The pair carries the same key and value text as some parsed entry.
pub open spec fn entry_pair(es: Seq<(Seq<char>, Seq<char>)>, x: (String, String)) -> bool {
    exists|j: int|
        #![trigger es[j]]
        0 <= j < es.len() && es[j].0 == x.0@ && es[j].1 == x.1@
}

/// The pair carries exactly the entry's key and value text.
pub open spec fn entry_views(e: (Seq<char>, Seq<char>), x: (String, String)) -> bool {
    e.0 == x.0@ && e.1 == x.1@
}

/// Every entry of `fin` stems from `old_map` or carries some entry of `es`.
pub open spec fn entries_provenance(
    old_map: Seq<(String, String)>,
    es: Seq<(Seq<char>, Seq<char>)>,
    fin: Seq<(String, String)>,
) -> bool {
    forall|i: int|
        #![trigger fin[i]]
        0 <= i < fin.len() ==> stored_pair(old_map, fin[i]) || entry_pair(es, fin[i])
}

/// Every key of `es` is a key of `fin`.
pub open spec fn entries_coverage(es: Seq<(Seq<char>, Seq<char>)>, fin: Seq<(String, String)>) -> bool {
    forall|j: int| 0 <= j < es.len() ==> has_key(fin, (#[trigger] es[j]).0)
}

/// Every key of `a` is a key of `b`.
pub open spec fn keys_monotone(a: Seq<(String, String)>, b: Seq<(String, String)>) -> bool {
    forall|k: Seq<char>| #[trigger] has_key(a, k) ==> has_key(b, k)
}

/// Combine the provenance of a recursive parse: entries of the final map
/// stem from the outer old map or from the full entry list.
proof fn lemma_combine_provenance(
    old_map: Seq<(String, String)>,
    mid: Seq<(String, String)>,
    fin: Seq<(String, String)>,
    entry: (Seq<char>, Seq<char>),
    has_entry: bool,
    sub: Seq<(Seq<char>, Seq<char>)>,
    full: Seq<(Seq<char>, Seq<char>)>,
)
    requires
        forall|i: int|
            #![trigger mid[i]]
            0 <= i < mid.len() ==> stored_pair(old_map, mid[i]) || (has_entry && entry_views(
                entry,
                mid[i],
            )),
        entries_provenance(mid, sub, fin),
        full == if has_entry {
            seq![entry] + sub
        } else {
            sub
        },
    ensures
        entries_provenance(old_map, full, fin),
{
    let off: int = if has_entry {
        1int
    } else {
        0int
    };
    assert forall|i: int| 0 <= i < fin.len() implies stored_pair(old_map, fin[i]) || entry_pair(
        full,
        fin[i],
    ) by {
        assert(stored_pair(mid, fin[i]) || entry_pair(sub, fin[i]));
        if stored_pair(mid, fin[i]) {
            let p = choose|p: int|
                #![trigger mid[p]]
                0 <= p < mid.len() && mid[p].0@ == fin[i].0@ && mid[p].1@ == fin[i].1@;
            assert(stored_pair(old_map, mid[p]) || (has_entry && entry_views(entry, mid[p])));
            if stored_pair(old_map, mid[p]) {
                let q = choose|q: int|
                    #![trigger old_map[q]]
                    0 <= q < old_map.len() && old_map[q].0@ == mid[p].0@ && old_map[q].1@
                        == mid[p].1@;
                assert(old_map[q].0@ == fin[i].0@ && old_map[q].1@ == fin[i].1@);
                assert(stored_pair(old_map, fin[i]));
            } else {
                assert(full[0] == entry);
                assert(full[0].0 == fin[i].0@ && full[0].1 == fin[i].1@);
                assert(entry_pair(full, fin[i]));
            }
        } else {
            let j = choose|j: int|
                #![trigger sub[j]]
                0 <= j < sub.len() && sub[j].0 == fin[i].0@ && sub[j].1 == fin[i].1@;
            assert(full[j + off] == sub[j]);
            assert(entry_pair(full, fin[i]));
        }
    }
}

/// Combine the coverage of a recursive parse: every key of the full entry
/// list is a key of the final map.
proof fn lemma_combine_coverage(
    mid: Seq<(String, String)>,
    fin: Seq<(String, String)>,
    entry: (Seq<char>, Seq<char>),
    has_entry: bool,
    sub: Seq<(Seq<char>, Seq<char>)>,
    full: Seq<(Seq<char>, Seq<char>)>,
)
    requires
        has_entry ==> has_key(mid, entry.0),
        keys_monotone(mid, fin),
        entries_coverage(sub, fin),
        full == if has_entry {
            seq![entry] + sub
        } else {
            sub
        },
    ensures
        entries_coverage(full, fin),
{
    let off: int = if has_entry {
        1int
    } else {
        0int
    };
    assert forall|j: int| 0 <= j < full.len() implies has_key(fin, (#[trigger] full[j]).0) by {
        if has_entry && j == 0 {
            assert(full[0] == entry);
        } else {
            assert(full[j] == sub[j - off]);
        }
    }
}

/// Read the header lines from position `pos` on into the map.
fn parse_header_block(cs: &Vec<char>, pos: usize, headers: &mut StringMap)
    requires
        pos <= cs@.len(),
    ensures
        entries_provenance(old(headers)@, entries_from(cs@, pos as int), final(headers)@),
        entries_coverage(entries_from(cs@, pos as int), final(headers)@),
        keys_monotone(old(headers)@, final(headers)@),
    decreases cs@.len() - pos,
{
    let ghost whole = cs@.subrange(pos as int, cs@.len() as int);
    let nl = crate::text::scan_char(cs, '\n', pos);
    proof {
        assert(forall|q: int| 0 <= q < nl - pos ==> whole[q] == cs@[pos + q] && whole[q] != '\n');
        if nl < cs@.len() {
            assert(whole[nl - pos] == '\n');
        }
        crate::route::lemma_find_char_at(whole, '\n', nl - pos);
    }
    let ghost seg = cs@.subrange(pos as int, nl as int);
    let colon = scan_char_range(cs, ':', pos, nl);
    let ghost has_entry = pos < nl && colon < nl;
    let ghost entry = header_entry_of(seg);
    proof {
        assert(forall|q: int| 0 <= q < colon - pos ==> seg[q] == cs@[pos + q] && seg[q] != ':');
        if colon < nl {
            assert(seg[colon - pos] == ':');
        }
        crate::route::lemma_find_char_at(seg, ':', colon - pos);
    }
    if pos < nl && colon < nl {
        let key = trim_range(cs, pos, colon);
        let second_end = scan_char_range(cs, ':', colon + 1, nl);
        let value = trim_range(cs, colon + 1, second_end);
        proof {
            let rest = seg.subrange(colon - pos + 1, seg.len() as int);
            assert(forall|q: int|
                0 <= q < second_end - colon - 1 ==> rest[q] == cs@[colon + 1 + q] && rest[q]
                    != ':');
            if second_end < nl {
                assert(rest[second_end - colon - 1] == ':');
            }
            crate::route::lemma_find_char_at(rest, ':', second_end - colon - 1);
            assert(seg.subrange(0, colon - pos) =~= cs@.subrange(pos as int, colon as int));
            if second_end < nl {
                assert(rest.subrange(0, second_end - colon - 1) =~= cs@.subrange(
                    colon + 1,
                    second_end as int,
                ));
            } else {
                assert(rest =~= cs@.subrange(colon + 1, second_end as int));
            }
            assert(entry == (key@, value@));
        }
        let ghost before = headers@;
        headers.insert(key, value);
        proof {
            assert(has_key(headers@, entry.0)) by {
                if has_key(before, entry.0) {
                    let w = crate::collections::key_index(before, entry.0);
                    assert(headers@[w].0@ == entry.0);
                } else {
                    assert(headers@[before.len() as int].0@ == entry.0);
                }
            }
            assert(forall|k: Seq<char>| #[trigger] has_key(before, k) ==> has_key(headers@, k))
                by {
                assert(before.len() <= headers@.len());
                assert(forall|p: int|
                    0 <= p < before.len() ==> headers@[p].0@ == (#[trigger] before[p]).0@);
            }
            assert forall|i: int| 0 <= i < headers@.len() implies stored_pair(
                before,
                headers@[i],
            ) || entry_views(entry, headers@[i]) by {
                if has_key(before, entry.0) {
                    let ki = crate::collections::key_index(before, entry.0);
                    if i != ki {
                        assert(headers@[i] == before[i]);
                        assert(before[i].0@ == headers@[i].0@ && before[i].1@
                            == headers@[i].1@);
                    } else {
                        assert(headers@[ki].0 == before[ki].0 && headers@[ki].1@ == entry.1);
                        assert(before[ki].0@ == entry.0);
                    }
                } else {
                    if i < before.len() {
                        assert(headers@[i] == before[i]);
                        assert(before[i].0@ == headers@[i].0@ && before[i].1@
                            == headers@[i].1@);
                    } else {
                        assert(headers@[i].0@ == entry.0 && headers@[i].1@ == entry.1);
                    }
                }
            }
        }
    }
    let ghost mid = headers@;
    proof {
        assert forall|i: int| 0 <= i < mid.len() implies stored_pair(old(headers)@, mid[i]) || (
        has_entry && entry_views(entry, mid[i])) by {
            if !has_entry {
                assert(mid[i] == old(headers)@[i]);
                assert(old(headers)@[i].0@ == mid[i].0@ && old(headers)@[i].1@ == mid[i].1@);
            }
        }
        assert(forall|k: Seq<char>| #[trigger]
            has_key(old(headers)@, k) ==> has_key(mid, k));
        assert(has_entry ==> has_key(mid, entry.0));
    }
    if nl < cs.len() {
        let next = nl + 1;
        parse_header_block(cs, next, headers);
        proof {
            let sub = entries_from(cs@, next as int);
            let full = entries_from(cs@, pos as int);
            assert(seg =~= whole.subrange(0, nl - pos));
            assert(cs@.subrange(next as int, cs@.len() as int) =~= whole.subrange(
                nl - pos + 1,
                whole.len() as int,
            ));
            assert(split_on(whole, '\n') == seq![seg] + split_on(
                cs@.subrange(next as int, cs@.len() as int),
                '\n',
            ));
            let lines = split_on(whole, '\n');
            assert(lines[0] == seg);
            assert(lines.drop_first() =~= split_on(
                cs@.subrange(next as int, cs@.len() as int),
                '\n',
            ));
            assert(seg.len() > 0 && 0 <= find_char(seg, ':') < seg.len() <==> has_entry);
            if has_entry {
                assert(full == seq![entry] + sub);
            } else {
                assert(full == sub);
            }
            lemma_combine_provenance(old(headers)@, mid, headers@, entry, has_entry, sub, full);
            lemma_combine_coverage(mid, headers@, entry, has_entry, sub, full);
        }
    } else {
        proof {
            assert(seg =~= whole);
            assert(split_on(whole, '\n') == seq![whole]);
            let lines = split_on(whole, '\n');
            assert(lines.len() == 1 && lines[0] == seg);
            assert(lines.drop_first() =~= Seq::<Seq<char>>::empty());
            assert(parsed_header_entries(Seq::<Seq<char>>::empty()) == Seq::<(
                Seq<char>,
                Seq<char>,
            )>::empty());
            let full = entries_from(cs@, pos as int);
            assert(seg.len() > 0 && 0 <= find_char(seg, ':') < seg.len() <==> has_entry);
            assert(full == parsed_header_entries(lines));
            if has_entry {
                assert(full =~= seq![entry]);
            } else {
                assert(full =~= Seq::<(Seq<char>, Seq<char>)>::empty());
            }
            assert forall|i: int| 0 <= i < headers@.len() implies stored_pair(
                old(headers)@,
                headers@[i],
            ) || entry_pair(full, headers@[i]) by {
                if !stored_pair(old(headers)@, headers@[i]) {
                    assert(has_entry && entry_views(entry, headers@[i]));
                    assert(full[0] == entry);
                    assert(entry_pair(full, headers@[i]));
                }
            }
            assert forall|j: int| 0 <= j < full.len() implies has_key(
                headers@,
                full[j].0,
            ) by {
                assert(full[j] == entry);
            }
        }
    }
}

impl MockResponseConfiguration {
    /// The mock response of a row: the header text block read back as a map.
    /// Every map entry stems from some line of the block, and every line
    /// carrying a colon puts its key into the map.
    pub fn from(mock: &MockRow) -> (r: MockResponseConfiguration)
        ensures
            opt_view(r.response) == opt_view(mock.response),
            r.status@ == mock.status@,
            r.delay == mock.delay,
            entries_provenance(
                Seq::<(String, String)>::empty(),
                mock_header_entries(mock.headers@),
                r.headers@,
            ),
            entries_coverage(mock_header_entries(mock.headers@), r.headers@),
    {
        let cs = crate::text::chars_of(mock.headers.as_str());
        let mut headers = StringMap::new();
        parse_header_block(&cs, 0, &mut headers);
        proof {
            assert(cs@.subrange(0, cs@.len() as int) =~= mock.headers@);
        }
        MockResponseConfiguration {
            response: clone_opt_string(&mock.response),
            status: mock.status.clone(),
            headers,
            delay: mock.delay,
        }
    }
}

/// An endpoint, flattened for the editor: the mock and the route stand side
/// by side, at most one of them present.
#[derive(Debug, PartialEq)]
pub struct EndpointRow {
    /// The identifier of the endpoint.
    pub id: String,
    /// The path expression, if any.
    pub path_expression: Option<String>,
    /// The method, if any.
    pub method: Option<String>,
    /// The body expression, if any.
    pub body_expression: Option<String>,
    /// The mock response, when the endpoint mocks.
    pub mock: Option<MockRow>,
    /// The route, when the endpoint forwards.
    pub route: Option<RouteRow>,
}

impl EndpointRow {
    /// The row of an endpoint: expressions copied; the endpoint type, if
    /// any, unfolded into its row.
    pub fn from(endpoint_config: &EndpointConfiguration) -> (r: EndpointRow)
        ensures
            r.id@ == endpoint_config.id@,
            opt_view(r.path_expression) == opt_view(endpoint_config.path_expression),
            opt_view(r.method) == opt_view(endpoint_config.method),
            opt_view(r.body_expression) == opt_view(endpoint_config.body_expression),
            match endpoint_config.endpoint_type {
                Option::Some(EndpointType::Mock { configuration }) => r.route is None && (
                r.mock matches Some(m) && opt_view(m.response) == opt_view(configuration.response)
                    && m.status@ == configuration.status@ && m.headers@ == headers_text(
                    configuration.headers@,
                ) && m.delay == configuration.delay),
                Option::Some(EndpointType::Route { configuration }) => r.mock is None && (
                r.route matches Some(t) && t.url@ == configuration.url@),
                Option::None => r.mock is None && r.route is None,
            },
    {
        let mock = match &endpoint_config.endpoint_type {
            Option::Some(EndpointType::Mock { configuration }) => Option::Some(
                MockRow::from(configuration),
            ),
            _ => Option::None,
        };
        let route = match &endpoint_config.endpoint_type {
            Option::Some(EndpointType::Route { configuration }) => Option::Some(
                RouteRow::from(configuration),
            ),
            _ => Option::None,
        };
        EndpointRow {
            id: endpoint_config.id.clone(),
            path_expression: clone_opt_string(&endpoint_config.path_expression),
            method: clone_opt_string(&endpoint_config.method),
            body_expression: clone_opt_string(&endpoint_config.body_expression),
            mock,
            route,
        }
    }
}

/// A server, flattened for the editor.
#[derive(Debug, PartialEq)]
pub struct HttpServerRow {
    /// The identifier of the server.
    pub id: String,
    /// The name of the server.
    pub name: String,
    /// The HTTP port, if any.
    pub http_port: Option<u16>,
    /// The TLS side, if any.
    pub https_config: Option<HttpsRow>,
    /// The endpoints of the server.
    pub endpoints: Vec<EndpointRow>,
}

impl HttpServerRow {
    /// The row of a server: identifiers and the port copied, the TLS side
    /// and each endpoint turned into rows.
    pub fn from(http_server: &ServerConfiguration) -> (r: HttpServerRow)
        ensures
            r.id@ == http_server.id@,
            r.name@ == http_server.name@,
            r.http_port == http_server.http_port,
            match http_server.https_config {
                Option::Some(h) => r.https_config matches Some(hr) && hr.server_certificate@
                    == h.server_certificate@ && hr.https_port == h.https_port,
                Option::None => r.https_config is None,
            },
            r.endpoints@.len() == http_server.endpoints@.len(),
            forall|i: int|
                0 <= i < http_server.endpoints@.len() ==> (#[trigger] r.endpoints@[i]).id@
                    == http_server.endpoints@[i].id@,
    {
        let n = http_server.endpoints.len();
        let mut endpoints: Vec<EndpointRow> = Vec::new();
        let mut i: usize = 0;
        while i < n
            invariant
                i <= n,
                n == http_server.endpoints@.len(),
                endpoints@.len() == i,
                forall|j: int|
                    0 <= j < i ==> (#[trigger] endpoints@[j]).id@
                        == http_server.endpoints@[j].id@,
            decreases n - i,
        {
            endpoints.push(EndpointRow::from(&http_server.endpoints[i]));
            i = i + 1;
        }
        HttpServerRow {
            id: http_server.id.clone(),
            name: http_server.name.clone(),
            http_port: http_server.http_port,
            https_config: match &http_server.https_config {
                Option::Some(h) => Option::Some(HttpsRow::from(h)),
                Option::None => Option::None,
            },
            endpoints,
        }
    }
}

} // verus!
