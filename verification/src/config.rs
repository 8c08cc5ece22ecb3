//! The configuration model: typed description of setups, servers, endpoints,
//! listeners, routes, mock responses, TLS options and parameter sets.

use vstd::prelude::*;

use crate::collections::{has_key, key_index, StringMap, StringSet};
use crate::error::ApplicationError;
use crate::text::eq_str;

verus! {

/// A TLS protocol version named in a configuration.
#[derive(Debug, Clone, Copy, PartialEq, Eq, Structural)]
pub enum TlsVersion {
    TLSv1_0,
    TLSv1_1,
    TLSv1_2,
    TLSv1_3,
}

impl TlsVersion {
    /// The textual form of the version.
    pub open spec fn label_spec(&self) -> Seq<char> {
        match self {
            TlsVersion::TLSv1_0 => "TLSv1.0"@,
            TlsVersion::TLSv1_1 => "TLSv1.1"@,
            TlsVersion::TLSv1_2 => "TLSv1.2"@,
            TlsVersion::TLSv1_3 => "TLSv1.3"@,
        }
    }

    /// The version a textual form names; anything unknown reads as TLS 1.3.
    pub open spec fn from_label_spec(s: Seq<char>) -> TlsVersion {
        if s == "TLSv1.0"@ {
            TlsVersion::TLSv1_0
        } else if s == "TLSv1.1"@ {
            TlsVersion::TLSv1_1
        } else if s == "TLSv1.2"@ {
            TlsVersion::TLSv1_2
        } else {
            TlsVersion::TLSv1_3
        }
    }

    /// Render the version as text.
    pub fn label(&self) -> (r: String)
        ensures
            r@ == self.label_spec(),
    {
        match self {
            TlsVersion::TLSv1_0 => "TLSv1.0".to_owned(),
            TlsVersion::TLSv1_1 => "TLSv1.1".to_owned(),
            TlsVersion::TLSv1_2 => "TLSv1.2".to_owned(),
            TlsVersion::TLSv1_3 => "TLSv1.3".to_owned(),
        }
    }

    /// Read a version from text.
    pub fn from_label(s: &str) -> (r: TlsVersion)
        ensures
            r == TlsVersion::from_label_spec(s@),
    {
        if eq_str(s, "TLSv1.0") {
            TlsVersion::TLSv1_0
        } else if eq_str(s, "TLSv1.1") {
            TlsVersion::TLSv1_1
        } else if eq_str(s, "TLSv1.2") {
            TlsVersion::TLSv1_2
        } else {
            TlsVersion::TLSv1_3
        }
    }
}

/// When a TCP listener closes the connection it serves.
#[derive(Debug, Clone, Copy, PartialEq, Eq, Structural)]
pub enum CloseConnectionWhen {
    BeforeRead,
    AfterRead,
    AfterResponse,
    Never,
}

impl CloseConnectionWhen {
    /// The textual form of the close mode.
    pub open spec fn label_spec(&self) -> Seq<char> {
        match self {
            CloseConnectionWhen::BeforeRead => "BeforeRead"@,
            CloseConnectionWhen::AfterRead => "AfterRead"@,
            CloseConnectionWhen::AfterResponse => "AfterResponse"@,
            CloseConnectionWhen::Never => "Never"@,
        }
    }

    /// The close mode a textual form names; anything unknown reads as
    /// `AfterResponse`.
    pub open spec fn from_label_spec(s: Seq<char>) -> CloseConnectionWhen {
        if s == "BeforeRead"@ {
            CloseConnectionWhen::BeforeRead
        } else if s == "AfterRead"@ {
            CloseConnectionWhen::AfterRead
        } else if s == "Never"@ {
            CloseConnectionWhen::Never
        } else {
            CloseConnectionWhen::AfterResponse
        }
    }

    /// Render the close mode as text.
    pub fn label(&self) -> (r: String)
        ensures
            r@ == self.label_spec(),
    {
        match self {
            CloseConnectionWhen::BeforeRead => "BeforeRead".to_owned(),
            CloseConnectionWhen::AfterRead => "AfterRead".to_owned(),
            CloseConnectionWhen::AfterResponse => "AfterResponse".to_owned(),
            CloseConnectionWhen::Never => "Never".to_owned(),
        }
    }

    /// Read a close mode from text.
    pub fn from_label(s: &str) -> (r: CloseConnectionWhen)
        ensures
            r == CloseConnectionWhen::from_label_spec(s@),
    {
        if eq_str(s, "BeforeRead") {
            CloseConnectionWhen::BeforeRead
        } else if eq_str(s, "AfterRead") {
            CloseConnectionWhen::AfterRead
        } else if eq_str(s, "Never") {
            CloseConnectionWhen::Never
        } else {
            CloseConnectionWhen::AfterResponse
        }
    }
}

/// The TLS side of one server: certificate and key paths, port, optional
/// client certificate for mutual TLS, and the accepted protocol versions.
#[derive(Debug, PartialEq)]
pub struct HttpsConfiguration {
    /// Path of the server certificate, in PEM form.
    pub server_certificate: String,
    /// Path of the private key, in PEM form.
    pub private_key: String,
    /// The port the TLS listener binds.
    pub https_port: u16,
    /// Path of a client certificate; set, it demands mutual TLS.
    pub client_certificate: Option<String>,
    /// The protocol versions the server accepts.
    pub supported_tls_versions: Vec<TlsVersion>,
}

impl HttpsConfiguration {
    /// Two configurations carrying the same values.
    pub open spec fn eqv(&self, other: &Self) -> bool {
        &&& self.server_certificate@ == other.server_certificate@
        &&& self.private_key@ == other.private_key@
        &&& self.https_port == other.https_port
        &&& crate::text::opt_view(self.client_certificate)
            == crate::text::opt_view(other.client_certificate)
        &&& self.supported_tls_versions@ == other.supported_tls_versions@
    }

    /// Build a TLS configuration from its parts.
    #[must_use]
    pub fn new(
        server_certificate: String,
        private_key: String,
        https_port: u16,
        client_certificate: Option<String>,
        supported_tls_versions: Vec<TlsVersion>,
    ) -> (r: HttpsConfiguration)
        ensures
            r == (HttpsConfiguration {
                server_certificate,
                private_key,
                https_port,
                client_certificate,
                supported_tls_versions,
            }),
    {
        HttpsConfiguration { server_certificate, private_key, https_port, client_certificate, supported_tls_versions }
    }
}

impl Clone for HttpsConfiguration {
    /// A copy carrying the same values.
    fn clone(&self) -> (r: Self)
        ensures
            r.eqv(self),
    {
        HttpsConfiguration {
            server_certificate: self.server_certificate.clone(),
            private_key: self.private_key.clone(),
            https_port: self.https_port,
            client_certificate: crate::text::clone_opt_string(&self.client_certificate),
            supported_tls_versions: clone_versions(&self.supported_tls_versions),
        }
    }
}

/// A copy of a version list.
fn clone_versions(v: &Vec<TlsVersion>) -> (r: Vec<TlsVersion>)
    ensures
        r@ == v@,
{
    let mut out: Vec<TlsVersion> = Vec::new();
    let mut i: usize = 0;
    while i < v.len()
        invariant
            i <= v@.len(),
            out@ == v@.subrange(0, i as int),
        decreases v@.len() - i,
    {
        out.push(v[i]);
        i = i + 1;
        proof {
            assert(out@ =~= v@.subrange(0, i as int));
        }
    }
    proof {
        assert(out@ =~= v@);
    }
    out
}

/// The default protocol versions: TLS 1.2 and TLS 1.3.
pub fn default_server_supported_tls_versions() -> (r: Vec<TlsVersion>)
    ensures
        r@ == seq![TlsVersion::TLSv1_2, TlsVersion::TLSv1_3],
{
    let mut out: Vec<TlsVersion> = Vec::new();
    out.push(TlsVersion::TLSv1_2);
    out.push(TlsVersion::TLSv1_3);
    proof {
        assert(out@ =~= seq![TlsVersion::TLSv1_2, TlsVersion::TLSv1_3]);
    }
    out
}

/// The default for a listener's accept flag.
pub fn default_as_true() -> (r: bool)
    ensures
        r,
{
    true
}

/// The default close mode of a listener.
pub fn default_close_connection_when() -> (r: CloseConnectionWhen)
    ensures
        r == CloseConnectionWhen::AfterResponse,
{
    CloseConnectionWhen::AfterResponse
}

/// How one endpoint forwards requests upstream.
#[derive(Debug, PartialEq)]
pub struct RouteConfiguration {
    /// The upstream URL the inbound path is appended to.
    pub url: String,
    /// A proxy every outbound request goes through.
    pub proxy_url: Option<String>,
    /// A log file for requests and responses; carried but unused.
    pub log: Option<String>,
    /// Restrict the outbound client to HTTP/1.
    pub http1_only: bool,
    /// Accept upstream certificates that do not validate.
    pub accept_invalid_certs: bool,
    /// Accept upstream certificates whose hostname does not match.
    pub accept_invalid_hostnames: bool,
    /// The lowest TLS version the outbound client offers.
    pub min_tls_version: Option<TlsVersion>,
    /// The highest TLS version the outbound client offers.
    pub max_tls_version: Option<TlsVersion>,
    /// Read timeout of the outbound client, in milliseconds.
    pub read_timeout: Option<u64>,
    /// Connect timeout of the outbound client, in milliseconds.
    pub connect_timeout: Option<u64>,
    /// Sleep this many milliseconds before the outbound request.
    pub delay_before: Option<u64>,
    /// Sleep this many milliseconds after composing the response.
    pub delay_after: Option<u64>,
}

impl RouteConfiguration {
    /// Build a route from its parts.
    #[must_use]
    pub fn new(
        url: String,
        proxy_url: Option<String>,
        log: Option<String>,
        http1_only: bool,
        accept_invalid_certs: bool,
        accept_invalid_hostnames: bool,
        min_tls_version: Option<TlsVersion>,
        max_tls_version: Option<TlsVersion>,
        read_timeout: Option<u64>,
        connect_timeout: Option<u64>,
        delay_before: Option<u64>,
        delay_after: Option<u64>,
    ) -> (r: RouteConfiguration)
        ensures
            r == (RouteConfiguration {
                url,
                proxy_url,
                log,
                http1_only,
                accept_invalid_certs,
                accept_invalid_hostnames,
                min_tls_version,
                max_tls_version,
                read_timeout,
                connect_timeout,
                delay_before,
                delay_after,
            }),
    {
        RouteConfiguration {
            url,
            proxy_url,
            log,
            http1_only,
            accept_invalid_certs,
            accept_invalid_hostnames,
            min_tls_version,
            max_tls_version,
            read_timeout,
            connect_timeout,
            delay_before,
            delay_after,
        }
    }
}

impl Clone for RouteConfiguration {
    /// A copy carrying the same values.
    fn clone(&self) -> (r: Self)
        ensures
            r.eqv(self),
    {
        RouteConfiguration {
            url: self.url.clone(),
            proxy_url: crate::text::clone_opt_string(&self.proxy_url),
            log: crate::text::clone_opt_string(&self.log),
            http1_only: self.http1_only,
            accept_invalid_certs: self.accept_invalid_certs,
            accept_invalid_hostnames: self.accept_invalid_hostnames,
            min_tls_version: self.min_tls_version,
            max_tls_version: self.max_tls_version,
            read_timeout: self.read_timeout,
            connect_timeout: self.connect_timeout,
            delay_before: self.delay_before,
            delay_after: self.delay_after,
        }
    }
}

impl RouteConfiguration {
    /// Two routes carrying the same values.
    pub open spec fn eqv(&self, other: &Self) -> bool {
        &&& self.url@ == other.url@
        &&& crate::text::opt_view(self.proxy_url) == crate::text::opt_view(other.proxy_url)
        &&& crate::text::opt_view(self.log) == crate::text::opt_view(other.log)
        &&& self.http1_only == other.http1_only
        &&& self.accept_invalid_certs == other.accept_invalid_certs
        &&& self.accept_invalid_hostnames == other.accept_invalid_hostnames
        &&& self.min_tls_version == other.min_tls_version
        &&& self.max_tls_version == other.max_tls_version
        &&& self.read_timeout == other.read_timeout
        &&& self.connect_timeout == other.connect_timeout
        &&& self.delay_before == other.delay_before
        &&& self.delay_after == other.delay_after
    }
}

/// The literal response an endpoint replays: body, status, headers, and a
/// delay before answering.  Body, status and header strings may carry
/// `${name}` placeholders filled from the parameter bindings.
#[derive(Debug, PartialEq)]
pub struct MockResponseConfiguration {
    /// The body to return, if any.
    pub response: Option<String>,
    /// The status code to return, as text.
    pub status: String,
    /// The headers to return.
    pub headers: StringMap,
    /// Sleep this many milliseconds before answering.
    pub delay: u64,
}

impl MockResponseConfiguration {
    /// Two mock responses carrying the same values.
    pub open spec fn eqv(&self, other: &Self) -> bool {
        &&& crate::text::opt_view(self.response) == crate::text::opt_view(other.response)
        &&& self.status@ == other.status@
        &&& self.headers@ == other.headers@
        &&& self.delay == other.delay
    }

    /// Build a mock response from its parts.
    #[must_use]
    pub fn new(response: Option<String>, status: String, headers: StringMap, delay: u64) -> (r:
        MockResponseConfiguration)
        ensures
            r == (MockResponseConfiguration { response, status, headers, delay }),
    {
        MockResponseConfiguration { response, status, headers, delay }
    }
}

impl Clone for MockResponseConfiguration {
    /// A copy carrying the same values.
    fn clone(&self) -> (r: Self)
        ensures
            r.eqv(self),
    {
        MockResponseConfiguration {
            response: crate::text::clone_opt_string(&self.response),
            status: self.status.clone(),
            headers: self.headers.duplicate(),
            delay: self.delay,
        }
    }
}

/// What an endpoint does with a matched request: answer from a mock template
/// or forward it along a route.
#[derive(Debug, PartialEq)]
pub enum EndpointType {
    Mock { configuration: MockResponseConfiguration },
    Route { configuration: RouteConfiguration },
}

impl EndpointType {
    /// Two endpoint types carrying the same values.
    pub open spec fn eqv(&self, other: &Self) -> bool {
        match (self, other) {
            (
                EndpointType::Mock { configuration: a },
                EndpointType::Mock { configuration: b },
            ) => a.eqv(b),
            (
                EndpointType::Route { configuration: a },
                EndpointType::Route { configuration: b },
            ) => a.eqv(b),
            _ => false,
        }
    }
}

impl Clone for EndpointType {
    /// A copy carrying the same values.
    fn clone(&self) -> (r: Self)
        ensures
            r.eqv(self),
    {
        match self {
            EndpointType::Mock { configuration } => EndpointType::Mock {
                configuration: configuration.clone(),
            },
            EndpointType::Route { configuration } => EndpointType::Route {
                configuration: configuration.clone(),
            },
        }
    }
}

/// Two optional endpoint types carrying the same values.
pub open spec fn opt_endpoint_type_eqv(a: &Option<EndpointType>, b: &Option<EndpointType>) -> bool {
    match (a, b) {
        (Option::Some(x), Option::Some(y)) => x.eqv(y),
        (Option::None, Option::None) => true,
        _ => false,
    }
}

/// One matchable route of a server: expressions the request must satisfy and
/// what to do when it does.
#[derive(Debug, PartialEq)]
pub struct EndpointConfiguration {
    /// The identifier of the endpoint.
    pub id: String,
    /// A regular expression the path-with-query must match, if present.
    pub path_expression: Option<String>,
    /// A regular expression the body must match, if present.
    pub body_expression: Option<String>,
    /// The method the request must carry, if present.
    pub method: Option<String>,
    /// How the endpoint handles a matched request; absent, it answers
    /// Not Implemented.
    pub endpoint_type: Option<EndpointType>,
}

impl EndpointConfiguration {
    /// Two endpoints carrying the same values.
    pub open spec fn eqv(&self, other: &Self) -> bool {
        &&& self.id@ == other.id@
        &&& crate::text::opt_view(self.path_expression)
            == crate::text::opt_view(other.path_expression)
        &&& crate::text::opt_view(self.body_expression)
            == crate::text::opt_view(other.body_expression)
        &&& crate::text::opt_view(self.method) == crate::text::opt_view(other.method)
        &&& opt_endpoint_type_eqv(&self.endpoint_type, &other.endpoint_type)
    }

    /// Build an endpoint with a fresh identifier.
    pub fn new(
        path_expression: Option<String>,
        method: Option<String>,
        body_expression: Option<String>,
        endpoint_type: Option<EndpointType>,
    ) -> (r: Result<EndpointConfiguration, ApplicationError>)
        ensures
            r matches Ok(c) ==> c.path_expression == path_expression
                && c.body_expression == body_expression && c.method == method
                && c.endpoint_type == endpoint_type,
            r matches Err(e) ==> e is ConfigurationError,
    {
        let id = get_identifier()?;
        Ok(EndpointConfiguration { id, path_expression, body_expression, method, endpoint_type })
    }
}

impl Clone for EndpointConfiguration {
    /// A copy carrying the same values.
    fn clone(&self) -> (r: Self)
        ensures
            r.eqv(self),
    {
        EndpointConfiguration {
            id: self.id.clone(),
            path_expression: crate::text::clone_opt_string(&self.path_expression),
            body_expression: crate::text::clone_opt_string(&self.body_expression),
            method: crate::text::clone_opt_string(&self.method),
            endpoint_type: match &self.endpoint_type {
                Option::Some(t) => Option::Some(t.clone()),
                Option::None => Option::None,
            },
        }
    }
}

/// One TCP listener: the port it serves, whether it accepts, what bytes it
/// replays, and when it closes the connection.
#[derive(Debug, PartialEq)]
pub struct TcpListenerData {
    /// The identifier of the listener.
    pub id: String,
    /// A file whose contents are replayed when no literal data is set.
    pub file: Option<String>,
    /// Literal data to replay; set, it wins over the file.
    pub data: Option<String>,
    /// Sleep this many milliseconds before writing.
    pub delay_write_ms: Option<u64>,
    /// The port the listener binds.
    pub port: u16,
    /// Whether connections are accepted at all.
    pub accept: bool,
    /// When the connection is closed.
    pub close_connection: CloseConnectionWhen,
}

impl TcpListenerData {
    /// Two listeners carrying the same values.
    pub open spec fn eqv(&self, other: &Self) -> bool {
        &&& self.id@ == other.id@
        &&& crate::text::opt_view(self.file) == crate::text::opt_view(other.file)
        &&& crate::text::opt_view(self.data) == crate::text::opt_view(other.data)
        &&& self.delay_write_ms == other.delay_write_ms
        &&& self.port == other.port
        &&& self.accept == other.accept
        &&& self.close_connection == other.close_connection
    }

    /// Build a listener with a fresh identifier.
    pub fn new(
        file: Option<String>,
        data: Option<String>,
        delay_write_ms: Option<u64>,
        port: u16,
        accept: bool,
        close_connection: CloseConnectionWhen,
    ) -> (r: Result<TcpListenerData, ApplicationError>)
        ensures
            r matches Ok(c) ==> c.file == file && c.data == data
                && c.delay_write_ms == delay_write_ms && c.port == port && c.accept == accept
                && c.close_connection == close_connection,
            r matches Err(e) ==> e is ConfigurationError,
    {
        let id = get_identifier()?;
        Ok(TcpListenerData { id, file, data, delay_write_ms, port, accept, close_connection })
    }

    /// Replace every field but the identifier.
    pub fn update(
        &mut self,
        file: Option<String>,
        data: Option<String>,
        delay_write_ms: Option<u64>,
        port: u16,
        accept: bool,
        close_connection: CloseConnectionWhen,
    )
        ensures
            *final(self) == (TcpListenerData {
                id: old(self).id,
                file,
                data,
                delay_write_ms,
                port,
                accept,
                close_connection,
            }),
    {
        self.file = file;
        self.data = data;
        self.delay_write_ms = delay_write_ms;
        self.port = port;
        self.accept = accept;
        self.close_connection = close_connection;
    }
}

impl Clone for TcpListenerData {
    /// A copy carrying the same values.
    fn clone(&self) -> (r: Self)
        ensures
            r.eqv(self),
    {
        TcpListenerData {
            id: self.id.clone(),
            file: crate::text::clone_opt_string(&self.file),
            data: crate::text::clone_opt_string(&self.data),
            delay_write_ms: self.delay_write_ms,
            port: self.port,
            accept: self.accept,
            close_connection: self.close_connection,
        }
    }
}

/// A named, reusable mapping from parameter name to value.
#[derive(Debug, PartialEq)]
pub struct PredefinedSet {
    /// The name of the set, unique within its setup.
    pub name: String,
    /// The values the set supplies, by parameter name.
    pub values: StringMap,
}

impl PredefinedSet {
    /// Two sets carrying the same values.
    pub open spec fn eqv(&self, other: &Self) -> bool {
        &&& self.name@ == other.name@
        &&& self.values@ == other.values@
    }

    /// Build a predefined set under a fresh generated name, starting with
    /// `Untitled_`.
    pub fn new(values: StringMap) -> (r: Result<PredefinedSet, ApplicationError>)
        ensures
            r matches Ok(c) ==> c.values@ == values@ && c.name@.subrange(
                0,
                "Untitled_"@.len() as int,
            ) == "Untitled_"@,
            r matches Err(e) ==> e is ConfigurationError,
    {
        let mut name = String::new();
        name.append("Untitled_");
        let identifier = get_identifier()?;
        name.append(identifier.as_str());
        proof {
            reveal_strlit("Untitled_");
            reveal_strlit("");
            assert(name@.subrange(0, "Untitled_"@.len() as int) =~= "Untitled_"@);
        }
        Ok(PredefinedSet { name, values })
    }
}

impl Clone for PredefinedSet {
    /// A copy carrying the same values.
    fn clone(&self) -> (r: Self)
        ensures
            r.eqv(self),
    {
        PredefinedSet { name: self.name.clone(), values: self.values.duplicate() }
    }
}

/// A fresh identifier: the clock's milliseconds since the Unix epoch.
fn get_identifier() -> (r: Result<String, ApplicationError>)
    ensures
        r matches Err(e) ==> e is ConfigurationError,
{
    match current_millis_string() {
        Ok(id) => Ok(id),
        Err(()) => Err(
            ApplicationError::ConfigurationError("Failed to generate identifier".to_owned()),
        ),
    }
}

/// Relies on `std::time::SystemTime::now` and `duration_since`: the
/// milliseconds since the Unix epoch, rendered in decimal, or an error when
/// the clock stands before the epoch.  Nothing is promised of the value: it
/// depends on the time of the call.
#[verifier::external_body]
fn current_millis_string() -> (r: Result<String, ()>)
{
    match std::time::SystemTime::now().duration_since(std::time::SystemTime::UNIX_EPOCH) {
        Ok(d) => Ok(d.as_millis().to_string()),
        Err(_) => Err(()),
    }
}


/// Two optional TLS configurations carrying the same values.
pub open spec fn opt_https_eqv(a: &Option<HttpsConfiguration>, b: &Option<HttpsConfiguration>) -> bool {
    match (a, b) {
        (Option::Some(x), Option::Some(y)) => x.eqv(y),
        (Option::None, Option::None) => true,
        _ => false,
    }
}

/// Two endpoint lists carrying the same values.
pub open spec fn endpoints_eqv(a: Seq<EndpointConfiguration>, b: Seq<EndpointConfiguration>) -> bool {
    a.len() == b.len() && forall|i: int| 0 <= i < a.len() ==> #[trigger] a[i].eqv(&b[i])
}

/// One HTTP and/or HTTPS server with its ordered endpoints.
#[derive(Debug, PartialEq)]
pub struct ServerConfiguration {
    /// The identifier of the server.
    pub id: String,
    /// The name of the server.
    pub name: String,
    /// The port of the plain HTTP listener, if one is wanted.
    pub http_port: Option<u16>,
    /// The endpoints, tried in order against each request.
    pub endpoints: Vec<EndpointConfiguration>,
    /// The TLS side of the server, if one is wanted.
    pub https_config: Option<HttpsConfiguration>,
}

impl ServerConfiguration {
    /// Two servers carrying the same values.
    pub open spec fn eqv(&self, other: &Self) -> bool {
        &&& self.id@ == other.id@
        &&& self.name@ == other.name@
        &&& self.http_port == other.http_port
        &&& endpoints_eqv(self.endpoints@, other.endpoints@)
        &&& opt_https_eqv(&self.https_config, &other.https_config)
    }

    /// Build a server with a fresh identifier.
    pub fn new(
        name: String,
        http_port: Option<u16>,
        endpoints: Vec<EndpointConfiguration>,
        https_config: Option<HttpsConfiguration>,
    ) -> (r: Result<ServerConfiguration, ApplicationError>)
        ensures
            r matches Ok(c) ==> c.name == name && c.http_port == http_port
                && c.endpoints == endpoints && c.https_config == https_config,
            r matches Err(e) ==> e is ConfigurationError,
    {
        let id = get_identifier()?;
        Ok(ServerConfiguration { id, name, http_port, endpoints, https_config })
    }

    /// Replace name, HTTP port and TLS side, keeping identifier and endpoints.
    pub fn update(&mut self, name: String, http_port: Option<u16>, https_config: Option<
        HttpsConfiguration,
    >)
        ensures
            final(self).id == old(self).id,
            final(self).name == name,
            final(self).http_port == http_port,
            final(self).https_config == https_config,
            final(self).endpoints == old(self).endpoints,
    {
        self.name = name;
        self.http_port = http_port;
        self.https_config = https_config;
    }

    /// Drop the first endpoint carrying the identifier; none found is an error.
    pub fn delete_endpoint(&mut self, endpoint_id: &str) -> (r: Result<(), ApplicationError>)
        ensures
            r is Ok <==> exists|i: int|
                0 <= i < old(self).endpoints@.len()
                    && #[trigger] old(self).endpoints@[i].id@ == endpoint_id@,
            r is Ok ==> exists|i: int|
                {
                    &&& 0 <= i < old(self).endpoints@.len()
                    &&& #[trigger] old(self).endpoints@[i].id@ == endpoint_id@
                    &&& forall|j: int| 0 <= j < i ==> old(self).endpoints@[j].id@ != endpoint_id@
                    &&& final(self).endpoints@ == old(self).endpoints@.remove(i)
                },
            r is Ok ==> final(self).id == old(self).id && final(self).name == old(self).name
                && final(self).http_port == old(self).http_port && final(self).https_config == old(
                self,
            ).https_config,
            r matches Err(e) ==> *final(self) == *old(self) && e is CouldNotFind,
    {
        match position_endpoint(&self.endpoints, endpoint_id) {
            Option::Some(i) => {
                self.endpoints.remove(i);
                Ok(())
            },
            Option::None => Err(
                ApplicationError::CouldNotFind("Endpoint not found.".to_owned()),
            ),
        }
    }
}

impl Clone for ServerConfiguration {
    /// A copy carrying the same values.
    fn clone(&self) -> (r: Self)
        ensures
            r.eqv(self),
    {
        ServerConfiguration {
            id: self.id.clone(),
            name: self.name.clone(),
            http_port: self.http_port,
            endpoints: clone_endpoints(&self.endpoints),
            https_config: match &self.https_config {
                Option::Some(h) => Option::Some(h.clone()),
                Option::None => Option::None,
            },
        }
    }
}

/// A copy of an endpoint list, element for element.
fn clone_endpoints(v: &Vec<EndpointConfiguration>) -> (r: Vec<EndpointConfiguration>)
    ensures
        endpoints_eqv(r@, v@),
{
    let mut out: Vec<EndpointConfiguration> = Vec::new();
    let mut i: usize = 0;
    while i < v.len()
        invariant
            i <= v@.len(),
            out@.len() == i,
            forall|j: int| 0 <= j < i ==> #[trigger] out@[j].eqv(&v@[j]),
        decreases v@.len() - i,
    {
        out.push(v[i].clone());
        i = i + 1;
    }
    out
}

/// The first endpoint carrying the identifier, if any.
fn position_endpoint(v: &Vec<EndpointConfiguration>, id: &str) -> (r: Option<usize>)
    ensures
        r matches Some(i) ==> i < v@.len() && v@[i as int].id@ == id@ && forall|j: int|
            0 <= j < i ==> v@[j].id@ != id@,
        r is None ==> forall|j: int| 0 <= j < v@.len() ==> v@[j].id@ != id@,
{
    let mut i: usize = 0;
    while i < v.len()
        invariant
            i <= v@.len(),
            forall|j: int| 0 <= j < i ==> v@[j].id@ != id@,
        decreases v@.len() - i,
    {
        if eq_str(v[i].id.as_str(), id) {
            return Option::Some(i);
        }
        i = i + 1;
    }
    Option::None
}

/// Two listener lists carrying the same values.
pub open spec fn listeners_eqv(a: Seq<TcpListenerData>, b: Seq<TcpListenerData>) -> bool {
    a.len() == b.len() && forall|i: int| 0 <= i < a.len() ==> #[trigger] a[i].eqv(&b[i])
}

/// Two server lists carrying the same values.
pub open spec fn servers_eqv(a: Seq<ServerConfiguration>, b: Seq<ServerConfiguration>) -> bool {
    a.len() == b.len() && forall|i: int| 0 <= i < a.len() ==> #[trigger] a[i].eqv(&b[i])
}

/// Two predefined-set lists carrying the same values.
pub open spec fn predefined_sets_eqv(a: Seq<PredefinedSet>, b: Seq<PredefinedSet>) -> bool {
    a.len() == b.len() && forall|i: int| 0 <= i < a.len() ==> #[trigger] a[i].eqv(&b[i])
}

/// Two optional parameter sets carrying the same names.
pub open spec fn opt_params_eqv(a: &Option<StringSet>, b: &Option<StringSet>) -> bool {
    match (a, b) {
        (Option::Some(x), Option::Some(y)) => x@ == y@,
        (Option::None, Option::None) => true,
        _ => false,
    }
}

/// Two optional predefined-set lists carrying the same values.
pub open spec fn opt_predefined_eqv(a: &Option<Vec<PredefinedSet>>, b: &Option<Vec<PredefinedSet>>) -> bool {
    match (a, b) {
        (Option::Some(x), Option::Some(y)) => predefined_sets_eqv(x@, y@),
        (Option::None, Option::None) => true,
        _ => false,
    }
}

/// The shape a name list takes after inserting a name: present, it stays;
/// absent, it is appended.
pub open spec fn set_inserted(new: Seq<String>, old: Seq<String>, k: Seq<char>) -> bool {
    if crate::collections::has_name(old, k) {
        new == old
    } else {
        &&& new.len() == old.len() + 1
        &&& new.subrange(0, old.len() as int) == old
        &&& new[old.len() as int]@ == k
    }
}

/// The shape a key/value list takes after storing a value: a present key
/// keeps its place and takes the value; an absent key is appended.
pub open spec fn map_inserted(
    new: Seq<(String, String)>,
    old: Seq<(String, String)>,
    k: Seq<char>,
    v: Seq<char>,
) -> bool {
    if has_key(old, k) {
        &&& new.len() == old.len()
        &&& new[key_index(old, k)].0 == old[key_index(old, k)].0
        &&& new[key_index(old, k)].1@ == v
        &&& forall|j: int| 0 <= j < old.len() && j != key_index(old, k) ==> new[j] == old[j]
    } else {
        &&& new.len() == old.len() + 1
        &&& new.subrange(0, old.len() as int) == old
        &&& new[old.len() as int].0@ == k
        &&& new[old.len() as int].1@ == v
    }
}

/// The shape a key/value list takes after dropping a key.
pub open spec fn map_removed(
    new: Seq<(String, String)>,
    old: Seq<(String, String)>,
    k: Seq<char>,
) -> bool {
    if has_key(old, k) {
        new == old.remove(key_index(old, k))
    } else {
        new == old
    }
}

/// The shape a key/value list takes after aligning it with the required
/// parameter names: one entry per name, in the names' order, keeping the
/// value a name already had and supplying an empty value otherwise.
pub open spec fn values_rebuilt(
    new: Seq<(String, String)>,
    old: Seq<(String, String)>,
    ps: Seq<String>,
) -> bool {
    &&& new.len() == ps.len()
    &&& forall|j: int| 0 <= j < ps.len() ==> (#[trigger] new[j].0) == ps[j]
    &&& forall|j: int|
        0 <= j < ps.len() ==> if has_key(old, ps[j]@) {
            crate::collections::lookup(old, ps[j]@) == Option::Some((#[trigger] new[j]).1)
        } else {
            new[j].1@ == Seq::<char>::empty()
        }
}

/// What adding a required parameter does to a setup: the name joins the
/// parameter set (created when absent) and every predefined set maps it,
/// keeping everything else.
pub open spec fn param_added(pre: SetupConfiguration, post: SetupConfiguration, param: Seq<char>) -> bool {
    &&& post.id == pre.id
    &&& post.name == pre.name
    &&& post.description == pre.description
    &&& post.servers == pre.servers
    &&& post.listeners == pre.listeners
    &&& match pre.params {
        Option::Some(ps) => post.params matches Some(s) && set_inserted(s@, ps@, param),
        Option::None => post.params matches Some(s) && s@.len() == 1 && s@[0]@ == param,
    }
    &&& match pre.predefined_params {
        Option::Some(sets) => post.predefined_params matches Some(sets2) && sets2@.len()
            == sets@.len() && forall|i: int|
            0 <= i < sets@.len() ==> (#[trigger] sets2@[i]).name == sets@[i].name
                && map_inserted(sets2@[i].values@, sets@[i].values@, param, Seq::<char>::empty()),
        Option::None => post.predefined_params is None,
    }
}

/// What dropping a required parameter does to a setup: the name leaves the
/// parameter set (which goes away when emptied) and every predefined set,
/// keeping everything else.
pub open spec fn param_removed(pre: SetupConfiguration, post: SetupConfiguration, param: Seq<char>) -> bool {
    &&& post.id == pre.id
    &&& post.name == pre.name
    &&& post.description == pre.description
    &&& post.servers == pre.servers
    &&& post.listeners == pre.listeners
    &&& match pre.params {
        Option::Some(ps) => {
            let left = if crate::collections::has_name(ps@, param) {
                ps@.remove(crate::collections::name_index(ps@, param))
            } else {
                ps@
            };
            if left.len() == 0 {
                post.params is None
            } else {
                post.params matches Some(s) && s@ == left
            }
        },
        Option::None => post.params is None,
    }
    &&& match pre.predefined_params {
        Option::Some(sets) => post.predefined_params matches Some(sets2) && sets2@.len()
            == sets@.len() && forall|i: int|
            0 <= i < sets@.len() ==> (#[trigger] sets2@[i]).name == sets@[i].name
                && map_removed(sets2@[i].values@, sets@[i].values@, param),
        Option::None => post.predefined_params is None,
    }
}

/// What aligning the predefined sets with a name list does to them.
pub open spec fn predefined_aligned(
    pre: Option<Vec<PredefinedSet>>,
    post: Option<Vec<PredefinedSet>>,
    params: Option<StringSet>,
) -> bool {
    match (pre, params) {
        (Option::Some(sets), Option::Some(ps)) => post matches Some(sets2) && sets2@.len()
            == sets@.len() && forall|i: int|
            0 <= i < sets@.len() ==> (#[trigger] sets2@[i]).name == sets@[i].name
                && values_rebuilt(sets2@[i].values@, sets@[i].values@, ps@),
        _ => post == pre,
    }
}

/// A named, independently runnable fleet of servers and listeners, with its
/// parameter schema.
#[derive(Debug, PartialEq)]
pub struct SetupConfiguration {
    /// The identifier of the setup.
    pub id: String,
    /// The name of the setup.
    pub name: String,
    /// The description of the setup.
    pub description: String,
    /// The server configurations.
    pub servers: Vec<ServerConfiguration>,
    /// The TCP listeners.
    pub listeners: Vec<TcpListenerData>,
    /// The parameters the setup requires, if any.
    pub params: Option<StringSet>,
    /// Predefined sets of parameter values, if any.
    pub predefined_params: Option<Vec<PredefinedSet>>,
}

impl SetupConfiguration {
    /// Two setups carrying the same values.
    pub open spec fn eqv(&self, other: &Self) -> bool {
        &&& self.id@ == other.id@
        &&& self.name@ == other.name@
        &&& self.description@ == other.description@
        &&& servers_eqv(self.servers@, other.servers@)
        &&& listeners_eqv(self.listeners@, other.listeners@)
        &&& opt_params_eqv(&self.params, &other.params)
        &&& opt_predefined_eqv(&self.predefined_params, &other.predefined_params)
    }

    /// Build a setup with a fresh identifier.
    pub fn new(
        name: String,
        description: String,
        servers: Vec<ServerConfiguration>,
        listeners: Vec<TcpListenerData>,
        params: Option<StringSet>,
        predefined_params: Option<Vec<PredefinedSet>>,
    ) -> (r: Result<SetupConfiguration, ApplicationError>)
        ensures
            r matches Ok(c) ==> c.name == name && c.description == description
                && c.servers == servers && c.listeners == listeners && c.params == params
                && c.predefined_params == predefined_params,
            r matches Err(e) ==> e is ConfigurationError,
    {
        let id = get_identifier()?;
        Ok(SetupConfiguration { id, name, description, servers, listeners, params, predefined_params })
    }

    /// Replace name and description, keeping everything else.
    pub fn update(&mut self, name: String, description: String)
        ensures
            final(self).id == old(self).id,
            final(self).name == name,
            final(self).description == description,
            final(self).servers == old(self).servers,
            final(self).listeners == old(self).listeners,
            final(self).params == old(self).params,
            final(self).predefined_params == old(self).predefined_params,
    {
        self.name = name;
        self.description = description;
    }

    /// The first server carrying the identifier, if any.
    pub fn get_server(&self, server_id: &str) -> (r: Option<&ServerConfiguration>)
        ensures
            r matches Some(s) ==> exists|i: int|
                0 <= i < self.servers@.len() && (#[trigger] self.servers@[i]).id@ == server_id@
                    && (forall|j: int| 0 <= j < i ==> self.servers@[j].id@ != server_id@)
                    && *s == self.servers@[i],
            r is None ==> forall|j: int|
                0 <= j < self.servers@.len() ==> (#[trigger] self.servers@[j]).id@ != server_id@,
    {
        match position_server(&self.servers, server_id) {
            Option::Some(i) => Option::Some(&self.servers[i]),
            Option::None => Option::None,
        }
    }

    /// Drop the first server carrying the identifier; none found is an error.
    pub fn delete_server(&mut self, server_id: &str) -> (r: Result<(), ApplicationError>)
        ensures
            r is Ok <==> exists|i: int|
                0 <= i < old(self).servers@.len() && (#[trigger] old(self).servers@[i]).id@
                    == server_id@,
            r is Ok ==> exists|i: int|
                {
                    &&& 0 <= i < old(self).servers@.len()
                    &&& (#[trigger] old(self).servers@[i]).id@ == server_id@
                    &&& forall|j: int| 0 <= j < i ==> old(self).servers@[j].id@ != server_id@
                    &&& final(self).servers@ == old(self).servers@.remove(i)
                },
            r is Ok ==> final(self).id == old(self).id && final(self).name == old(self).name
                && final(self).description == old(self).description && final(self).listeners
                == old(self).listeners && final(self).params == old(self).params
                && final(self).predefined_params == old(self).predefined_params,
            r matches Err(e) ==> *final(self) == *old(self) && e is CouldNotFind,
    {
        match position_server(&self.servers, server_id) {
            Option::Some(i) => {
                self.servers.remove(i);
                Ok(())
            },
            Option::None => Err(ApplicationError::CouldNotFind("Server not found.".to_owned())),
        }
    }

    /// Add a required parameter, creating the parameter set when there is
    /// none, and give every predefined set an empty value for it.
    pub fn add_param(&mut self, param: String)
        ensures
            param_added(*old(self), *final(self), param@),
    {
        let mut taken: Option<StringSet> = Option::None;
        core::mem::swap(&mut taken, &mut self.params);
        match taken {
            Option::Some(mut ps) => {
                let ghost ps0 = ps@;
                ps.insert(param.clone());
                proof {
                    if !crate::collections::has_name(ps0, param@) {
                        assert(ps@.subrange(0, ps0.len() as int) =~= ps0);
                    }
                }
                self.params = Option::Some(ps);
            },
            Option::None => {
                let mut s = StringSet::new();
                s.insert(param.clone());
                self.params = Option::Some(s);
            },
        }
        let mut ptaken: Option<Vec<PredefinedSet>> = Option::None;
        core::mem::swap(&mut ptaken, &mut self.predefined_params);
        match ptaken {
            Option::Some(sets) => {
                let ghost sets0 = sets@;
                let n = sets.len();
                let mut out: Vec<PredefinedSet> = Vec::new();
                let mut i: usize = 0;
                while i < n
                    invariant
                        i <= n,
                        n == sets0.len(),
                        sets@ == sets0,
                        out@.len() == i,
                        forall|j: int|
                            0 <= j < i ==> (#[trigger] out@[j]).name == sets0[j].name
                                && map_inserted(
                                out@[j].values@,
                                sets0[j].values@,
                                param@,
                                Seq::<char>::empty(),
                            ),
                    decreases n - i,
                {
                    let mut values = sets[i].values.duplicate();
                    let ghost v0 = values@;
                    values.insert(param.clone(), String::new());
                    proof {
                        if !has_key(v0, param@) {
                            assert(values@.subrange(0, v0.len() as int) =~= v0);
                        }
                    }
                    out.push(PredefinedSet { name: sets[i].name.clone(), values });
                    i = i + 1;
                }
                self.predefined_params = Option::Some(out);
            },
            Option::None => {},
        }
    }

    /// Drop a required parameter; a parameter set left empty goes away, and
    /// every predefined set loses its value for it.
    pub fn remove_param(&mut self, param: &str)
        ensures
            param_removed(*old(self), *final(self), param@),
    {
        let mut taken: Option<StringSet> = Option::None;
        core::mem::swap(&mut taken, &mut self.params);
        match taken {
            Option::Some(mut ps) => {
                ps.remove(param);
                if !ps.is_empty() {
                    self.params = Option::Some(ps);
                }
            },
            Option::None => {},
        }
        let mut ptaken: Option<Vec<PredefinedSet>> = Option::None;
        core::mem::swap(&mut ptaken, &mut self.predefined_params);
        match ptaken {
            Option::Some(sets) => {
                let ghost sets0 = sets@;
                let n = sets.len();
                let mut out: Vec<PredefinedSet> = Vec::new();
                let mut i: usize = 0;
                while i < n
                    invariant
                        i <= n,
                        n == sets0.len(),
                        sets@ == sets0,
                        out@.len() == i,
                        forall|j: int|
                            0 <= j < i ==> (#[trigger] out@[j]).name == sets0[j].name
                                && map_removed(out@[j].values@, sets0[j].values@, param@),
                    decreases n - i,
                {
                    let mut values = sets[i].values.duplicate();
                    values.remove(param);
                    out.push(PredefinedSet { name: sets[i].name.clone(), values });
                    i = i + 1;
                }
                self.predefined_params = Option::Some(out);
            },
            Option::None => {},
        }
    }
}

/// The first server carrying the identifier, if any.
fn position_server(v: &Vec<ServerConfiguration>, id: &str) -> (r: Option<usize>)
    ensures
        r matches Some(i) ==> i < v@.len() && v@[i as int].id@ == id@ && forall|j: int|
            0 <= j < i ==> v@[j].id@ != id@,
        r is None ==> forall|j: int| 0 <= j < v@.len() ==> v@[j].id@ != id@,
{
    let mut i: usize = 0;
    while i < v.len()
        invariant
            i <= v@.len(),
            forall|j: int| 0 <= j < i ==> v@[j].id@ != id@,
        decreases v@.len() - i,
    {
        if eq_str(v[i].id.as_str(), id) {
            return Option::Some(i);
        }
        i = i + 1;
    }
    Option::None
}

impl SetupConfiguration {
    /// Align every predefined set with the given required parameter names:
    /// each set keeps the values of names it already had, gains an empty
    /// value for the rest, and loses names no longer required.  Without a
    /// name list, or without predefined sets, nothing changes.
    pub fn update_predefined_params(&mut self, params: Option<StringSet>)
        ensures
            final(self).id == old(self).id,
            final(self).name == old(self).name,
            final(self).description == old(self).description,
            final(self).servers == old(self).servers,
            final(self).listeners == old(self).listeners,
            final(self).params == old(self).params,
            predefined_aligned(old(self).predefined_params, final(self).predefined_params, params),
    {
        let mut ptaken: Option<Vec<PredefinedSet>> = Option::None;
        core::mem::swap(&mut ptaken, &mut self.predefined_params);
        match (ptaken, &params) {
            (Option::Some(sets), Option::Some(ps)) => {
                let ghost sets0 = sets@;
                let n = sets.len();
                let mut out: Vec<PredefinedSet> = Vec::new();
                let mut i: usize = 0;
                while i < n
                    invariant
                        i <= n,
                        n == sets0.len(),
                        sets@ == sets0,
                        out@.len() == i,
                        forall|j: int|
                            0 <= j < i ==> (#[trigger] out@[j]).name == sets0[j].name
                                && values_rebuilt(out@[j].values@, sets0[j].values@, ps@),
                    decreases n - i,
                {
                    let values = rebuild_values(ps, &sets[i].values);
                    out.push(PredefinedSet { name: sets[i].name.clone(), values });
                    i = i + 1;
                }
                self.predefined_params = Option::Some(out);
            },
            (other, _) => {
                self.predefined_params = other;
            },
        }
    }

    /// Append a fresh predefined set carrying an empty value for every
    /// required parameter.
    pub fn add_new_predefined_param_set(&mut self) -> (r: Result<(), ApplicationError>)
        ensures
            final(self).id == old(self).id,
            final(self).name == old(self).name,
            final(self).description == old(self).description,
            final(self).servers == old(self).servers,
            final(self).listeners == old(self).listeners,
            final(self).params == old(self).params,
            r matches Err(e) ==> e is ConfigurationError && *final(self) == *old(self),
            r is Ok ==> (final(self).predefined_params matches Some(sets2) && {
                let base = match old(self).predefined_params {
                    Option::Some(sets) => sets@,
                    Option::None => Seq::<PredefinedSet>::empty(),
                };
                &&& sets2@.len() == base.len() + 1
                &&& sets2@.subrange(0, base.len() as int) == base
                &&& sets2@[base.len() as int].name@.subrange(0, "Untitled_"@.len() as int)
                    == "Untitled_"@
                &&& match old(self).params {
                    Option::Some(ps) => values_rebuilt(
                        sets2@[base.len() as int].values@,
                        Seq::<(String, String)>::empty(),
                        ps@,
                    ),
                    Option::None => sets2@[base.len() as int].values@ == Seq::<(
                        String,
                        String,
                    )>::empty(),
                }
            }),
    {
        let empty = StringMap::new();
        let values = match &self.params {
            Option::Some(ps) => rebuild_values(ps, &empty),
            Option::None => StringMap::new(),
        };
        let predefined_set = PredefinedSet::new(values)?;
        let mut ptaken: Option<Vec<PredefinedSet>> = Option::None;
        core::mem::swap(&mut ptaken, &mut self.predefined_params);
        match ptaken {
            Option::Some(mut sets) => {
                let ghost sets0 = sets@;
                sets.push(predefined_set);
                proof {
                    assert(sets@.subrange(0, sets0.len() as int) =~= sets0);
                }
                self.predefined_params = Option::Some(sets);
            },
            Option::None => {
                let mut sets: Vec<PredefinedSet> = Vec::new();
                sets.push(predefined_set);
                proof {
                    assert(sets@.subrange(0, 0) =~= Seq::<PredefinedSet>::empty());
                }
                self.predefined_params = Option::Some(sets);
            },
        }
        Ok(())
    }

    /// Drop the first predefined set carrying the name; none found is an
    /// error, but a setup without predefined sets is left as it is.
    pub fn delete_predefined_param_set(&mut self, name: &str) -> (r: Result<
        (),
        ApplicationError,
    >)
        ensures
            final(self).id == old(self).id,
            final(self).name == old(self).name,
            final(self).description == old(self).description,
            final(self).servers == old(self).servers,
            final(self).listeners == old(self).listeners,
            final(self).params == old(self).params,
            old(self).predefined_params is None ==> r is Ok && *final(self) == *old(self),
            old(self).predefined_params matches Some(sets) ==> {
                &&& (r is Ok <==> exists|i: int|
                    0 <= i < sets@.len() && (#[trigger] sets@[i]).name@ == name@)
                &&& (r is Ok ==> exists|i: int|
                    {
                        &&& 0 <= i < sets@.len()
                        &&& (#[trigger] sets@[i]).name@ == name@
                        &&& forall|j: int| 0 <= j < i ==> sets@[j].name@ != name@
                        &&& final(self).predefined_params matches Some(sets2) && sets2@ == sets@
                            .remove(i)
                    })
                &&& (r matches Err(e) ==> *final(self) == *old(self) && e is CouldNotFind)
            },
    {
        let mut ptaken: Option<Vec<PredefinedSet>> = Option::None;
        core::mem::swap(&mut ptaken, &mut self.predefined_params);
        match ptaken {
            Option::Some(mut sets) => {
                match position_predefined(&sets, name) {
                    Option::Some(i) => {
                        sets.remove(i);
                        self.predefined_params = Option::Some(sets);
                        Ok(())
                    },
                    Option::None => {
                        self.predefined_params = Option::Some(sets);
                        Err(
                            ApplicationError::CouldNotFind(
                                "Predefined set not found.".to_owned(),
                            ),
                        )
                    },
                }
            },
            Option::None => Ok(()),
        }
    }

    /// Replace the first predefined set carrying the old name with one
    /// carrying the new name and values, moving it to the end; none found is
    /// an error, but a setup without predefined sets is left as it is.
    pub fn update_predefined_param_set(
        &mut self,
        old_name: &str,
        new_name: &str,
        values: StringMap,
    ) -> (r: Result<(), ApplicationError>)
        ensures
            final(self).id == old(self).id,
            final(self).name == old(self).name,
            final(self).description == old(self).description,
            final(self).servers == old(self).servers,
            final(self).listeners == old(self).listeners,
            final(self).params == old(self).params,
            old(self).predefined_params is None ==> r is Ok && *final(self) == *old(self),
            old(self).predefined_params matches Some(sets) ==> {
                &&& (r is Ok <==> exists|i: int|
                    0 <= i < sets@.len() && (#[trigger] sets@[i]).name@ == old_name@)
                &&& (r is Ok ==> exists|i: int|
                    {
                        &&& 0 <= i < sets@.len()
                        &&& (#[trigger] sets@[i]).name@ == old_name@
                        &&& forall|j: int| 0 <= j < i ==> sets@[j].name@ != old_name@
                        &&& final(self).predefined_params matches Some(sets2) && sets2@.len()
                            == sets@.len() && sets2@.subrange(0, sets@.len() - 1) == sets@.remove(
                            i,
                        ) && sets2@[sets@.len() - 1].name@ == new_name@ && sets2@[sets@.len()
                            - 1].values@ == values@
                    })
                &&& (r matches Err(e) ==> *final(self) == *old(self) && e is CouldNotFind)
            },
    {
        let mut ptaken: Option<Vec<PredefinedSet>> = Option::None;
        core::mem::swap(&mut ptaken, &mut self.predefined_params);
        match ptaken {
            Option::Some(mut sets) => {
                match position_predefined(&sets, old_name) {
                    Option::Some(i) => {
                        let ghost sets0 = sets@;
                        sets.remove(i);
                        sets.push(PredefinedSet { name: new_name.to_owned(), values });
                        proof {
                            assert(sets@.subrange(0, sets0.len() - 1) =~= sets0.remove(i as int));
                        }
                        self.predefined_params = Option::Some(sets);
                        Ok(())
                    },
                    Option::None => {
                        self.predefined_params = Option::Some(sets);
                        Err(
                            ApplicationError::CouldNotFind(
                                "Predefined set not found.".to_owned(),
                            ),
                        )
                    },
                }
            },
            Option::None => Ok(()),
        }
    }
}

impl Clone for SetupConfiguration {
    /// A copy carrying the same values.
    fn clone(&self) -> (r: Self)
        ensures
            r.eqv(self),
    {
        SetupConfiguration {
            id: self.id.clone(),
            name: self.name.clone(),
            description: self.description.clone(),
            servers: clone_servers(&self.servers),
            listeners: clone_listeners(&self.listeners),
            params: match &self.params {
                Option::Some(ps) => Option::Some(ps.duplicate()),
                Option::None => Option::None,
            },
            predefined_params: match &self.predefined_params {
                Option::Some(sets) => Option::Some(clone_predefined_sets(sets)),
                Option::None => Option::None,
            },
        }
    }
}

/// A copy of a server list, element for element.
fn clone_servers(v: &Vec<ServerConfiguration>) -> (r: Vec<ServerConfiguration>)
    ensures
        servers_eqv(r@, v@),
{
    let mut out: Vec<ServerConfiguration> = Vec::new();
    let mut i: usize = 0;
    while i < v.len()
        invariant
            i <= v@.len(),
            out@.len() == i,
            forall|j: int| 0 <= j < i ==> (#[trigger] out@[j]).eqv(&v@[j]),
        decreases v@.len() - i,
    {
        out.push(v[i].clone());
        i = i + 1;
    }
    out
}

/// A copy of a listener list, element for element.
fn clone_listeners(v: &Vec<TcpListenerData>) -> (r: Vec<TcpListenerData>)
    ensures
        listeners_eqv(r@, v@),
{
    let mut out: Vec<TcpListenerData> = Vec::new();
    let mut i: usize = 0;
    while i < v.len()
        invariant
            i <= v@.len(),
            out@.len() == i,
            forall|j: int| 0 <= j < i ==> (#[trigger] out@[j]).eqv(&v@[j]),
        decreases v@.len() - i,
    {
        out.push(v[i].clone());
        i = i + 1;
    }
    out
}

/// A copy of a predefined-set list, element for element.
fn clone_predefined_sets(v: &Vec<PredefinedSet>) -> (r: Vec<PredefinedSet>)
    ensures
        predefined_sets_eqv(r@, v@),
{
    let mut out: Vec<PredefinedSet> = Vec::new();
    let mut i: usize = 0;
    while i < v.len()
        invariant
            i <= v@.len(),
            out@.len() == i,
            forall|j: int| 0 <= j < i ==> (#[trigger] out@[j]).eqv(&v@[j]),
        decreases v@.len() - i,
    {
        out.push(v[i].clone());
        i = i + 1;
    }
    out
}

/// The first predefined set carrying the name, if any.
fn position_predefined(v: &Vec<PredefinedSet>, name: &str) -> (r: Option<usize>)
    ensures
        r matches Some(i) ==> i < v@.len() && v@[i as int].name@ == name@ && forall|j: int|
            0 <= j < i ==> v@[j].name@ != name@,
        r is None ==> forall|j: int| 0 <= j < v@.len() ==> v@[j].name@ != name@,
{
    let mut i: usize = 0;
    while i < v.len()
        invariant
            i <= v@.len(),
            forall|j: int| 0 <= j < i ==> v@[j].name@ != name@,
        decreases v@.len() - i,
    {
        if eq_str(v[i].name.as_str(), name) {
            return Option::Some(i);
        }
        i = i + 1;
    }
    Option::None
}

/// One entry per required name, in the names' order: a name keeps the value
/// it had in the old map and gains an empty value otherwise.
fn rebuild_values(ps: &StringSet, old_map: &StringMap) -> (r: StringMap)
    ensures
        values_rebuilt(r@, old_map@, ps@),
{
    proof {
        use_type_invariant(ps);
    }
    let names = ps.names();
    let n = names.len();
    let mut out = StringMap::new();
    let mut i: usize = 0;
    while i < n
        invariant
            i <= n,
            n == ps@.len(),
            names@ == ps@,
            crate::collections::names_unique(ps@),
            out@.len() == i,
            forall|j: int| 0 <= j < i ==> (#[trigger] out@[j]).0 == ps@[j],
            forall|j: int|
                0 <= j < i ==> if has_key(old_map@, ps@[j]@) {
                    crate::collections::lookup(old_map@, ps@[j]@) == Option::Some(
                        (#[trigger] out@[j]).1,
                    )
                } else {
                    out@[j].1@ == Seq::<char>::empty()
                },
        decreases n - i,
    {
        let name = &names[i];
        proof {
            assert(!has_key(out@, name@)) by {
                if has_key(out@, name@) {
                    let w = key_index(out@, name@);
                    assert(0 <= w < out@.len() && out@[w].0@ == name@);
                    assert(ps@[w]@ == ps@[i as int]@);
                    assert(false);
                }
            }
        }
        match old_map.get(name.as_str()) {
            Option::Some(v) => {
                proof {
                    crate::collections::lemma_lookup_from_some(old_map@, name@, 0);
                }
                let value = v.clone();
                out.insert(name.clone(), value);
            },
            Option::None => {
                proof {
                    if has_key(old_map@, name@) {
                        crate::collections::lemma_lookup_from_finds(old_map@, name@, 0);
                    }
                }
                out.insert(name.clone(), String::new());
            },
        }
        i = i + 1;
    }
    out
}

/// `i` is the first position in `s` whose setup carries the identifier.
pub open spec fn first_setup(s: Seq<SetupConfiguration>, id: Seq<char>, i: int) -> bool {
    &&& 0 <= i < s.len()
    &&& s[i].id@ == id
    &&& forall|j: int| 0 <= j < i ==> s[j].id@ != id
}

/// No setup in `s` carries the identifier.
pub open spec fn no_setup(s: Seq<SetupConfiguration>, id: Seq<char>) -> bool {
    forall|j: int| 0 <= j < s.len() ==> (#[trigger] s[j]).id@ != id
}

/// `i` is the first position in `s` whose server carries the identifier.
pub open spec fn first_server(s: Seq<ServerConfiguration>, id: Seq<char>, i: int) -> bool {
    &&& 0 <= i < s.len()
    &&& s[i].id@ == id
    &&& forall|j: int| 0 <= j < i ==> s[j].id@ != id
}

/// No server in `s` carries the identifier.
pub open spec fn no_server(s: Seq<ServerConfiguration>, id: Seq<char>) -> bool {
    forall|j: int| 0 <= j < s.len() ==> (#[trigger] s[j]).id@ != id
}

/// `i` is the first position in `s` whose listener carries the identifier.
pub open spec fn first_listener(s: Seq<TcpListenerData>, id: Seq<char>, i: int) -> bool {
    &&& 0 <= i < s.len()
    &&& s[i].id@ == id
    &&& forall|j: int| 0 <= j < i ==> s[j].id@ != id
}

/// No listener in `s` carries the identifier.
pub open spec fn no_listener(s: Seq<TcpListenerData>, id: Seq<char>) -> bool {
    forall|j: int| 0 <= j < s.len() ==> (#[trigger] s[j]).id@ != id
}

/// `i` is the first position in `s` whose endpoint carries the identifier.
pub open spec fn first_endpoint(s: Seq<EndpointConfiguration>, id: Seq<char>, i: int) -> bool {
    &&& 0 <= i < s.len()
    &&& s[i].id@ == id
    &&& forall|j: int| 0 <= j < i ==> s[j].id@ != id
}

/// No endpoint in `s` carries the identifier.
pub open spec fn no_endpoint(s: Seq<EndpointConfiguration>, id: Seq<char>) -> bool {
    forall|j: int| 0 <= j < s.len() ==> (#[trigger] s[j]).id@ != id
}

/// The two lists agree everywhere but at position `i`.
pub open spec fn setups_match_except(
    a: Seq<SetupConfiguration>,
    b: Seq<SetupConfiguration>,
    i: int,
) -> bool {
    a.len() == b.len() && forall|k: int| 0 <= k < a.len() && k != i ==> a[k] == b[k]
}

/// The two lists agree everywhere but at position `i`.
pub open spec fn servers_match_except(
    a: Seq<ServerConfiguration>,
    b: Seq<ServerConfiguration>,
    i: int,
) -> bool {
    a.len() == b.len() && forall|k: int| 0 <= k < a.len() && k != i ==> a[k] == b[k]
}

/// The two lists agree everywhere but at position `i`.
pub open spec fn listeners_match_except(
    a: Seq<TcpListenerData>,
    b: Seq<TcpListenerData>,
    i: int,
) -> bool {
    a.len() == b.len() && forall|k: int| 0 <= k < a.len() && k != i ==> a[k] == b[k]
}

/// The two lists agree everywhere but at position `i`.
pub open spec fn endpoints_match_except(
    a: Seq<EndpointConfiguration>,
    b: Seq<EndpointConfiguration>,
    i: int,
) -> bool {
    a.len() == b.len() && forall|k: int| 0 <= k < a.len() && k != i ==> a[k] == b[k]
}

/// The two setups agree on every field but the servers.
pub open spec fn setup_same_but_servers(a: SetupConfiguration, b: SetupConfiguration) -> bool {
    &&& a.id == b.id
    &&& a.name == b.name
    &&& a.description == b.description
    &&& a.listeners == b.listeners
    &&& a.params == b.params
    &&& a.predefined_params == b.predefined_params
}

/// The two setups agree on every field but the listeners.
pub open spec fn setup_same_but_listeners(a: SetupConfiguration, b: SetupConfiguration) -> bool {
    &&& a.id == b.id
    &&& a.name == b.name
    &&& a.description == b.description
    &&& a.servers == b.servers
    &&& a.params == b.params
    &&& a.predefined_params == b.predefined_params
}

/// The two servers agree on every field but the endpoints.
pub open spec fn server_same_but_endpoints(a: ServerConfiguration, b: ServerConfiguration) -> bool {
    &&& a.id == b.id
    &&& a.name == b.name
    &&& a.http_port == b.http_port
    &&& a.https_config == b.https_config
}

/// The root document: a named, described, ordered collection of setups.
#[derive(Debug, PartialEq)]
pub struct AppConfiguration {
    /// The name of the configuration.
    pub name: String,
    /// The description of the configuration.
    pub description: String,
    /// The setup configurations.
    pub setups: Vec<SetupConfiguration>,
}

impl AppConfiguration {
    /// Two configurations carrying the same values.
    pub open spec fn eqv(&self, other: &Self) -> bool {
        &&& self.name@ == other.name@
        &&& self.description@ == other.description@
        &&& self.setups@.len() == other.setups@.len()
        &&& forall|i: int|
            0 <= i < self.setups@.len() ==> (#[trigger] self.setups@[i]).eqv(&other.setups@[i])
    }

    /// The configuration's name and description stay as given; setups keep
    /// their order.
    #[must_use]
    pub fn new(name: String, description: String, setups: Vec<SetupConfiguration>) -> (r:
        AppConfiguration)
        ensures
            r == (AppConfiguration { name, description, setups }),
    {
        AppConfiguration { name, description, setups }
    }

    /// Replace name and description, keeping the setups.
    pub fn update(&mut self, name: String, description: String)
        ensures
            final(self).name == name,
            final(self).description == description,
            final(self).setups == old(self).setups,
    {
        self.name = name;
        self.description = description;
    }

    /// Rename and describe the first setup carrying the identifier, replace
    /// its required parameters, and align its predefined sets with them;
    /// none found is an error.
    pub fn update_setup(
        &mut self,
        setup_id: &str,
        name: &str,
        description: &str,
        params: Option<StringSet>,
    ) -> (r: Result<(), ApplicationError>)
        ensures
            final(self).name == old(self).name,
            final(self).description == old(self).description,
            r is Ok <==> !no_setup(old(self).setups@, setup_id@),
            r is Ok ==> exists|i: int|
                {
                    &&& #[trigger] first_setup(old(self).setups@, setup_id@, i)
                    &&& setups_match_except(final(self).setups@, old(self).setups@, i)
                    &&& final(self).setups@[i].id == old(self).setups@[i].id
                    &&& final(self).setups@[i].name@ == name@
                    &&& final(self).setups@[i].description@ == description@
                    &&& final(self).setups@[i].servers == old(self).setups@[i].servers
                    &&& final(self).setups@[i].listeners == old(self).setups@[i].listeners
                    &&& opt_params_eqv(&final(self).setups@[i].params, &params)
                    &&& predefined_aligned(
                        old(self).setups@[i].predefined_params,
                        final(self).setups@[i].predefined_params,
                        params,
                    )
                },
            r matches Err(e) ==> final(self).setups@ == old(self).setups@ && e is CouldNotFind,
    {
        match position_setup(&self.setups, setup_id) {
            Option::Some(i) => {
                proof {
                    assert(first_setup(self.setups@, setup_id@, i as int));
                }
                let params_copy = match &params {
                    Option::Some(ps) => Option::Some(ps.duplicate()),
                    Option::None => Option::None,
                };
                let setup = &mut self.setups[i];
                setup.name = name.to_owned();
                setup.description = description.to_owned();
                setup.params = params_copy;
                setup.update_predefined_params(params);
                Ok(())
            },
            Option::None => Err(ApplicationError::CouldNotFind("Setup not found.".to_owned())),
        }
    }

    /// The first setup carrying the identifier, if any.
    pub fn get_setup(&self, setup_id: &str) -> (r: Option<&SetupConfiguration>)
        ensures
            r matches Some(t) ==> exists|i: int|
                #[trigger] first_setup(self.setups@, setup_id@, i) && *t == self.setups@[i],
            r is None <==> no_setup(self.setups@, setup_id@),
    {
        match position_setup(&self.setups, setup_id) {
            Option::Some(i) => {
                proof {
                    assert(first_setup(self.setups@, setup_id@, i as int));
                }
                Option::Some(&self.setups[i])
            },
            Option::None => Option::None,
        }
    }

    /// Drop the first setup carrying the identifier; none found is an error.
    pub fn delete_setup(&mut self, setup_id: &str) -> (r: Result<(), ApplicationError>)
        ensures
            final(self).name == old(self).name,
            final(self).description == old(self).description,
            r is Ok <==> !no_setup(old(self).setups@, setup_id@),
            r is Ok ==> exists|i: int|
                #[trigger] first_setup(old(self).setups@, setup_id@, i) && final(self).setups@
                    == old(self).setups@.remove(i),
            r matches Err(e) ==> final(self).setups@ == old(self).setups@ && e is CouldNotFind,
    {
        match position_setup(&self.setups, setup_id) {
            Option::Some(i) => {
                proof {
                    assert(first_setup(self.setups@, setup_id@, i as int));
                }
                self.setups.remove(i);
                Ok(())
            },
            Option::None => Err(ApplicationError::CouldNotFind("Setup not found.".to_owned())),
        }
    }

    /// A copy of the first listener carrying the identifier within the first
    /// setup carrying its identifier, if both exist.
    pub fn get_listener(&self, setup_id: &str, listener_id: &str) -> (r: Option<TcpListenerData>)
        ensures
            r matches Some(l) ==> exists|i: int, j: int|
                first_setup(self.setups@, setup_id@, i) && #[trigger] first_listener(
                    self.setups@[i].listeners@,
                    listener_id@,
                    j,
                ) && l.eqv(&self.setups@[i].listeners@[j]),
            r is None ==> no_setup(self.setups@, setup_id@) || exists|i: int|
                #[trigger] first_setup(self.setups@, setup_id@, i) && no_listener(
                    self.setups@[i].listeners@,
                    listener_id@,
                ),
    {
        match position_setup(&self.setups, setup_id) {
            Option::Some(i) => {
                proof {
                    assert(first_setup(self.setups@, setup_id@, i as int));
                }
                match position_listener(&self.setups[i].listeners, listener_id) {
                    Option::Some(j) => {
                        proof {
                            assert(first_listener(
                                self.setups@[i as int].listeners@,
                                listener_id@,
                                j as int,
                            ));
                        }
                        Option::Some(self.setups[i].listeners[j].clone())
                    },
                    Option::None => Option::None,
                }
            },
            Option::None => Option::None,
        }
    }

    /// Drop the first listener carrying the identifier within the first
    /// setup carrying its identifier; either one missing is an error.
    pub fn delete_listener(&mut self, setup_id: &str, listener_id: &str) -> (r: Result<
        (),
        ApplicationError,
    >)
        ensures
            final(self).name == old(self).name,
            final(self).description == old(self).description,
            r is Ok <==> exists|i: int|
                #[trigger] first_setup(old(self).setups@, setup_id@, i) && !no_listener(
                    old(self).setups@[i].listeners@,
                    listener_id@,
                ),
            r is Ok ==> exists|i: int, j: int|
                {
                    &&& first_setup(old(self).setups@, setup_id@, i)
                    &&& #[trigger] first_listener(old(self).setups@[i].listeners@, listener_id@, j)
                    &&& setups_match_except(final(self).setups@, old(self).setups@, i)
                    &&& setup_same_but_listeners(final(self).setups@[i], old(self).setups@[i])
                    &&& final(self).setups@[i].listeners@ == old(self).setups@[i].listeners@
                        .remove(j)
                },
            r matches Err(e) ==> final(self).setups@ == old(self).setups@ && e is CouldNotFind,
    {
        match position_setup(&self.setups, setup_id) {
            Option::Some(i) => {
                proof {
                    assert(first_setup(self.setups@, setup_id@, i as int));
                }
                match position_listener(&self.setups[i].listeners, listener_id) {
                    Option::Some(j) => {
                        proof {
                            assert(first_listener(
                                self.setups@[i as int].listeners@,
                                listener_id@,
                                j as int,
                            ));
                        }
                        let setup = &mut self.setups[i];
                        setup.listeners.remove(j);
                        Ok(())
                    },
                    Option::None => Err(
                        ApplicationError::CouldNotFind("Listener not found.".to_owned()),
                    ),
                }
            },
            Option::None => Err(ApplicationError::CouldNotFind("Setup not found.".to_owned())),
        }
    }

    /// Refill every field but the identifier of the first listener carrying
    /// the identifier within the first setup carrying its identifier; either
    /// one missing is an error.
    pub fn update_listener(
        &mut self,
        setup_id: &str,
        listener_id: &str,
        file: Option<String>,
        data: Option<String>,
        delay_write_ms: Option<u64>,
        port: u16,
        accept: bool,
        close_connection: CloseConnectionWhen,
    ) -> (r: Result<(), ApplicationError>)
        ensures
            final(self).name == old(self).name,
            final(self).description == old(self).description,
            r is Ok <==> exists|i: int|
                #[trigger] first_setup(old(self).setups@, setup_id@, i) && !no_listener(
                    old(self).setups@[i].listeners@,
                    listener_id@,
                ),
            r is Ok ==> exists|i: int, j: int|
                {
                    &&& first_setup(old(self).setups@, setup_id@, i)
                    &&& #[trigger] first_listener(old(self).setups@[i].listeners@, listener_id@, j)
                    &&& setups_match_except(final(self).setups@, old(self).setups@, i)
                    &&& setup_same_but_listeners(final(self).setups@[i], old(self).setups@[i])
                    &&& listeners_match_except(
                        final(self).setups@[i].listeners@,
                        old(self).setups@[i].listeners@,
                        j,
                    )
                    &&& final(self).setups@[i].listeners@[j] == (TcpListenerData {
                        id: old(self).setups@[i].listeners@[j].id,
                        file,
                        data,
                        delay_write_ms,
                        port,
                        accept,
                        close_connection,
                    })
                },
            r matches Err(e) ==> final(self).setups@ == old(self).setups@ && e is CouldNotFind,
    {
        match position_setup(&self.setups, setup_id) {
            Option::Some(i) => {
                proof {
                    assert(first_setup(self.setups@, setup_id@, i as int));
                }
                match position_listener(&self.setups[i].listeners, listener_id) {
                    Option::Some(j) => {
                        proof {
                            assert(first_listener(
                                self.setups@[i as int].listeners@,
                                listener_id@,
                                j as int,
                            ));
                        }
                        let setup = &mut self.setups[i];
                        let listener = &mut setup.listeners[j];
                        listener.update(file, data, delay_write_ms, port, accept, close_connection);
                        Ok(())
                    },
                    Option::None => Err(
                        ApplicationError::CouldNotFind("Listener not found.".to_owned()),
                    ),
                }
            },
            Option::None => Err(ApplicationError::CouldNotFind("Setup not found.".to_owned())),
        }
    }

    /// The first server carrying the identifier within the first setup
    /// carrying its identifier, if both exist.
    pub fn get_server(&self, setup_id: &str, server_id: &str) -> (r: Option<&ServerConfiguration>)
        ensures
            r matches Some(s) ==> exists|i: int, j: int|
                first_setup(self.setups@, setup_id@, i) && #[trigger] first_server(
                    self.setups@[i].servers@,
                    server_id@,
                    j,
                ) && *s == self.setups@[i].servers@[j],
            r is None ==> no_setup(self.setups@, setup_id@) || exists|i: int|
                #[trigger] first_setup(self.setups@, setup_id@, i) && no_server(
                    self.setups@[i].servers@,
                    server_id@,
                ),
    {
        match position_setup(&self.setups, setup_id) {
            Option::Some(i) => {
                proof {
                    assert(first_setup(self.setups@, setup_id@, i as int));
                }
                match position_server(&self.setups[i].servers, server_id) {
                    Option::Some(j) => {
                        proof {
                            assert(first_server(
                                self.setups@[i as int].servers@,
                                server_id@,
                                j as int,
                            ));
                        }
                        Option::Some(&self.setups[i].servers[j])
                    },
                    Option::None => Option::None,
                }
            },
            Option::None => Option::None,
        }
    }

    /// Drop the first server carrying the identifier within the first setup
    /// carrying its identifier; either one missing is an error.
    pub fn delete_server(&mut self, setup_id: &str, server_id: &str) -> (r: Result<
        (),
        ApplicationError,
    >)
        ensures
            final(self).name == old(self).name,
            final(self).description == old(self).description,
            r is Ok <==> exists|i: int|
                #[trigger] first_setup(old(self).setups@, setup_id@, i) && !no_server(
                    old(self).setups@[i].servers@,
                    server_id@,
                ),
            r is Ok ==> exists|i: int, j: int|
                {
                    &&& first_setup(old(self).setups@, setup_id@, i)
                    &&& #[trigger] first_server(old(self).setups@[i].servers@, server_id@, j)
                    &&& setups_match_except(final(self).setups@, old(self).setups@, i)
                    &&& setup_same_but_servers(final(self).setups@[i], old(self).setups@[i])
                    &&& final(self).setups@[i].servers@ == old(self).setups@[i].servers@.remove(j)
                },
            r matches Err(e) ==> final(self).setups@ == old(self).setups@ && e is CouldNotFind,
    {
        match position_setup(&self.setups, setup_id) {
            Option::Some(i) => {
                proof {
                    assert(first_setup(self.setups@, setup_id@, i as int));
                }
                match position_server(&self.setups[i].servers, server_id) {
                    Option::Some(j) => {
                        proof {
                            assert(first_server(
                                self.setups@[i as int].servers@,
                                server_id@,
                                j as int,
                            ));
                        }
                        let setup = &mut self.setups[i];
                        setup.servers.remove(j);
                        Ok(())
                    },
                    Option::None => Err(
                        ApplicationError::CouldNotFind("Server not found.".to_owned()),
                    ),
                }
            },
            Option::None => Err(ApplicationError::CouldNotFind("Setup not found.".to_owned())),
        }
    }

    /// The first endpoint carrying the identifier within the first matching
    /// server within the first matching setup, if all three exist.
    pub fn get_endpoint(&self, setup_id: &str, server_id: &str, endpoint_id: &str) -> (r: Option<
        &EndpointConfiguration,
    >)
        ensures
            r matches Some(e) ==> exists|i: int, j: int, k: int|
                first_setup(self.setups@, setup_id@, i) && first_server(
                    self.setups@[i].servers@,
                    server_id@,
                    j,
                ) && #[trigger] first_endpoint(self.setups@[i].servers@[j].endpoints@, endpoint_id@, k) && *e
                    == self.setups@[i].servers@[j].endpoints@[k],
    {
        match position_setup(&self.setups, setup_id) {
            Option::Some(i) => {
                proof {
                    assert(first_setup(self.setups@, setup_id@, i as int));
                }
                match position_server(&self.setups[i].servers, server_id) {
                    Option::Some(j) => {
                        proof {
                            assert(first_server(
                                self.setups@[i as int].servers@,
                                server_id@,
                                j as int,
                            ));
                        }
                        match position_endpoint(&self.setups[i].servers[j].endpoints, endpoint_id) {
                            Option::Some(k) => {
                                proof {
                                    assert(first_endpoint(
                                        self.setups@[i as int].servers@[j as int].endpoints@,
                                        endpoint_id@,
                                        k as int,
                                    ));
                                }
                                Option::Some(&self.setups[i].servers[j].endpoints[k])
                            },
                            Option::None => Option::None,
                        }
                    },
                    Option::None => Option::None,
                }
            },
            Option::None => Option::None,
        }
    }

    /// Drop the first endpoint carrying the identifier within the first
    /// matching server within the first matching setup; anything missing is
    /// an error.
    pub fn delete_endpoint(&mut self, setup_id: &str, server_id: &str, endpoint_id: &str) -> (r:
        Result<(), ApplicationError>)
        ensures
            final(self).name == old(self).name,
            final(self).description == old(self).description,
            r is Ok <==> exists|i: int, j: int|
                first_setup(old(self).setups@, setup_id@, i) && #[trigger] first_server(
                    old(self).setups@[i].servers@,
                    server_id@,
                    j,
                ) && !no_endpoint(old(self).setups@[i].servers@[j].endpoints@, endpoint_id@),
            r is Ok ==> exists|i: int, j: int, k: int|
                {
                    &&& first_setup(old(self).setups@, setup_id@, i)
                    &&& first_server(old(self).setups@[i].servers@, server_id@, j)
                    &&& #[trigger] first_endpoint(
                        old(self).setups@[i].servers@[j].endpoints@,
                        endpoint_id@,
                        k,
                    )
                    &&& setups_match_except(final(self).setups@, old(self).setups@, i)
                    &&& setup_same_but_servers(final(self).setups@[i], old(self).setups@[i])
                    &&& servers_match_except(
                        final(self).setups@[i].servers@,
                        old(self).setups@[i].servers@,
                        j,
                    )
                    &&& server_same_but_endpoints(
                        final(self).setups@[i].servers@[j],
                        old(self).setups@[i].servers@[j],
                    )
                    &&& final(self).setups@[i].servers@[j].endpoints@ == old(
                        self,
                    ).setups@[i].servers@[j].endpoints@.remove(k)
                },
            r matches Err(e) ==> final(self).setups@ == old(self).setups@ && e is CouldNotFind,
    {
        match position_setup(&self.setups, setup_id) {
            Option::Some(i) => {
                proof {
                    assert(first_setup(self.setups@, setup_id@, i as int));
                }
                match position_server(&self.setups[i].servers, server_id) {
                    Option::Some(j) => {
                        proof {
                            assert(first_server(
                                self.setups@[i as int].servers@,
                                server_id@,
                                j as int,
                            ));
                        }
                        match position_endpoint(&self.setups[i].servers[j].endpoints, endpoint_id) {
                            Option::Some(k) => {
                                proof {
                                    assert(first_endpoint(
                                        self.setups@[i as int].servers@[j as int].endpoints@,
                                        endpoint_id@,
                                        k as int,
                                    ));
                                }
                                let setup = &mut self.setups[i];
                                let server = &mut setup.servers[j];
                                server.endpoints.remove(k);
                                Ok(())
                            },
                            Option::None => Err(
                                ApplicationError::CouldNotFind("Endpoint not found.".to_owned()),
                            ),
                        }
                    },
                    Option::None => Err(
                        ApplicationError::CouldNotFind("Server not found.".to_owned()),
                    ),
                }
            },
            Option::None => Err(ApplicationError::CouldNotFind("Setup not found.".to_owned())),
        }
    }

    /// Refill every field but the identifier of the first endpoint carrying
    /// the identifier within the first matching server within the first
    /// matching setup; anything missing is an error.
    pub fn update_endpoint(
        &mut self,
        setup_id: &str,
        server_id: &str,
        endpoint_id: &str,
        path_expression: Option<String>,
        body_expression: Option<String>,
        method: Option<String>,
        endpoint_type: Option<EndpointType>,
    ) -> (r: Result<(), ApplicationError>)
        ensures
            final(self).name == old(self).name,
            final(self).description == old(self).description,
            r is Ok <==> exists|i: int, j: int|
                first_setup(old(self).setups@, setup_id@, i) && #[trigger] first_server(
                    old(self).setups@[i].servers@,
                    server_id@,
                    j,
                ) && !no_endpoint(old(self).setups@[i].servers@[j].endpoints@, endpoint_id@),
            r is Ok ==> exists|i: int, j: int, k: int|
                {
                    &&& first_setup(old(self).setups@, setup_id@, i)
                    &&& first_server(old(self).setups@[i].servers@, server_id@, j)
                    &&& #[trigger] first_endpoint(
                        old(self).setups@[i].servers@[j].endpoints@,
                        endpoint_id@,
                        k,
                    )
                    &&& setups_match_except(final(self).setups@, old(self).setups@, i)
                    &&& setup_same_but_servers(final(self).setups@[i], old(self).setups@[i])
                    &&& servers_match_except(
                        final(self).setups@[i].servers@,
                        old(self).setups@[i].servers@,
                        j,
                    )
                    &&& server_same_but_endpoints(
                        final(self).setups@[i].servers@[j],
                        old(self).setups@[i].servers@[j],
                    )
                    &&& endpoints_match_except(
                        final(self).setups@[i].servers@[j].endpoints@,
                        old(self).setups@[i].servers@[j].endpoints@,
                        k,
                    )
                    &&& final(self).setups@[i].servers@[j].endpoints@[k]
                        == (EndpointConfiguration {
                        id: old(self).setups@[i].servers@[j].endpoints@[k].id,
                        path_expression,
                        body_expression,
                        method,
                        endpoint_type,
                    })
                },
            r matches Err(e) ==> final(self).setups@ == old(self).setups@ && e is CouldNotFind,
    {
        match position_setup(&self.setups, setup_id) {
            Option::Some(i) => {
                proof {
                    assert(first_setup(self.setups@, setup_id@, i as int));
                }
                match position_server(&self.setups[i].servers, server_id) {
                    Option::Some(j) => {
                        proof {
                            assert(first_server(
                                self.setups@[i as int].servers@,
                                server_id@,
                                j as int,
                            ));
                        }
                        match position_endpoint(&self.setups[i].servers[j].endpoints, endpoint_id) {
                            Option::Some(k) => {
                                proof {
                                    assert(first_endpoint(
                                        self.setups@[i as int].servers@[j as int].endpoints@,
                                        endpoint_id@,
                                        k as int,
                                    ));
                                }
                                let setup = &mut self.setups[i];
                                let server = &mut setup.servers[j];
                                let endpoint = &mut server.endpoints[k];
                                endpoint.path_expression = path_expression;
                                endpoint.body_expression = body_expression;
                                endpoint.method = method;
                                endpoint.endpoint_type = endpoint_type;
                                Ok(())
                            },
                            Option::None => Err(
                                ApplicationError::CouldNotFind("Endpoint not found.".to_owned()),
                            ),
                        }
                    },
                    Option::None => Err(
                        ApplicationError::CouldNotFind("Server not found.".to_owned()),
                    ),
                }
            },
            Option::None => Err(ApplicationError::CouldNotFind("Setup not found.".to_owned())),
        }
    }

    /// Add a required parameter to the first setup carrying the identifier;
    /// none found is an error.
    pub fn add_param(&mut self, setup_id: &str, param: String) -> (r: Result<
        (),
        ApplicationError,
    >)
        ensures
            final(self).name == old(self).name,
            final(self).description == old(self).description,
            r is Ok <==> !no_setup(old(self).setups@, setup_id@),
            r is Ok ==> exists|i: int|
                {
                    &&& #[trigger] first_setup(old(self).setups@, setup_id@, i)
                    &&& setups_match_except(final(self).setups@, old(self).setups@, i)
                    &&& param_added(old(self).setups@[i], final(self).setups@[i], param@)
                },
            r matches Err(e) ==> final(self).setups@ == old(self).setups@ && e is CouldNotFind,
    {
        match position_setup(&self.setups, setup_id) {
            Option::Some(i) => {
                proof {
                    assert(first_setup(self.setups@, setup_id@, i as int));
                }
                let setup = &mut self.setups[i];
                setup.add_param(param);
                Ok(())
            },
            Option::None => Err(ApplicationError::CouldNotFind("Setup not found.".to_owned())),
        }
    }

    /// Drop a required parameter from the first setup carrying the
    /// identifier; none found is an error.
    pub fn remove_param(&mut self, setup_id: &str, param: &str) -> (r: Result<
        (),
        ApplicationError,
    >)
        ensures
            final(self).name == old(self).name,
            final(self).description == old(self).description,
            r is Ok <==> !no_setup(old(self).setups@, setup_id@),
            r is Ok ==> exists|i: int|
                {
                    &&& #[trigger] first_setup(old(self).setups@, setup_id@, i)
                    &&& setups_match_except(final(self).setups@, old(self).setups@, i)
                    &&& param_removed(old(self).setups@[i], final(self).setups@[i], param@)
                },
            r matches Err(e) ==> final(self).setups@ == old(self).setups@ && e is CouldNotFind,
    {
        match position_setup(&self.setups, setup_id) {
            Option::Some(i) => {
                proof {
                    assert(first_setup(self.setups@, setup_id@, i as int));
                }
                let setup = &mut self.setups[i];
                setup.remove_param(param);
                Ok(())
            },
            Option::None => Err(ApplicationError::CouldNotFind("Setup not found.".to_owned())),
        }
    }
}

impl Clone for AppConfiguration {
    /// A copy carrying the same values.
    fn clone(&self) -> (r: Self)
        ensures
            r.eqv(self),
    {
        AppConfiguration {
            name: self.name.clone(),
            description: self.description.clone(),
            setups: clone_setups(&self.setups),
        }
    }
}

/// A copy of a setup list, element for element.
fn clone_setups(v: &Vec<SetupConfiguration>) -> (r: Vec<SetupConfiguration>)
    ensures
        r@.len() == v@.len(),
        forall|i: int| 0 <= i < v@.len() ==> (#[trigger] r@[i]).eqv(&v@[i]),
{
    let mut out: Vec<SetupConfiguration> = Vec::new();
    let mut i: usize = 0;
    while i < v.len()
        invariant
            i <= v@.len(),
            out@.len() == i,
            forall|j: int| 0 <= j < i ==> (#[trigger] out@[j]).eqv(&v@[j]),
        decreases v@.len() - i,
    {
        out.push(v[i].clone());
        i = i + 1;
    }
    out
}

/// The first setup carrying the identifier, if any.
fn position_setup(v: &Vec<SetupConfiguration>, id: &str) -> (r: Option<usize>)
    ensures
        r matches Some(i) ==> i < v@.len() && v@[i as int].id@ == id@ && forall|j: int|
            0 <= j < i ==> v@[j].id@ != id@,
        r is None ==> forall|j: int| 0 <= j < v@.len() ==> v@[j].id@ != id@,
{
    let mut i: usize = 0;
    while i < v.len()
        invariant
            i <= v@.len(),
            forall|j: int| 0 <= j < i ==> v@[j].id@ != id@,
        decreases v@.len() - i,
    {
        if eq_str(v[i].id.as_str(), id) {
            return Option::Some(i);
        }
        i = i + 1;
    }
    Option::None
}

/// The first listener carrying the identifier, if any.
fn position_listener(v: &Vec<TcpListenerData>, id: &str) -> (r: Option<usize>)
    ensures
        r matches Some(i) ==> i < v@.len() && v@[i as int].id@ == id@ && forall|j: int|
            0 <= j < i ==> v@[j].id@ != id@,
        r is None ==> forall|j: int| 0 <= j < v@.len() ==> v@[j].id@ != id@,
{
    let mut i: usize = 0;
    while i < v.len()
        invariant
            i <= v@.len(),
            forall|j: int| 0 <= j < i ==> v@[j].id@ != id@,
        decreases v@.len() - i,
    {
        if eq_str(v[i].id.as_str(), id) {
            return Option::Some(i);
        }
        i = i + 1;
    }
    Option::None
}

} // verus!
