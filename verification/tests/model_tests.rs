use apinae::collections::StringMap;
use apinae::config::EndpointConfiguration;
use apinae::config::HttpsConfiguration;
use apinae::config::MockResponseConfiguration;
use apinae::config::RouteConfiguration;
use apinae::config::ServerConfiguration;
use apinae::config::SetupConfiguration;
use apinae::config::TlsVersion;
use apinae::model::EndpointRow;
use apinae::model::HttpServerRow;
use apinae::model::HttpsRow;
use apinae::model::MockRow;
use apinae::model::RouteRow;
use apinae::model::SetupRow;

#[test]
fn test_setup_row_from_setup_configuration() {
    let setup_config = SetupConfiguration::new(
        "name".to_owned(),
        "description".to_owned(),
        Vec::new(),
        Vec::new(),
        None,
        None,
    )
    .unwrap();

    let setup_row = SetupRow::from(setup_config);

    assert_eq!(setup_row.name, "name");
    assert_eq!(setup_row.description, "description");
}

#[test]
fn test_http_server_row_from_server_configuration() {
    let server_config =
        ServerConfiguration::new("name".to_owned(), Some(8080), Vec::new(), None).unwrap();

    let http_server_row = HttpServerRow::from(&server_config);

    assert_eq!(http_server_row.name, "name");
    assert_eq!(http_server_row.https_config, None);
    assert_eq!(http_server_row.http_port, Some(8080));
}

#[test]
fn test_endpoint_row_from_endpoint_configuration() {
    let endpoint_config =
        EndpointConfiguration::new(Some("path".to_owned()), Some("method".to_owned()), None, None)
            .unwrap();

    let endpoint_row = EndpointRow::from(&endpoint_config);

    assert_eq!(endpoint_row.path_expression, Some("path".to_string()));
    assert_eq!(endpoint_row.method, Some("method".to_string()));
    assert_eq!(endpoint_row.mock, None);
    assert_eq!(endpoint_row.route, None);
}

#[test]
fn test_mock_row_from_mock_response_configuration() {
    let mock_config =
        MockResponseConfiguration::new(None, String::from("200"), StringMap::new(), 0);

    let mock_row = MockRow::from(&mock_config);

    assert_eq!(mock_row.response, None);
    assert_eq!(mock_row.status, String::from("200"));
    assert_eq!(mock_row.headers, String::new());
    assert_eq!(mock_row.delay, 0);
}

#[test]
fn test_route_row_from_route_configuration() {
    let route_config = RouteConfiguration::new(
        "url".to_owned(),
        None,
        None,
        false,
        false,
        false,
        Some(TlsVersion::TLSv1_2),
        Some(TlsVersion::TLSv1_1),
        None,
        None,
        Some(10),
        Some(20),
    );

    let route_row = RouteRow::from(&route_config);

    assert_eq!(route_row.url, "url");
    assert_eq!(route_row.proxy_url, None);
    assert!(!route_row.http1_only);
    assert!(!route_row.accept_invalid_certs);
    assert!(!route_row.accept_invalid_hostnames);
    assert_eq!(route_row.min_tls_version, Some("TLSv1.2".to_owned()));
    assert_eq!(route_row.max_tls_version, Some("TLSv1.1".to_owned()));
    assert_eq!(route_row.read_timeout, None);
    assert_eq!(route_row.connect_timeout, None);
    assert_eq!(route_row.delay_before, Some(10));
    assert_eq!(route_row.delay_after, Some(20));
}

#[test]
fn test_https_row_from_https_configuration() {
    let https_config = HttpsConfiguration::new(
        "server_certificate".to_owned(),
        "private_key".to_owned(),
        443,
        None,
        Vec::new(),
    );
    let https_row = HttpsRow::from(&https_config);

    assert_eq!(https_row.server_certificate, "server_certificate");
    assert_eq!(https_row.private_key, "private_key");
    assert_eq!(https_row.https_port, 443);
    assert_eq!(https_row.client_certificate, None);
    assert_eq!(https_row.supported_tls_versions, Vec::<String>::new());
}

#[test]
fn test_from_mockrow_to_mockresponseconfiguration() {
    let mock_row = MockRow {
        response: Some("response".to_owned()),
        status: String::from("200"),
        headers: "header: value\nheader2:\n \n".to_owned(),
        delay: 0,
    };

    let mock_config = MockResponseConfiguration::from(&mock_row);

    assert_eq!(mock_config.response, Some("response".to_owned()));
    assert_eq!(mock_config.status, String::from("200"));
    assert_eq!(mock_config.headers.get("header"), Some(&"value".to_owned()));
    assert_eq!(mock_config.headers.get("header2"), Some(&String::new()));
    assert_eq!(mock_config.delay, 0);
}

#[test]
fn test_from_mockrow_to_mockresponseconfiguration_no_header() {
    let mock_row = MockRow {
        response: None,
        status: String::from("200"),
        headers: String::new(),
        delay: 0,
    };

    let mock_config = MockResponseConfiguration::from(&mock_row);

    assert_eq!(mock_config.response, None);
    assert_eq!(mock_config.status, String::from("200"));
    assert_eq!(mock_config.headers.len(), 0);
    assert_eq!(mock_config.delay, 0);
}

#[test]
fn test_mock_row_round_trip_headers() {
    let mut headers = StringMap::new();
    headers.insert("X-Who".to_owned(), "World".to_owned());
    headers.insert("X-Extra".to_owned(), "1".to_owned());
    let mock_config = MockResponseConfiguration::new(
        Some("body".to_owned()),
        "200".to_owned(),
        headers,
        0,
    );
    let row = MockRow::from(&mock_config);
    assert_eq!(row.headers, "X-Who: World\nX-Extra: 1\n");
    let back = MockResponseConfiguration::from(&row);
    assert_eq!(back.headers.get("X-Who"), Some(&"World".to_owned()));
    assert_eq!(back.headers.get("X-Extra"), Some(&"1".to_owned()));
}

#[test]
fn test_tcp_listener_row_from_data() {
    let listener = apinae::config::TcpListenerData::new(
        Some("fixture.txt".to_owned()),
        Some("Test".to_owned()),
        Some(5),
        8180,
        true,
        apinae::config::CloseConnectionWhen::AfterResponse,
    )
    .unwrap();
    let row = apinae::model::TcpListenerRow::from(&listener);
    assert_eq!(row.file, Some("fixture.txt".to_owned()));
    assert_eq!(row.data, Some("Test".to_owned()));
    assert_eq!(row.delay_write_ms, Some(5));
    assert_eq!(row.port, 8180);
    assert!(row.accept);
    assert_eq!(row.close_connection, "AfterResponse");
}

#[test]
fn test_https_row_back_to_configuration() {
    let row = HttpsRow {
        server_certificate: "cert.pem".to_owned(),
        private_key: "key.pem".to_owned(),
        https_port: 8443,
        client_certificate: None,
        supported_tls_versions: vec!["TLSv1.2".to_owned(), "TLSv1.3".to_owned()],
    };
    let config = row.into_config();
    assert_eq!(config.server_certificate, "cert.pem");
    assert_eq!(
        config.supported_tls_versions,
        vec![TlsVersion::TLSv1_2, TlsVersion::TLSv1_3]
    );
}
