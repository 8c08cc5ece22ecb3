use apinae::collections::StringMap;
use apinae::collections::StringSet;
use apinae::config::CloseConnectionWhen;
use apinae::config::EndpointConfiguration;
use apinae::config::EndpointType;
use apinae::config::MockResponseConfiguration;
use apinae::config::RouteConfiguration;
use apinae::config::ServerConfiguration;
use apinae::config::TcpListenerData;
use apinae::config::TlsVersion;
use apinae::dispatch::dispatch_request;
use apinae::error::ApplicationError;
use apinae::dispatch::DispatchDecision;
use apinae::matcher::check_regexp;
use apinae::matcher::is_valid_endpoint;
use apinae::matcher::match_key;
use apinae::matcher::select_endpoint;
use apinae::mock::generate_mock_response;
use apinae::mock::parse_status;
use apinae::params::get_predefined_set;
use apinae::params::parse_key_val;
use apinae::params::validate_parameters;
use apinae::params::Args;
use apinae::route::parse_query;
use apinae::route::plan_outbound_request;
use apinae::route::translate_response;
use apinae::route::HttpVersion;
use apinae::route::InboundRequest;
use apinae::route::UpstreamResponse;
use apinae::subst::subst;
use apinae::tcp::connection_step;
use apinae::tcp::PayloadSource;
use apinae::tcp::Readiness;
use apinae::tls::get_protocol_versions;
use apinae::tls::ProtocolVersion;

fn args_with(param: Vec<(String, String)>, predefined_set: Option<String>) -> Args {
    Args {
        file: "test.json".to_string(),
        id: Some("1".to_string()),
        list: false,
        param,
        list_params: false,
        list_predefined_sets: false,
        predefined_set,
        verify: false,
    }
}

#[test]
fn http_test_valid_endpoint() {
    let endpoint = EndpointConfiguration::new(
        Some("^\\/test$".to_string()),
        Some("GET".to_string()),
        Some("".to_string()),
        None,
    )
    .unwrap();
    assert!(is_valid_endpoint("/test", "GET", &endpoint, &Some("body".to_string())).unwrap());
}

#[test]
fn http_test_get_supported_tls_versions() {
    let supported_tls_versions = vec![
        TlsVersion::TLSv1_0,
        TlsVersion::TLSv1_1,
        TlsVersion::TLSv1_2,
    ];
    let protocol_versions = get_protocol_versions(&supported_tls_versions);
    assert_eq!(protocol_versions.len(), 3);
    assert_eq!(
        protocol_versions,
        vec![
            ProtocolVersion::Tls12,
            ProtocolVersion::Tls12,
            ProtocolVersion::Tls12,
        ]
    );
}

#[test]
fn http_test_generate_mock_response() {
    let mock_response = MockResponseConfiguration::new(
        Some("Test".to_owned()),
        "200".to_owned(),
        StringMap::new(),
        0,
    );
    let response = generate_mock_response(&mock_response, &Vec::new());
    assert!(response.is_ok());
    assert_eq!(response.unwrap().status, 200);
}

#[test]
fn test_matcher_rejects_wrong_method_and_path() {
    let endpoint = EndpointConfiguration::new(
        Some("^/test$".to_string()),
        Some("GET".to_string()),
        None,
        None,
    )
    .unwrap();
    assert!(!is_valid_endpoint("/test", "POST", &endpoint, &None).unwrap());
    assert!(!is_valid_endpoint("/other", "GET", &endpoint, &None).unwrap());
    assert!(is_valid_endpoint("/test", "GET", &endpoint, &None).unwrap());
}

#[test]
fn test_body_expression_requires_a_body() {
    let endpoint =
        EndpointConfiguration::new(None, None, Some("ping".to_string()), None).unwrap();
    assert!(!is_valid_endpoint("/test", "GET", &endpoint, &None).unwrap());
    assert!(is_valid_endpoint("/test", "GET", &endpoint, &Some("ping pong".to_string())).unwrap());
    assert!(!is_valid_endpoint("/test", "GET", &endpoint, &Some("other".to_string())).unwrap());
}

#[test]
fn test_matcher_invalid_regex_is_error() {
    assert!(check_regexp(Some("(".to_string()), Some("x".to_string())).is_err());
    assert!(check_regexp(Some("(".to_string()), None).is_err());
    assert_eq!(
        check_regexp(Some("^a$".to_string()), Some("b".to_string())).unwrap(),
        false
    );
    assert_eq!(
        check_regexp(Some("^a$".to_string()), Some("a".to_string())).unwrap(),
        true
    );
    assert_eq!(check_regexp(None, Some("a".to_string())).unwrap(), true);
}

#[test]
fn test_select_endpoint_first_match_wins() {
    let first = EndpointConfiguration::new(Some("^/a$".to_string()), None, None, None).unwrap();
    let both = EndpointConfiguration::new(None, None, None, None).unwrap();
    let endpoints = vec![first, both];
    assert_eq!(
        select_endpoint(&endpoints, "/a", "GET", &None).unwrap(),
        Some(0)
    );
    assert_eq!(
        select_endpoint(&endpoints, "/b", "GET", &None).unwrap(),
        Some(1)
    );
    let strict =
        vec![EndpointConfiguration::new(Some("^/a$".to_string()), None, None, None).unwrap()];
    assert_eq!(select_endpoint(&strict, "/b", "GET", &None).unwrap(), None);
    let broken = vec![EndpointConfiguration::new(Some("(".to_string()), None, None, None).unwrap()];
    assert!(select_endpoint(&broken, "/a", "GET", &None).is_err());
}

#[test]
fn test_match_key_composition() {
    assert_eq!(match_key("/test", ""), "/test");
    assert_eq!(match_key("/test", "="), "/test");
    assert_eq!(match_key("/test", "a=1"), "/test?a=1");
}

#[test]
fn test_subst_interpolation() {
    let bindings = vec![
        ("greeting".to_string(), "Hello".to_string()),
        ("who".to_string(), "World".to_string()),
    ];
    assert_eq!(subst("${greeting}, ${who}!", &bindings), "Hello, World!");
    assert_eq!(subst("${status:-200}", &bindings), "${status:-200}");
    assert_eq!(subst("no placeholders", &bindings), "no placeholders");
    assert_eq!(subst("${who}${who}", &bindings), "WorldWorld");
}

#[test]
fn test_parse_status_bounds() {
    assert_eq!(parse_status("200").unwrap(), 200);
    assert_eq!(parse_status("0200").unwrap(), 200);
    assert!(parse_status("99").is_err());
    assert!(parse_status("1000").is_err());
    assert!(parse_status("abc").is_err());
    assert!(parse_status("").is_err());
    assert!(parse_status("20x").is_err());
}

#[test]
fn test_mock_response_with_params() {
    let mut headers = StringMap::new();
    headers.insert("X-Who".to_string(), "${who}".to_string());
    let mock = MockResponseConfiguration::new(
        Some("${greeting}, ${who}!".to_string()),
        "200".to_string(),
        headers,
        0,
    );
    let bindings = vec![
        ("greeting".to_string(), "Hello".to_string()),
        ("who".to_string(), "World".to_string()),
    ];
    let response = generate_mock_response(&mock, &bindings).unwrap();
    assert_eq!(response.status, 200);
    assert_eq!(response.body, Some("Hello, World!".to_string()));
    assert_eq!(
        response.headers,
        vec![("X-Who".to_string(), "World".to_string())]
    );
}

#[test]
fn test_mock_status_substituted_then_parsed() {
    let mock = MockResponseConfiguration::new(
        None,
        "${status}".to_string(),
        StringMap::new(),
        0,
    );
    let ok = generate_mock_response(&mock, &vec![("status".to_string(), "204".to_string())]);
    assert_eq!(ok.unwrap().status, 204);
    let bad = generate_mock_response(&mock, &Vec::new());
    assert!(bad.is_err());
}

#[test]
fn test_dispatch_http_mock() {
    let mock = MockResponseConfiguration::new(
        Some("{ \"test\": \"Success http\" }".to_string()),
        "200".to_string(),
        StringMap::new(),
        0,
    );
    let endpoint = EndpointConfiguration::new(
        Some("^/test$".to_string()),
        Some("GET".to_string()),
        None,
        Some(EndpointType::Mock {
            configuration: mock,
        }),
    )
    .unwrap();
    let server =
        ServerConfiguration::new("Server".to_string(), Some(8080), vec![endpoint], None).unwrap();
    let request = InboundRequest {
        method: "GET".to_string(),
        version: Some(HttpVersion::Http11),
        headers: Vec::new(),
        path: "/test".to_string(),
        query: "".to_string(),
        body: None,
    };
    match dispatch_request(&server, &request, &Vec::new()) {
        DispatchDecision::Mock { delay, response } => {
            assert_eq!(delay, 0);
            assert_eq!(response.status, 200);
            assert_eq!(response.body, Some("{ \"test\": \"Success http\" }".to_string()));
        }
        _ => panic!("expected a mock decision"),
    }
    let other = InboundRequest {
        method: "GET".to_string(),
        version: Some(HttpVersion::Http11),
        headers: Vec::new(),
        path: "/absent".to_string(),
        query: "".to_string(),
        body: None,
    };
    match dispatch_request(&server, &other, &Vec::new()) {
        DispatchDecision::NotImplemented => {}
        _ => panic!("expected not implemented"),
    }
}

#[test]
fn test_dispatch_route_plans_forward() {
    let route = RouteConfiguration::new(
        "http://upstream:9090".to_string(),
        Some("http://proxy:3128".to_string()),
        None,
        false,
        false,
        false,
        None,
        None,
        None,
        None,
        None,
        None,
    );
    let endpoint = EndpointConfiguration::new(
        Some("^/test".to_string()),
        None,
        None,
        Some(EndpointType::Route {
            configuration: route,
        }),
    )
    .unwrap();
    let server =
        ServerConfiguration::new("Server".to_string(), Some(8080), vec![endpoint], None).unwrap();
    let request = InboundRequest {
        method: "GET".to_string(),
        version: Some(HttpVersion::Http11),
        headers: vec![("accept".to_string(), "*/*".to_string())],
        path: "/test".to_string(),
        query: "a=1&b".to_string(),
        body: None,
    };
    match dispatch_request(&server, &request, &Vec::new()) {
        DispatchDecision::Forward { plan } => {
            assert_eq!(plan.url, "http://upstream:9090/test");
            assert_eq!(plan.method, "GET");
            assert_eq!(plan.version, HttpVersion::Http11);
            assert_eq!(
                plan.query,
                vec![
                    ("a".to_string(), "1".to_string()),
                    ("b".to_string(), "".to_string()),
                ]
            );
            assert_eq!(plan.client.proxy_url, Some("http://proxy:3128".to_string()));
        }
        _ => panic!("expected a forward decision"),
    }
}

#[test]
fn test_dispatch_reports_matcher_error() {
    let endpoint =
        EndpointConfiguration::new(Some("(".to_string()), None, None, None).unwrap();
    let server =
        ServerConfiguration::new("Server".to_string(), Some(8080), vec![endpoint], None).unwrap();
    let request = InboundRequest {
        method: "GET".to_string(),
        version: Some(HttpVersion::Http11),
        headers: Vec::new(),
        path: "/test".to_string(),
        query: "".to_string(),
        body: None,
    };
    match dispatch_request(&server, &request, &Vec::new()) {
        DispatchDecision::Unavailable { message } => {
            assert_eq!(message, "Configuration error: Error in regular expression (");
        }
        _ => panic!("expected service unavailable"),
    }
}

#[test]
fn test_plan_rejects_unknown_version() {
    let route = RouteConfiguration::new(
        "http://upstream:9090".to_string(),
        None,
        None,
        false,
        false,
        false,
        None,
        None,
        None,
        None,
        None,
        None,
    );
    let request = InboundRequest {
        method: "GET".to_string(),
        version: None,
        headers: Vec::new(),
        path: "/test".to_string(),
        query: "".to_string(),
        body: None,
    };
    assert!(plan_outbound_request(&route, &request).is_err());
}

#[test]
fn test_parse_query_splits_pairs() {
    let pairs = parse_query("a=1&b=2=3&c");
    assert_eq!(
        pairs,
        vec![
            ("a".to_string(), "1".to_string()),
            ("b".to_string(), "2=3".to_string()),
            ("c".to_string(), "".to_string()),
        ]
    );
    assert_eq!(parse_query(""), vec![("".to_string(), "".to_string())]);
}

#[test]
fn test_translate_response_checks_headers() {
    let good = UpstreamResponse {
        status: 200,
        headers: vec![("x".to_string(), b"ok value".to_vec())],
        body: "pong".to_string(),
    };
    let translated = translate_response(good).unwrap();
    assert_eq!(translated.status, 200);
    assert_eq!(
        translated.headers,
        vec![("x".to_string(), "ok value".to_string())]
    );
    assert_eq!(translated.body, "pong");
    let bad = UpstreamResponse {
        status: 200,
        headers: vec![("x".to_string(), vec![0x07])],
        body: String::new(),
    };
    assert!(translate_response(bad).is_err());
    let bad_status = UpstreamResponse {
        status: 42,
        headers: Vec::new(),
        body: String::new(),
    };
    assert!(translate_response(bad_status).is_err());
}

#[test]
fn test_tcp_listener_literal_data() {
    let listener = TcpListenerData::new(
        None,
        Some("Test".to_string()),
        None,
        8180,
        true,
        CloseConnectionWhen::AfterResponse,
    )
    .unwrap();
    let ready = Readiness {
        readable: true,
        writable: true,
        read_closed: false,
        write_closed: false,
    };
    let outcome = connection_step(&listener, true, ready);
    assert!(outcome.drain);
    let write = outcome.write.unwrap();
    assert_eq!(write.source, PayloadSource::Literal("Test".to_string()));
    assert!(outcome.close);
}

#[test]
fn test_tcp_listener_file_data() {
    let listener = TcpListenerData::new(
        Some("fixture.txt".to_string()),
        None,
        None,
        8181,
        true,
        CloseConnectionWhen::AfterResponse,
    )
    .unwrap();
    let ready = Readiness {
        readable: true,
        writable: true,
        read_closed: false,
        write_closed: false,
    };
    let outcome = connection_step(&listener, false, ready);
    let write = outcome.write.unwrap();
    assert_eq!(
        write.source,
        PayloadSource::FromFile("fixture.txt".to_string())
    );
    assert!(outcome.close);
}

#[test]
fn test_tcp_listener_close_modes() {
    let before_read = TcpListenerData::new(
        None,
        Some("Test".to_string()),
        None,
        8182,
        true,
        CloseConnectionWhen::BeforeRead,
    )
    .unwrap();
    let ready = Readiness {
        readable: true,
        writable: true,
        read_closed: false,
        write_closed: false,
    };
    let outcome = connection_step(&before_read, false, ready);
    assert!(outcome.close);
    assert!(outcome.write.is_none());
    assert!(!outcome.drain);

    let after_read = TcpListenerData::new(
        None,
        Some("Test".to_string()),
        None,
        8183,
        true,
        CloseConnectionWhen::AfterRead,
    )
    .unwrap();
    let outcome = connection_step(&after_read, false, ready);
    assert!(outcome.close);
    assert!(outcome.write.is_none());
    assert!(outcome.drain);

    let never = TcpListenerData::new(
        None,
        Some("Test".to_string()),
        None,
        8184,
        true,
        CloseConnectionWhen::Never,
    )
    .unwrap();
    let outcome = connection_step(&never, false, ready);
    assert!(!outcome.close);
    assert!(outcome.write.is_some());
    assert!(outcome.next_written);

    let closed_peer = Readiness {
        readable: false,
        writable: false,
        read_closed: true,
        write_closed: false,
    };
    let outcome = connection_step(&never, false, closed_peer);
    assert!(outcome.close);
    assert!(outcome.write.is_none());
}

#[test]
fn test_parse_key_val_splits_at_first_equals() {
    assert_eq!(
        parse_key_val("key=value").unwrap(),
        ("key".to_string(), "value".to_string())
    );
    assert_eq!(
        parse_key_val("k=a=b").unwrap(),
        ("k".to_string(), "a=b".to_string())
    );
    assert!(parse_key_val("novalue").is_err());
}

#[test]
fn test_validate_parameters() {
    let mut setup = apinae::config::SetupConfiguration::new(
        "Setup".to_string(),
        "Description".to_string(),
        Vec::new(),
        Vec::new(),
        None,
        None,
    )
    .unwrap();
    setup.add_param("param1".to_string());
    setup.add_param("param2".to_string());

    let args_missing_param = args_with(Vec::new(), None);
    assert!(validate_parameters(&setup, &args_missing_param).is_err());

    let args_missing_param1 = args_with(vec![("param2".to_string(), "2".to_string())], None);
    assert_eq!(
        validate_parameters(&setup, &args_missing_param1),
        Err(ApplicationError::CouldNotFind(
            "Missing parameter: param1".to_string()
        ))
    );

    let args_params_ok = args_with(
        vec![
            ("param2".to_string(), "2".to_string()),
            ("param1".to_string(), "1".to_string()),
        ],
        None,
    );
    assert_eq!(
        validate_parameters(&setup, &args_params_ok),
        Ok(vec![
            ("param2".to_string(), "2".to_string()),
            ("param1".to_string(), "1".to_string()),
        ])
    );

    let args_unknown = args_with(vec![("other".to_string(), "x".to_string())], None);
    assert!(validate_parameters(&setup, &args_unknown).is_err());
}

#[test]
fn test_validate_parameters_with_predefined_set() {
    let mut setup = apinae::config::SetupConfiguration::new(
        "Setup".to_string(),
        "Description".to_string(),
        Vec::new(),
        Vec::new(),
        None,
        None,
    )
    .unwrap();
    setup.add_param("greeting".to_string());
    setup.add_new_predefined_param_set().unwrap();
    let name = setup.predefined_params.as_ref().unwrap()[0].name.clone();
    let mut values = StringMap::new();
    values.insert("greeting".to_string(), "Hello".to_string());
    values.insert("extra".to_string(), "ignored".to_string());
    setup
        .update_predefined_param_set(&name, "Greetings", values)
        .unwrap();

    assert!(get_predefined_set(&setup, &"Greetings".to_string()).is_ok());
    assert!(get_predefined_set(&setup, &"absent".to_string()).is_err());

    let seeded = args_with(Vec::new(), Some("Greetings".to_string()));
    assert_eq!(
        validate_parameters(&setup, &seeded),
        Ok(vec![("greeting".to_string(), "Hello".to_string())])
    );

    let overridden = args_with(
        vec![("greeting".to_string(), "Hi".to_string())],
        Some("Greetings".to_string()),
    );
    assert_eq!(
        validate_parameters(&setup, &overridden),
        Ok(vec![("greeting".to_string(), "Hi".to_string())])
    );

    let missing_set = args_with(Vec::new(), Some("absent".to_string()));
    assert!(validate_parameters(&setup, &missing_set).is_err());

    setup.add_param("who".to_string());
    let extended = args_with(
        vec![("who".to_string(), "World".to_string())],
        Some("Greetings".to_string()),
    );
    assert_eq!(
        validate_parameters(&setup, &extended),
        Ok(vec![
            ("greeting".to_string(), "Hello".to_string()),
            ("who".to_string(), "World".to_string()),
        ])
    );

    let no_params = apinae::config::SetupConfiguration::new(
        "Setup".to_string(),
        "Description".to_string(),
        Vec::new(),
        Vec::new(),
        None,
        None,
    )
    .unwrap();
    assert_eq!(
        validate_parameters(&no_params, &args_with(vec![("x".to_string(), "y".to_string())], None)),
        Ok(Vec::new())
    );
}

#[test]
fn test_get_setup_by_id() {
    let setup = apinae::config::SetupConfiguration::new(
        "Setup".to_string(),
        "Description".to_string(),
        Vec::new(),
        Vec::new(),
        None,
        None,
    )
    .unwrap();
    let id = setup.id.clone();
    let config =
        apinae::config::AppConfiguration::new("Name".to_string(), "Desc".to_string(), vec![setup]);
    assert!(apinae::params::get_setup(&id, &config).is_ok());
    assert!(apinae::params::get_setup("2", &config).is_err());
}

#[test]
fn test_plan_setup_builds_fleet() {
    let server =
        ServerConfiguration::new("Server".to_string(), Some(8080), Vec::new(), None).unwrap();
    let listener = TcpListenerData::new(
        None,
        Some("Test".to_string()),
        None,
        8180,
        true,
        CloseConnectionWhen::AfterResponse,
    )
    .unwrap();
    let setup = apinae::config::SetupConfiguration::new(
        "Setup".to_string(),
        "Description".to_string(),
        vec![server],
        vec![listener],
        None,
        None,
    )
    .unwrap();
    let params = vec![("k".to_string(), "v".to_string())];
    let plan = apinae::setup::plan_setup(&setup, &params);
    assert_eq!(plan.len(), 2);
    match &plan[0] {
        apinae::setup::StartablePlan::Server {
            configuration,
            params: p,
        } => {
            assert_eq!(configuration.name, "Server");
            assert_eq!(p, &params);
        }
        _ => panic!("expected a server first"),
    }
    match &plan[1] {
        apinae::setup::StartablePlan::Listener { listener } => {
            assert_eq!(listener.tcp_listener.port, 8180);
        }
        _ => panic!("expected a listener second"),
    }
}

#[test]
fn test_settings_defaults() {
    let settings = apinae::settings::Settings::default();
    assert_eq!(settings.apinae_path, None);
    assert_eq!(settings.body_height, "8pc");
    let custom =
        apinae::settings::Settings::new(Some("/usr/bin/apinae".to_string()), "10pc".to_string());
    assert_eq!(custom.apinae_path, Some("/usr/bin/apinae".to_string()));
    assert_eq!(custom.body_height, "10pc");
}

#[test]
fn test_close_connection_labels() {
    assert_eq!(CloseConnectionWhen::BeforeRead.label(), "BeforeRead");
    assert_eq!(CloseConnectionWhen::from_label("AfterRead"), CloseConnectionWhen::AfterRead);
    assert_eq!(
        CloseConnectionWhen::from_label("unknown"),
        CloseConnectionWhen::AfterResponse
    );
    assert_eq!(TlsVersion::TLSv1_3.label(), "TLSv1.3");
    assert_eq!(TlsVersion::from_label("TLSv1.0"), TlsVersion::TLSv1_0);
    assert_eq!(TlsVersion::from_label("unknown"), TlsVersion::TLSv1_3);
}

#[test]
fn test_string_collections() {
    let mut map = StringMap::new();
    assert!(map.is_empty());
    map.insert("a".to_string(), "1".to_string());
    map.insert("b".to_string(), "2".to_string());
    map.insert("a".to_string(), "3".to_string());
    assert_eq!(map.len(), 2);
    assert_eq!(map.get("a"), Some(&"3".to_string()));
    assert_eq!(map.get("b"), Some(&"2".to_string()));
    assert_eq!(map.get("c"), None);
    assert!(map.contains_key("a"));
    map.remove("a");
    assert!(!map.contains_key("a"));
    assert_eq!(map.len(), 1);

    let mut set = StringSet::new();
    set.insert("x".to_string());
    set.insert("x".to_string());
    set.insert("y".to_string());
    assert_eq!(set.len(), 2);
    assert!(set.contains("x"));
    set.remove("x");
    assert!(!set.contains("x"));
    assert_eq!(set.len(), 1);
}
