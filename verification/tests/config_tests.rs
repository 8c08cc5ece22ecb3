use apinae::collections::StringMap;
use apinae::config::AppConfiguration;
use apinae::config::EndpointConfiguration;
use apinae::config::EndpointType;
use apinae::config::MockResponseConfiguration;
use apinae::config::RouteConfiguration;
use apinae::config::ServerConfiguration;
use apinae::config::SetupConfiguration;
use apinae::error::ApplicationError;
use apinae::params::Args;

#[test]
fn test_configuration() {
    let configuration = AppConfiguration::new(
        "Test Configuration".to_string(),
        "Test Configuration Description".to_string(),
        vec![SetupConfiguration::new(
            "Test".to_string(),
            "Test Description".to_string(),
            vec![ServerConfiguration::new(
                "Server".to_string(),
                Some(8080),
                vec![EndpointConfiguration::new(
                    Some("/test".to_string()),
                    Some("GET".to_string()),
                    Some("Body".to_string()),
                    Some(EndpointType::Route {
                        configuration: RouteConfiguration::new(
                            "/test".to_string(),
                            None,
                            None,
                            false,
                            false,
                            false,
                            None,
                            None,
                            None,
                            None,
                            Some(10),
                            Some(100),
                        ),
                    }),
                )
                .unwrap()],
                None,
            )
            .unwrap()],
            Vec::new(),
            None,
            None,
        )
        .unwrap()],
    );

    assert_eq!(configuration.name, "Test Configuration");
    assert_eq!(configuration.description, "Test Configuration Description");
    assert_eq!(configuration.setups.len(), 1);
    assert_eq!(configuration.setups[0].name, "Test");
    assert_eq!(configuration.setups[0].description, "Test Description");
    assert_eq!(configuration.setups[0].servers.len(), 1);
    assert_eq!(configuration.setups[0].servers[0].name, "Server");
    assert_eq!(configuration.setups[0].servers[0].http_port, Some(8080));
    assert_eq!(configuration.setups[0].servers[0].endpoints.len(), 1);
    assert_eq!(
        configuration.setups[0].servers[0].endpoints[0].path_expression,
        Some("/test".to_owned())
    );
    assert_eq!(
        configuration.setups[0].servers[0].endpoints[0].method,
        Some("GET".to_owned())
    );
    assert_eq!(
        configuration.setups[0].servers[0].endpoints[0].body_expression,
        Some("Body".to_owned())
    );
    assert_eq!(
        configuration.setups[0].servers[0].endpoints[0].endpoint_type,
        Some(EndpointType::Route {
            configuration: RouteConfiguration::new(
                "/test".to_string(),
                None,
                None,
                false,
                false,
                false,
                None,
                None,
                None,
                None,
                Some(10),
                Some(100),
            ),
        })
    );
}

#[test]
fn test_daemon_args() {
    let args = Args {
        file: "test.json".to_string(),
        id: Some("1".to_string()),
        list: false,
        param: Vec::new(),
        list_params: false,
        list_predefined_sets: false,
        predefined_set: None,
        verify: false,
    };
    assert_eq!(args.file, "test.json");
    assert_eq!(args.id, Some("1".to_string()));
    assert!(!args.list);
}

#[test]
fn test_daemon_args_list() {
    let args = Args {
        file: "test.json".to_string(),
        id: None,
        list: true,
        param: Vec::new(),
        list_params: false,
        list_predefined_sets: false,
        predefined_set: None,
        verify: false,
    };
    assert_eq!(args.file, "test.json");
    assert_eq!(args.id, None);
    assert!(args.list);
}

#[test]
fn test_update_and_delete_setup() {
    let setup = SetupConfiguration::new(
        "Setup".to_string(),
        "Description".to_string(),
        Vec::new(),
        Vec::new(),
        None,
        None,
    )
    .unwrap();
    let setup_id = setup.id.clone();
    let mut configuration =
        AppConfiguration::new("Name".to_string(), "Desc".to_string(), vec![setup]);
    assert!(configuration.get_setup(&setup_id).is_some());
    assert!(configuration.get_setup("absent").is_none());
    assert!(configuration
        .update_setup(&setup_id, "Renamed", "Changed", None)
        .is_ok());
    assert_eq!(configuration.setups[0].name, "Renamed");
    assert_eq!(configuration.setups[0].description, "Changed");
    assert!(configuration.update_setup("absent", "x", "y", None).is_err());
    assert!(configuration.delete_setup("absent").is_err());
    assert!(configuration.delete_setup(&setup_id).is_ok());
    assert_eq!(configuration.setups.len(), 0);
}

#[test]
fn test_add_and_remove_param() {
    let mut setup = SetupConfiguration::new(
        "Setup".to_string(),
        "Description".to_string(),
        Vec::new(),
        Vec::new(),
        None,
        None,
    )
    .unwrap();
    setup.add_param("greeting".to_string());
    setup.add_param("who".to_string());
    setup.add_param("greeting".to_string());
    let params = setup.params.as_ref().unwrap();
    assert_eq!(params.len(), 2);
    assert!(params.contains("greeting"));
    assert!(params.contains("who"));
    setup.remove_param("greeting");
    assert_eq!(setup.params.as_ref().unwrap().len(), 1);
    setup.remove_param("who");
    assert!(setup.params.is_none());
}

#[test]
fn test_predefined_set_lifecycle() {
    let mut setup = SetupConfiguration::new(
        "Setup".to_string(),
        "Description".to_string(),
        Vec::new(),
        Vec::new(),
        None,
        None,
    )
    .unwrap();
    setup.add_param("greeting".to_string());
    setup.add_new_predefined_param_set().unwrap();
    let name = setup.predefined_params.as_ref().unwrap()[0].name.clone();
    assert!(name.starts_with("Untitled_"));
    assert_eq!(
        setup.predefined_params.as_ref().unwrap()[0]
            .values
            .get("greeting"),
        Some(&String::new())
    );
    let mut values = StringMap::new();
    values.insert("greeting".to_string(), "Hello".to_string());
    assert!(setup
        .update_predefined_param_set(&name, "Greetings", values)
        .is_ok());
    let renamed = &setup.predefined_params.as_ref().unwrap()[0];
    assert_eq!(renamed.name, "Greetings");
    assert_eq!(renamed.values.get("greeting"), Some(&"Hello".to_string()));
    assert!(setup.delete_predefined_param_set("absent").is_err());
    assert!(setup.delete_predefined_param_set("Greetings").is_ok());
    assert_eq!(setup.predefined_params.as_ref().unwrap().len(), 0);
}

#[test]
fn test_update_listener_and_endpoint() {
    let listener = apinae::config::TcpListenerData::new(
        None,
        Some("Test".to_string()),
        None,
        8180,
        true,
        apinae::config::CloseConnectionWhen::AfterResponse,
    )
    .unwrap();
    let listener_id = listener.id.clone();
    let endpoint = EndpointConfiguration::new(
        Some("^/test$".to_string()),
        Some("GET".to_string()),
        None,
        None,
    )
    .unwrap();
    let endpoint_id = endpoint.id.clone();
    let server =
        ServerConfiguration::new("Server".to_string(), Some(8080), vec![endpoint], None).unwrap();
    let server_id = server.id.clone();
    let setup = SetupConfiguration::new(
        "Setup".to_string(),
        "Description".to_string(),
        vec![server],
        vec![listener],
        None,
        None,
    )
    .unwrap();
    let setup_id = setup.id.clone();
    let mut configuration =
        AppConfiguration::new("Name".to_string(), "Desc".to_string(), vec![setup]);

    assert!(configuration
        .update_listener(
            &setup_id,
            &listener_id,
            Some("fixture.txt".to_string()),
            None,
            Some(5),
            8181,
            false,
            apinae::config::CloseConnectionWhen::Never,
        )
        .is_ok());
    let fetched = configuration.get_listener(&setup_id, &listener_id).unwrap();
    assert_eq!(fetched.file, Some("fixture.txt".to_string()));
    assert_eq!(fetched.port, 8181);
    assert!(!fetched.accept);

    assert!(configuration
        .update_endpoint(
            &setup_id,
            &server_id,
            &endpoint_id,
            Some("^/other$".to_string()),
            None,
            Some("POST".to_string()),
            Some(EndpointType::Mock {
                configuration: MockResponseConfiguration::new(
                    None,
                    "200".to_string(),
                    StringMap::new(),
                    0,
                ),
            }),
        )
        .is_ok());
    let fetched = configuration
        .get_endpoint(&setup_id, &server_id, &endpoint_id)
        .unwrap();
    assert_eq!(fetched.path_expression, Some("^/other$".to_string()));
    assert_eq!(fetched.method, Some("POST".to_string()));

    assert!(configuration
        .delete_endpoint(&setup_id, &server_id, &endpoint_id)
        .is_ok());
    assert!(configuration
        .delete_endpoint(&setup_id, &server_id, &endpoint_id)
        .is_err());
    assert!(configuration.delete_listener(&setup_id, &listener_id).is_ok());
    assert!(configuration.delete_server(&setup_id, &server_id).is_ok());
    assert_eq!(configuration.setups[0].servers.len(), 0);
}

#[test]
fn test_error_messages() {
    assert_eq!(
        ApplicationError::FileError("x".to_string()).to_message(),
        "File error: x"
    );
    assert_eq!(
        ApplicationError::CouldNotFind("y".to_string()).to_message(),
        "Could not find: y"
    );
    assert_eq!(
        ApplicationError::ConfigurationError("z".to_string()).to_message(),
        "Configuration error: z"
    );
    assert_eq!(
        ApplicationError::RoutingError("w".to_string()).to_message(),
        "Routing error: w"
    );
    assert_eq!(
        ApplicationError::ServerStartUpError("v".to_string()).to_message(),
        "Server start up error: v"
    );
    assert_eq!(
        ApplicationError::MissingId("u".to_string()).to_message(),
        "Missing id: u"
    );
}
