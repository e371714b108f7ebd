use registry_cache::span::Span;
use registry_cache::upstream::default_blob_invalidation_time;
use registry_cache::upstream::default_manifest_invalidation_time;
use registry_cache::upstream::transport_request;
use registry_cache::upstream::truth;
use registry_cache::upstream::ClientBuildError;
use registry_cache::upstream::Clients;
use registry_cache::upstream::SingleUpstreamConfig;
use registry_cache::upstream::UpstreamClient;
use registry_cache::upstream::UpstreamConfig;

fn fourteen_days() -> Span {
    Span::from_secs(14 * 86_400)
}

fn declared(namespace: &str, host: &str) -> SingleUpstreamConfig {
    SingleUpstreamConfig::with_host(namespace, host)
}

fn same_settings(left: &UpstreamClient, right: &UpstreamClient) -> bool {
    left.host() == right.host()
        && left.tls() == right.tls()
        && left.accept_invalid_certs() == right.accept_invalid_certs()
        && left.user_agent() == right.user_agent()
        && left.username() == right.username()
        && left.password() == right.password()
        && left.manifest_invalidation_time() == right.manifest_invalidation_time()
        && left.blob_invalidation_time() == right.blob_invalidation_time()
}

fn namespaces(clients: &Clients) -> Vec<String> {
    let mut names: Vec<String> =
        clients.invalidation_config().manifests.into_iter().map(|entry| entry.0).collect();
    names.sort();
    names
}

#[test]
fn truth_is_true() {
    assert!(truth());
}

#[test]
fn default_windows_are_fourteen_days() {
    assert_eq!(default_manifest_invalidation_time(), fourteen_days());
    assert_eq!(default_blob_invalidation_time(), fourteen_days());
    assert_eq!(default_blob_invalidation_time().as_nanos(), 1_209_600_000_000_000u128);
}

#[test]
fn new_takes_the_namespace_as_host() {
    let config = SingleUpstreamConfig::new("example.com");
    assert_eq!(config.namespace, "example.com");
    assert_eq!(config.host, "example.com");
    assert!(config.tls);
    assert!(!config.accept_invalid_certs);
    assert_eq!(config.user_agent, None);
    assert_eq!(config.username, None);
    assert_eq!(config.password, None);
    assert_eq!(config.manifest_invalidation_time, fourteen_days());
    assert_eq!(config.blob_invalidation_time, fourteen_days());
}

#[test]
fn with_host_keeps_namespace_and_host_apart() {
    let config = SingleUpstreamConfig::with_host("docker.io", "registry-1.docker.io");
    assert_eq!(config.namespace, "docker.io");
    assert_eq!(config.host, "registry-1.docker.io");
    assert!(config.tls);
    let copy = config.clone();
    assert_eq!(copy.namespace, "docker.io");
    assert_eq!(copy.host, "registry-1.docker.io");
}

#[test]
fn try_from_builds_the_client_as_declared() {
    let config = SingleUpstreamConfig {
        namespace: "internal".to_string(),
        host: "registry.internal:5000".to_string(),
        tls: false,
        accept_invalid_certs: true,
        user_agent: Some("cache/1".to_string()),
        username: Some("robot".to_string()),
        password: Some("secret".to_string()),
        manifest_invalidation_time: Span::from_secs(3_600),
        blob_invalidation_time: Span::from_secs(86_400),
    };
    let client = UpstreamClient::try_from(config).unwrap();
    assert_eq!(client.host(), "registry.internal:5000");
    assert!(!client.tls());
    assert!(client.accept_invalid_certs());
    assert_eq!(client.user_agent(), &Some("cache/1".to_string()));
    assert_eq!(client.username(), &Some("robot".to_string()));
    assert_eq!(client.password(), &Some("secret".to_string()));
    assert_eq!(client.manifest_invalidation_time(), Span::from_secs(3_600));
    assert_eq!(client.blob_invalidation_time(), Span::from_secs(86_400));
    let again = client.clone();
    assert!(same_settings(&client, &again));
    let _transport: &dkregistry::v2::Client = again.transport();
}

#[test]
fn transport_request_asks_for_what_is_declared() {
    let config = SingleUpstreamConfig {
        namespace: "internal".to_string(),
        host: "registry.internal:5000".to_string(),
        tls: false,
        accept_invalid_certs: true,
        user_agent: Some("cache/1".to_string()),
        username: Some("robot".to_string()),
        password: Some("secret".to_string()),
        manifest_invalidation_time: Span::from_secs(3_600),
        blob_invalidation_time: Span::from_secs(86_400),
    };
    let request = transport_request(&config);
    assert_eq!(request.host, "registry.internal:5000");
    assert!(request.insecure);
    assert!(request.accept_invalid_certs);
    assert_eq!(request.user_agent, Some("cache/1".to_string()));
    assert_eq!(request.username, Some("robot".to_string()));
    assert_eq!(request.password, Some("secret".to_string()));
}

#[test]
fn transport_request_of_a_default_declaration_asks_for_tls() {
    let request = transport_request(&SingleUpstreamConfig::with_host("docker.io", "registry-1.docker.io"));
    assert_eq!(request.host, "registry-1.docker.io");
    assert!(!request.insecure);
    assert!(!request.accept_invalid_certs);
    assert_eq!(request.user_agent, None);
    assert_eq!(request.username, None);
    assert_eq!(request.password, None);
}

#[test]
fn declares_default_tells_a_declared_default_namespace() {
    let declared_default = UpstreamConfig {
        default_upstream_namespace: "b".to_string(),
        upstreams: Some(vec![declared("a", "a.example"), declared("b", "b.example")]),
    };
    assert!(declared_default.declares_default());
    let undeclared = UpstreamConfig {
        default_upstream_namespace: "quay.io".to_string(),
        upstreams: Some(vec![declared("a", "a.example")]),
    };
    assert!(!undeclared.declares_default());
    let by_host_only = UpstreamConfig {
        default_upstream_namespace: "a.example".to_string(),
        upstreams: Some(vec![declared("a", "a.example")]),
    };
    assert!(!by_host_only.declares_default());
    let nothing_declared =
        UpstreamConfig { default_upstream_namespace: "a".to_string(), upstreams: Some(vec![]) };
    assert!(!nothing_declared.declares_default());
}

#[test]
fn declares_default_without_a_declaration_knows_docker_hub() {
    let hub = UpstreamConfig { default_upstream_namespace: "docker.io".to_string(), upstreams: None };
    assert!(hub.declares_default());
    let other = UpstreamConfig { default_upstream_namespace: "quay.io".to_string(), upstreams: None };
    assert!(!other.declares_default());
}

#[test]
fn from_outcome_names_the_host_that_failed() {
    let config = declared("a", "a.example");
    let failed = UpstreamClient::from_outcome(config, Err(dkregistry::errors::Error::NoCredentials));
    match failed {
        Err(e) => {
            assert_eq!(e.host, "a.example");
            assert!(matches!(e.cause, dkregistry::errors::Error::NoCredentials));
        }
        Ok(_) => panic!("expected the failure"),
    }
}

#[test]
fn from_outcome_completes_a_built_transport() {
    let transport = dkregistry::v2::Client::configure().registry("b.example").build().unwrap();
    let client = UpstreamClient::from_outcome(declared("b", "b.example"), Ok(transport)).unwrap();
    assert_eq!(client.host(), "b.example");
    assert!(client.tls());
}

#[test]
fn get_without_a_namespace_is_get_of_the_empty_namespace() {
    let config = UpstreamConfig {
        default_upstream_namespace: "mirror".to_string(),
        upstreams: Some(vec![declared("docker.io", "registry-1.docker.io"), declared("mirror", "mirror.example")]),
    };
    let mut clients = config.clients().unwrap();
    let unnamed = clients.get(None).unwrap();
    let empty = clients.get(Some("")).unwrap();
    let default = clients.get(Some("mirror")).unwrap();
    assert!(same_settings(&unnamed, &empty));
    assert!(same_settings(&unnamed, &default));
    assert_eq!(unnamed.host(), "mirror.example");
    assert_eq!(namespaces(&clients), vec!["".to_string(), "docker.io".to_string(), "mirror".to_string()]);
}

#[test]
fn get_of_an_unbound_namespace_takes_it_as_host() {
    let mut clients = Clients::new();
    assert!(!clients.contains("example.com"));
    assert!(clients.lookup("example.com").is_none());
    let first = clients.get(Some("example.com")).unwrap();
    assert_eq!(first.host(), "example.com");
    assert!(first.tls());
    assert!(!first.accept_invalid_certs());
    assert_eq!(first.user_agent(), &None);
    assert_eq!(first.username(), &None);
    assert_eq!(first.password(), &None);
    assert_eq!(first.manifest_invalidation_time(), fourteen_days());
    assert_eq!(first.blob_invalidation_time(), fourteen_days());
    assert!(clients.contains("example.com"));
    assert_eq!(namespaces(&clients), vec!["example.com".to_string()]);
    let cached = clients.lookup("example.com").unwrap();
    assert!(same_settings(&first, &cached));
    let second = clients.get(Some("example.com")).unwrap();
    assert!(same_settings(&first, &second));
    assert_eq!(namespaces(&clients), vec!["example.com".to_string()]);
}

#[test]
fn get_of_a_bound_namespace_gives_its_client() {
    let mut clients = Clients::new();
    clients.insert("a".to_string(), declared("a", "a.example")).unwrap();
    let found = clients.get(Some("a")).unwrap();
    assert_eq!(found.host(), "a.example");
    assert_eq!(namespaces(&clients), vec!["a".to_string()]);
}

#[test]
fn get_without_a_namespace_in_an_empty_registry_binds_the_empty_namespace() {
    let mut clients = Clients::new();
    let unnamed = clients.get(None).unwrap();
    assert_eq!(unnamed.host(), "");
    assert!(clients.contains(""));
}

#[test]
fn provision_binds_what_was_built() {
    let mut clients = Clients::new();
    let built = UpstreamClient::try_from(SingleUpstreamConfig::new("example.org"));
    let client = clients.provision("example.org", built).unwrap();
    assert_eq!(client.host(), "example.org");
    assert!(clients.contains("example.org"));
}

#[test]
fn provision_of_a_failure_binds_nothing() {
    let mut clients = Clients::new();
    clients.insert("a".to_string(), declared("a", "a.example")).unwrap();
    let failure = ClientBuildError {
        host: "bad host".to_string(),
        cause: dkregistry::errors::Error::V2NotSupported,
    };
    let outcome = clients.provision("bad host", Err(failure));
    match outcome {
        Err(e) => {
            assert_eq!(e.host, "bad host");
            assert!(matches!(e.cause, dkregistry::errors::Error::V2NotSupported));
        }
        Ok(_) => panic!("expected the failure"),
    }
    assert!(!clients.contains("bad host"));
    assert_eq!(namespaces(&clients), vec!["a".to_string()]);
}

#[test]
fn bind_replaces_the_client_of_a_namespace() {
    let mut clients = Clients::new();
    clients.insert("a".to_string(), declared("a", "old.example")).unwrap();
    let newer = UpstreamClient::try_from(declared("a", "new.example")).unwrap();
    clients.bind("a".to_string(), newer);
    assert_eq!(clients.lookup("a").unwrap().host(), "new.example");
    assert_eq!(namespaces(&clients), vec!["a".to_string()]);
}

#[test]
fn from_iter_keeps_the_later_of_two_bindings() {
    let entries = vec![
        ("a".to_string(), UpstreamClient::try_from(declared("a", "first.example")).unwrap()),
        ("b".to_string(), UpstreamClient::try_from(declared("b", "b.example")).unwrap()),
        ("a".to_string(), UpstreamClient::try_from(declared("a", "second.example")).unwrap()),
    ];
    let clients = Clients::from_iter(entries);
    assert_eq!(clients.lookup("a").unwrap().host(), "second.example");
    assert_eq!(clients.lookup("b").unwrap().host(), "b.example");
    assert_eq!(namespaces(&clients), vec!["a".to_string(), "b".to_string()]);
}

#[test]
fn clients_without_a_declaration_start_with_docker_hub() {
    let config = UpstreamConfig { default_upstream_namespace: "docker.io".to_string(), upstreams: None };
    let mut clients = config.clients().unwrap();
    assert_eq!(namespaces(&clients), vec!["".to_string(), "docker.io".to_string()]);
    let hub = clients.get(Some("docker.io")).unwrap();
    assert_eq!(hub.host(), "registry-1.docker.io");
    assert!(hub.tls());
    assert!(!hub.accept_invalid_certs());
    assert_eq!(hub.username(), &None);
    assert_eq!(hub.manifest_invalidation_time(), fourteen_days());
    assert_eq!(hub.blob_invalidation_time(), fourteen_days());
    let unnamed = clients.get(None).unwrap();
    assert!(same_settings(&hub, &unnamed));
}

#[test]
fn clients_with_an_undeclared_default_namespace_provision_it() {
    let config = UpstreamConfig {
        default_upstream_namespace: "quay.io".to_string(),
        upstreams: Some(vec![declared("a", "a.example")]),
    };
    let mut clients = config.clients().unwrap();
    assert_eq!(namespaces(&clients), vec!["".to_string(), "a".to_string(), "quay.io".to_string()]);
    assert_eq!(clients.get(None).unwrap().host(), "quay.io");
    assert_eq!(clients.get(Some("quay.io")).unwrap().host(), "quay.io");
    assert_eq!(clients.get(Some("a")).unwrap().host(), "a.example");
}

#[test]
fn clients_keep_the_later_of_two_declarations() {
    let config = UpstreamConfig {
        default_upstream_namespace: "a".to_string(),
        upstreams: Some(vec![declared("a", "first.example"), declared("a", "second.example")]),
    };
    let mut clients = config.clients().unwrap();
    assert_eq!(clients.get(Some("a")).unwrap().host(), "second.example");
    assert_eq!(clients.get(None).unwrap().host(), "second.example");
}

#[test]
fn clients_of_an_empty_declaration_hold_the_default_namespace_only() {
    let config =
        UpstreamConfig { default_upstream_namespace: "docker.io".to_string(), upstreams: Some(vec![]) };
    let mut clients = config.clients().unwrap();
    assert_eq!(namespaces(&clients), vec!["".to_string(), "docker.io".to_string()]);
    assert_eq!(clients.get(None).unwrap().host(), "docker.io");
}

#[test]
fn invalidation_config_lists_each_namespace_once() {
    let mut a = declared("a", "a.example");
    a.manifest_invalidation_time = Span::from_secs(3_600);
    a.blob_invalidation_time = Span::from_secs(100);
    let mut b = declared("b", "b.example");
    b.manifest_invalidation_time = Span::from_secs(86_400);
    b.blob_invalidation_time = Span::from_secs(300);
    let mut clients = Clients::new();
    clients.insert("a".to_string(), a.clone()).unwrap();
    clients.insert("b".to_string(), b).unwrap();
    clients.insert("a".to_string(), a).unwrap();
    let mut windows = clients.invalidation_config().manifests;
    windows.sort_by(|left, right| left.0.cmp(&right.0));
    assert_eq!(
        windows,
        vec![("a".to_string(), Span::from_secs(3_600)), ("b".to_string(), Span::from_secs(86_400))]
    );
}

#[test]
fn invalidation_config_takes_the_widest_blob_window() {
    let mut a = declared("a", "a.example");
    a.blob_invalidation_time = Span::from_secs(100);
    let mut b = declared("b", "b.example");
    b.blob_invalidation_time = Span::from_secs(300);
    let mut c = declared("c", "c.example");
    c.blob_invalidation_time = Span::from_secs(200);
    let mut clients = Clients::new();
    clients.insert("a".to_string(), a).unwrap();
    assert_eq!(clients.invalidation_config().blob, Span::from_secs(100));
    clients.insert("b".to_string(), b).unwrap();
    clients.insert("c".to_string(), c).unwrap();
    assert_eq!(clients.invalidation_config().blob, Span::from_secs(300));
}

#[test]
fn invalidation_config_of_an_empty_registry_has_the_default_blob_window() {
    let config = Clients::new().invalidation_config();
    assert_eq!(config.blob, fourteen_days());
    assert!(config.manifests.is_empty());
}
