use sail::router::{local_response, proxy_error_response, route, HostHeader, ProxyError, Route};
use sail::settings::{Address, Application, DashboardSettings, RegistrySettings, Settings};

fn settings_with(applications: Vec<Application>) -> Settings {
    Settings {
        applications,
        server_port: 4250,
        dashboard: DashboardSettings { hostname: "dashboard.example".to_owned() },
        registry: RegistrySettings { hostname: "registry.example".to_owned() },
    }
}

fn app(name: &str, hostname: &str, address: Option<Address>) -> Application {
    Application { name: name.to_owned(), hostname: hostname.to_owned(), address }
}

#[test]
fn dashboard_hostname_always_reaches_dashboard() {
    // Even an application sharing the dashboard hostname never wins.
    let settings = settings_with(vec![app("impostor", "dashboard.example", None)]);
    let decision = route(&settings, &HostHeader::Value("dashboard.example".to_owned()));
    assert_eq!(decision, Route::Dashboard);
}

#[test]
fn registry_hostname_reaches_registry_after_dashboard() {
    let settings = settings_with(vec![]);
    let decision = route(&settings, &HostHeader::Value("registry.example".to_owned()));
    assert_eq!(decision, Route::Registry);
}

#[test]
fn missing_host_yields_400_whatever_the_configuration() {
    let empty = settings_with(vec![]);
    let full = settings_with(vec![app("blog", "blog.example", None)]);
    for settings in [empty, full] {
        let decision = route(&settings, &HostHeader::Missing);
        assert_eq!(decision, Route::BadRequest);
        let response = local_response(&decision).expect("400 is produced locally");
        assert_eq!(response.status, 400);
    }
}

#[test]
fn invalid_host_yields_400() {
    let settings = settings_with(vec![]);
    let decision = route(&settings, &HostHeader::Invalid);
    assert_eq!(decision, Route::BadRequest);
}

#[test]
fn unknown_hostname_yields_421() {
    let settings = settings_with(vec![app("blog", "blog.example", None)]);
    let decision = route(&settings, &HostHeader::Value("nowhere.example".to_owned()));
    assert_eq!(decision, Route::NotFound);
    let response = local_response(&decision).expect("421 is produced locally");
    assert_eq!(response.status, 421);
    assert!(response.body.contains("Misdirected"));
}

#[test]
fn application_with_address_is_proxied() {
    let address = Address { octet_a: 10, octet_b: 1, octet_c: 2, octet_d: 3, port: 8080 };
    let settings = settings_with(vec![app("blog", "blog.example", Some(address))]);
    let decision = route(&settings, &HostHeader::Value("blog.example".to_owned()));
    assert_eq!(decision, Route::Proxy(address));
    assert!(local_response(&decision).is_none());
}

#[test]
fn application_without_address_gets_placeholder_naming_it() {
    let settings = settings_with(vec![app("blog", "blog.example", None)]);
    let decision = route(&settings, &HostHeader::Value("blog.example".to_owned()));
    assert_eq!(decision, Route::Placeholder("blog".to_owned()));
    let response = local_response(&decision).expect("placeholder is produced locally");
    assert_eq!(response.status, 200);
    assert!(response.body.contains("blog"));
}

#[test]
fn first_match_wins_when_hostnames_collide() {
    let address = Address { octet_a: 10, octet_b: 0, octet_c: 0, octet_d: 9, port: 9000 };
    let settings = settings_with(vec![
        app("first", "shared.example", None),
        app("second", "shared.example", Some(address)),
    ]);
    let decision = route(&settings, &HostHeader::Value("shared.example".to_owned()));
    assert_eq!(decision, Route::Placeholder("first".to_owned()));
}

#[test]
fn proxy_failures_become_502_responses() {
    for error in [ProxyError::Connect, ProxyError::Handshake, ProxyError::SendRequest] {
        let response = proxy_error_response(&error);
        assert_eq!(response.status, 502);
        assert!(response.body.starts_with("Bad gateway"));
    }
}
