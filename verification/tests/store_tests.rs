use sail::protocol::{SocketFailure, SocketRequest, SocketResponse};
use sail::settings::Settings;
use sail::store::apply_request;

fn create(settings: &mut Settings, name: &str, hostname: &str) -> Result<SocketResponse, SocketFailure> {
    apply_request(
        settings,
        &SocketRequest::CreateApplication { name: name.to_owned(), hostname: hostname.to_owned() },
    )
}

#[test]
fn create_inserts_with_no_address() {
    let mut settings = Settings::default();
    let outcome = create(&mut settings, "blog", "blog.example");
    assert_eq!(outcome, Ok(SocketResponse::CreatedApplication));
    assert_eq!(settings.applications.len(), 1);
    assert_eq!(settings.applications[0].name, "blog");
    assert_eq!(settings.applications[0].hostname, "blog.example");
    assert!(settings.applications[0].address.is_none());
}

#[test]
fn create_with_taken_name_fails_and_no_duplicate_survives() {
    let mut settings = Settings::default();
    assert!(create(&mut settings, "blog", "blog.example").is_ok());
    let second = create(&mut settings, "blog", "other.example");
    assert_eq!(second, Err(SocketFailure::NameInUse));
    assert_eq!(settings.applications.len(), 1);
    assert_eq!(settings.applications[0].hostname, "blog.example");
}

#[test]
fn repeated_creates_never_exceed_distinct_names() {
    let mut settings = Settings::default();
    let submissions = ["a", "b", "a", "c", "b", "a", "a"];
    for name in submissions {
        let _ = create(&mut settings, name, "host.example");
    }
    assert_eq!(settings.applications.len(), 3);
}

#[test]
fn get_application_finds_and_reports_absence() {
    let mut settings = Settings::default();
    assert!(create(&mut settings, "blog", "blog.example").is_ok());
    let found = apply_request(&mut settings, &SocketRequest::GetApplication { name: "blog".to_owned() });
    match found {
        Ok(SocketResponse::Application(app)) => {
            assert_eq!(app.name, "blog");
            assert_eq!(app.hostname, "blog.example");
        }
        other => panic!("unexpected outcome: {other:?}"),
    }
    let missing = apply_request(&mut settings, &SocketRequest::GetApplication { name: "shop".to_owned() });
    assert_eq!(missing, Err(SocketFailure::ApplicationNotFound));
}

#[test]
fn get_applications_returns_all() {
    let mut settings = Settings::default();
    assert!(create(&mut settings, "blog", "blog.example").is_ok());
    assert!(create(&mut settings, "shop", "shop.example").is_ok());
    let outcome = apply_request(&mut settings, &SocketRequest::GetApplications);
    match outcome {
        Ok(SocketResponse::Applications(list)) => {
            assert_eq!(list.len(), 2);
            assert_eq!(list[0].name, "blog");
            assert_eq!(list[1].name, "shop");
        }
        other => panic!("unexpected outcome: {other:?}"),
    }
}

#[test]
fn edit_hostname_only_leaves_other_fields_identical() {
    let mut settings = Settings::default();
    assert!(create(&mut settings, "blog", "blog.example").is_ok());
    assert!(create(&mut settings, "shop", "shop.example").is_ok());
    let before_other = settings.applications[1].clone();
    let outcome = apply_request(
        &mut settings,
        &SocketRequest::EditApplication {
            name: "blog".to_owned(),
            new_name: None,
            new_hostname: Some("news.example".to_owned()),
        },
    );
    assert_eq!(outcome, Ok(SocketResponse::EditedApplication));
    assert_eq!(settings.applications[0].name, "blog");
    assert_eq!(settings.applications[0].hostname, "news.example");
    assert!(settings.applications[0].address.is_none());
    assert_eq!(settings.applications[1], before_other);
}

#[test]
fn edit_name_only_leaves_hostname_identical() {
    let mut settings = Settings::default();
    assert!(create(&mut settings, "blog", "blog.example").is_ok());
    let outcome = apply_request(
        &mut settings,
        &SocketRequest::EditApplication {
            name: "blog".to_owned(),
            new_name: Some("news".to_owned()),
            new_hostname: None,
        },
    );
    assert_eq!(outcome, Ok(SocketResponse::EditedApplication));
    assert_eq!(settings.applications[0].name, "news");
    assert_eq!(settings.applications[0].hostname, "blog.example");
}

#[test]
fn edit_unknown_name_is_silent_noop() {
    let mut settings = Settings::default();
    assert!(create(&mut settings, "blog", "blog.example").is_ok());
    let snapshot = settings.clone();
    let outcome = apply_request(
        &mut settings,
        &SocketRequest::EditApplication {
            name: "shop".to_owned(),
            new_name: None,
            new_hostname: Some("x.example".to_owned()),
        },
    );
    assert_eq!(outcome, Ok(SocketResponse::EditedApplication));
    assert_eq!(settings, snapshot);
}

#[test]
fn edit_rename_to_taken_name_fails() {
    let mut settings = Settings::default();
    assert!(create(&mut settings, "blog", "blog.example").is_ok());
    assert!(create(&mut settings, "shop", "shop.example").is_ok());
    let outcome = apply_request(
        &mut settings,
        &SocketRequest::EditApplication {
            name: "blog".to_owned(),
            new_name: Some("shop".to_owned()),
            new_hostname: None,
        },
    );
    assert_eq!(outcome, Err(SocketFailure::NameInUse));
    assert_eq!(settings.applications[0].name, "blog");
}

#[test]
fn delete_absent_name_succeeds_and_changes_nothing() {
    let mut settings = Settings::default();
    assert!(create(&mut settings, "blog", "blog.example").is_ok());
    let snapshot = settings.clone();
    let outcome =
        apply_request(&mut settings, &SocketRequest::DeleteApplication { name: "shop".to_owned() });
    assert_eq!(outcome, Ok(SocketResponse::DeletedApplication));
    assert_eq!(settings, snapshot);
}

#[test]
fn delete_removes_only_the_named_application() {
    let mut settings = Settings::default();
    assert!(create(&mut settings, "blog", "blog.example").is_ok());
    assert!(create(&mut settings, "shop", "shop.example").is_ok());
    let outcome =
        apply_request(&mut settings, &SocketRequest::DeleteApplication { name: "blog".to_owned() });
    assert_eq!(outcome, Ok(SocketResponse::DeletedApplication));
    assert_eq!(settings.applications.len(), 1);
    assert_eq!(settings.applications[0].name, "shop");
}

#[test]
fn dashboard_and_registry_hosts_get_and_set() {
    let mut settings = Settings::default();
    let dash = apply_request(&mut settings, &SocketRequest::GetDashboardHost);
    assert_eq!(dash, Ok(SocketResponse::DashboardHost("sail.jensmeindertsma.com".to_owned())));
    let set = apply_request(
        &mut settings,
        &SocketRequest::EditDashboardHost { hostname: "panel.example".to_owned() },
    );
    assert_eq!(set, Ok(SocketResponse::EditedDashboardHost));
    assert_eq!(settings.dashboard.hostname, "panel.example");
    let reg = apply_request(&mut settings, &SocketRequest::GetRegistryHost);
    assert_eq!(reg, Ok(SocketResponse::RegistryHost("registry.jensmeindertsma.com".to_owned())));
    let set_reg = apply_request(
        &mut settings,
        &SocketRequest::EditRegistryHost { hostname: "images.example".to_owned() },
    );
    assert_eq!(set_reg, Ok(SocketResponse::EditedRegistryHost));
    assert_eq!(settings.registry.hostname, "images.example");
}

#[test]
fn snapshot_is_a_deep_equal_copy() {
    let mut settings = Settings::default();
    assert!(create(&mut settings, "blog", "blog.example").is_ok());
    let copy = settings.snapshot();
    assert_eq!(copy, settings);
}
