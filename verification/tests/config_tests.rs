use sail::config::{load_settings, parse_settings, render_settings, LoadOutcome};
use sail::settings::{Address, Application, DashboardSettings, RegistrySettings, Settings};

fn sample_settings() -> Settings {
    Settings {
        applications: vec![
            Application {
                name: "blog".to_owned(),
                hostname: "blog.example".to_owned(),
                address: None,
            },
            Application {
                name: "shop".to_owned(),
                hostname: "shop.example".to_owned(),
                address: Some(Address {
                    octet_a: 127,
                    octet_b: 0,
                    octet_c: 0,
                    octet_d: 1,
                    port: 8080,
                }),
            },
        ],
        server_port: 4250,
        dashboard: DashboardSettings { hostname: "sail.example".to_owned() },
        registry: RegistrySettings { hostname: "registry.example".to_owned() },
    }
}

#[test]
fn default_settings_render_exactly() {
    let text = render_settings(&Settings::default());
    assert_eq!(
        text,
        "{\"applications\":[],\"server_port\":4250,\
         \"dashboard\":{\"hostname\":\"sail.jensmeindertsma.com\"},\
         \"registry\":{\"hostname\":\"registry.jensmeindertsma.com\"}}"
    );
}

#[test]
fn sample_settings_render_exactly() {
    let text = render_settings(&sample_settings());
    assert_eq!(
        text,
        "{\"applications\":[\
         {\"name\":\"blog\",\"hostname\":\"blog.example\",\"address\":null},\
         {\"name\":\"shop\",\"hostname\":\"shop.example\",\"address\":[127,0,0,1,8080]}\
         ],\"server_port\":4250,\
         \"dashboard\":{\"hostname\":\"sail.example\"},\
         \"registry\":{\"hostname\":\"registry.example\"}}"
    );
}

#[test]
fn settings_round_trip_exactly() {
    let original = sample_settings();
    let text = render_settings(&original);
    let reloaded = parse_settings(&text).expect("rendered settings must parse");
    assert_eq!(reloaded, original);
}

#[test]
fn round_trip_preserves_escaped_hostnames() {
    let mut odd = sample_settings();
    odd.applications[0].name = "na\"me\\with\nescapes\tand\rmore".to_owned();
    odd.dashboard.hostname = "a \"quoted\" host".to_owned();
    let text = render_settings(&odd);
    let reloaded = parse_settings(&text).expect("escaped settings must parse");
    assert_eq!(reloaded, odd);
}

#[test]
fn parser_accepts_human_edited_whitespace() {
    let text = "  {\"applications\":[ {\"name\":\"blog\",\"hostname\":\"blog.example\",\"address\": null } ],\"server_port\": 8080 ,\"dashboard\":{\"hostname\":\"d.example\"},\"registry\":{\"hostname\":\"r.example\"}}  ";
    let parsed = parse_settings(text).expect("whitespace-tolerant parse");
    assert_eq!(parsed.server_port, 8080);
    assert_eq!(parsed.applications.len(), 1);
    assert_eq!(parsed.applications[0].name, "blog");
    assert_eq!(parsed.dashboard.hostname, "d.example");
}

#[test]
fn parser_reads_addresses() {
    let text = "{\"applications\":[{\"name\":\"a\",\"hostname\":\"a.example\",\"address\":[10,0,0,7,3000]}],\"server_port\":1,\"dashboard\":{\"hostname\":\"d\"},\"registry\":{\"hostname\":\"r\"}}";
    let parsed = parse_settings(text).expect("address parse");
    let address = parsed.applications[0].address.expect("address present");
    assert_eq!(
        (address.octet_a, address.octet_b, address.octet_c, address.octet_d, address.port),
        (10, 0, 0, 7, 3000)
    );
}

#[test]
fn parser_rejects_garbage() {
    assert!(parse_settings("not a settings file").is_none());
    assert!(parse_settings("").is_none());
    assert!(parse_settings("{\"applications\":[],\"server_port\":4250}").is_none());
}

#[test]
fn parser_rejects_out_of_range_numbers() {
    let too_big_port = "{\"applications\":[],\"server_port\":65536,\"dashboard\":{\"hostname\":\"d\"},\"registry\":{\"hostname\":\"r\"}}";
    assert!(parse_settings(too_big_port).is_none());
    let too_big_octet = "{\"applications\":[{\"name\":\"a\",\"hostname\":\"h\",\"address\":[256,0,0,1,80]}],\"server_port\":1,\"dashboard\":{\"hostname\":\"d\"},\"registry\":{\"hostname\":\"r\"}}";
    assert!(parse_settings(too_big_octet).is_none());
}

#[test]
fn parser_rejects_trailing_text() {
    let mut text = render_settings(&Settings::default());
    text.push_str("x");
    assert!(parse_settings(&text).is_none());
}

#[test]
fn load_missing_file_gives_defaults() {
    match load_settings(None) {
        LoadOutcome::Defaults(settings) => assert_eq!(settings, Settings::default()),
        other => panic!("expected defaults, got {other:?}"),
    }
}

#[test]
fn load_present_file_gives_its_settings() {
    let text = render_settings(&sample_settings());
    match load_settings(Some(&text)) {
        LoadOutcome::Loaded(settings) => assert_eq!(settings, sample_settings()),
        other => panic!("expected loaded settings, got {other:?}"),
    }
}

#[test]
fn load_corrupt_file_is_fatal_not_defaulted() {
    let corrupt = "{\"applications\": oops".to_owned();
    assert!(matches!(load_settings(Some(&corrupt)), LoadOutcome::Corrupt));
}
