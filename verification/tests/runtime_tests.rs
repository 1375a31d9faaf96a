use sail::router::{local_response, route, HostHeader, Route};
use sail::runtime::{
    check_socket_activation, connection_step, handle_server_exit, handle_socket_exit,
    select_accept, ConnectionEvent, ConnectionStep, Failure, FileDescriptorError, HandlerError,
    JoinFailure, Selected, ServerError, ShutdownSignal, SocketError, GRACE_PERIOD_SECONDS,
};
use sail::settings::Settings;

#[test]
fn shutdown_is_selected_before_a_ready_connection() {
    assert_eq!(select_accept(true, true), Selected::Shutdown);
    assert_eq!(select_accept(true, false), Selected::Shutdown);
    assert_eq!(select_accept(false, true), Selected::Connection);
    assert_eq!(select_accept(false, false), Selected::Idle);
}

#[test]
fn shutdown_signal_is_persistent_and_idempotent() {
    let mut signal = ShutdownSignal::new();
    assert!(!signal.is_fired());
    signal.notify();
    assert!(signal.is_fired());
    assert!(signal.is_fired());
    signal.notify();
    assert!(signal.is_fired());
}

#[test]
fn socket_exit_outcomes_are_classified() {
    assert!(handle_socket_exit(Ok(Ok(()))).is_ok());
    assert_eq!(
        handle_socket_exit(Ok(Err(SocketError::Accept))),
        Err(Failure::Socket(SocketError::Accept))
    );
    assert_eq!(handle_socket_exit(Err(JoinFailure)), Err(Failure::Task(sail::runtime::Task::Socket)));
}

#[test]
fn server_exit_outcomes_are_classified() {
    assert!(handle_server_exit(Ok(Ok(()))).is_ok());
    assert_eq!(
        handle_server_exit(Ok(Err(ServerError::CreateListener))),
        Err(Failure::Server(ServerError::CreateListener))
    );
    assert_eq!(handle_server_exit(Err(JoinFailure)), Err(Failure::Task(sail::runtime::Task::Server)));
}

#[test]
fn socket_activation_requires_exactly_one_handle() {
    assert_eq!(check_socket_activation(None), Err(FileDescriptorError::Missing));
    assert_eq!(check_socket_activation(Some(&"1".to_owned())), Ok(()));
    assert_eq!(
        check_socket_activation(Some(&"2".to_owned())),
        Err(FileDescriptorError::Unexpected(2))
    );
    assert_eq!(check_socket_activation(Some(&"0".to_owned())), Err(FileDescriptorError::Unexpected(0)));
    assert_eq!(check_socket_activation(Some(&"abc".to_owned())), Err(FileDescriptorError::Parsing));
    assert_eq!(check_socket_activation(Some(&"1x".to_owned())), Err(FileDescriptorError::Parsing));
    assert_eq!(check_socket_activation(Some(&"300".to_owned())), Err(FileDescriptorError::Parsing));
    assert_eq!(check_socket_activation(Some(&"".to_owned())), Err(FileDescriptorError::Parsing));
}

#[test]
fn grace_period_is_a_small_number_of_seconds() {
    assert_eq!(GRACE_PERIOD_SECONDS, 5);
}

#[test]
fn connection_replies_echo_the_request_id() {
    let mut settings = Settings::default();
    let event = ConnectionEvent::Line("{\"id\":42,\"request\":\"GetDashboardHost\"}".to_owned());
    match connection_step(&mut settings, &event) {
        ConnectionStep::Reply(text) => assert_eq!(
            text,
            "{\"regarding\":42,\"response\":{\"Ok\":{\"DashboardHost\":\"sail.jensmeindertsma.com\"}}}\n"
        ),
        other => panic!("expected a reply, got {other:?}"),
    }
}

#[test]
fn connection_closes_cleanly_at_end_of_stream() {
    let mut settings = Settings::default();
    let before = settings.clone();
    let step = connection_step(&mut settings, &ConnectionEvent::EndOfStream);
    assert!(matches!(step, ConnectionStep::CloseClean));
    assert_eq!(settings, before);
}

#[test]
fn connection_aborts_on_malformed_record() {
    let mut settings = Settings::default();
    let before = settings.clone();
    let step = connection_step(&mut settings, &ConnectionEvent::Line("not json".to_owned()));
    assert!(matches!(step, ConnectionStep::Close(HandlerError::InvalidRequest)));
    assert_eq!(settings, before);
}

#[test]
fn connection_aborts_on_read_failure() {
    let mut settings = Settings::default();
    let step = connection_step(&mut settings, &ConnectionEvent::ReadFailed);
    assert!(matches!(step, ConnectionStep::Close(HandlerError::ReadFailed)));
}

#[test]
fn end_to_end_create_then_serve_placeholder() {
    // Start from the defaults, create an application over the control
    // channel, and then route a public request for its hostname.
    let mut settings = Settings::default();
    let line =
        "{\"id\":1,\"request\":{\"CreateApplication\":{\"name\":\"blog\",\"hostname\":\"blog.example\"}}}";
    match connection_step(&mut settings, &ConnectionEvent::Line(line.to_owned())) {
        ConnectionStep::Reply(text) => {
            assert_eq!(text, "{\"regarding\":1,\"response\":{\"Ok\":\"CreatedApplication\"}}\n");
        }
        other => panic!("expected a reply, got {other:?}"),
    }
    let decision = route(&settings, &HostHeader::Value("blog.example".to_owned()));
    assert_eq!(decision, Route::Placeholder("blog".to_owned()));
    let response = local_response(&decision).expect("placeholder page");
    assert_eq!(response.status, 200);
    assert!(response.body.contains("blog"));
}

#[test]
fn duplicate_create_reports_name_in_use_on_the_wire() {
    let mut settings = Settings::default();
    let line =
        "{\"id\":1,\"request\":{\"CreateApplication\":{\"name\":\"blog\",\"hostname\":\"blog.example\"}}}";
    let _ = connection_step(&mut settings, &ConnectionEvent::Line(line.to_owned()));
    let line2 =
        "{\"id\":2,\"request\":{\"CreateApplication\":{\"name\":\"blog\",\"hostname\":\"b2.example\"}}}";
    match connection_step(&mut settings, &ConnectionEvent::Line(line2.to_owned())) {
        ConnectionStep::Reply(text) => {
            assert_eq!(text, "{\"regarding\":2,\"response\":{\"Err\":\"NameInUse\"}}\n");
        }
        other => panic!("expected a reply, got {other:?}"),
    }
    assert_eq!(settings.applications.len(), 1);
}
