use sail::protocol::{
    decode_message, encode_reply, SocketFailure, SocketReply, SocketRequest, SocketResponse,
};
use sail::settings::{Address, Application};

#[test]
fn decode_create_application_envelope() {
    let line = "{\"id\":1,\"request\":{\"CreateApplication\":{\"name\":\"blog\",\"hostname\":\"blog.example\"}}}";
    let message = decode_message(line).expect("envelope must decode");
    assert_eq!(message.id, 1);
    assert_eq!(
        message.request,
        SocketRequest::CreateApplication {
            name: "blog".to_owned(),
            hostname: "blog.example".to_owned()
        }
    );
}

#[test]
fn decode_bare_tag_requests() {
    let message = decode_message("{\"id\":7,\"request\":\"GetApplications\"}").unwrap();
    assert_eq!(message.id, 7);
    assert_eq!(message.request, SocketRequest::GetApplications);
    let message = decode_message("{\"id\":8,\"request\":\"GetDashboardHost\"}").unwrap();
    assert_eq!(message.request, SocketRequest::GetDashboardHost);
    let message = decode_message("{\"id\":9,\"request\":\"GetRegistryHost\"}").unwrap();
    assert_eq!(message.request, SocketRequest::GetRegistryHost);
}

#[test]
fn decode_edit_application_with_nulls() {
    let line = "{\"id\":3,\"request\":{\"EditApplication\":{\"name\":\"blog\",\"new_name\":null,\"new_hostname\":\"news.example\"}}}";
    let message = decode_message(line).unwrap();
    assert_eq!(
        message.request,
        SocketRequest::EditApplication {
            name: "blog".to_owned(),
            new_name: None,
            new_hostname: Some("news.example".to_owned()),
        }
    );
}

#[test]
fn decode_delete_and_edit_hosts() {
    let message =
        decode_message("{\"id\":4,\"request\":{\"DeleteApplication\":{\"name\":\"blog\"}}}").unwrap();
    assert_eq!(message.request, SocketRequest::DeleteApplication { name: "blog".to_owned() });
    let message =
        decode_message("{\"id\":5,\"request\":{\"EditDashboardHost\":{\"hostname\":\"d.example\"}}}")
            .unwrap();
    assert_eq!(message.request, SocketRequest::EditDashboardHost { hostname: "d.example".to_owned() });
    let message =
        decode_message("{\"id\":6,\"request\":{\"EditRegistryHost\":{\"hostname\":\"r.example\"}}}")
            .unwrap();
    assert_eq!(message.request, SocketRequest::EditRegistryHost { hostname: "r.example".to_owned() });
}

#[test]
fn decode_tolerates_whitespace_between_tokens() {
    let line = " { \"id\" : 2 , \"request\" : { \"GetApplication\" : { \"name\" : \"blog\" } } } ";
    // Keys are matched as single tokens, so space inside `"id" :` is not
    // accepted; whitespace before values and between braces is.
    assert!(decode_message(line).is_none());
    let line = "{\"id\": 2,\"request\": {\"GetApplication\": {\"name\": \"blog\"} } }";
    let message = decode_message(line).expect("whitespace before values is accepted");
    assert_eq!(message.id, 2);
    assert_eq!(message.request, SocketRequest::GetApplication { name: "blog".to_owned() });
}

#[test]
fn decode_unescapes_string_content() {
    let line = "{\"id\":1,\"request\":{\"CreateApplication\":{\"name\":\"a\\\"b\\\\c\\nd\",\"hostname\":\"h\\te\\rf\"}}}";
    let message = decode_message(line).unwrap();
    assert_eq!(
        message.request,
        SocketRequest::CreateApplication {
            name: "a\"b\\c\nd".to_owned(),
            hostname: "h\te\rf".to_owned()
        }
    );
}

#[test]
fn decode_rejects_malformed_records() {
    assert!(decode_message("").is_none());
    assert!(decode_message("hello").is_none());
    assert!(decode_message("{\"id\":1}").is_none());
    assert!(decode_message("{\"id\":1,\"request\":\"NoSuchRequest\"}").is_none());
    assert!(decode_message("{\"id\":1,\"request\":{\"NoSuchRequest\":{}}}").is_none());
    assert!(decode_message("{\"id\":-1,\"request\":\"GetApplications\"}").is_none());
    assert!(decode_message("{\"id\":1,\"request\":\"GetApplications\"} trailing").is_none());
    assert!(decode_message("{\"id\":1,\"request\":{\"CreateApplication\":{\"name\":\"a\"}}}").is_none());
}

#[test]
fn decode_ids_up_to_u64_max() {
    let message =
        decode_message("{\"id\":18446744073709551615,\"request\":\"GetApplications\"}").unwrap();
    assert_eq!(message.id, u64::MAX);
    assert!(decode_message("{\"id\":18446744073709551616,\"request\":\"GetApplications\"}").is_none());
}

#[test]
fn encode_unit_success_reply() {
    let reply = SocketReply { regarding: 1, response: Ok(SocketResponse::CreatedApplication) };
    assert_eq!(encode_reply(&reply), "{\"regarding\":1,\"response\":{\"Ok\":\"CreatedApplication\"}}");
}

#[test]
fn encode_failure_replies() {
    let reply = SocketReply { regarding: 2, response: Err(SocketFailure::NameInUse) };
    assert_eq!(encode_reply(&reply), "{\"regarding\":2,\"response\":{\"Err\":\"NameInUse\"}}");
    let reply = SocketReply { regarding: 3, response: Err(SocketFailure::ApplicationNotFound) };
    assert_eq!(
        encode_reply(&reply),
        "{\"regarding\":3,\"response\":{\"Err\":\"ApplicationNotFound\"}}"
    );
    let reply = SocketReply { regarding: 4, response: Err(SocketFailure::HostnameInUse) };
    assert_eq!(encode_reply(&reply), "{\"regarding\":4,\"response\":{\"Err\":\"HostnameInUse\"}}");
    let reply = SocketReply { regarding: 5, response: Err(SocketFailure::ConnectionClosed) };
    assert_eq!(
        encode_reply(&reply),
        "{\"regarding\":5,\"response\":{\"Err\":\"ConnectionClosed\"}}"
    );
}

#[test]
fn encode_application_list_reply() {
    let reply = SocketReply {
        regarding: 9,
        response: Ok(SocketResponse::Applications(vec![Application {
            name: "blog".to_owned(),
            hostname: "blog.example".to_owned(),
            address: Some(Address { octet_a: 10, octet_b: 0, octet_c: 0, octet_d: 2, port: 9000 }),
        }])),
    };
    assert_eq!(
        encode_reply(&reply),
        "{\"regarding\":9,\"response\":{\"Ok\":{\"Applications\":[\
         {\"name\":\"blog\",\"hostname\":\"blog.example\",\"address\":[10,0,0,2,9000]}]}}}"
    );
}

#[test]
fn encode_host_replies_escape_strings() {
    let reply = SocketReply {
        regarding: 6,
        response: Ok(SocketResponse::DashboardHost("a\"b".to_owned())),
    };
    assert_eq!(
        encode_reply(&reply),
        "{\"regarding\":6,\"response\":{\"Ok\":{\"DashboardHost\":\"a\\\"b\"}}}"
    );
}
