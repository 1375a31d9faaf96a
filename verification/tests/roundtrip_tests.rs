use sail::protocol::{
    decode_message, decode_reply, encode_message, encode_reply, ControlMessage, SocketFailure,
    SocketReply, SocketRequest, SocketResponse,
};
use sail::settings::{Address, Application};

fn requests() -> Vec<SocketRequest> {
    vec![
        SocketRequest::CreateApplication {
            name: "blog".to_owned(),
            hostname: "blog.example".to_owned(),
        },
        SocketRequest::GetApplication { name: "blog".to_owned() },
        SocketRequest::GetApplications,
        SocketRequest::EditApplication {
            name: "blog".to_owned(),
            new_name: Some("news".to_owned()),
            new_hostname: None,
        },
        SocketRequest::DeleteApplication { name: "blog".to_owned() },
        SocketRequest::GetDashboardHost,
        SocketRequest::GetRegistryHost,
        SocketRequest::EditDashboardHost { hostname: "d.example".to_owned() },
        SocketRequest::EditRegistryHost { hostname: "r.example".to_owned() },
    ]
}

#[test]
fn every_request_kind_round_trips_through_the_wire() {
    for (id, request) in requests().into_iter().enumerate() {
        let message = ControlMessage { id: id as u64, request };
        let line = encode_message(&message);
        let decoded = decode_message(&line).expect("an encoded envelope must decode");
        assert_eq!(decoded, message);
    }
}

#[test]
fn encoded_create_matches_the_exact_wire_text() {
    let message = ControlMessage {
        id: 1,
        request: SocketRequest::CreateApplication {
            name: "blog".to_owned(),
            hostname: "blog.example".to_owned(),
        },
    };
    assert_eq!(
        encode_message(&message),
        "{\"id\":1,\"request\":{\"CreateApplication\":{\"name\":\"blog\",\"hostname\":\"blog.example\"}}}"
    );
}

#[test]
fn every_reply_kind_round_trips_through_the_wire() {
    let replies: Vec<SocketReply> = vec![
        SocketReply { regarding: 1, response: Ok(SocketResponse::CreatedApplication) },
        SocketReply {
            regarding: 2,
            response: Ok(SocketResponse::Application(Application {
                name: "blog".to_owned(),
                hostname: "blog.example".to_owned(),
                address: Some(Address {
                    octet_a: 10,
                    octet_b: 0,
                    octet_c: 0,
                    octet_d: 1,
                    port: 9000,
                }),
            })),
        },
        SocketReply {
            regarding: 3,
            response: Ok(SocketResponse::Applications(vec![Application {
                name: "a".to_owned(),
                hostname: "a.example".to_owned(),
                address: None,
            }])),
        },
        SocketReply { regarding: 4, response: Ok(SocketResponse::EditedApplication) },
        SocketReply { regarding: 5, response: Ok(SocketResponse::DeletedApplication) },
        SocketReply { regarding: 6, response: Ok(SocketResponse::DashboardHost("d".to_owned())) },
        SocketReply { regarding: 7, response: Ok(SocketResponse::RegistryHost("r".to_owned())) },
        SocketReply { regarding: 8, response: Ok(SocketResponse::EditedDashboardHost) },
        SocketReply { regarding: 9, response: Ok(SocketResponse::EditedRegistryHost) },
        SocketReply { regarding: 10, response: Err(SocketFailure::NameInUse) },
        SocketReply { regarding: 11, response: Err(SocketFailure::ApplicationNotFound) },
        SocketReply { regarding: 12, response: Err(SocketFailure::HostnameInUse) },
        SocketReply { regarding: 13, response: Err(SocketFailure::ConnectionClosed) },
    ];
    for reply in replies {
        let line = encode_reply(&reply);
        let decoded = decode_reply(&line).expect("an encoded reply must decode");
        assert_eq!(decoded.regarding, reply.regarding);
        assert_eq!(decoded.response, reply.response);
    }
}

#[test]
fn reply_decoding_rejects_malformed_records() {
    assert!(decode_reply("").is_none());
    assert!(decode_reply("{\"regarding\":1}").is_none());
    assert!(decode_reply("{\"regarding\":1,\"response\":{\"Ok\":\"NoSuchTag\"}}").is_none());
    assert!(decode_reply("{\"regarding\":1,\"response\":{\"Err\":\"NoSuchFailure\"}}").is_none());
    assert!(
        decode_reply("{\"regarding\":1,\"response\":{\"Ok\":\"CreatedApplication\"}} x").is_none()
    );
}

#[test]
fn request_names_with_escapes_round_trip() {
    let message = ControlMessage {
        id: 99,
        request: SocketRequest::CreateApplication {
            name: "we\"ird\\name\n".to_owned(),
            hostname: "ho\tst\r".to_owned(),
        },
    };
    let line = encode_message(&message);
    let decoded = decode_message(&line).expect("escaped envelope must decode");
    assert_eq!(decoded, message);
}
