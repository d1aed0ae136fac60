use connection_tracking::connection_counter::ConnectionType;
use connection_tracking::header_text::{
    contains, eq_ignore_ascii_case, equals, list_has_token, starts_with,
};
use connection_tracking::websocket::{
    classify, detect_connection_type, is_websocket_upgrade, is_websocket_upgrade_response,
    RequestFields, ResponseFields,
};
use http::HeaderValue;
use pingora_http::{RequestHeader, ResponseHeader};

fn create_websocket_request() -> RequestHeader {
    let mut req = RequestHeader::build("GET", b"/", None).unwrap();
    req.insert_header("upgrade", "websocket").unwrap();
    req.insert_header("connection", "Upgrade").unwrap();
    req.insert_header("sec-websocket-key", "dGhlIHNhbXBsZSBub25jZQ==")
        .unwrap();
    req.insert_header("sec-websocket-version", "13").unwrap();
    req
}

fn create_websocket_response() -> ResponseHeader {
    let mut resp = ResponseHeader::build(101, None).unwrap();
    resp.insert_header("upgrade", "websocket").unwrap();
    resp.insert_header("connection", "Upgrade").unwrap();
    resp.insert_header("sec-websocket-accept", "s3pPLMBiTxaQ9kYGzzhZRbK+xOo=")
        .unwrap();
    resp
}

#[test]
fn test_websocket_detection() {
    let req = create_websocket_request();
    assert!(is_websocket_upgrade(&req));

    let resp = create_websocket_response();
    assert!(is_websocket_upgrade_response(&resp));
}

#[test]
fn test_regular_http() {
    let req = RequestHeader::build("GET", b"/", None).unwrap();
    assert!(!is_websocket_upgrade(&req));
}

#[test]
fn test_connection_type_detection() {
    let ws_req = create_websocket_request();
    let ws_resp = create_websocket_response();

    assert_eq!(
        detect_connection_type(&ws_req, Some(&ws_resp)),
        ConnectionType::WebSocket
    );

    let http_req = RequestHeader::build("GET", b"/", None).unwrap();
    assert_eq!(
        detect_connection_type(&http_req, None),
        ConnectionType::Http
    );
}

#[test]
fn test_sse_detection() {
    let req = RequestHeader::build("GET", b"/events", None).unwrap();
    let mut resp = ResponseHeader::build(200, None).unwrap();
    resp.insert_header("content-type", "text/event-stream")
        .unwrap();

    assert_eq!(
        detect_connection_type(&req, Some(&resp)),
        ConnectionType::ServerSentEvents
    );
}

#[test]
fn test_grpc_detection() {
    let mut req = RequestHeader::build("POST", b"/service.Method", None).unwrap();
    req.insert_header("content-type", "application/grpc").unwrap();
    req.insert_header("te", "trailers").unwrap();

    assert_eq!(detect_connection_type(&req, None), ConnectionType::GrpcStream);
}

#[test]
fn test_websocket_post_not_upgrade() {
    // POST request shouldn't be WebSocket
    let mut req = RequestHeader::build("POST", b"/", None).unwrap();
    req.insert_header("upgrade", "websocket").unwrap();
    req.insert_header("connection", "Upgrade").unwrap();

    assert!(!is_websocket_upgrade(&req));
}

#[test]
fn an_upgrade_with_all_headers_needs_get() {
    let mut req = create_websocket_request();
    req.set_method(pingora_http::Method::POST);
    assert!(!is_websocket_upgrade(&req));
    assert_eq!(detect_connection_type(&req, None), ConnectionType::Http);
}

#[test]
fn each_header_of_the_upgrade_is_needed() {
    for name in ["upgrade", "connection", "sec-websocket-key", "sec-websocket-version"] {
        let mut req = create_websocket_request();
        req.remove_header(name);
        assert!(!is_websocket_upgrade(&req));
    }
    for name in ["upgrade", "connection"] {
        let mut resp = create_websocket_response();
        resp.remove_header(name);
        assert!(!is_websocket_upgrade_response(&resp));
    }
}

#[test]
fn the_websocket_version_is_13() {
    let mut req = create_websocket_request();
    req.insert_header("sec-websocket-version", "8").unwrap();
    assert!(!is_websocket_upgrade(&req));
    req.insert_header("Sec-WebSocket-Version", "13").unwrap();
    assert!(is_websocket_upgrade(&req));
}

#[test]
fn case_and_order_do_not_matter() {
    let mut req = create_websocket_request();
    req.insert_header("Upgrade", "WebSocket").unwrap();
    req.insert_header("Connection", "keep-alive,\t uPGRADE ").unwrap();
    assert!(is_websocket_upgrade(&req));
    req.insert_header("Connection", "UPGRADE, Keep-Alive").unwrap();
    assert!(is_websocket_upgrade(&req));
    req.insert_header("Connection", "keep-alive").unwrap();
    assert!(!is_websocket_upgrade(&req));
    req.insert_header("Connection", "upgrade-insecure").unwrap();
    assert!(!is_websocket_upgrade(&req));
}

#[test]
fn the_upgrade_header_is_taken_whole() {
    let mut req = create_websocket_request();
    req.insert_header("upgrade", "websocket, h2c").unwrap();
    assert!(!is_websocket_upgrade(&req));
    req.insert_header("upgrade", "websocket ").unwrap();
    assert!(!is_websocket_upgrade(&req));
}

#[test]
fn the_first_value_of_a_header_counts() {
    let mut req = create_websocket_request();
    req.insert_header("connection", "keep-alive").unwrap();
    req.append_header("connection", "upgrade").unwrap();
    assert!(!is_websocket_upgrade(&req));
    req.insert_header("connection", "upgrade").unwrap();
    req.append_header("connection", "keep-alive").unwrap();
    assert!(is_websocket_upgrade(&req));
}

#[test]
fn values_that_are_no_text_do_not_count() {
    let mut req = create_websocket_request();
    let value = HeaderValue::from_bytes(b"upgrade, \xff").unwrap();
    req.insert_header("connection", value).unwrap();
    assert!(!is_websocket_upgrade(&req));
    // The key is only looked for, so its value need not be text.
    let mut req = create_websocket_request();
    let value = HeaderValue::from_bytes(b"\xff").unwrap();
    req.insert_header("sec-websocket-key", value).unwrap();
    assert!(is_websocket_upgrade(&req));
}

#[test]
fn a_refused_upgrade_is_no_websocket() {
    let req = create_websocket_request();
    let mut resp = create_websocket_response();
    resp.set_status(426).unwrap();
    assert!(!is_websocket_upgrade_response(&resp));
    assert_eq!(detect_connection_type(&req, Some(&resp)), ConnectionType::Http);
    resp.insert_header("content-type", "text/event-stream").unwrap();
    assert_eq!(
        detect_connection_type(&req, Some(&resp)),
        ConnectionType::ServerSentEvents
    );
}

#[test]
fn a_pending_upgrade_is_a_websocket() {
    let req = create_websocket_request();
    assert_eq!(detect_connection_type(&req, None), ConnectionType::WebSocket);
}

#[test]
fn a_response_alone_is_no_websocket() {
    let req = RequestHeader::build("GET", b"/", None).unwrap();
    let resp = create_websocket_response();
    assert_eq!(detect_connection_type(&req, Some(&resp)), ConnectionType::Http);
}

#[test]
fn event_streams_may_have_parameters() {
    let req = RequestHeader::build("GET", b"/events", None).unwrap();
    let mut resp = ResponseHeader::build(200, None).unwrap();
    resp.insert_header("content-type", "text/event-stream; charset=utf-8").unwrap();
    assert_eq!(
        detect_connection_type(&req, Some(&resp)),
        ConnectionType::ServerSentEvents
    );
    resp.insert_header("content-type", "Text/Event-Stream").unwrap();
    assert_eq!(detect_connection_type(&req, Some(&resp)), ConnectionType::Http);
}

#[test]
fn grpc_needs_trailers() {
    let mut req = RequestHeader::build("POST", b"/service.Method", None).unwrap();
    req.insert_header("content-type", "application/grpc+proto").unwrap();
    assert_eq!(detect_connection_type(&req, None), ConnectionType::Http);
    req.insert_header("te", "gzip, trailers").unwrap();
    assert_eq!(detect_connection_type(&req, None), ConnectionType::GrpcStream);
    req.insert_header("content-type", "x-application/grpc").unwrap();
    assert_eq!(detect_connection_type(&req, None), ConnectionType::Http);
}

#[test]
fn events_come_before_grpc() {
    let mut req = RequestHeader::build("POST", b"/service.Method", None).unwrap();
    req.insert_header("content-type", "application/grpc").unwrap();
    req.insert_header("te", "trailers").unwrap();
    let mut resp = ResponseHeader::build(200, None).unwrap();
    assert_eq!(detect_connection_type(&req, Some(&resp)), ConnectionType::GrpcStream);
    resp.insert_header("content-type", "text/event-stream").unwrap();
    assert_eq!(
        detect_connection_type(&req, Some(&resp)),
        ConnectionType::ServerSentEvents
    );
}

#[test]
fn fields_can_be_classified_without_headers() {
    let mut req = RequestFields {
        method: "GET",
        upgrade: Some("websocket"),
        connection: Some("keep-alive, Upgrade"),
        has_websocket_key: true,
        websocket_version: Some("13"),
        content_type: None,
        te: None,
    };
    assert!(req.is_websocket_upgrade());
    assert_eq!(classify(&req, None), ConnectionType::WebSocket);
    let mut resp = ResponseFields {
        status: 101,
        upgrade: Some("websocket"),
        connection: Some("Upgrade"),
        content_type: None,
    };
    assert!(resp.is_websocket_upgrade());
    assert_eq!(classify(&req, Some(&resp)), ConnectionType::WebSocket);
    resp.status = 200;
    assert_eq!(classify(&req, Some(&resp)), ConnectionType::Http);
    req.method = "get";
    assert!(!req.is_websocket_upgrade());
}

#[test]
fn fields_are_read_from_the_headers() {
    let req = create_websocket_request();
    let fields = RequestFields::read(&req);
    assert_eq!(fields.method, "GET");
    assert_eq!(fields.upgrade, Some("websocket"));
    assert_eq!(fields.connection, Some("Upgrade"));
    assert!(fields.has_websocket_key);
    assert_eq!(fields.websocket_version, Some("13"));
    assert_eq!(fields.content_type, None);
    assert_eq!(fields.te, None);
    let resp = create_websocket_response();
    let fields = ResponseFields::read(&resp);
    assert_eq!(fields.status, 101);
    assert_eq!(fields.upgrade, Some("websocket"));
    assert_eq!(fields.connection, Some("Upgrade"));
    assert_eq!(fields.content_type, None);
}

#[test]
fn texts_are_compared() {
    assert!(equals("GET", "GET"));
    assert!(!equals("GET", "get"));
    assert!(!equals("GET", "GETS"));
    assert!(equals("\u{e9}", "\u{e9}"));
    assert!(eq_ignore_ascii_case("WebSocket", "websocket"));
    assert!(!eq_ignore_ascii_case("websockets", "websocket"));
    assert!(!eq_ignore_ascii_case("[", "{"));
}

#[test]
fn lists_are_searched() {
    assert!(list_has_token("upgrade", "upgrade"));
    assert!(list_has_token("a,b, \tUpgrade\t ,c", "upgrade"));
    assert!(list_has_token("a,", ""));
    assert!(list_has_token("", ""));
    assert!(!list_has_token("", "upgrade"));
    assert!(!list_has_token("up grade", "upgrade"));
    assert!(!list_has_token("up,grade", "upgrade"));
}

#[test]
fn patterns_are_found() {
    assert!(contains("gzip, trailers", "trailers"));
    assert!(contains("ttrailers", "trailers"));
    assert!(!contains("trailer", "trailers"));
    assert!(contains("", ""));
    assert!(starts_with("application/grpc-web", "application/grpc"));
    assert!(!starts_with("application/grp", "application/grpc"));
}
