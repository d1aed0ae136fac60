//! WebSocket detection utilities for proper connection handling during hot restart

use crate::counts::ConnectionType;
use crate::detection_laws::{begins, grants_websocket, mentions, wants_websocket};
use crate::detection_laws::{law_answer, law_upgrade_request, law_upgrade_response};
use crate::header_text::{chars_of, contains_text, is_header_text, lists_token, same_ignoring_case};
use crate::header_text::{contains, eq_ignore_ascii_case, equals, list_has_token, starts_with};
use crate::headers::{field_text, header_fields, is_plain_name};
use crate::headers::{first_text, has_value, method_of, request_headers, response_headers, status_of};
use crate::headers::{request_fields, request_method, response_fields, response_status};
use pingora_http::{RequestHeader, ResponseHeader};
use vstd::prelude::*;

verus! {

/// What detection reads of a request. A field is `None` where the request has no such header
/// or where its value does not read as text.
pub struct RequestView {
    pub method: Seq<char>,
    pub upgrade: Option<Seq<char>>,
    pub connection: Option<Seq<char>>,
    pub has_websocket_key: bool,
    pub websocket_version: Option<Seq<char>>,
    pub content_type: Option<Seq<char>>,
    pub te: Option<Seq<char>>,
}

/// What detection reads of a response.
pub struct ResponseView {
    pub status: u16,
    pub upgrade: Option<Seq<char>>,
    pub connection: Option<Seq<char>>,
    pub content_type: Option<Seq<char>>,
}

/// The headers `Upgrade: websocket` and `Connection: Upgrade` are there. The second may list
/// other options too.
pub open spec fn names_websocket(upgrade: Option<Seq<char>>, connection: Option<Seq<char>>) -> bool {
    &&& upgrade matches Some(protocol)
    &&& same_ignoring_case(protocol, "websocket"@)
    &&& connection matches Some(options)
    &&& lists_token(options, "upgrade"@)
}

impl RequestView {
    /// A valid WebSocket upgrade request.
    pub open spec fn is_websocket_upgrade(self) -> bool {
        &&& self.method == "GET"@
        &&& names_websocket(self.upgrade, self.connection)
        &&& self.has_websocket_key
        &&& self.websocket_version == Some("13"@)
    }

    /// A gRPC request that takes trailers.
    pub open spec fn is_grpc_stream(self) -> bool {
        &&& self.content_type matches Some(content_type)
        &&& "application/grpc"@.is_prefix_of(content_type)
        &&& self.te matches Some(te)
        &&& contains_text(te, "trailers"@)
    }
}

impl ResponseView {
    /// A successful WebSocket upgrade.
    pub open spec fn is_websocket_upgrade(self) -> bool {
        &&& self.status == 101
        &&& names_websocket(self.upgrade, self.connection)
    }

    /// A stream of Server-Sent Events.
    pub open spec fn is_event_stream(self) -> bool {
        &&& self.content_type matches Some(content_type)
        &&& contains_text(content_type, "text/event-stream"@)
    }
}

/// The type of a connection with this request and, once it is there, this response.
pub open spec fn connection_type_of(req: RequestView, resp: Option<ResponseView>) -> ConnectionType {
    if req.is_websocket_upgrade() && (resp matches Some(r) ==> r.is_websocket_upgrade()) {
        ConnectionType::WebSocket
    } else if resp matches Some(r) && r.is_event_stream() {
        ConnectionType::ServerSentEvents
    } else if req.is_grpc_stream() {
        ConnectionType::GrpcStream
    } else {
        ConnectionType::Http
    }
}

/// What detection reads of this request header.
pub open spec fn request_view(req: RequestHeader) -> RequestView {
    let fields = request_fields(req);
    RequestView {
        method: request_method(req),
        upgrade: field_text(fields, "upgrade"@),
        connection: field_text(fields, "connection"@),
        has_websocket_key: fields.contains_key("sec-websocket-key"@),
        websocket_version: field_text(fields, "sec-websocket-version"@),
        content_type: field_text(fields, "content-type"@),
        te: field_text(fields, "te"@),
    }
}

/// What detection reads of this response header.
pub open spec fn response_view(resp: ResponseHeader) -> ResponseView {
    let fields = response_fields(resp);
    ResponseView {
        status: response_status(resp),
        upgrade: field_text(fields, "upgrade"@),
        connection: field_text(fields, "connection"@),
        content_type: field_text(fields, "content-type"@),
    }
}

/// What detection reads of this response header, where there is one.
pub open spec fn optional_response_view(resp: Option<&ResponseHeader>) -> Option<ResponseView> {
    match resp {
        Some(r) => Some(response_view(*r)),
        None => None,
    }
}

/// Where there is a text, it is a header text.
pub open spec fn is_optional_header_text(s: Option<&str>) -> bool {
    s matches Some(text) ==> is_header_text(text@)
}

/// The parts of a request that detection reads.
pub struct RequestFields<'a> {
    pub method: &'a str,
    pub upgrade: Option<&'a str>,
    pub connection: Option<&'a str>,
    pub has_websocket_key: bool,
    pub websocket_version: Option<&'a str>,
    pub content_type: Option<&'a str>,
    pub te: Option<&'a str>,
}

/// The parts of a response that detection reads.
pub struct ResponseFields<'a> {
    pub status: u16,
    pub upgrade: Option<&'a str>,
    pub connection: Option<&'a str>,
    pub content_type: Option<&'a str>,
}

impl<'a> View for RequestFields<'a> {
    type V = RequestView;

    open spec fn view(&self) -> RequestView {
        RequestView {
            method: self.method@,
            upgrade: chars_of(self.upgrade),
            connection: chars_of(self.connection),
            has_websocket_key: self.has_websocket_key,
            websocket_version: chars_of(self.websocket_version),
            content_type: chars_of(self.content_type),
            te: chars_of(self.te),
        }
    }
}

impl<'a> View for ResponseFields<'a> {
    type V = ResponseView;

    open spec fn view(&self) -> ResponseView {
        ResponseView {
            status: self.status,
            upgrade: chars_of(self.upgrade),
            connection: chars_of(self.connection),
            content_type: chars_of(self.content_type),
        }
    }
}

proof fn lemma_names()
    ensures
        is_plain_name("upgrade"@),
        is_plain_name("connection"@),
        is_plain_name("sec-websocket-key"@),
        is_plain_name("sec-websocket-version"@),
        is_plain_name("content-type"@),
        is_plain_name("te"@),
{
    reveal_strlit("upgrade");
    reveal_strlit("connection");
    reveal_strlit("sec-websocket-key");
    reveal_strlit("sec-websocket-version");
    reveal_strlit("content-type");
    reveal_strlit("te");
}

proof fn lemma_texts()
    ensures
        is_header_text("websocket"@),
        is_header_text("upgrade"@),
        is_header_text("application/grpc"@),
        is_header_text("trailers"@),
        is_header_text("text/event-stream"@),
{
    reveal_strlit("websocket");
    reveal_strlit("upgrade");
    reveal_strlit("application/grpc");
    reveal_strlit("trailers");
    reveal_strlit("text/event-stream");
}

/// Checks the headers that a WebSocket upgrade needs on both sides.
fn has_upgrade_headers(upgrade: Option<&str>, connection: Option<&str>) -> (result: bool)
    requires
        is_optional_header_text(upgrade),
        is_optional_header_text(connection),
    ensures
        result == names_websocket(chars_of(upgrade), chars_of(connection)),
{
    proof {
        lemma_texts();
    }
    let has_upgrade = match upgrade {
        Some(protocol) => eq_ignore_ascii_case(protocol, "websocket"),
        None => false,
    };
    let has_connection = match connection {
        Some(options) => list_has_token(options, "upgrade"),
        None => false,
    };
    has_upgrade && has_connection
}

impl<'a> RequestFields<'a> {
    /// The texts come from header values.
    pub open spec fn wf(&self) -> bool {
        &&& is_optional_header_text(self.upgrade)
        &&& is_optional_header_text(self.connection)
        &&& is_optional_header_text(self.websocket_version)
        &&& is_optional_header_text(self.content_type)
        &&& is_optional_header_text(self.te)
    }

    /// Reads a request header.
    pub fn read(req: &'a RequestHeader) -> (fields: RequestFields<'a>)
        ensures
            fields.wf(),
            fields@ == request_view(*req),
    {
        proof {
            lemma_names();
        }
        let headers = request_headers(req);
        RequestFields {
            method: method_of(req),
            upgrade: first_text(headers, "upgrade"),
            connection: first_text(headers, "connection"),
            has_websocket_key: has_value(headers, "sec-websocket-key"),
            websocket_version: first_text(headers, "sec-websocket-version"),
            content_type: first_text(headers, "content-type"),
            te: first_text(headers, "te"),
        }
    }

    /// Check if a request is a WebSocket upgrade request
    pub fn is_websocket_upgrade(&self) -> (result: bool)
        requires
            self.wf(),
        ensures
            result == self@.is_websocket_upgrade(),
    {
        if !equals(self.method, "GET") {
            return false;
        }
        let has_upgrade_headers = has_upgrade_headers(self.upgrade, self.connection);
        let has_version = match self.websocket_version {
            Some(version) => equals(version, "13"),
            None => false,
        };
        has_upgrade_headers && self.has_websocket_key && has_version
    }

    /// Check if a request is a gRPC request that takes trailers
    fn is_grpc_stream(&self) -> (result: bool)
        requires
            self.wf(),
        ensures
            result == self@.is_grpc_stream(),
    {
        proof {
            lemma_texts();
        }
        let is_grpc = match self.content_type {
            Some(content_type) => starts_with(content_type, "application/grpc"),
            None => false,
        };
        let takes_trailers = match self.te {
            Some(te) => contains(te, "trailers"),
            None => false,
        };
        is_grpc && takes_trailers
    }
}

impl<'a> ResponseFields<'a> {
    /// The texts come from header values.
    pub open spec fn wf(&self) -> bool {
        &&& is_optional_header_text(self.upgrade)
        &&& is_optional_header_text(self.connection)
        &&& is_optional_header_text(self.content_type)
    }

    /// Reads a response header.
    pub fn read(resp: &'a ResponseHeader) -> (fields: ResponseFields<'a>)
        ensures
            fields.wf(),
            fields@ == response_view(*resp),
    {
        proof {
            lemma_names();
        }
        let headers = response_headers(resp);
        ResponseFields {
            status: status_of(resp),
            upgrade: first_text(headers, "upgrade"),
            connection: first_text(headers, "connection"),
            content_type: first_text(headers, "content-type"),
        }
    }

    /// Check if a response indicates a successful WebSocket upgrade
    pub fn is_websocket_upgrade(&self) -> (result: bool)
        requires
            self.wf(),
        ensures
            result == self@.is_websocket_upgrade(),
    {
        self.status == 101 && has_upgrade_headers(self.upgrade, self.connection)
    }

    /// Check if a response is a stream of Server-Sent Events
    fn is_event_stream(&self) -> (result: bool)
        requires
            self.wf(),
        ensures
            result == self@.is_event_stream(),
    {
        proof {
            lemma_texts();
        }
        match self.content_type {
            Some(content_type) => contains(content_type, "text/event-stream"),
            None => false,
        }
    }
}

/// The type of a connection, from the parts of its request and response that count.
pub fn classify(req: &RequestFields, resp: Option<&ResponseFields>) -> (conn_type: ConnectionType)
    requires
        req.wf(),
        resp matches Some(r) ==> r.wf(),
    ensures
        conn_type == connection_type_of(
            req@,
            match resp {
                Some(r) => Some(r@),
                None => None,
            },
        ),
{
    // Check for WebSocket upgrade
    if req.is_websocket_upgrade() {
        if let Some(response) = resp {
            if response.is_websocket_upgrade() {
                return ConnectionType::WebSocket;
            }
        } else {
            // Request looks like WebSocket, pending response
            return ConnectionType::WebSocket;
        }
    }

    // Check for Server-Sent Events
    if let Some(response) = resp {
        if response.is_event_stream() {
            return ConnectionType::ServerSentEvents;
        }
    }

    // Check for gRPC streaming (Content-Type: application/grpc)
    if req.is_grpc_stream() {
        return ConnectionType::GrpcStream;
    }
    ConnectionType::Http
}

/// Check if an HTTP request is a WebSocket upgrade request
///
/// Based on [RFC 6455](https://tools.ietf.org/html/rfc6455), a valid WebSocket upgrade request must include:
/// - GET method
/// - Upgrade: websocket header
/// - Connection: Upgrade header
/// - Sec-WebSocket-Key header
/// - Sec-WebSocket-Version: 13 header
pub fn is_websocket_upgrade(req: &RequestHeader) -> (result: bool)
    ensures
        result == request_view(*req).is_websocket_upgrade(),
        result == wants_websocket(*req),
{
    proof {
        law_upgrade_request(*req);
    }
    RequestFields::read(req).is_websocket_upgrade()
}

/// Check if an HTTP response indicates a successful WebSocket upgrade
///
/// A successful WebSocket upgrade response must have:
/// - 101 Switching Protocols status
/// - Upgrade: websocket header
/// - Connection: Upgrade header
pub fn is_websocket_upgrade_response(resp: &ResponseHeader) -> (result: bool)
    ensures
        result == response_view(*resp).is_websocket_upgrade(),
        result == grants_websocket(*resp),
{
    proof {
        law_upgrade_response(*resp);
    }
    ResponseFields::read(resp).is_websocket_upgrade()
}

/// Detect the connection type based on request and response headers
///
/// This helps classify connections for appropriate handling during graceful shutdown:
/// - WebSocket: Long-lived bidirectional connections
/// - ServerSentEvents: Long-lived server-to-client streaming
/// - GrpcStream: gRPC streaming connections
/// - Http: Regular HTTP request/response
pub fn detect_connection_type(req: &RequestHeader, resp: Option<&ResponseHeader>) -> (conn_type:
    ConnectionType)
    ensures
        conn_type == connection_type_of(request_view(*req), optional_response_view(resp)),
        conn_type == ConnectionType::WebSocket <==> wants_websocket(*req) && (resp matches Some(
            r,
        ) ==> grants_websocket(*r)),
        conn_type == ConnectionType::ServerSentEvents <==> conn_type != ConnectionType::WebSocket
            && resp is Some && mentions(
            response_fields(*resp->0),
            "content-type"@,
            "text/event-stream"@,
        ),
        conn_type == ConnectionType::GrpcStream <==> conn_type != ConnectionType::WebSocket
            && conn_type != ConnectionType::ServerSentEvents && begins(
            request_fields(*req),
            "content-type"@,
            "application/grpc"@,
        ) && mentions(request_fields(*req), "te"@, "trailers"@),
{
    proof {
        law_answer(*req, resp);
    }
    let request = RequestFields::read(req);
    match resp {
        Some(r) => classify(&request, Some(&ResponseFields::read(r))),
        None => classify(&request, None),
    }
}

} // verus!
