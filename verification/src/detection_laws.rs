//! The laws of detection, in terms of the bytes of the headers.
//!
//! What is answered of a request and a response is told from their method, their status and
//! their header fields, byte by byte.

use crate::counts::ConnectionType;
use crate::header_text::text_of;
use crate::headers::{field_text, request_fields, request_method, response_fields, response_status};
use crate::text_laws::{is_word, occurs_at, option_at, reads_like};
use crate::text_laws::{law_begins, law_case, law_contains, law_list, law_text_of};
use crate::websocket::{connection_type_of, optional_response_view, request_view, response_view};
use crate::websocket::{RequestFields, RequestView, ResponseFields, ResponseView};
use crate::websocket_laws::{law_case_does_not_matter, law_lists_join};
use pingora_http::{RequestHeader, ResponseHeader};
use vstd::prelude::*;

verus! {

/// The first value under the name is there, is made of codes 32 to 126 and 9, and is this
/// text byte by byte.
pub open spec fn reads_as(
    fields: Map<Seq<char>, Seq<Seq<u8>>>,
    name: Seq<char>,
    text: Seq<char>,
) -> bool {
    &&& fields.contains_key(name)
    &&& text.len() == fields[name][0].len()
    &&& forall|i: int|
        0 <= i < text.len() ==> #[trigger] text[i] as int == fields[name][0][i] && (32
            <= fields[name][0][i] <= 126 || fields[name][0][i] == 9)
}

/// The first `Upgrade` value reads `websocket`, in any case, and in the first `Connection`
/// value `upgrade` stands as an option of its own, in any case.
pub open spec fn speaks_of_websocket(fields: Map<Seq<char>, Seq<Seq<u8>>>) -> bool {
    &&& exists|text: Seq<char>| #[trigger]
        reads_as(fields, "upgrade"@, text) && reads_like(text, "websocket"@)
    &&& exists|text: Seq<char>, at: int| #[trigger]
        reads_as(fields, "connection"@, text) && #[trigger] option_at(text, "upgrade"@, at)
}

/// A GET request with the four headers of a WebSocket upgrade.
pub open spec fn wants_websocket(req: RequestHeader) -> bool {
    &&& request_method(req) == "GET"@
    &&& speaks_of_websocket(request_fields(req))
    &&& request_fields(req).contains_key("sec-websocket-key"@)
    &&& reads_as(request_fields(req), "sec-websocket-version"@, "13"@)
}

/// A response with status 101 and the two headers of a WebSocket upgrade.
pub open spec fn grants_websocket(resp: ResponseHeader) -> bool {
    &&& response_status(resp) == 101
    &&& speaks_of_websocket(response_fields(resp))
}

/// The first value under the name is a text in which these characters stand.
pub open spec fn mentions(
    fields: Map<Seq<char>, Seq<Seq<u8>>>,
    name: Seq<char>,
    word: Seq<char>,
) -> bool {
    exists|text: Seq<char>, at: int| #[trigger]
        reads_as(fields, name, text) && #[trigger] occurs_at(text, word, at)
}

/// The first value under the name is a text that begins with these characters.
pub open spec fn begins(
    fields: Map<Seq<char>, Seq<Seq<u8>>>,
    name: Seq<char>,
    word: Seq<char>,
) -> bool {
    exists|text: Seq<char>| #[trigger] reads_as(fields, name, text) && occurs_at(text, word, 0)
}

/// The type that is answered for a request and a response.
pub open spec fn answer(req: RequestHeader, resp: Option<&ResponseHeader>) -> ConnectionType {
    connection_type_of(request_view(req), optional_response_view(resp))
}

/// The two requests or responses have the same first value under the name, or neither has one.
pub open spec fn same_first_value(
    a: Map<Seq<char>, Seq<Seq<u8>>>,
    b: Map<Seq<char>, Seq<Seq<u8>>>,
    name: Seq<char>,
) -> bool {
    a.contains_key(name) == b.contains_key(name) && (a.contains_key(name) ==> a[name][0]
        == b[name][0])
}

/// What is read of a header is its first value byte by byte, and nothing where there is no
/// value or where a byte of it is no visible character, space or tab.
pub proof fn law_field_text(fields: Map<Seq<char>, Seq<Seq<u8>>>, name: Seq<char>, text: Seq<char>)
    ensures
        field_text(fields, name) == Some(text) <==> reads_as(fields, name, text),
{
    if fields.contains_key(name) {
        let bytes = fields[name][0];
        law_text_of(bytes);
        if reads_as(fields, name, text) {
            assert forall|i: int| 0 <= i < bytes.len() implies (32 <= #[trigger] bytes[i] <= 126
                || bytes[i] == 9) by {
                assert(text[i] as int == bytes[i]);
            }
            assert(text =~= text_of(bytes));
        }
        if field_text(fields, name) == Some(text) {
            assert forall|i: int| 0 <= i < text.len() implies #[trigger] text[i] as int == bytes[i]
                && (32 <= bytes[i] <= 126 || bytes[i] == 9) by {
                assert(text_of(bytes)[i] as int == bytes[i]);
            }
        }
    }
}

proof fn lemma_words()
    ensures
        is_word("upgrade"@),
{
    reveal_strlit("upgrade");
}

/// A request that is read is an upgrade request if and only if its method is GET, its
/// `Upgrade` text reads `websocket` and `upgrade` is an option in its `Connection` text, both
/// in any case, it has a key, and its version is 13.
pub proof fn law_request_texts(req: RequestView)
    ensures
        req.is_websocket_upgrade() <==> req.method == "GET"@ && req.has_websocket_key
            && req.websocket_version == Some("13"@) && req.upgrade is Some && reads_like(
            req.upgrade->0,
            "websocket"@,
        ) && req.connection is Some && exists|at: int| #[trigger]
            option_at(req.connection->0, "upgrade"@, at),
        req.is_grpc_stream() <==> req.content_type is Some && occurs_at(
            req.content_type->0,
            "application/grpc"@,
            0,
        ) && req.te is Some && exists|at: int| #[trigger] occurs_at(req.te->0, "trailers"@, at),
{
    lemma_words();
    law_case(req.upgrade->0, "websocket"@);
    law_list(req.connection->0, "upgrade"@);
    law_begins(req.content_type->0, "application/grpc"@);
    law_contains(req.te->0, "trailers"@);
}

/// A response that is read confirms an upgrade if and only if its status is 101, its `Upgrade`
/// text reads `websocket` and `upgrade` is an option in its `Connection` text, both in any
/// case; and it is an event stream if and only if its `Content-Type` text mentions that.
pub proof fn law_response_texts(resp: ResponseView)
    ensures
        resp.is_websocket_upgrade() <==> resp.status == 101 && resp.upgrade is Some && reads_like(
            resp.upgrade->0,
            "websocket"@,
        ) && resp.connection is Some && exists|at: int| #[trigger]
            option_at(resp.connection->0, "upgrade"@, at),
        resp.is_event_stream() <==> resp.content_type is Some && exists|at: int| #[trigger]
            occurs_at(resp.content_type->0, "text/event-stream"@, at),
{
    lemma_words();
    law_case(resp.upgrade->0, "websocket"@);
    law_list(resp.connection->0, "upgrade"@);
    law_contains(resp.content_type->0, "text/event-stream"@);
}

/// The parts of a request and a response that are read stand in its view as they are.
pub proof fn law_parts_are_kept(req: RequestFields, resp: ResponseFields)
    ensures
        req@.method == req.method@,
        req@.has_websocket_key == req.has_websocket_key,
        req@.upgrade is Some == req.upgrade is Some,
        req.upgrade matches Some(s) ==> req@.upgrade == Some(s@),
        req@.connection is Some == req.connection is Some,
        req.connection matches Some(s) ==> req@.connection == Some(s@),
        req@.websocket_version is Some == req.websocket_version is Some,
        req.websocket_version matches Some(s) ==> req@.websocket_version == Some(s@),
        req@.content_type is Some == req.content_type is Some,
        req.content_type matches Some(s) ==> req@.content_type == Some(s@),
        req@.te is Some == req.te is Some,
        req.te matches Some(s) ==> req@.te == Some(s@),
        resp@.status == resp.status,
        resp@.upgrade is Some == resp.upgrade is Some,
        resp.upgrade matches Some(s) ==> resp@.upgrade == Some(s@),
        resp@.connection is Some == resp.connection is Some,
        resp.connection matches Some(s) ==> resp@.connection == Some(s@),
        resp@.content_type is Some == resp.content_type is Some,
        resp.content_type matches Some(s) ==> resp@.content_type == Some(s@),
{
}

proof fn lemma_speaks(
    fields: Map<Seq<char>, Seq<Seq<u8>>>,
    upgrade: Option<Seq<char>>,
    connection: Option<Seq<char>>,
)
    requires
        upgrade == field_text(fields, "upgrade"@),
        connection == field_text(fields, "connection"@),
    ensures
        speaks_of_websocket(fields) <==> upgrade is Some && reads_like(upgrade->0, "websocket"@)
            && connection is Some && exists|at: int| #[trigger]
            option_at(connection->0, "upgrade"@, at),
{
    assert forall|text: Seq<char>| #[trigger] reads_as(fields, "upgrade"@, text) <==> upgrade
        == Some(text) by {
        law_field_text(fields, "upgrade"@, text);
    }
    assert forall|text: Seq<char>| #[trigger] reads_as(fields, "connection"@, text) <==> connection
        == Some(text) by {
        law_field_text(fields, "connection"@, text);
    }
    if speaks_of_websocket(fields) {
        let read = choose|text: Seq<char>| #[trigger]
            reads_as(fields, "upgrade"@, text) && reads_like(text, "websocket"@);
        assert(reads_as(fields, "upgrade"@, read) && reads_like(read, "websocket"@));
        let (text, at) = choose|text: Seq<char>, at: int| #[trigger]
            reads_as(fields, "connection"@, text) && #[trigger] option_at(text, "upgrade"@, at);
        assert(reads_as(fields, "connection"@, text) && option_at(text, "upgrade"@, at));
        assert(connection == Some(text));
        assert(option_at(connection->0, "upgrade"@, at));
    }
    if upgrade is Some && reads_like(upgrade->0, "websocket"@) && connection is Some && exists|
        at: int,
    | #[trigger] option_at(connection->0, "upgrade"@, at) {
        assert(reads_as(fields, "upgrade"@, upgrade->0));
        assert(reads_as(fields, "connection"@, connection->0));
        let at = choose|at: int| #[trigger] option_at(connection->0, "upgrade"@, at);
        assert(option_at(connection->0, "upgrade"@, at));
    }
}

proof fn lemma_mentions(
    fields: Map<Seq<char>, Seq<Seq<u8>>>,
    name: Seq<char>,
    word: Seq<char>,
    read: Option<Seq<char>>,
)
    requires
        read == field_text(fields, name),
    ensures
        mentions(fields, name, word) <==> read is Some && exists|at: int| #[trigger]
            occurs_at(read->0, word, at),
        begins(fields, name, word) <==> read is Some && occurs_at(read->0, word, 0),
{
    assert forall|text: Seq<char>| #[trigger] reads_as(fields, name, text) <==> read == Some(
        text,
    ) by {
        law_field_text(fields, name, text);
    }
    if read is Some {
        assert(reads_as(fields, name, read->0));
        if exists|at: int| #[trigger] occurs_at(read->0, word, at) {
            let at = choose|at: int| #[trigger] occurs_at(read->0, word, at);
            assert(reads_as(fields, name, read->0) && occurs_at(read->0, word, at));
        }
    }
}

/// A request is answered to be an upgrade request if and only if it is a GET request with the
/// four headers of one.
pub proof fn law_upgrade_request(req: RequestHeader)
    ensures
        request_view(req).is_websocket_upgrade() <==> wants_websocket(req),
{
    let view = request_view(req);
    law_request_texts(view);
    lemma_speaks(request_fields(req), view.upgrade, view.connection);
    law_field_text(request_fields(req), "sec-websocket-version"@, "13"@);
}

/// A response is answered to confirm an upgrade if and only if it has status 101 and the two
/// headers of an upgrade.
pub proof fn law_upgrade_response(resp: ResponseHeader)
    ensures
        response_view(resp).is_websocket_upgrade() <==> grants_websocket(resp),
{
    let view = response_view(resp);
    law_response_texts(view);
    lemma_speaks(response_fields(resp), view.upgrade, view.connection);
}

/// Which type is answered, from the method, the status and the bytes of the headers.
pub proof fn law_answer(req: RequestHeader, resp: Option<&ResponseHeader>)
    ensures
        answer(req, resp) == ConnectionType::WebSocket <==> wants_websocket(req) && (resp is None
            || grants_websocket(*resp->0)),
        answer(req, resp) == ConnectionType::ServerSentEvents <==> answer(req, resp)
            != ConnectionType::WebSocket && resp is Some && mentions(
            response_fields(*resp->0),
            "content-type"@,
            "text/event-stream"@,
        ),
        answer(req, resp) == ConnectionType::GrpcStream <==> answer(req, resp)
            != ConnectionType::WebSocket && answer(req, resp) != ConnectionType::ServerSentEvents
            && begins(request_fields(req), "content-type"@, "application/grpc"@) && mentions(
            request_fields(req),
            "te"@,
            "trailers"@,
        ),
{
    let view = request_view(req);
    law_upgrade_request(req);
    law_request_texts(view);
    lemma_mentions(request_fields(req), "content-type"@, "application/grpc"@, view.content_type);
    lemma_mentions(request_fields(req), "te"@, "trailers"@, view.te);
    if let Some(r) = resp {
        law_upgrade_response(*r);
        law_response_texts(response_view(*r));
        lemma_mentions(
            response_fields(*r),
            "content-type"@,
            "text/event-stream"@,
            response_view(*r).content_type,
        );
    }
}

/// A connection is answered to be a gRPC stream only if the first `Content-Type` value of the
/// request begins with the sixteen bytes `application/grpc`.
pub proof fn law_grpc_content_type(req: RequestHeader, resp: Option<&ResponseHeader>)
    requires
        answer(req, resp) == ConnectionType::GrpcStream,
    ensures
        request_fields(req).contains_key("content-type"@),
        request_fields(req)["content-type"@][0].len() >= 16,
        forall|i: int|
            0 <= i < 16 ==> #[trigger] request_fields(req)["content-type"@][0][i]
                == "application/grpc"@[i] as int,
{
    law_answer(req, resp);
    reveal_strlit("application/grpc");
    let fields = request_fields(req);
    let text = choose|text: Seq<char>| #[trigger]
        reads_as(fields, "content-type"@, text) && occurs_at(text, "application/grpc"@, 0);
    assert(reads_as(fields, "content-type"@, text) && occurs_at(text, "application/grpc"@, 0));
    assert forall|i: int| 0 <= i < 16 implies #[trigger] fields["content-type"@][0][i]
        == "application/grpc"@[i] as int by {
        assert(text[0 + i] == "application/grpc"@[i]);
        assert(text[i] as int == fields["content-type"@][0][i]);
    }
}

/// A request whose `Content-Type` is a text that begins with `application/grpc` and whose `TE` is
/// a text that mentions trailers is answered to be a gRPC stream, whatever its method and its
/// other headers are, unless it is a WebSocket or an event stream.
pub proof fn law_grpc_is_found(
    req: RequestHeader,
    resp: Option<&ResponseHeader>,
    content_type: Seq<char>,
    te: Seq<char>,
    at: int,
)
    requires
        reads_as(request_fields(req), "content-type"@, content_type),
        occurs_at(content_type, "application/grpc"@, 0),
        reads_as(request_fields(req), "te"@, te),
        occurs_at(te, "trailers"@, at),
    ensures
        answer(req, resp) != ConnectionType::Http,
        resp is None && request_method(req) != "GET"@ ==> answer(req, resp)
            == ConnectionType::GrpcStream,
{
    law_answer(req, resp);
    assert(begins(request_fields(req), "content-type"@, "application/grpc"@));
    assert(mentions(request_fields(req), "te"@, "trailers"@));
}

/// A response whose `Content-Type` is a text in which `text/event-stream` stands makes the
/// connection an event stream, whatever its status and its other headers are, unless the
/// connection is a WebSocket.
pub proof fn law_event_stream_is_found(
    req: RequestHeader,
    resp: &ResponseHeader,
    content_type: Seq<char>,
    at: int,
)
    requires
        reads_as(response_fields(*resp), "content-type"@, content_type),
        occurs_at(content_type, "text/event-stream"@, at),
    ensures
        answer(req, Some(resp)) == ConnectionType::ServerSentEvents || answer(req, Some(resp))
            == ConnectionType::WebSocket,
        !wants_websocket(req) ==> answer(req, Some(resp)) == ConnectionType::ServerSentEvents,
        response_status(*resp) != 101 ==> answer(req, Some(resp))
            == ConnectionType::ServerSentEvents,
{
    law_answer(req, Some(resp));
    assert(mentions(response_fields(*resp), "content-type"@, "text/event-stream"@));
}

/// No other header counts for a request: two requests with the same method, the same first
/// values of `Upgrade`, `Connection` and `Sec-WebSocket-Version`, and both with or both without
/// a key, are answered alike. With the same `Content-Type` and `TE` too, and the same response,
/// they are answered the same type.
pub proof fn law_no_other_request_header_counts(
    req: RequestHeader,
    other: RequestHeader,
    resp: Option<&ResponseHeader>,
)
    requires
        request_method(req) == request_method(other),
        same_first_value(request_fields(req), request_fields(other), "upgrade"@),
        same_first_value(request_fields(req), request_fields(other), "connection"@),
        same_first_value(request_fields(req), request_fields(other), "sec-websocket-version"@),
        request_fields(req).contains_key("sec-websocket-key"@) == request_fields(
            other,
        ).contains_key("sec-websocket-key"@),
    ensures
        request_view(req).is_websocket_upgrade() == request_view(other).is_websocket_upgrade(),
        same_first_value(request_fields(req), request_fields(other), "content-type"@)
            && same_first_value(request_fields(req), request_fields(other), "te"@) ==> answer(
            req,
            resp,
        ) == answer(other, resp),
{
}

/// No other header counts for a response: two responses with the same status and the same first
/// values of `Upgrade` and `Connection` are answered alike. With the same `Content-Type` too,
/// the same type is answered for them with any request.
pub proof fn law_no_other_response_header_counts(
    req: RequestHeader,
    resp: &ResponseHeader,
    other: &ResponseHeader,
)
    requires
        response_status(*resp) == response_status(*other),
        same_first_value(response_fields(*resp), response_fields(*other), "upgrade"@),
        same_first_value(response_fields(*resp), response_fields(*other), "connection"@),
    ensures
        response_view(*resp).is_websocket_upgrade() == response_view(*other).is_websocket_upgrade(),
        same_first_value(response_fields(*resp), response_fields(*other), "content-type"@)
            ==> answer(req, Some(resp)) == answer(req, Some(other)),
{
}

/// The case of letters in the `Upgrade` and `Connection` texts of a response changes nothing in
/// its answer, nor in that of a request.
pub proof fn law_case_of_answers(
    resp: ResponseView,
    req: RequestView,
    upgrade: Seq<char>,
    connection: Seq<char>,
)
    requires
        resp.upgrade is Some && reads_like(resp.upgrade->0, upgrade),
        resp.connection is Some && reads_like(resp.connection->0, connection),
        req.upgrade == resp.upgrade,
        req.connection == resp.connection,
    ensures
        resp.is_websocket_upgrade() == (ResponseView {
            upgrade: Some(upgrade),
            connection: Some(connection),
            ..resp
        }).is_websocket_upgrade(),
        req.is_websocket_upgrade() == (RequestView {
            upgrade: Some(upgrade),
            connection: Some(connection),
            ..req
        }).is_websocket_upgrade(),
{
    law_case(resp.upgrade->0, upgrade);
    law_case(resp.connection->0, connection);
    law_case_does_not_matter(
        resp.upgrade->0,
        upgrade,
        resp.connection->0,
        connection,
    );
}

/// More options in the `Connection` list, before or behind those that are there, take nothing
/// from the answer of a response or a request that is an upgrade.
pub proof fn law_more_options(
    resp: ResponseView,
    req: RequestView,
    connection: Seq<char>,
    more: Seq<char>,
)
    requires
        resp.connection == Some(connection),
        req.connection == Some(connection),
    ensures
        resp.is_websocket_upgrade() ==> (ResponseView {
            connection: Some(connection + seq![','] + more),
            ..resp
        }).is_websocket_upgrade() && (ResponseView {
            connection: Some(more + seq![','] + connection),
            ..resp
        }).is_websocket_upgrade(),
        req.is_websocket_upgrade() ==> (RequestView {
            connection: Some(connection + seq![','] + more),
            ..req
        }).is_websocket_upgrade() && (RequestView {
            connection: Some(more + seq![','] + connection),
            ..req
        }).is_websocket_upgrade(),
{
    law_lists_join(connection, more, "upgrade"@);
}

} // verus!
