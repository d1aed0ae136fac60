//! The laws of connection type detection.

use crate::counts::ConnectionType;
use crate::header_text::{comma_parts, folded, is_space, lists_token, part_is, same_ignoring_case};
use crate::header_text::{trimmed, trimmed_end, trimmed_start};
use crate::websocket::{connection_type_of, names_websocket, RequestView, ResponseView};
use vstd::prelude::*;

verus! {

/// A connection is a WebSocket if and only if its request asks for the upgrade and its
/// response, once there is one, confirms it. While the response is pending, the
/// request alone decides.
pub proof fn law_websocket_takes_both_sides(req: RequestView, resp: Option<ResponseView>)
    ensures
        connection_type_of(req, resp) == ConnectionType::WebSocket <==> req.is_websocket_upgrade()
            && (resp is None || resp->0.is_websocket_upgrade()),
        connection_type_of(req, None) == ConnectionType::WebSocket <==> req.is_websocket_upgrade(),
{
}

/// A request whose method is not GET is no upgrade request, and its connection is never
/// a WebSocket.
pub proof fn law_only_get_upgrades(req: RequestView, resp: Option<ResponseView>)
    requires
        req.method != "GET"@,
    ensures
        !req.is_websocket_upgrade(),
        connection_type_of(req, resp) != ConnectionType::WebSocket,
{
}

/// An upgrade that the server refuses is never counted as a WebSocket: a response with
/// another status than 101 leaves the connection to be what it would be without the
/// upgrade.
pub proof fn law_refused_upgrade(req: RequestView, resp: ResponseView)
    requires
        resp.status != 101,
    ensures
        connection_type_of(req, Some(resp)) != ConnectionType::WebSocket,
        connection_type_of(req, Some(resp)) == connection_type_of(
            RequestView { has_websocket_key: false, ..req },
            Some(resp),
        ),
{
}

/// Only a response makes a connection one of Server-Sent Events: without one, it is not.
pub proof fn law_events_come_from_the_response(req: RequestView, resp: Option<ResponseView>)
    ensures
        connection_type_of(req, resp) == ConnectionType::ServerSentEvents ==> resp is Some
            && resp->0.is_event_stream(),
        connection_type_of(req, None) != ConnectionType::ServerSentEvents,
{
}

/// A connection is a regular one if and only if nothing marks it as long-lived.
pub proof fn law_regular_connections(req: RequestView, resp: Option<ResponseView>)
    ensures
        connection_type_of(req, resp) == ConnectionType::Http <==> !(req.is_websocket_upgrade() && (
        resp is None || resp->0.is_websocket_upgrade())) && !(resp is Some
            && resp->0.is_event_stream()) && !req.is_grpc_stream(),
{
}

proof fn lemma_folded_marks(a: char, b: char)
    requires
        folded(a) == folded(b),
    ensures
        a == ',' <==> b == ',',
        is_space(a) <==> is_space(b),
{
}

proof fn lemma_trimmed_start_ignores_case(a: Seq<char>, b: Seq<char>)
    requires
        same_ignoring_case(a, b),
    ensures
        same_ignoring_case(trimmed_start(a), trimmed_start(b)),
    decreases a.len(),
{
    if a.len() > 0 {
        assert(folded(a[0]) == folded(b[0]));
        lemma_folded_marks(a[0], b[0]);
        assert(same_ignoring_case(a.drop_first(), b.drop_first())) by {
            assert forall|i: int| 0 <= i < a.len() - 1 implies folded(
                #[trigger] a.drop_first()[i],
            ) == folded(b.drop_first()[i]) by {
                assert(folded(a[i + 1]) == folded(b[i + 1]));
            }
        }
        lemma_trimmed_start_ignores_case(a.drop_first(), b.drop_first());
    }
}

proof fn lemma_trimmed_end_ignores_case(a: Seq<char>, b: Seq<char>)
    requires
        same_ignoring_case(a, b),
    ensures
        same_ignoring_case(trimmed_end(a), trimmed_end(b)),
    decreases a.len(),
{
    if a.len() > 0 {
        assert(folded(a[a.len() - 1]) == folded(b[a.len() - 1]));
        lemma_folded_marks(a.last(), b.last());
        assert(same_ignoring_case(a.drop_last(), b.drop_last())) by {
            assert forall|i: int| 0 <= i < a.len() - 1 implies folded(
                #[trigger] a.drop_last()[i],
            ) == folded(b.drop_last()[i]) by {
                assert(folded(a[i]) == folded(b[i]));
            }
        }
        lemma_trimmed_end_ignores_case(a.drop_last(), b.drop_last());
    }
}

proof fn lemma_parts_ignore_case(a: Seq<char>, b: Seq<char>)
    requires
        same_ignoring_case(a, b),
    ensures
        comma_parts(a).len() == comma_parts(b).len() > 0,
        forall|k: int|
            0 <= k < comma_parts(a).len() ==> same_ignoring_case(
                #[trigger] comma_parts(a)[k],
                comma_parts(b)[k],
            ),
    decreases a.len(),
{
    if a.len() > 0 {
        let a0 = a.drop_last();
        let b0 = b.drop_last();
        assert(folded(a[a.len() - 1]) == folded(b[a.len() - 1]));
        lemma_folded_marks(a.last(), b.last());
        assert(same_ignoring_case(a0, b0)) by {
            assert forall|i: int| 0 <= i < a.len() - 1 implies folded(#[trigger] a0[i]) == folded(
                b0[i],
            ) by {
                assert(folded(a[i]) == folded(b[i]));
            }
        }
        lemma_parts_ignore_case(a0, b0);
        let n = comma_parts(a0).len() - 1;
        assert(same_ignoring_case(comma_parts(a0)[n], comma_parts(b0)[n]));
        assert(same_ignoring_case(
            comma_parts(a0)[n].push(a.last()),
            comma_parts(b0)[n].push(b.last()),
        )) by {
            assert forall|i: int| 0 <= i < comma_parts(a0)[n].len() + 1 implies folded(
                #[trigger] comma_parts(a0)[n].push(a.last())[i],
            ) == folded(comma_parts(b0)[n].push(b.last())[i]) by {
                if i < comma_parts(a0)[n].len() {
                    assert(folded(comma_parts(a0)[n][i]) == folded(comma_parts(b0)[n][i]));
                }
            }
        }
        assert forall|k: int| 0 <= k < comma_parts(a).len() implies same_ignoring_case(
            #[trigger] comma_parts(a)[k],
            comma_parts(b)[k],
        ) by {
            if k < n {
                assert(same_ignoring_case(comma_parts(a0)[k], comma_parts(b0)[k]));
            }
        }
    }
}

proof fn lemma_same_ignoring_case_carries(a: Seq<char>, b: Seq<char>, token: Seq<char>)
    requires
        same_ignoring_case(a, b),
    ensures
        same_ignoring_case(a, token) == same_ignoring_case(b, token),
{
    if a.len() == token.len() {
        assert forall|i: int| 0 <= i < a.len() implies folded(#[trigger] a[i]) == folded(
            b[i],
        ) by {}
        assert(same_ignoring_case(a, token) ==> same_ignoring_case(b, token)) by {
            if same_ignoring_case(a, token) {
                assert forall|i: int| 0 <= i < b.len() implies folded(#[trigger] b[i]) == folded(
                    token[i],
                ) by {
                    assert(folded(a[i]) == folded(token[i]));
                }
            }
        }
        assert(same_ignoring_case(b, token) ==> same_ignoring_case(a, token)) by {
            if same_ignoring_case(b, token) {
                assert forall|i: int| 0 <= i < a.len() implies folded(#[trigger] a[i]) == folded(
                    token[i],
                ) by {
                    assert(folded(b[i]) == folded(token[i]));
                }
            }
        }
    }
}

proof fn lemma_list_ignores_case(a: Seq<char>, b: Seq<char>, token: Seq<char>)
    requires
        same_ignoring_case(a, b),
    ensures
        lists_token(a, token) == lists_token(b, token),
{
    lemma_parts_ignore_case(a, b);
    assert forall|k: int| 0 <= k < comma_parts(a).len() implies part_is(
        #[trigger] comma_parts(a)[k],
        token,
    ) == part_is(comma_parts(b)[k], token) by {
        let p = comma_parts(a)[k];
        let q = comma_parts(b)[k];
        lemma_trimmed_start_ignores_case(p, q);
        lemma_trimmed_end_ignores_case(trimmed_start(p), trimmed_start(q));
        lemma_same_ignoring_case_carries(trimmed(p), trimmed(q), token);
    }
    if lists_token(a, token) {
        let k = choose|k: int|
            0 <= k < comma_parts(a).len() && #[trigger] part_is(comma_parts(a)[k], token);
        assert(part_is(comma_parts(b)[k], token));
    }
    if lists_token(b, token) {
        let k = choose|k: int|
            0 <= k < comma_parts(b).len() && #[trigger] part_is(comma_parts(b)[k], token);
        assert(part_is(comma_parts(a)[k], token));
    }
}

/// The case of the letters in the `Upgrade` and `Connection` headers does not matter.
pub proof fn law_case_does_not_matter(
    upgrade: Seq<char>,
    other_upgrade: Seq<char>,
    connection: Seq<char>,
    other_connection: Seq<char>,
)
    requires
        same_ignoring_case(upgrade, other_upgrade),
        same_ignoring_case(connection, other_connection),
    ensures
        names_websocket(Some(upgrade), Some(connection)) == names_websocket(
            Some(other_upgrade),
            Some(other_connection),
        ),
{
    lemma_same_ignoring_case_carries(upgrade, other_upgrade, "websocket"@);
    lemma_list_ignores_case(connection, other_connection, "upgrade"@);
}

proof fn lemma_parts_concat(a: Seq<char>, b: Seq<char>)
    ensures
        comma_parts(a + seq![','] + b) == comma_parts(a) + comma_parts(b),
        comma_parts(b).len() > 0,
    decreases b.len(),
{
    let whole = a + seq![','] + b;
    if b.len() == 0 {
        assert(whole.drop_last() =~= a);
        assert(comma_parts(whole) =~= comma_parts(a) + comma_parts(b));
    } else {
        lemma_parts_concat(a, b.drop_last());
        assert(whole.drop_last() =~= a + seq![','] + b.drop_last());
        assert(comma_parts(whole) =~= comma_parts(a) + comma_parts(b));
    }
}

/// A list holds a token if and only if the list before one of its commas or the one after
/// it does. So the order of the options in a `Connection` header does not matter.
pub proof fn law_lists_join(a: Seq<char>, b: Seq<char>, token: Seq<char>)
    ensures
        lists_token(a + seq![','] + b, token) == (lists_token(a, token) || lists_token(b, token)),
        lists_token(a + seq![','] + b, token) == lists_token(b + seq![','] + a, token),
{
    lemma_lists_join(a, b, token);
    lemma_lists_join(b, a, token);
}

proof fn lemma_lists_join(a: Seq<char>, b: Seq<char>, token: Seq<char>)
    ensures
        lists_token(a + seq![','] + b, token) == (lists_token(a, token) || lists_token(b, token)),
{
    let whole = comma_parts(a + seq![','] + b);
    let n = comma_parts(a).len();
    lemma_parts_concat(a, b);
    if lists_token(a, token) {
        let k = choose|k: int| 0 <= k < n && #[trigger] part_is(comma_parts(a)[k], token);
        assert(part_is(whole[k], token));
    }
    if lists_token(b, token) {
        let k = choose|k: int|
            0 <= k < comma_parts(b).len() && #[trigger] part_is(comma_parts(b)[k], token);
        assert(whole[n + k] == comma_parts(b)[k]);
        assert(part_is(whole[n + k], token));
    }
    if lists_token(a + seq![','] + b, token) {
        let k = choose|k: int| 0 <= k < whole.len() && #[trigger] part_is(whole[k], token);
        if k < n {
            assert(part_is(comma_parts(a)[k], token));
        } else {
            assert(part_is(comma_parts(b)[k - n], token));
        }
    }
}

proof fn lemma_trimmed_start_push(part: Seq<char>, space: char)
    requires
        is_space(space),
    ensures
        trimmed_end(trimmed_start(part.push(space))) == trimmed_end(trimmed_start(part)),
    decreases part.len(),
{
    if part.len() == 0 {
        assert(part.push(space).drop_first() =~= part);
    } else if is_space(part.first()) {
        assert(part.push(space).drop_first() =~= part.drop_first().push(space));
        lemma_trimmed_start_push(part.drop_first(), space);
    } else {
        assert(part.push(space).drop_last() =~= part);
    }
}

/// White space before or behind an option in a list does not matter.
pub proof fn law_space_does_not_matter(part: Seq<char>, space: char, token: Seq<char>)
    requires
        is_space(space),
    ensures
        part_is(seq![space] + part, token) == part_is(part, token),
        part_is(part.push(space), token) == part_is(part, token),
{
    assert((seq![space] + part).drop_first() =~= part);
    lemma_trimmed_start_push(part, space);
}

} // verus!
