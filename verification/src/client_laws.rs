//! What holds of the MCP client as a whole: of every exchange it asks for, of
//! every framing it reads, and of its sessions and requests over any number of
//! replies.
use vstd::prelude::*;
use crate::config::{ConfigView, fingerprint_identifies};
use crate::host::{HostCallView, HostFn, StepView};
use crate::json::{JsonView, is_one_line, json_parsed, json_text};
use crate::mcp_client::{
    ClientView, HandshakeView, ListingView, ReadyView, ReplyView, RequestPhaseView, RequestView, SessionView,
    cursor_of, decoded, http_call, http_reply_of, initialize_answer, initialize_call,
    initialize_next, initialized_answer, list_next, page_of, request_next, request_start, result_of,
    session_wanted, snippet_of, status_says,
};
use crate::sse::{
    all_as_data, all_readable, as_data, chosen, data_of, first_answer, is_event_line, is_response,
    message_is_read_back, sse_payloads, stream_of,
};
use crate::text::{
    ascii_lower, decimal, mentions, is_blank, is_white, joined, lowered, occurs_at, trim_start,
};

verus! {

// ── Exchanges ─────────────────────────────────────────────────────────
/// Every exchange goes to the endpoint of the configuration, with its key as
/// the bearer token, and takes both framings; one with a payload is a POST of
/// JSON text, one without a DELETE; and the session's id and protocol version
/// go with it exactly where there is a session.
pub proof fn exchanges_are_complete(
    cfg: ConfigView,
    session: Option<SessionView>,
    payload: Option<JsonView>,
    timeout_secs: u64,
)
    ensures
        ({
            let call = http_call(cfg, session, payload, timeout_secs);
            let headers = call.input.get("headers"@)->0;
            &&& call.which == HostFn::HttpRequest
            &&& call.input.str_at("url"@) == Some(cfg.endpoint())
            &&& call.input.str_at("method"@) == Some(
                if payload is Some {
                    "POST"@
                } else {
                    "DELETE"@
                },
            )
            &&& call.input.get("timeout_secs"@) == Some(JsonView::Int(timeout_secs as int))
            &&& call.input.str_at("body"@) == (match payload {
                Some(payload) => Some(json_text(payload)),
                None => None,
            })
            &&& call.input.get("headers"@) is Some
            &&& headers.str_at("authorization"@) == Some("Bearer "@ + cfg.api_key)
            &&& headers.str_at("accept"@) == Some("application/json, text/event-stream"@)
            &&& headers.str_at("content-type"@) == (if payload is Some {
                Some("application/json"@)
            } else {
                None
            })
            &&& headers.str_at("mcp-session-id"@) == (match session {
                Some(session) => Some(session.id),
                None => None,
            })
            &&& headers.str_at("mcp-protocol-version"@) == (match session {
                Some(session) => Some(session.protocol_version),
                None => None,
            })
        }),
{
    reveal_strlit("url");
    reveal_strlit("method");
    reveal_strlit("headers");
    reveal_strlit("timeout_secs");
    reveal_strlit("body");
    reveal_strlit("authorization");
    reveal_strlit("accept");
    reveal_strlit("content-type");
    reveal_strlit("mcp-session-id");
    reveal_strlit("mcp-protocol-version");
    assert("url"@.len() == 3 && "method"@.len() == 6 && "headers"@.len() == 7
        && "timeout_secs"@.len() == 12 && "body"@.len() == 4);
    assert("authorization"@.len() == 13 && "accept"@.len() == 6 && "content-type"@.len() == 12
        && "mcp-session-id"@.len() == 14 && "mcp-protocol-version"@.len() == 20);
}

/// The id of the request that `client` makes after `n` others.
pub open spec fn id_after(client: ClientView, n: nat) -> u64
    decreases n,
{
    if n == 0 {
        client.next_id
    } else {
        id_after(client.advanced(), (n - 1) as nat)
    }
}

proof fn lemma_id_after(client: ClientView, n: nat)
    ensures
        id_after(client, n) == (client.next_id + n) % 0x1_0000_0000_0000_0000,
    decreases n,
{
    if n > 0 {
        lemma_id_after(client.advanced(), (n - 1) as nat);
    }
}

/// No two requests share an id, until all the ids of 64 bits are used up.
pub proof fn ids_are_not_repeated(client: ClientView, i: nat, j: nat)
    requires
        i < j,
        j - i < 0x1_0000_0000_0000_0000,
    ensures
        id_after(client, i) != id_after(client, j),
{
    lemma_id_after(client, i);
    lemma_id_after(client, j);
}

// ── Framings ──────────────────────────────────────────────────────────
/// The text of a one-line message in a stream of one event, behind a line that
/// names the event.
pub open spec fn streamed(text: Seq<char>) -> Seq<char> {
    stream_of(seq![seq!["event: message"@] + all_as_data(seq![text])])
}

proof fn lemma_streamed_text(text: Seq<char>)
    ensures
        streamed(text) == "event: message\ndata: "@ + text + "\n\n"@,
{
    reveal_strlit("event: message\ndata: ");
    reveal_strlit("event: message");
    reveal_strlit("\n");
    reveal_strlit("data: ");
    let event = seq!["event: message"@] + all_as_data(seq![text]);
    let events = seq![event];
    assert(event =~= seq!["event: message"@, as_data(text)]);
    assert(event.drop_last() =~= seq!["event: message"@]);
    assert(joined(event.drop_last(), "\n"@) == "event: message"@);
    assert(joined(event, "\n"@) == "event: message"@ + "\n"@ + as_data(text));
    assert(events.skip(1) =~= seq![]);
    assert(stream_of(events.skip(1)) =~= seq![]);
    assert("event: message\ndata: "@ =~= "event: message"@ + "\n"@ + "data: "@);
    assert(streamed(text) =~= "event: message\ndata: "@ + text + "\n\n"@);
}

/// A stream of one message carries that message's text.
pub proof fn streamed_text_is_read_back(text: Seq<char>)
    requires
        is_one_line(text),
    ensures
        sse_payloads(streamed(text)) == seq![text],
{
    reveal_strlit("event: message");
    reveal_strlit("data:");
    reveal_strlit("data: ");
    let fields = seq!["event: message"@];
    let lines = seq![text];
    assert(data_of("event: message"@) is None) by {
        if "data:"@.is_prefix_of("event: message"@) {
            assert("event: message"@.subrange(0, 5)[0] == 'e');
        }
    }
    assert(is_event_line(as_data(text))) by {
        assert forall|i: int| 0 <= i < as_data(text).len() implies #[trigger] as_data(text)[i]
            != '\n' && as_data(text)[i] != '\r' by {
            if i >= 6 {
                assert(as_data(text)[i] == text[i - 6]);
            }
        }
    }
    message_is_read_back(fields, lines);
    assert(joined(lines, "\n"@) == text);
}

proof fn lemma_one_line_not_blank(text: Seq<char>)
    requires
        text.len() > 0,
        !is_white(text[0]),
    ensures
        !is_blank(text),
    decreases text.len(),
{
    if is_white(text.last()) {
        lemma_one_line_not_blank(text.drop_last());
        assert(trim_start(text) == text);
        assert(trim_start(text.drop_last()) == text.drop_last());
    }
}

proof fn lemma_streamed_mentions_session(text: Seq<char>)
    ensures
        mentions(lowered(streamed(text)), "session"@) == mentions(lowered(text), "session"@),
{
    let word = "session"@;
    let head = "event: message\ndata: "@;
    let all = lowered(streamed(text));
    let small = lowered(text);
    lemma_streamed_text(text);
    reveal_strlit("session");
    reveal_strlit("event: message\ndata: ");
    reveal_strlit("\n\n");
    let n = head.len() as int;
    assert(all.len() == n + text.len() + 2);
    assert(forall|i: int| 0 <= i < text.len() ==> all[n + i] == small[i]);
    assert(all[n + text.len()] == '\n' && all[n + text.len() + 1] == '\n');
    if mentions(small, word) {
        let at = choose|at: int| occurs_at(small, word, at);
        assert(all.subrange(n + at, n + at + 7) =~= small.subrange(at, at + 7));
        assert(occurs_at(all, word, n + at));
    }
    if mentions(all, word) {
        let at = choose|at: int| occurs_at(all, word, at);
        let found = all.subrange(at, at + 7);
        assert(forall|k: int| 0 <= k < 7 ==> #[trigger] found[k] == all[at + k] == word[k]);
        assert(found[0] == 's' && found[1] == 'e' && found[2] == 's' && found[3] == 's' && found[4]
            == 'i' && found[6] == 'n');
        assert(at >= n) by {
            if at < n {
                assert(all[at] == ascii_lower(head[at]));
                assert(all[at + 1] == 'e' && all[at + 2] == 's' && all[at + 3] == 's' && all[at + 4]
                    == 'i');
                assert(head[at] == 's' || head[at] == 'S');
                assert(at == 9 || at == 10);
                assert(head[11] == 'a' && head[12] == 'g');
                assert(all[11] == 'a' && all[12] == 'g');
            }
        }
        assert(at + 6 < n + text.len());
        assert(small.subrange(at - n, at - n + 7) =~= found);
        assert(occurs_at(small, word, at - n));
    }
}

proof fn lemma_chosen_alone(message: JsonView, id: u64)
    requires
        is_response(message),
    ensures
        chosen(seq![Some(message)], id) == Some(message),
{
    let messages = seq![Some(message)];
    assert(messages.last() == Some(message));
    assert(messages.skip(1) =~= seq![]);
    assert(first_answer(messages.skip(1), id) is None);
}

/// Every message that an exchange comes to is a response: it has a `result` or
/// an `error`.
pub proof fn decoded_messages_are_responses(
    status: u16,
    content_type: Seq<char>,
    body: Seq<char>,
    id: u64,
)
    ensures
        decoded(status, content_type, body, id) matches Ok(ReplyView::Message(message))
            ==> is_response(message),
{
}

/// A plain body that is JSON but no response is an error that quotes the body,
/// unless the status already settles the exchange.
pub proof fn other_messages_are_errors(
    status: u16,
    content_type: Seq<char>,
    body: Seq<char>,
    message: JsonView,
    id: u64,
)
    requires
        status_says(status, body) is None,
        !mentions(content_type, "text/event-stream"@),
        json_parsed(body) == Ok::<JsonView, Seq<char>>(message),
        !is_response(message),
    ensures
        decoded(status, content_type, body, id) == Err::<ReplyView, Seq<char>>(
            "endpoint returned HTTP "@ + decimal(status as int) + ": "@ + snippet_of(body),
        ),
        initialized_answer(decoded(status, content_type, body, id)) is Err,
{
}

/// The framing of a response makes no difference: plain JSON text and a stream
/// that carries it come to the same. Left out is a response with a result
/// under an error status, whose words quote the body.
pub proof fn framing_makes_no_difference(
    status: u16,
    plain: Seq<char>,
    stream: Seq<char>,
    text: Seq<char>,
    message: JsonView,
    id: u64,
)
    requires
        !mentions(plain, "text/event-stream"@),
        mentions(stream, "text/event-stream"@),
        is_one_line(text),
        json_parsed(text) == Ok::<JsonView, Seq<char>>(message),
        is_response(message),
        status < 400 || message.get("error"@) is Some,
    ensures
        decoded(status, plain, text, id) == decoded(status, stream, streamed(text), id),
{
    streamed_text_is_read_back(text);
    lemma_streamed_mentions_session(text);
    lemma_streamed_text(text);
    lemma_one_line_not_blank(text);
    reveal_strlit("event: message\ndata: ");
    lemma_one_line_not_blank(streamed(text));
    assert(all_readable(seq![text]) =~= seq![Some(message)]);
    lemma_chosen_alone(message, id);
}

// ── Sessions ──────────────────────────────────────────────────────────
/// Whether a handshake is for `cfg`: the session it is about to cache was made
/// for it.
pub open spec fn is_for(state: HandshakeView, cfg: ConfigView) -> bool {
    match state {
        HandshakeView::Initialize { .. } => true,
        HandshakeView::Initialized { session, .. } => session.fingerprint == cfg.fingerprint(),
    }
}

/// A handshake for a configuration stays one for it, and the session it gives
/// is cached and belongs to that configuration: the next request uses it.
pub proof fn handshake_gives_session_for(
    client: ClientView,
    cfg: ConfigView,
    state: HandshakeView,
    reply: Result<JsonView, Seq<char>>,
)
    requires
        is_for(state, cfg),
    ensures
        ({
            let (after, step) = initialize_next(client, cfg, state, reply);
            match step {
                StepView::Call(_, next) => is_for(next, cfg) && after == client,
                StepView::Done(Ok((session, _))) => after.session_for(cfg) == Some(session),
                StepView::Done(Err(_)) => after == client,
            }
        }),
{
}

/// Whether `session` was made for `cfg`.
pub open spec fn made_for(session: SessionView, cfg: ConfigView) -> bool {
    session.fingerprint == cfg.fingerprint()
}

/// The session that a handshake gives was made for its configuration.
pub proof fn sessions_are_made_for_their_configuration(
    cfg: ConfigView,
    session_header: Option<Seq<char>>,
    reply: Result<ReplyView, Seq<char>>,
)
    ensures
        initialize_answer(cfg, session_header, reply) matches Ok((session, _)) ==> made_for(
            session,
            cfg,
        ),
{
}

/// A cached session is used for the configuration it was made for, without a
/// call, and for no other: with another URL or another key a new session is
/// made.
pub proof fn sessions_belong_to_one_configuration(
    client: ClientView,
    session: SessionView,
    made: ConfigView,
    cfg: ConfigView,
)
    requires
        client.session == Some(session),
        made_for(session, made),
    ensures
        cfg == made ==> session_wanted(client, cfg) == (client, ReadyView::Session(session)),
        cfg != made ==> session_wanted(client, cfg) == (
            client.advanced(),
            ReadyView::Handshake(
                initialize_call(client, cfg),
                HandshakeView::Initialize { id: client.next_id },
            ),
        ),
{
    if session.fingerprint == cfg.fingerprint() {
        fingerprint_identifies(made, cfg);
    }
}

/// Where a session is cached for `cfg`, a request is sent at once, on that
/// session; in any other case the first call is a handshake, which goes without
/// a session.
pub proof fn sessions_are_reused(
    client: ClientView,
    cfg: ConfigView,
    method: Seq<char>,
    params: JsonView,
    timeout_secs: u64,
)
    ensures
        ({
            let (after, call, request) = request_start(client, cfg, method, params, timeout_secs);
            match client.session_for(cfg) {
                Some(session) => {
                    &&& client.session == Some(session)
                    &&& session.fingerprint == cfg.fingerprint()
                    &&& call == request.ask.call_on(client, cfg, session)
                    &&& request.phase is Sent
                    &&& after.session == client.session
                },
                None => {
                    &&& call == initialize_call(client, cfg)
                    &&& request.phase is Handshaking
                },
            }
        }),
{
}

/// Once the cached session is dropped, the next request starts with a
/// handshake.
pub proof fn dropped_session_is_not_used(
    client: ClientView,
    cfg: ConfigView,
    method: Seq<char>,
    params: JsonView,
    timeout_secs: u64,
)
    ensures
        request_start(client.with_session(None), cfg, method, params, timeout_secs).1
            == initialize_call(client, cfg),
{
}

// ── Requests ──────────────────────────────────────────────────────────
/// How many replies a request can still wait for.
pub open spec fn replies_left(request: RequestView) -> nat {
    let attempt: nat = match request.phase {
        RequestPhaseView::Handshaking(HandshakeView::Initialize { .. }) => 3,
        RequestPhaseView::Handshaking(HandshakeView::Initialized { .. }) => 2,
        RequestPhaseView::Sent { .. } => 1,
    };
    if request.ask.retried {
        attempt
    } else {
        attempt + 3
    }
}

/// A client and a request of its after `replies`.
pub open spec fn request_run(
    client: ClientView,
    cfg: ConfigView,
    step: StepView<RequestView, JsonView>,
    replies: Seq<Result<JsonView, Seq<char>>>,
) -> (ClientView, StepView<RequestView, JsonView>)
    decreases replies.len(),
{
    match step {
        StepView::Done(_) => (client, step),
        StepView::Call(_, request) => if replies.len() == 0 {
            (client, step)
        } else {
            let (client, step) = request_next(client, cfg, request, replies[0]);
            request_run(client, cfg, step, replies.skip(1))
        },
    }
}

/// Every reply brings a request nearer to its end.
pub proof fn requests_make_progress(
    client: ClientView,
    cfg: ConfigView,
    request: RequestView,
    reply: Result<JsonView, Seq<char>>,
)
    ensures
        request_next(client, cfg, request, reply).1 matches StepView::Call(_, next)
            ==> replies_left(next) < replies_left(request),
{
}

/// A request is done after as many replies as it can wait for.
pub proof fn requests_end(
    client: ClientView,
    cfg: ConfigView,
    call: HostCallView,
    request: RequestView,
    replies: Seq<Result<JsonView, Seq<char>>>,
)
    requires
        replies.len() >= replies_left(request),
    ensures
        request_run(client, cfg, StepView::Call(call, request), replies).1 is Done,
    decreases replies.len(),
{
    reveal_with_fuel(request_run, 2);
    requests_make_progress(client, cfg, request, replies[0]);
    let (after, step) = request_next(client, cfg, request, replies[0]);
    match step {
        StepView::Call(next_call, next) => {
            requests_end(after, cfg, next_call, next, replies.skip(1));
        },
        StepView::Done(_) => {},
    }
}

/// A request makes at most six calls, whatever comes back: a handshake and the
/// request, and both once more.
pub proof fn requests_make_at_most_six_calls(
    client: ClientView,
    cfg: ConfigView,
    method: Seq<char>,
    params: JsonView,
    timeout_secs: u64,
    replies: Seq<Result<JsonView, Seq<char>>>,
)
    requires
        replies.len() >= 6,
    ensures
        ({
            let (after, call, request) = request_start(client, cfg, method, params, timeout_secs);
            request_run(after, cfg, StepView::Call(call, request), replies).1 is Done
        }),
{
    let (after, call, request) = request_start(client, cfg, method, params, timeout_secs);
    requests_end(after, cfg, call, request, replies);
}

/// Without a session at hand, a request makes the handshake first; then it is
/// sent on the new session, its response is what the caller gets, and the new
/// session is cached.
pub proof fn new_session_is_made(
    client: ClientView,
    cfg: ConfigView,
    method: Seq<char>,
    params: JsonView,
    timeout_secs: u64,
    replies: Seq<JsonView>,
    session: SessionView,
    result: JsonView,
    message: JsonView,
)
    requires
        client.session_for(cfg) is None,
        replies.len() == 3,
        initialize_answer(
            cfg,
            http_reply_of(replies[0]).session_header,
            http_reply_of(replies[0]).decoded(client.next_id),
        ) == Ok::<(SessionView, JsonView), Seq<char>>((session, result)),
        initialized_answer(http_reply_of(replies[1]).decoded(0)) is Ok,
        http_reply_of(replies[2]).decoded(client.advanced().next_id) == Ok::<ReplyView, Seq<char>>(
            ReplyView::Message(message),
        ),
    ensures
        ({
            let outcomes = replies.map_values(|out: JsonView| Ok::<JsonView, Seq<char>>(out));
            let (start, call, request) = request_start(client, cfg, method, params, timeout_secs);
            let (after, end) = request_run(start, cfg, StepView::Call(call, request), outcomes);
            &&& end == StepView::<RequestView, JsonView>::Done(result_of(method, message))
            &&& after.session_for(cfg) == Some(session)
        }),
{
    let outcomes = replies.map_values(|out: JsonView| Ok::<JsonView, Seq<char>>(out));
    reveal_with_fuel(request_run, 4);
    assert(outcomes.skip(1)[0] == outcomes[1]);
    assert(outcomes.skip(1).skip(1)[0] == outcomes[2]);
}

/// A session that the server has forgotten is replaced without the caller
/// noticing: the handshake is made anew, the same request is sent on the new
/// session, its response is what the caller gets, and the new session is
/// cached.
pub proof fn forgotten_session_is_replaced(
    client: ClientView,
    cfg: ConfigView,
    call: HostCallView,
    request: RequestView,
    id: u64,
    replies: Seq<JsonView>,
    session: SessionView,
    result: JsonView,
    message: JsonView,
)
    requires
        request.phase == (RequestPhaseView::Sent { id }),
        !request.ask.retried,
        replies.len() == 4,
        // The server no longer knows the session,
        http_reply_of(replies[0]).decoded(id) == Ok::<ReplyView, Seq<char>>(ReplyView::Expired),
        // agrees to a new one,
        initialize_answer(
            cfg,
            http_reply_of(replies[1]).session_header,
            http_reply_of(replies[1]).decoded(client.next_id),
        ) == Ok::<(SessionView, JsonView), Seq<char>>((session, result)),
        initialized_answer(http_reply_of(replies[2]).decoded(0)) is Ok,
        // and answers the request on it.
        http_reply_of(replies[3]).decoded(client.advanced().next_id) == Ok::<ReplyView, Seq<char>>(
            ReplyView::Message(message),
        ),
    ensures
        ({
            let outcomes = replies.map_values(|out: JsonView| Ok::<JsonView, Seq<char>>(out));
            let (resending, step) = request_run(
                client,
                cfg,
                StepView::Call(call, request),
                outcomes.take(3),
            );
            let (after, end) = request_run(client, cfg, StepView::Call(call, request), outcomes);
            &&& step matches StepView::Call(resent, _) && resent == request.ask.call_on(
                client.advanced(),
                cfg,
                session,
            )
            &&& end == StepView::<RequestView, JsonView>::Done(
                result_of(request.ask.method, message),
            )
            &&& after.session_for(cfg) == Some(session)
            &&& resending.session == Some(session)
        }),
{
    let outcomes = replies.map_values(|out: JsonView| Ok::<JsonView, Seq<char>>(out));
    reveal_with_fuel(request_run, 5);
    let three = outcomes.take(3);
    assert(three.skip(1)[0] == outcomes[1]);
    assert(three.skip(1).skip(1)[0] == outcomes[2]);
    assert(three.skip(1).skip(1).skip(1).len() == 0);
    assert(outcomes.skip(1)[0] == outcomes[1]);
    assert(outcomes.skip(1).skip(1)[0] == outcomes[2]);
    assert(outcomes.skip(1).skip(1).skip(1)[0] == outcomes[3]);
}

/// A session found expired a second time is an error, not another retry.
pub proof fn second_expiry_is_an_error(
    client: ClientView,
    cfg: ConfigView,
    request: RequestView,
    id: u64,
    out: JsonView,
)
    requires
        request.phase == (RequestPhaseView::Sent { id }),
        request.ask.retried,
        http_reply_of(out).decoded(id) == Ok::<ReplyView, Seq<char>>(ReplyView::Expired),
    ensures
        request_next(client, cfg, request, Ok(out)).1 == StepView::<RequestView, JsonView>::Done(
            Err("session expired again right after re-initialising"@),
        ),
{
}

/// Whether a request stands on a session for `cfg`: it was sent on one that is
/// cached, or waits for the handshake that makes one.
pub open spec fn stands_on_session(
    client: ClientView,
    cfg: ConfigView,
    request: RequestView,
) -> bool {
    match request.phase {
        RequestPhaseView::Handshaking(state) => is_for(state, cfg),
        RequestPhaseView::Sent { .. } => client.session_for(cfg) is Some,
    }
}

/// A request stands on a session for its configuration from the start to the
/// end, and where it is answered that session is cached.
pub proof fn requests_stand_on_a_session(
    client: ClientView,
    cfg: ConfigView,
    request: RequestView,
    reply: Result<JsonView, Seq<char>>,
)
    requires
        stands_on_session(client, cfg, request),
    ensures
        ({
            let (after, step) = request_next(client, cfg, request, reply);
            match step {
                StepView::Call(_, next) => stands_on_session(after, cfg, next),
                StepView::Done(Ok(_)) => after.session_for(cfg) is Some,
                StepView::Done(Err(_)) => true,
            }
        }),
{
}

// ── The tool catalog ──────────────────────────────────────────────────
/// A client and a listing of its after `replies`.
pub open spec fn list_run(
    client: ClientView,
    cfg: ConfigView,
    step: StepView<ListingView, Seq<JsonView>>,
    replies: Seq<Result<JsonView, Seq<char>>>,
) -> (ClientView, StepView<ListingView, Seq<JsonView>>)
    decreases replies.len(),
{
    match step {
        StepView::Done(_) => (client, step),
        StepView::Call(_, listing) => if replies.len() == 0 {
            (client, step)
        } else {
            let (client, step) = list_next(client, cfg, listing, replies[0]);
            list_run(client, cfg, step, replies.skip(1))
        },
    }
}

/// The pages that a listing gets with `replies`, in order.
pub open spec fn pages_got(
    client: ClientView,
    cfg: ConfigView,
    step: StepView<ListingView, Seq<JsonView>>,
    replies: Seq<Result<JsonView, Seq<char>>>,
) -> Seq<JsonView>
    decreases replies.len(),
{
    match step {
        StepView::Done(_) => seq![],
        StepView::Call(_, listing) => if replies.len() == 0 {
            seq![]
        } else {
            let (after, next) = list_next(client, cfg, listing, replies[0]);
            let rest = pages_got(after, cfg, next, replies.skip(1));
            match request_next(client, cfg, listing.request, replies[0]).1 {
                StepView::Done(Ok(result)) => seq![result] + rest,
                _ => rest,
            }
        },
    }
}

/// The tools of all `pages`, in order.
pub open spec fn tools_on(pages: Seq<JsonView>) -> Seq<JsonView>
    decreases pages.len(),
{
    if pages.len() == 0 {
        seq![]
    } else {
        page_of(pages[0]) + tools_on(pages.skip(1))
    }
}

/// The catalog is the tools of all the pages that came, in order: every page
/// but the last names the next one, and the last does not.
pub proof fn listing_collects_all_pages(
    client: ClientView,
    cfg: ConfigView,
    call: HostCallView,
    listing: ListingView,
    replies: Seq<Result<JsonView, Seq<char>>>,
)
    ensures
        ({
            let step = StepView::Call(call, listing);
            let pages = pages_got(client, cfg, step, replies);
            list_run(client, cfg, step, replies).1 matches StepView::Done(Ok(tools)) ==> {
                &&& tools == listing.tools + tools_on(pages)
                &&& pages.len() > 0
                &&& cursor_of(pages.last()) is None
                &&& forall|i: int|
                    0 <= i < pages.len() - 1 ==> cursor_of(#[trigger] pages[i]) is Some
            }
        }),
    decreases replies.len(),
{
    let step = StepView::Call(call, listing);
    let pages = pages_got(client, cfg, step, replies);
    reveal_with_fuel(list_run, 2);
    if replies.len() > 0 && list_run(client, cfg, step, replies).1 matches StepView::Done(Ok(_)) {
        let (after, next) = list_next(client, cfg, listing, replies[0]);
        let rest = pages_got(after, cfg, next, replies.skip(1));
        match next {
            StepView::Call(next_call, next_listing) => {
                listing_collects_all_pages(after, cfg, next_call, next_listing, replies.skip(1));
                if let StepView::Done(Ok(result)) = request_next(
                    client,
                    cfg,
                    listing.request,
                    replies[0],
                ).1 {
                    assert(pages.skip(1) =~= rest);
                    assert(listing.tools + page_of(result) + tools_on(rest) =~= listing.tools
                        + tools_on(pages));
                    if rest.len() > 0 {
                        assert(pages.last() == rest.last());
                        assert forall|i: int| 0 <= i < pages.len() - 1 implies cursor_of(
                            #[trigger] pages[i],
                        ) is Some by {
                            if i > 0 {
                                assert(pages[i] == rest[i - 1]);
                            }
                        }
                    }
                }
            },
            StepView::Done(Ok(_)) => {
                let result = request_next(client, cfg, listing.request, replies[0]).1->Done_0->Ok_0;
                assert(rest =~= seq![]);
                assert(pages =~= seq![result]);
                assert(pages.skip(1) =~= seq![]);
                assert(tools_on(pages.skip(1)) =~= seq![]);
                assert(tools_on(pages) =~= page_of(result));
            },
            StepView::Done(Err(_)) => {},
        }
    }
}

/// Once the catalog is listed, a session for the configuration is cached.
pub proof fn listing_leaves_a_session(
    client: ClientView,
    cfg: ConfigView,
    call: HostCallView,
    listing: ListingView,
    replies: Seq<Result<JsonView, Seq<char>>>,
)
    requires
        stands_on_session(client, cfg, listing.request),
    ensures
        ({
            let (after, step) = list_run(client, cfg, StepView::Call(call, listing), replies);
            step matches StepView::Done(Ok(_)) ==> after.session_for(cfg) is Some
        }),
    decreases replies.len(),
{
    reveal_with_fuel(list_run, 2);
    if replies.len() > 0 {
        requests_stand_on_a_session(client, cfg, listing.request, replies[0]);
        let (after, step) = list_next(client, cfg, listing, replies[0]);
        match step {
            StepView::Call(next_call, next) => {
                listing_leaves_a_session(after, cfg, next_call, next, replies.skip(1));
            },
            StepView::Done(_) => {},
        }
    }
}

/// The request for the next page carries the cursor that the page before it
/// gave.
pub proof fn next_page_starts_at_cursor(
    client: ClientView,
    cfg: ConfigView,
    listing: ListingView,
    reply: Result<JsonView, Seq<char>>,
    result: JsonView,
    cursor: Seq<char>,
)
    requires
        request_next(client, cfg, listing.request, reply).1 == StepView::<
            RequestView,
            JsonView,
        >::Done(Ok(result)),
        cursor_of(result) == Some(cursor),
    ensures
        list_next(client, cfg, listing, reply).1 matches StepView::Call(_, next) && {
            &&& next.tools == listing.tools + page_of(result)
            &&& next.request.ask.method == "tools/list"@
            &&& next.request.ask.params.str_at("cursor"@) == Some(cursor)
        },
{
}

} // verus!
