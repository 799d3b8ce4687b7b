//! What holds of whole calls of the exports: of an invocation of each tool, of
//! seeding and of shutting down, from the first host call to the answer.
use vstd::prelude::*;
use crate::client_laws::{
    forgotten_session_is_replaced, list_run, listing_collects_all_pages, listing_leaves_a_session,
    new_session_is_made, pages_got, request_run, tools_on,
};
use crate::config::{
    ConfigView, LoadingView, config_of, get_setting_call, load_call, set_setting_call, setting_of,
};
use crate::host::{HostCallView, StepView};
use crate::json::JsonView;
use crate::mcp_client::{
    CALL_TIMEOUT_SECS, ClientView, HandshakeView, ListingView, ReplyView, RequestView, SessionView,
    call_params, http_call, http_reply_of, initialize_answer, initialize_call, initialized_answer,
    initialized_note, list_next, page_start, request_next, request_start, result_of,
};
use crate::plugin::{
    RunView, ShutdownView, ToolRunView, TurnView, allowing, arguments_in, cancelling, invoke_start,
    run_next, seeded_answer, seeding_start, shutdown_answer, tool_in, verdict_of, with_seeded,
};
use crate::plugin_laws::verdicts_say_nothing_else;
use crate::text::or_empty;
use crate::tool_laws::{
    only_true_is_an_error, settings_are_taken_from_the_arguments, working_connection_is_told,
};
use crate::tools::{
    CallRunView, CatalogRunView, ConfigurePhaseView, SettingsView, StatusRunView, argument_of,
    call_wanted, catalog_of, configured_report, connected_report, disconnected_report, names_in,
    settings_wanted, unconfigured_report, unwrapped, with_catalog,
};

verus! {

/// What the host calls of a run give back, in order.
pub type Replies = Seq<Result<JsonView, Seq<char>>>;

/// A client and a call of an export after `replies`.
pub open spec fn run_after(client: ClientView, turn: TurnView, replies: Replies) -> (
    ClientView,
    TurnView,
)
    decreases replies.len(),
{
    match turn {
        TurnView::Answer(_) => (client, turn),
        TurnView::Call(_, run) => if replies.len() == 0 {
            (client, turn)
        } else {
            let (client, turn) = run_next(client, run, replies[0]);
            run_after(client, turn, replies.skip(1))
        },
    }
}

proof fn lemma_two_steps(client: ClientView, turn: TurnView, replies: Replies)
    requires
        turn is Call,
        replies.len() >= 2,
        run_next(client, turn->Call_1, replies[0]).1 is Call,
    ensures
        ({
            let (c1, t1) = run_next(client, turn->Call_1, replies[0]);
            let (c2, t2) = run_next(c1, t1->Call_1, replies[1]);
            run_after(client, turn, replies) == run_after(c2, t2, replies.skip(2))
        }),
{
    reveal_with_fuel(run_after, 3);
    assert(replies.skip(1)[0] == replies[1]);
    assert(replies.skip(1).skip(1) =~= replies.skip(2));
}

// ── What comes back ───────────────────────────────────────────────────
/// Whether `replies` start with the two settings that make `cfg`.
pub open spec fn settings_come(replies: Replies, cfg: ConfigView) -> bool {
    &&& replies.len() >= 2
    &&& replies[0] matches Ok(url) && replies[1] matches Ok(key) && config_of(
        setting_of(url),
        setting_of(key),
    ) == Ok::<ConfigView, Seq<char>>(cfg)
}

/// Whether loading the configuration fails for `e`: one of the two settings
/// cannot be read, or what they hold makes no configuration.
pub open spec fn settings_fail(replies: Replies, e: Seq<char>) -> bool {
    ||| replies.len() >= 1 && replies[0] == Err::<JsonView, Seq<char>>(e)
    ||| replies.len() >= 2 && replies[0] is Ok && replies[1] == Err::<JsonView, Seq<char>>(e)
    ||| {
        &&& replies.len() >= 2
        &&& replies[0] matches Ok(url) && replies[1] matches Ok(key) && config_of(
            setting_of(url),
            setting_of(key),
        ) == Err::<ConfigView, Seq<char>>(e)
    }
}

/// Whether `replies` start with the server's part of a handshake that `client`
/// starts, which establishes `session` with the result `init`.
pub open spec fn handshake_comes(
    client: ClientView,
    cfg: ConfigView,
    replies: Replies,
    session: SessionView,
    init: JsonView,
) -> bool {
    &&& replies.len() >= 2
    &&& replies[0] matches Ok(out) && initialize_answer(
        cfg,
        http_reply_of(out).session_header,
        http_reply_of(out).decoded(client.next_id),
    ) == Ok::<(SessionView, JsonView), Seq<char>>((session, init))
    &&& replies[1] matches Ok(out) && initialized_answer(http_reply_of(out).decoded(0)) is Ok
}

/// Whether a handshake that `client` starts fails for `e`, at either of its
/// two exchanges.
pub open spec fn handshake_fails(
    client: ClientView,
    cfg: ConfigView,
    replies: Replies,
    e: Seq<char>,
) -> bool {
    ||| replies.len() >= 1 && replies[0] == Err::<JsonView, Seq<char>>(e)
    ||| replies.len() >= 1 && (replies[0] matches Ok(out) && initialize_answer(
        cfg,
        http_reply_of(out).session_header,
        http_reply_of(out).decoded(client.next_id),
    ) == Err::<(SessionView, JsonView), Seq<char>>(e))
    ||| {
        &&& replies.len() >= 2
        &&& replies[0] matches Ok(out) && initialize_answer(
            cfg,
            http_reply_of(out).session_header,
            http_reply_of(out).decoded(client.next_id),
        ) is Ok
        &&& replies[1] == Err::<JsonView, Seq<char>>(e) || (replies[1] matches Ok(out)
            && initialized_answer(http_reply_of(out).decoded(0)) == Err::<(), Seq<char>>(e))
    }
}

/// Whether `reply` is a response to the request `id`.
pub open spec fn response_comes(
    reply: Result<JsonView, Seq<char>>,
    id: u64,
    message: JsonView,
) -> bool {
    reply matches Ok(out) && http_reply_of(out).decoded(id) == Ok::<ReplyView, Seq<char>>(
        ReplyView::Message(message),
    )
}

/// What `client` comes to, and what becomes of listing its tools, with
/// `replies`.
pub open spec fn listed(client: ClientView, cfg: ConfigView, replies: Replies) -> (
    ClientView,
    StepView<ListingView, Seq<JsonView>>,
) {
    let (start, call, listing) = page_start(client, cfg, Seq::empty(), None);
    list_run(start, cfg, StepView::Call(call, listing), replies)
}

/// The pages that listing the tools of `client` gets with `replies`.
pub open spec fn pages_listed(client: ClientView, cfg: ConfigView, replies: Replies) -> Seq<
    JsonView,
> {
    let (start, call, listing) = page_start(client, cfg, Seq::empty(), None);
    pages_got(start, cfg, StepView::Call(call, listing), replies)
}

proof fn lemma_listed(client: ClientView, cfg: ConfigView, replies: Replies)
    ensures
        listed(client, cfg, replies).1 matches StepView::Done(Ok(tools)) ==> {
            &&& tools == tools_on(pages_listed(client, cfg, replies))
            &&& listed(client, cfg, replies).0.session_for(cfg) is Some
        },
{
    let (start, call, listing) = page_start(client, cfg, Seq::empty(), None);
    let tools = tools_on(pages_listed(client, cfg, replies));
    listing_collects_all_pages(start, cfg, call, listing, replies);
    listing_leaves_a_session(start, cfg, call, listing, replies);
    assert(Seq::<JsonView>::empty() + tools =~= tools);
}

/// What `client` comes to, and what becomes of calling the tool `name`, with
/// `replies`.
pub open spec fn called(
    client: ClientView,
    cfg: ConfigView,
    name: Seq<char>,
    arguments: JsonView,
    replies: Replies,
) -> (ClientView, StepView<RequestView, JsonView>) {
    let (start, call, request) = request_start(
        client,
        cfg,
        "tools/call"@,
        call_params(name, arguments),
        CALL_TIMEOUT_SECS,
    );
    request_run(start, cfg, StepView::Call(call, request), replies)
}

// ── Invocations ───────────────────────────────────────────────────────
/// How an invocation of `npm_status` starts.
pub open spec fn status_invoked() -> TurnView {
    TurnView::Call(
        load_call(),
        RunView::Tool(ToolRunView::Status(StatusRunView::Loading(LoadingView::BaseUrl))),
    )
}

/// How an invocation of `npm_list_tools` starts.
pub open spec fn catalog_invoked(names: Seq<Seq<char>>) -> TurnView {
    let run = CatalogRunView::Loading { names, state: LoadingView::BaseUrl };
    TurnView::Call(load_call(), RunView::Tool(ToolRunView::Catalog(run)))
}

/// How an invocation of `npm_call` starts.
pub open spec fn call_invoked(name: Seq<char>, arguments: JsonView) -> TurnView {
    let run = CallRunView::Loading { name, arguments, state: LoadingView::BaseUrl };
    TurnView::Call(load_call(), RunView::Tool(ToolRunView::Call(run)))
}

/// How an invocation of `npm_configure` starts: with the URL where one is
/// given, and else with the key.
pub open spec fn configure_invoked(settings: SettingsView) -> TurnView {
    match settings.base_url {
        Some(url) => TurnView::Call(
            set_setting_call("base_url"@, url),
            RunView::Tool(ToolRunView::Configure(settings.at(ConfigurePhaseView::SavingBaseUrl))),
        ),
        None => TurnView::Call(
            set_setting_call("api_key"@, or_empty(settings.api_key)),
            RunView::Tool(ToolRunView::Configure(settings.at(ConfigurePhaseView::SavingApiKey))),
        ),
    }
}

/// Which tool an invocation starts goes by the name in its payload, and what
/// the tool is asked by the arguments in it.
pub proof fn tools_are_invoked_by_name(client: ClientView, payload: JsonView)
    ensures
        ({
            let args = arguments_in(payload);
            let start = invoke_start(client, payload);
            &&& tool_in(payload) == "npm_status"@ ==> start == (client, status_invoked())
            &&& tool_in(payload) == "npm_list_tools"@ ==> start == (
                client,
                catalog_invoked(names_in(args)),
            )
            &&& tool_in(payload) == "npm_call"@ ==> match call_wanted(args) {
                Ok((name, arguments)) => start == (client, call_invoked(name, arguments)),
                Err(e) => start == (client, TurnView::Answer(cancelling(e))),
            }
            &&& tool_in(payload) == "npm_configure"@ ==> match settings_wanted(args) {
                Ok(settings) => start == (client, configure_invoked(settings)) && is_given(
                    settings,
                ),
                Err(e) => start == (client, TurnView::Answer(cancelling(e))),
            }
        }),
{
    reveal_strlit("npm_status");
    reveal_strlit("npm_list_tools");
    reveal_strlit("npm_call");
    reveal_strlit("npm_configure");
    assert("npm_status"@.len() == 10 && "npm_list_tools"@.len() == 14 && "npm_call"@.len() == 8
        && "npm_configure"@.len() == 13);
}

proof fn lemma_status_unloaded(client: ClientView, e: Seq<char>, replies: Replies)
    requires
        settings_fail(replies, e),
    ensures
        run_after(client, status_invoked(), replies) == (
            client,
            TurnView::Answer(allowing(unconfigured_report(e))),
        ),
{
    reveal_with_fuel(run_after, 3);
    if replies.len() >= 2 {
        assert(replies.skip(1)[0] == replies[1]);
    }
}

proof fn lemma_catalog_unloaded(
    client: ClientView,
    names: Seq<Seq<char>>,
    e: Seq<char>,
    replies: Replies,
)
    requires
        settings_fail(replies, e),
    ensures
        run_after(client, catalog_invoked(names), replies) == (
            client,
            TurnView::Answer(cancelling(e)),
        ),
{
    reveal_with_fuel(run_after, 3);
    if replies.len() >= 2 {
        assert(replies.skip(1)[0] == replies[1]);
    }
}

proof fn lemma_call_unloaded(
    client: ClientView,
    name: Seq<char>,
    arguments: JsonView,
    e: Seq<char>,
    replies: Replies,
)
    requires
        settings_fail(replies, e),
    ensures
        run_after(client, call_invoked(name, arguments), replies) == (
            client,
            TurnView::Answer(cancelling(e)),
        ),
{
    reveal_with_fuel(run_after, 3);
    if replies.len() >= 2 {
        assert(replies.skip(1)[0] == replies[1]);
    }
}

/// Without a configuration, `npm_list_tools` and `npm_call` are cancelled with
/// the words of the failure, and `npm_status` reports them.
pub proof fn tools_need_a_configuration(
    client: ClientView,
    names: Seq<Seq<char>>,
    name: Seq<char>,
    arguments: JsonView,
    e: Seq<char>,
    replies: Replies,
)
    requires
        settings_fail(replies, e),
    ensures
        run_after(client, status_invoked(), replies) == (
            client,
            TurnView::Answer(allowing(unconfigured_report(e))),
        ),
        run_after(client, catalog_invoked(names), replies) == (
            client,
            TurnView::Answer(cancelling(e)),
        ),
        run_after(client, call_invoked(name, arguments), replies) == (
            client,
            TurnView::Answer(cancelling(e)),
        ),
{
    lemma_status_unloaded(client, e, replies);
    lemma_catalog_unloaded(client, names, e, replies);
    lemma_call_unloaded(client, name, arguments, e, replies);
}

// ── npm_status ────────────────────────────────────────────────────────
/// `npm_status` once the configuration is loaded.
pub open spec fn status_handshaking(client: ClientView, cfg: ConfigView) -> TurnView {
    TurnView::Call(
        initialize_call(client, cfg),
        RunView::Tool(
            ToolRunView::Status(
                StatusRunView::Handshaking {
                    cfg,
                    out: configured_report(cfg),
                    handshake: HandshakeView::Initialize { id: client.next_id },
                },
            ),
        ),
    )
}

/// `npm_status` while it lists the tools.
pub open spec fn status_listing(
    cfg: ConfigView,
    out: JsonView,
    call: HostCallView,
    listing: ListingView,
) -> TurnView {
    TurnView::Call(
        call,
        RunView::Tool(ToolRunView::Status(StatusRunView::Listing { cfg, out, listing })),
    )
}

/// What `npm_status` comes to with a step of listing the tools.
pub open spec fn status_listed(
    cfg: ConfigView,
    out: JsonView,
    step: StepView<ListingView, Seq<JsonView>>,
) -> TurnView {
    match step {
        StepView::Call(call, listing) => status_listing(cfg, out, call, listing),
        StepView::Done(Ok(tools)) => TurnView::Answer(allowing(with_catalog(out, tools))),
        StepView::Done(Err(e)) => TurnView::Answer(allowing(out.with_str("tools_error"@, e))),
    }
}

proof fn lemma_status_loaded(client: ClientView, cfg: ConfigView, replies: Replies)
    requires
        settings_come(replies, cfg),
    ensures
        run_after(client, status_invoked(), replies) == run_after(
            client.advanced(),
            status_handshaking(client, cfg),
            replies.skip(2),
        ),
{
    lemma_two_steps(client, status_invoked(), replies);
}

proof fn lemma_status_connected(
    client: ClientView,
    cfg: ConfigView,
    session: SessionView,
    init: JsonView,
    replies: Replies,
)
    requires
        handshake_comes(client, cfg, replies, session, init),
    ensures
        ({
            let connected = client.advanced().with_session(Some(session));
            let out = connected_report(configured_report(cfg), session, init);
            let (start, call, listing) = page_start(connected, cfg, Seq::empty(), None);
            run_after(client.advanced(), status_handshaking(client, cfg), replies) == run_after(
                start,
                status_listing(cfg, out, call, listing),
                replies.skip(2),
            )
        }),
{
    lemma_two_steps(client.advanced(), status_handshaking(client, cfg), replies);
}

proof fn lemma_status_step(
    client: ClientView,
    cfg: ConfigView,
    out: JsonView,
    listing: ListingView,
    reply: Result<JsonView, Seq<char>>,
)
    ensures
        ({
            let (after, step) = list_next(client, cfg, listing, reply);
            run_next(
                client,
                RunView::Tool(ToolRunView::Status(StatusRunView::Listing { cfg, out, listing })),
                reply,
            ) == (after, status_listed(cfg, out, step))
        }),
{
}

proof fn lemma_status_listed(
    client: ClientView,
    cfg: ConfigView,
    out: JsonView,
    call: HostCallView,
    listing: ListingView,
    replies: Replies,
)
    ensures
        ({
            let (after, step) = list_run(client, cfg, StepView::Call(call, listing), replies);
            run_after(client, status_listing(cfg, out, call, listing), replies) == (
                after,
                status_listed(cfg, out, step),
            )
        }),
    decreases replies.len(),
{
    reveal_with_fuel(run_after, 2);
    reveal_with_fuel(list_run, 2);
    if replies.len() > 0 {
        lemma_status_step(client, cfg, out, listing, replies[0]);
        let (after, step) = list_next(client, cfg, listing, replies[0]);
        match step {
            StepView::Call(next_call, next) => {
                lemma_status_listed(after, cfg, out, next_call, next, replies.skip(1));
            },
            StepView::Done(_) => {},
        }
    }
}

/// Where the configuration is there and the handshake succeeds, `npm_status`
/// reports the connection, and with it the tools on all the pages of the
/// catalog, however many there are, or why they could not be listed. Once the
/// tools are listed a session for the configuration is cached.
pub proof fn working_connection_is_reported(
    client: ClientView,
    cfg: ConfigView,
    session: SessionView,
    init: JsonView,
    replies: Replies,
)
    requires
        settings_come(replies, cfg),
        handshake_comes(client, cfg, replies.skip(2), session, init),
    ensures
        ({
            let connected = client.advanced().with_session(Some(session));
            let out = connected_report(configured_report(cfg), session, init);
            let rest = replies.skip(4);
            let (after, step) = listed(connected, cfg, rest);
            let (end, turn) = run_after(client, status_invoked(), replies);
            &&& end == after
            &&& match step {
                StepView::Done(Ok(_)) => {
                    &&& turn == TurnView::Answer(
                        allowing(with_catalog(out, tools_on(pages_listed(connected, cfg, rest)))),
                    )
                    &&& end.session_for(cfg) is Some
                },
                StepView::Done(Err(e)) => turn == TurnView::Answer(
                    allowing(out.with_str("tools_error"@, e)),
                ),
                StepView::Call(call, _) => turn matches TurnView::Call(asked, _) && asked == call,
            }
        }),
{
    let connected = client.advanced().with_session(Some(session));
    let out = connected_report(configured_report(cfg), session, init);
    let (start, call, listing) = page_start(connected, cfg, Seq::empty(), None);
    let rest = replies.skip(4);
    assert(replies.skip(2).skip(2) =~= rest);
    assert(run_after(client, status_invoked(), replies) == run_after(
        start,
        status_listing(cfg, out, call, listing),
        rest,
    )) by {
        lemma_status_loaded(client, cfg, replies);
        lemma_status_connected(client, cfg, session, init, replies.skip(2));
    }
    lemma_status_listed(start, cfg, out, call, listing, rest);
    lemma_listed(connected, cfg, rest);
}

/// Where the handshake fails, `npm_status` reports the configuration and the
/// words of the failure.
pub proof fn broken_connection_is_reported(
    client: ClientView,
    cfg: ConfigView,
    e: Seq<char>,
    replies: Replies,
)
    requires
        settings_come(replies, cfg),
        handshake_fails(client, cfg, replies.skip(2), e),
    ensures
        run_after(client, status_invoked(), replies) == (
            client.advanced(),
            TurnView::Answer(allowing(disconnected_report(configured_report(cfg), e))),
        ),
{
    lemma_status_loaded(client, cfg, replies);
    lemma_status_broken(client, cfg, e, replies.skip(2));
}

proof fn lemma_status_broken(client: ClientView, cfg: ConfigView, e: Seq<char>, replies: Replies)
    requires
        handshake_fails(client, cfg, replies, e),
    ensures
        run_after(client.advanced(), status_handshaking(client, cfg), replies) == (
            client.advanced(),
            TurnView::Answer(allowing(disconnected_report(configured_report(cfg), e))),
        ),
{
    reveal_with_fuel(run_after, 3);
    if replies.len() >= 2 {
        assert(replies.skip(1)[0] == replies[1]);
    }
}

// ── npm_list_tools ────────────────────────────────────────────────────
/// What `npm_list_tools` comes to with a step of listing the tools.
pub open spec fn catalog_listed(
    names: Seq<Seq<char>>,
    cfg: ConfigView,
    step: StepView<ListingView, Seq<JsonView>>,
) -> TurnView {
    match step {
        StepView::Call(call, listing) => TurnView::Call(
            call,
            RunView::Tool(ToolRunView::Catalog(CatalogRunView::Listing { names, cfg, listing })),
        ),
        StepView::Done(Ok(tools)) => TurnView::Answer(allowing(catalog_of(tools, names))),
        StepView::Done(Err(e)) => TurnView::Answer(cancelling(e)),
    }
}

proof fn lemma_catalog_step(
    client: ClientView,
    names: Seq<Seq<char>>,
    cfg: ConfigView,
    listing: ListingView,
    reply: Result<JsonView, Seq<char>>,
)
    ensures
        ({
            let (after, step) = list_next(client, cfg, listing, reply);
            run_next(
                client,
                RunView::Tool(
                    ToolRunView::Catalog(CatalogRunView::Listing { names, cfg, listing }),
                ),
                reply,
            ) == (after, catalog_listed(names, cfg, step))
        }),
{
}

proof fn lemma_catalog_listed(
    client: ClientView,
    names: Seq<Seq<char>>,
    cfg: ConfigView,
    call: HostCallView,
    listing: ListingView,
    replies: Replies,
)
    ensures
        ({
            let start = StepView::Call(call, listing);
            let (after, step) = list_run(client, cfg, start, replies);
            run_after(client, catalog_listed(names, cfg, start), replies) == (
                after,
                catalog_listed(names, cfg, step),
            )
        }),
    decreases replies.len(),
{
    reveal_with_fuel(run_after, 2);
    reveal_with_fuel(list_run, 2);
    if replies.len() > 0 {
        lemma_catalog_step(client, names, cfg, listing, replies[0]);
        let (after, step) = list_next(client, cfg, listing, replies[0]);
        match step {
            StepView::Call(next_call, next) => {
                lemma_catalog_listed(after, names, cfg, next_call, next, replies.skip(1));
            },
            StepView::Done(_) => {},
        }
    }
}

proof fn lemma_catalog_loaded(
    client: ClientView,
    names: Seq<Seq<char>>,
    cfg: ConfigView,
    replies: Replies,
)
    requires
        settings_come(replies, cfg),
    ensures
        ({
            let (start, call, listing) = page_start(client, cfg, Seq::empty(), None);
            run_after(client, catalog_invoked(names), replies) == run_after(
                start,
                catalog_listed(names, cfg, StepView::Call(call, listing)),
                replies.skip(2),
            )
        }),
{
    lemma_two_steps(client, catalog_invoked(names), replies);
}

/// `npm_list_tools` answers with the catalog of the tools on all the pages,
/// whether a session is at hand, has to be made first, or was forgotten on the
/// way; where they cannot be listed it is cancelled.
pub proof fn catalog_is_answered(
    client: ClientView,
    cfg: ConfigView,
    names: Seq<Seq<char>>,
    replies: Replies,
)
    requires
        settings_come(replies, cfg),
    ensures
        ({
            let rest = replies.skip(2);
            let (after, step) = listed(client, cfg, rest);
            let (end, turn) = run_after(client, catalog_invoked(names), replies);
            &&& end == after
            &&& match step {
                StepView::Done(Ok(_)) => {
                    &&& turn == TurnView::Answer(
                        allowing(catalog_of(tools_on(pages_listed(client, cfg, rest)), names)),
                    )
                    &&& end.session_for(cfg) is Some
                },
                StepView::Done(Err(e)) => turn == TurnView::Answer(cancelling(e)),
                StepView::Call(call, _) => turn matches TurnView::Call(asked, _) && asked == call,
            }
        }),
{
    let (start, call, listing) = page_start(client, cfg, Seq::empty(), None);
    lemma_catalog_loaded(client, names, cfg, replies);
    lemma_catalog_listed(start, names, cfg, call, listing, replies.skip(2));
    lemma_listed(client, cfg, replies.skip(2));
}

// ── npm_call ──────────────────────────────────────────────────────────
/// What `npm_call` comes to with a step of its request.
pub open spec fn call_stepped(
    name: Seq<char>,
    cfg: ConfigView,
    step: StepView<RequestView, JsonView>,
) -> TurnView {
    match step {
        StepView::Call(call, request) => TurnView::Call(
            call,
            RunView::Tool(ToolRunView::Call(CallRunView::Calling { name, cfg, request })),
        ),
        StepView::Done(Ok(result)) => TurnView::Answer(verdict_of(unwrapped(name, result))),
        StepView::Done(Err(e)) => TurnView::Answer(cancelling(e)),
    }
}

proof fn lemma_call_step(
    client: ClientView,
    name: Seq<char>,
    cfg: ConfigView,
    request: RequestView,
    reply: Result<JsonView, Seq<char>>,
)
    ensures
        ({
            let (after, step) = request_next(client, cfg, request, reply);
            run_next(
                client,
                RunView::Tool(ToolRunView::Call(CallRunView::Calling { name, cfg, request })),
                reply,
            ) == (after, call_stepped(name, cfg, step))
        }),
{
}

proof fn lemma_call_stepped(
    client: ClientView,
    name: Seq<char>,
    cfg: ConfigView,
    call: HostCallView,
    request: RequestView,
    replies: Replies,
)
    ensures
        ({
            let start = StepView::Call(call, request);
            let (after, step) = request_run(client, cfg, start, replies);
            run_after(client, call_stepped(name, cfg, start), replies) == (
                after,
                call_stepped(name, cfg, step),
            )
        }),
    decreases replies.len(),
{
    reveal_with_fuel(run_after, 2);
    reveal_with_fuel(request_run, 2);
    if replies.len() > 0 {
        lemma_call_step(client, name, cfg, request, replies[0]);
        let (after, step) = request_next(client, cfg, request, replies[0]);
        match step {
            StepView::Call(next_call, next) => {
                lemma_call_stepped(after, name, cfg, next_call, next, replies.skip(1));
            },
            StepView::Done(_) => {},
        }
    }
}

proof fn lemma_call_loaded(
    client: ClientView,
    name: Seq<char>,
    arguments: JsonView,
    cfg: ConfigView,
    replies: Replies,
)
    requires
        settings_come(replies, cfg),
    ensures
        ({
            let (start, call, request) = request_start(
                client,
                cfg,
                "tools/call"@,
                call_params(name, arguments),
                CALL_TIMEOUT_SECS,
            );
            run_after(client, call_invoked(name, arguments), replies) == run_after(
                start,
                call_stepped(name, cfg, StepView::Call(call, request)),
                replies.skip(2),
            )
        }),
{
    lemma_two_steps(client, call_invoked(name, arguments), replies);
}

/// `npm_call` answers with what its request comes to, whatever comes back: the
/// server's result unwrapped, or the words of the failure.
pub proof fn calls_are_answered(
    client: ClientView,
    cfg: ConfigView,
    name: Seq<char>,
    arguments: JsonView,
    replies: Replies,
)
    requires
        settings_come(replies, cfg),
    ensures
        ({
            let (after, step) = called(client, cfg, name, arguments, replies.skip(2));
            run_after(client, call_invoked(name, arguments), replies) == (
                after,
                call_stepped(name, cfg, step),
            )
        }),
{
    let (start, call, request) = request_start(
        client,
        cfg,
        "tools/call"@,
        call_params(name, arguments),
        CALL_TIMEOUT_SECS,
    );
    lemma_call_loaded(client, name, arguments, cfg, replies);
    lemma_call_stepped(start, name, cfg, call, request, replies.skip(2));
}

/// What `npm_call` answers with where the server responds with `message`.
pub open spec fn call_answer(name: Seq<char>, message: JsonView) -> TurnView {
    TurnView::Answer(
        verdict_of(
            match result_of("tools/call"@, message) {
                Ok(result) => unwrapped(name, result),
                Err(e) => Err(e),
            },
        ),
    )
}

/// On a session at hand, `npm_call` takes one exchange.
pub proof fn calls_use_the_session_at_hand(
    client: ClientView,
    cfg: ConfigView,
    name: Seq<char>,
    arguments: JsonView,
    message: JsonView,
    replies: Replies,
)
    requires
        replies.len() == 3,
        settings_come(replies, cfg),
        client.session_for(cfg) is Some,
        response_comes(replies[2], client.next_id, message),
    ensures
        run_after(client, call_invoked(name, arguments), replies) == (
            client.advanced(),
            call_answer(name, message),
        ),
{
    reveal_with_fuel(request_run, 2);
    calls_are_answered(client, cfg, name, arguments, replies);
    assert(replies.skip(2)[0] == replies[2]);
}

/// Without a session at hand, `npm_call` makes the handshake first, and keeps
/// the new session for the next call.
pub proof fn calls_make_a_session_first(
    client: ClientView,
    cfg: ConfigView,
    name: Seq<char>,
    arguments: JsonView,
    session: SessionView,
    init: JsonView,
    message: JsonView,
    replies: Replies,
)
    requires
        replies.len() == 5,
        settings_come(replies, cfg),
        client.session_for(cfg) is None,
        handshake_comes(client, cfg, replies.skip(2), session, init),
        response_comes(replies[4], client.advanced().next_id, message),
    ensures
        ({
            let (after, turn) = run_after(client, call_invoked(name, arguments), replies);
            &&& turn == call_answer(name, message)
            &&& after.session_for(cfg) == Some(session)
        }),
{
    calls_are_answered(client, cfg, name, arguments, replies);
    let rest = replies.skip(2);
    assert(rest[0] == replies[2] && rest[1] == replies[3] && rest[2] == replies[4]);
    new_session_is_made(
        client,
        cfg,
        "tools/call"@,
        call_params(name, arguments),
        CALL_TIMEOUT_SECS,
        seq![rest[0]->Ok_0, rest[1]->Ok_0, rest[2]->Ok_0],
        session,
        init,
        message,
    );
    assert(rest =~= seq![rest[0]->Ok_0, rest[1]->Ok_0, rest[2]->Ok_0].map_values(
        |out: JsonView| Ok::<JsonView, Seq<char>>(out),
    ));
}

/// A session that the server has forgotten does not show in the answer of
/// `npm_call`: a new one is made, the call sent again on it, and the new session
/// kept.
pub proof fn calls_survive_a_forgotten_session(
    client: ClientView,
    cfg: ConfigView,
    name: Seq<char>,
    arguments: JsonView,
    session: SessionView,
    init: JsonView,
    message: JsonView,
    replies: Replies,
)
    requires
        replies.len() == 6,
        settings_come(replies, cfg),
        client.session_for(cfg) is Some,
        replies[2] matches Ok(out) && http_reply_of(out).decoded(client.next_id) == Ok::<
            ReplyView,
            Seq<char>,
        >(ReplyView::Expired),
        handshake_comes(client.advanced(), cfg, replies.skip(3), session, init),
        response_comes(replies[5], client.advanced().advanced().next_id, message),
    ensures
        ({
            let (after, turn) = run_after(client, call_invoked(name, arguments), replies);
            &&& turn == call_answer(name, message)
            &&& after.session_for(cfg) == Some(session)
        }),
{
    calls_are_answered(client, cfg, name, arguments, replies);
    let rest = replies.skip(2);
    let outs = seq![rest[0]->Ok_0, rest[1]->Ok_0, rest[2]->Ok_0, rest[3]->Ok_0];
    assert(replies.skip(3)[0] == replies[3] && replies.skip(3)[1] == replies[4]);
    assert(rest[0] == replies[2] && rest[1] == replies[3] && rest[2] == replies[4] && rest[3]
        == replies[5]);
    let (start, call, request) = request_start(
        client,
        cfg,
        "tools/call"@,
        call_params(name, arguments),
        CALL_TIMEOUT_SECS,
    );
    forgotten_session_is_replaced(
        start,
        cfg,
        call,
        request,
        client.next_id,
        outs,
        session,
        init,
        message,
    );
    assert(rest =~= outs.map_values(|out: JsonView| Ok::<JsonView, Seq<char>>(out)));
}

// ── npm_configure ─────────────────────────────────────────────────────
/// Whether there is anything to write.
pub open spec fn is_given(settings: SettingsView) -> bool {
    settings.base_url is Some || settings.api_key is Some
}

/// How many settings are to be written.
pub open spec fn writes(settings: SettingsView) -> int {
    if settings.base_url is Some && settings.api_key is Some {
        2
    } else {
        1
    }
}

/// Whether `replies` start with the writes succeeding.
pub open spec fn writes_succeed(settings: SettingsView, replies: Replies) -> bool {
    &&& replies.len() >= writes(settings)
    &&& forall|i: int| 0 <= i < writes(settings) ==> (#[trigger] replies[i]) is Ok
}

/// `npm_configure` once everything is written.
pub open spec fn configure_loading(settings: SettingsView) -> TurnView {
    TurnView::Call(
        load_call(),
        RunView::Tool(
            ToolRunView::Configure(
                settings.at(ConfigurePhaseView::Loading(LoadingView::BaseUrl)),
            ),
        ),
    )
}

/// `npm_configure` once the configuration is read back.
pub open spec fn configure_handshaking(
    client: ClientView,
    settings: SettingsView,
    cfg: ConfigView,
) -> TurnView {
    TurnView::Call(
        initialize_call(client, cfg),
        RunView::Tool(
            ToolRunView::Configure(
                settings.at(
                    ConfigurePhaseView::Handshaking {
                        cfg,
                        handshake: HandshakeView::Initialize { id: client.next_id },
                    },
                ),
            ),
        ),
    )
}

/// What `npm_configure` comes to with a step of listing the tools: the number
/// of tools is reported where they can be listed.
pub open spec fn configure_listed(
    settings: SettingsView,
    cfg: ConfigView,
    out: JsonView,
    step: StepView<ListingView, Seq<JsonView>>,
) -> TurnView {
    match step {
        StepView::Call(call, listing) => TurnView::Call(
            call,
            RunView::Tool(
                ToolRunView::Configure(
                    settings.at(ConfigurePhaseView::Listing { cfg, out, listing }),
                ),
            ),
        ),
        StepView::Done(Ok(tools)) => TurnView::Answer(
            allowing(out.with("tool_count"@, JsonView::Int(tools.len() as int))),
        ),
        StepView::Done(Err(_)) => TurnView::Answer(allowing(out)),
    }
}

/// Where a write fails, `npm_configure` is cancelled with the words of the
/// failure, and the cached session stays.
pub proof fn failed_writes_cancel(
    client: ClientView,
    settings: SettingsView,
    e: Seq<char>,
    replies: Replies,
)
    requires
        is_given(settings),
        (replies.len() >= 1 && replies[0] == Err::<JsonView, Seq<char>>(e)) || (writes(settings)
            == 2 && replies.len() >= 2 && replies[0] is Ok && replies[1] == Err::<
            JsonView,
            Seq<char>,
        >(e)),
    ensures
        run_after(client, configure_invoked(settings), replies) == (
            client,
            TurnView::Answer(cancelling(e)),
        ),
{
    reveal_with_fuel(run_after, 3);
    if replies.len() >= 2 {
        assert(replies.skip(1)[0] == replies[1]);
    }
}

proof fn lemma_configure_saved(client: ClientView, settings: SettingsView, replies: Replies)
    requires
        is_given(settings),
        settings.verify,
        writes_succeed(settings, replies),
    ensures
        run_after(client, configure_invoked(settings), replies) == run_after(
            client.with_session(None),
            configure_loading(settings),
            replies.skip(writes(settings)),
        ),
{
    assert(replies[0] is Ok);
    if writes(settings) == 2 {
        assert(replies[1] is Ok);
        lemma_two_steps(client, configure_invoked(settings), replies);
    }
}

/// Where nothing is to be verified, `npm_configure` is done once the URL, the
/// key, or both are written: it reports what is stored, and the cached session
/// is dropped.
pub proof fn stored_settings_are_reported(
    client: ClientView,
    settings: SettingsView,
    replies: Replies,
)
    requires
        is_given(settings),
        !settings.verify,
        writes_succeed(settings, replies),
    ensures
        run_after(client, configure_invoked(settings), replies) == (
            client.with_session(None),
            TurnView::Answer(allowing(settings.saved_report())),
        ),
{
    reveal_with_fuel(run_after, 3);
    assert(replies[0] is Ok);
    if writes(settings) == 2 {
        assert(replies[1] is Ok);
        assert(replies.skip(1)[0] == replies[1]);
    }
}

proof fn lemma_configure_loaded(
    client: ClientView,
    settings: SettingsView,
    cfg: ConfigView,
    replies: Replies,
)
    requires
        settings_come(replies, cfg),
    ensures
        run_after(client, configure_loading(settings), replies) == run_after(
            client.advanced(),
            configure_handshaking(client, settings, cfg),
            replies.skip(2),
        ),
{
    lemma_two_steps(client, configure_loading(settings), replies);
}

proof fn lemma_configure_connected(
    client: ClientView,
    settings: SettingsView,
    cfg: ConfigView,
    session: SessionView,
    init: JsonView,
    replies: Replies,
)
    requires
        handshake_comes(client, cfg, replies, session, init),
    ensures
        ({
            let connected = client.advanced().with_session(Some(session));
            let (start, call, listing) = page_start(connected, cfg, Seq::empty(), None);
            run_after(client.advanced(), configure_handshaking(client, settings, cfg), replies)
                == run_after(
                start,
                configure_listed(
                    settings,
                    cfg,
                    settings.verified_report(init),
                    StepView::Call(call, listing),
                ),
                replies.skip(2),
            )
        }),
{
    lemma_two_steps(client.advanced(), configure_handshaking(client, settings, cfg), replies);
}

proof fn lemma_configure_unloaded(
    client: ClientView,
    settings: SettingsView,
    e: Seq<char>,
    replies: Replies,
)
    requires
        settings_fail(replies, e),
    ensures
        run_after(client, configure_loading(settings), replies) == (
            client,
            TurnView::Answer(allowing(settings.unverified_report(e))),
        ),
{
    reveal_with_fuel(run_after, 3);
    if replies.len() >= 2 {
        assert(replies.skip(1)[0] == replies[1]);
    }
}

proof fn lemma_configure_broken(
    client: ClientView,
    settings: SettingsView,
    cfg: ConfigView,
    e: Seq<char>,
    replies: Replies,
)
    requires
        handshake_fails(client, cfg, replies, e),
    ensures
        run_after(client.advanced(), configure_handshaking(client, settings, cfg), replies) == (
            client.advanced(),
            TurnView::Answer(allowing(settings.unverified_report(e))),
        ),
{
    reveal_with_fuel(run_after, 3);
    if replies.len() >= 2 {
        assert(replies.skip(1)[0] == replies[1]);
    }
}

proof fn lemma_configure_step(
    client: ClientView,
    settings: SettingsView,
    cfg: ConfigView,
    out: JsonView,
    listing: ListingView,
    reply: Result<JsonView, Seq<char>>,
)
    ensures
        ({
            let (after, step) = list_next(client, cfg, listing, reply);
            run_next(
                client,
                RunView::Tool(
                    ToolRunView::Configure(
                        settings.at(ConfigurePhaseView::Listing { cfg, out, listing }),
                    ),
                ),
                reply,
            ) == (after, configure_listed(settings, cfg, out, step))
        }),
{
}

proof fn lemma_configure_listed(
    client: ClientView,
    settings: SettingsView,
    cfg: ConfigView,
    out: JsonView,
    call: HostCallView,
    listing: ListingView,
    replies: Replies,
)
    ensures
        ({
            let start = StepView::Call(call, listing);
            let (after, step) = list_run(client, cfg, start, replies);
            run_after(client, configure_listed(settings, cfg, out, start), replies) == (
                after,
                configure_listed(settings, cfg, out, step),
            )
        }),
    decreases replies.len(),
{
    reveal_with_fuel(run_after, 2);
    reveal_with_fuel(list_run, 2);
    if replies.len() > 0 {
        lemma_configure_step(client, settings, cfg, out, listing, replies[0]);
        let (after, step) = list_next(client, cfg, listing, replies[0]);
        match step {
            StepView::Call(next_call, next) => {
                lemma_configure_listed(
                    after,
                    settings,
                    cfg,
                    out,
                    next_call,
                    next,
                    replies.skip(1),
                );
            },
            StepView::Done(_) => {},
        }
    }
}

/// Where the configuration cannot be read back, or the handshake with it
/// fails, `npm_configure` still reports what is stored, as unverified and with
/// the words of the failure.
pub proof fn failed_verification_is_reported(
    client: ClientView,
    settings: SettingsView,
    cfg: ConfigView,
    e: Seq<char>,
    replies: Replies,
)
    requires
        is_given(settings),
        settings.verify,
        writes_succeed(settings, replies),
        ({
            let rest = replies.skip(writes(settings));
            settings_fail(rest, e) || (settings_come(rest, cfg) && handshake_fails(
                client,
                cfg,
                rest.skip(2),
                e,
            ))
        }),
    ensures
        ({
            let (after, turn) = run_after(client, configure_invoked(settings), replies);
            &&& turn == TurnView::Answer(allowing(settings.unverified_report(e)))
            &&& after.session is None
        }),
{
    let dropped = client.with_session(None);
    let rest = replies.skip(writes(settings));
    lemma_configure_saved(client, settings, replies);
    if settings_fail(rest, e) {
        lemma_configure_unloaded(dropped, settings, e, rest);
    } else {
        lemma_configure_loaded(dropped, settings, cfg, rest);
        lemma_configure_broken(dropped, settings, cfg, e, rest.skip(2));
    }
}

/// `npm_configure` writes the URL, the key, or both, reads the configuration
/// back, makes a handshake with it, and reports it as verified, with the number
/// of tools on all the pages of the catalog where they can be listed.
pub proof fn verified_settings_are_reported(
    client: ClientView,
    settings: SettingsView,
    cfg: ConfigView,
    session: SessionView,
    init: JsonView,
    replies: Replies,
)
    requires
        is_given(settings),
        settings.verify,
        writes_succeed(settings, replies),
        settings_come(replies.skip(writes(settings)), cfg),
        handshake_comes(client, cfg, replies.skip(writes(settings)).skip(2), session, init),
    ensures
        ({
            let connected = client.with_session(Some(session)).advanced();
            let out = settings.verified_report(init);
            let rest = replies.skip(writes(settings)).skip(2).skip(2);
            let (after, step) = listed(connected, cfg, rest);
            let (end, turn) = run_after(client, configure_invoked(settings), replies);
            &&& end == after
            &&& match step {
                StepView::Done(Ok(_)) => {
                    &&& turn == TurnView::Answer(
                        allowing(
                            out.with(
                                "tool_count"@,
                                JsonView::Int(
                                    tools_on(pages_listed(connected, cfg, rest)).len() as int,
                                ),
                            ),
                        ),
                    )
                    &&& end.session_for(cfg) is Some
                },
                StepView::Done(Err(_)) => turn == TurnView::Answer(allowing(out)),
                StepView::Call(call, _) => turn matches TurnView::Call(asked, _) && asked == call,
            }
        }),
{
    let dropped = client.with_session(None);
    let connected = client.with_session(Some(session)).advanced();
    let out = settings.verified_report(init);
    let loading = replies.skip(writes(settings));
    let rest = loading.skip(2).skip(2);
    let (start, call, listing) = page_start(connected, cfg, Seq::empty(), None);
    assert(run_after(client, configure_invoked(settings), replies) == run_after(
        start,
        configure_listed(settings, cfg, out, StepView::Call(call, listing)),
        rest,
    )) by {
        lemma_configure_saved(client, settings, replies);
        lemma_configure_loaded(dropped, settings, cfg, loading);
        lemma_configure_connected(dropped, settings, cfg, session, init, loading.skip(2));
    }
    lemma_configure_listed(start, settings, cfg, out, call, listing, rest);
    lemma_listed(connected, cfg, rest);
}

// ── Seeding and shutting down ─────────────────────────────────────────
/// The config block wins over what was stored before: on every load both of
/// its values are written, the URL first; `init` answers which of the two
/// writes succeeded; and where one did, the cached session is dropped.
pub proof fn config_block_is_written(
    client: ClientView,
    config: JsonView,
    url: Seq<char>,
    key: Seq<char>,
    first: Result<JsonView, Seq<char>>,
    second: Result<JsonView, Seq<char>>,
)
    requires
        argument_of(config, "base_url"@) == Some(url),
        argument_of(config, "api_key"@) == Some(key),
    ensures
        ({
            let (before, turn) = seeding_start(client, Ok(config));
            let (between, next) = run_after(before, turn, seq![first]);
            let seeded = with_seeded(with_seeded(seq![], "base_url"@, first), "api_key"@, second);
            &&& turn matches TurnView::Call(call, _) && call == set_setting_call("base_url"@, url)
            &&& next matches TurnView::Call(call, _) && call == set_setting_call("api_key"@, key)
            &&& run_after(before, turn, seq![first, second]) == (
                if first is Ok || second is Ok {
                    client.with_session(None)
                } else {
                    client
                },
                TurnView::Answer(seeded_answer(seeded)),
            )
        }),
{
    reveal_with_fuel(run_after, 3);
    assert(seq![first].skip(1) =~= seq![]);
    assert(seq![first, second].skip(1) =~= seq![second]);
    assert(seq![second].skip(1) =~= seq![]);
}

/// A config block that holds only one of the two values has that one written;
/// `init` answers whether the write succeeded; and where it did, the cached
/// session is dropped.
pub proof fn single_value_is_written(
    client: ClientView,
    config: JsonView,
    reply: Result<JsonView, Seq<char>>,
)
    ensures
        ({
            let (before, turn) = seeding_start(client, Ok(config));
            let after = if reply is Ok {
                client.with_session(None)
            } else {
                client
            };
            match (argument_of(config, "base_url"@), argument_of(config, "api_key"@)) {
                (Some(url), None) => {
                    &&& turn matches TurnView::Call(call, _) && call == set_setting_call(
                        "base_url"@,
                        url,
                    )
                    &&& run_after(before, turn, seq![reply]) == (
                        after,
                        TurnView::Answer(seeded_answer(with_seeded(seq![], "base_url"@, reply))),
                    )
                },
                (None, Some(key)) => {
                    &&& turn matches TurnView::Call(call, _) && call == set_setting_call(
                        "api_key"@,
                        key,
                    )
                    &&& run_after(before, turn, seq![reply]) == (
                        after,
                        TurnView::Answer(seeded_answer(with_seeded(seq![], "api_key"@, reply))),
                    )
                },
                _ => true,
            }
        }),
{
    reveal_with_fuel(run_after, 2);
}

/// A config block that is no JSON, or holds neither value, changes nothing.
pub proof fn empty_config_block_changes_nothing(
    client: ClientView,
    parsed: Result<JsonView, Seq<char>>,
)
    requires
        parsed matches Ok(config) ==> argument_of(config, "base_url"@) is None && argument_of(
            config,
            "api_key"@,
        ) is None,
    ensures
        seeding_start(client, parsed) == (client, TurnView::Answer(seeded_answer(seq![]))),
{
}

/// Shutting down always ends: after at most three host calls, whatever comes
/// back, the cached session is dropped and the answer is `{"ok": true}`.
pub proof fn shutdown_ends(client: ClientView, replies: Replies)
    requires
        replies.len() >= 3,
    ensures
        run_after(
            client,
            TurnView::Call(
                load_call(),
                RunView::Shutdown(ShutdownView::Loading(LoadingView::BaseUrl)),
            ),
            replies,
        ) == (client.with_session(None), TurnView::Answer(shutdown_answer())),
{
    reveal_with_fuel(run_after, 4);
}

// ── What the answers hold ─────────────────────────────────────────────
/// Once the tools are listed, the answer of `npm_status` holds their number,
/// however many there are on all the pages, and the name of each that has one,
/// in order.
pub proof fn status_counts_every_tool(
    client: ClientView,
    cfg: ConfigView,
    session: SessionView,
    init: JsonView,
    replies: Replies,
)
    requires
        settings_come(replies, cfg),
        handshake_comes(client, cfg, replies.skip(2), session, init),
        listed(
            client.advanced().with_session(Some(session)),
            cfg,
            replies.skip(4),
        ).1 matches StepView::Done(Ok(_)),
    ensures
        ({
            let connected = client.advanced().with_session(Some(session));
            let tools = tools_on(pages_listed(connected, cfg, replies.skip(4)));
            let names = tools.filter_map(|tool: JsonView| tool.str_at("name"@));
            run_after(client, status_invoked(), replies).1 matches TurnView::Answer(verdict) && {
                &&& verdict.str_at("verdict"@) == Some("allow"@)
                &&& verdict.get("payload"@) matches Some(report) && {
                    &&& report.get("connected"@) == Some(JsonView::Bool(true))
                    &&& report.get("tool_count"@) == Some(JsonView::Int(tools.len() as int))
                    &&& report.get("tools"@) matches Some(JsonView::Array(shown)) && shown.len()
                        == names.len() && forall|i: int|
                        0 <= i < shown.len() ==> #[trigger] shown[i] == JsonView::String(names[i])
                }
            }
        }),
{
    let connected = client.advanced().with_session(Some(session));
    let tools = tools_on(pages_listed(connected, cfg, replies.skip(4)));
    let report = with_catalog(connected_report(configured_report(cfg), session, init), tools);
    working_connection_is_reported(client, cfg, session, init, replies);
    working_connection_is_told(cfg, session, init, tools, seq![]);
    verdicts_say_nothing_else(report, seq![], seq![]);
}

/// Where the server answers a call with a result, `npm_call` is cancelled if the
/// result says that it is an error, and allowed if it does not.
pub proof fn calls_are_cancelled_only_for_errors(
    client: ClientView,
    cfg: ConfigView,
    name: Seq<char>,
    arguments: JsonView,
    result: JsonView,
    replies: Replies,
)
    requires
        settings_come(replies, cfg),
        called(client, cfg, name, arguments, replies.skip(2)).1 == StepView::<
            RequestView,
            JsonView,
        >::Done(Ok(result)),
    ensures
        run_after(client, call_invoked(name, arguments), replies).1 matches TurnView::Answer(
            verdict,
        ) && {
            &&& result.get("isError"@) == Some(JsonView::Bool(true)) ==> verdict.str_at(
                "verdict"@,
            ) == Some("cancel"@)
            &&& result.get("isError"@) != Some(JsonView::Bool(true)) ==> verdict.str_at(
                "verdict"@,
            ) == Some("allow"@)
        },
{
    calls_are_answered(client, cfg, name, arguments, replies);
    only_true_is_an_error(name, result, JsonView::Null);
    match unwrapped(name, result) {
        Ok(value) => {
            verdicts_say_nothing_else(value, seq![], seq![]);
        },
        Err(reason) => {
            verdicts_say_nothing_else(JsonView::Null, reason, seq![]);
        },
    }
}

/// An invocation of `npm_configure` writes every value it is given: the URL, and
/// the key behind it.
pub proof fn given_settings_are_written(
    client: ClientView,
    settings: SettingsView,
    reply: JsonView,
)
    ensures
        settings.base_url matches Some(url) ==> (configure_invoked(settings) matches TurnView::Call(
            call,
            _,
        ) && call == set_setting_call("base_url"@, url)),
        settings.base_url is Some ==> (settings.api_key matches Some(key) ==> (run_after(
            client,
            configure_invoked(settings),
            seq![Ok(reply)],
        ).1 matches TurnView::Call(call, _) && call == set_setting_call("api_key"@, key))),
        settings.base_url is None ==> (settings.api_key matches Some(key) ==> (configure_invoked(
            settings,
        ) matches TurnView::Call(call, _) && call == set_setting_call("api_key"@, key))),
{
    reveal_with_fuel(run_after, 2);
}

/// Once everything is written, `npm_configure` goes on to verify it, beginning
/// with the configuration; only where it was told `false` under `verify` is it
/// done.
pub proof fn settings_are_verified_unless_told_not_to(
    client: ClientView,
    payload: JsonView,
    settings: SettingsView,
    replies: Replies,
)
    requires
        tool_in(payload) == "npm_configure"@,
        settings_wanted(arguments_in(payload)) == Ok::<SettingsView, Seq<char>>(settings),
        writes_succeed(settings, replies),
        replies.len() == writes(settings),
    ensures
        ({
            let (start, turn) = invoke_start(client, payload);
            let (after, next) = run_after(start, turn, replies);
            &&& after.session is None
            &&& arguments_in(payload).get("verify"@) == Some(JsonView::Bool(false)) ==> next
                is Answer
            &&& arguments_in(payload).get("verify"@) != Some(JsonView::Bool(false)) ==> (next
                matches TurnView::Call(call, _) && call == load_call())
        }),
{
    tools_are_invoked_by_name(client, payload);
    settings_are_taken_from_the_arguments(arguments_in(payload));
    if settings.verify {
        lemma_configure_saved(client, settings, replies);
        assert(replies.skip(writes(settings)).len() == 0);
    } else {
        stored_settings_are_reported(client, settings, replies);
    }
}

/// Where a session is cached and the configuration can be loaded, shutting down
/// deletes the session on the server.
pub proof fn shutdown_deletes_the_session(
    client: ClientView,
    cfg: ConfigView,
    session: SessionView,
    replies: Replies,
)
    requires
        replies.len() == 2,
        settings_come(replies, cfg),
        client.session == Some(session),
    ensures
        ({
            let start = TurnView::Call(
                load_call(),
                RunView::Shutdown(ShutdownView::Loading(LoadingView::BaseUrl)),
            );
            let (after, turn) = run_after(client, start, replies);
            &&& after == client.with_session(None)
            &&& turn matches TurnView::Call(call, _) && call == http_call(
                cfg,
                Some(session),
                None,
                15,
            )
        }),
{
    reveal_with_fuel(run_after, 3);
    assert(replies.skip(1)[0] == replies[1]);
}

// ── What is asked on the way ──────────────────────────────────────────
/// How shutting down starts.
pub open spec fn shutdown_invoked() -> TurnView {
    TurnView::Call(
        load_call(),
        RunView::Shutdown(ShutdownView::Loading(LoadingView::BaseUrl)),
    )
}

/// Whether a run that starts with `turn` and gets `reply` then asks for the key,
/// and leaves the client as it is.
pub open spec fn key_is_asked_for(client: ClientView, turn: TurnView, reply: JsonView) -> bool {
    let (after, next) = run_after(client, turn, seq![Ok(reply)]);
    &&& after == client
    &&& next matches TurnView::Call(call, _) && call == get_setting_call("api_key"@)
}

proof fn lemma_status_asks_for_key(client: ClientView, reply: JsonView)
    ensures
        key_is_asked_for(client, status_invoked(), reply),
{
    reveal_with_fuel(run_after, 2);
}

proof fn lemma_catalog_asks_for_key(client: ClientView, names: Seq<Seq<char>>, reply: JsonView)
    ensures
        key_is_asked_for(client, catalog_invoked(names), reply),
{
    reveal_with_fuel(run_after, 2);
}

proof fn lemma_call_asks_for_key(
    client: ClientView,
    name: Seq<char>,
    arguments: JsonView,
    reply: JsonView,
)
    ensures
        key_is_asked_for(client, call_invoked(name, arguments), reply),
{
    reveal_with_fuel(run_after, 2);
}

proof fn lemma_configure_asks_for_key(client: ClientView, settings: SettingsView, reply: JsonView)
    ensures
        key_is_asked_for(client, configure_loading(settings), reply),
{
    reveal_with_fuel(run_after, 2);
}

proof fn lemma_shutdown_asks_for_key(client: ClientView, reply: JsonView)
    ensures
        key_is_asked_for(client, shutdown_invoked(), reply),
{
    reveal_with_fuel(run_after, 2);
}

/// Whatever needs the configuration asks for the URL first and for the key once
/// the URL is there.
pub proof fn configuration_is_asked_for_in_order(
    client: ClientView,
    names: Seq<Seq<char>>,
    name: Seq<char>,
    arguments: JsonView,
    settings: SettingsView,
    reply: JsonView,
)
    ensures
        status_invoked()->Call_0 == get_setting_call("base_url"@),
        catalog_invoked(names)->Call_0 == get_setting_call("base_url"@),
        call_invoked(name, arguments)->Call_0 == get_setting_call("base_url"@),
        configure_loading(settings)->Call_0 == get_setting_call("base_url"@),
        shutdown_invoked()->Call_0 == get_setting_call("base_url"@),
        key_is_asked_for(client, status_invoked(), reply),
        key_is_asked_for(client, catalog_invoked(names), reply),
        key_is_asked_for(client, call_invoked(name, arguments), reply),
        key_is_asked_for(client, configure_loading(settings), reply),
        key_is_asked_for(client, shutdown_invoked(), reply),
{
    lemma_status_asks_for_key(client, reply);
    lemma_catalog_asks_for_key(client, names, reply);
    lemma_call_asks_for_key(client, name, arguments, reply);
    lemma_configure_asks_for_key(client, settings, reply);
    lemma_shutdown_asks_for_key(client, reply);
}

/// Once the configuration is there, `npm_status` and the verification of
/// `npm_configure` start a handshake, whatever session is cached, and end it with
/// the notification on the session that the server gives.
pub proof fn handshake_is_made_in_order(
    client: ClientView,
    cfg: ConfigView,
    settings: SettingsView,
    session: SessionView,
    init: JsonView,
    settled: Replies,
    out: JsonView,
)
    requires
        settled.len() == 2,
        settings_come(settled, cfg),
        initialize_answer(
            cfg,
            http_reply_of(out).session_header,
            http_reply_of(out).decoded(client.next_id),
        ) == Ok::<(SessionView, JsonView), Seq<char>>((session, init)),
    ensures
        ({
            let first = initialize_call(client, cfg);
            let second = http_call(cfg, Some(session), Some(initialized_note()), 15);
            let asks = |turn: TurnView, replies: Replies, call: HostCallView|
                {
                    let (after, next) = run_after(client, turn, replies);
                    &&& after == client.advanced()
                    &&& next matches TurnView::Call(asked, _) && asked == call
                };
            &&& asks(status_invoked(), settled, first)
            &&& asks(configure_loading(settings), settled, first)
            &&& asks(status_invoked(), settled.push(Ok(out)), second)
            &&& asks(configure_loading(settings), settled.push(Ok(out)), second)
        }),
{
    let more = settled.push(Ok(out));
    lemma_status_loaded(client, cfg, settled);
    lemma_configure_loaded(client, settings, cfg, settled);
    lemma_status_loaded(client, cfg, more);
    lemma_configure_loaded(client, settings, cfg, more);
    assert(settled.skip(2) =~= seq![]);
    assert(more.skip(2) =~= seq![Ok(out)]);
    lemma_status_agreed(client, cfg, session, init, out);
    lemma_configure_agreed(client, settings, cfg, session, init, out);
}

proof fn lemma_status_agreed(
    client: ClientView,
    cfg: ConfigView,
    session: SessionView,
    init: JsonView,
    out: JsonView,
)
    requires
        initialize_answer(
            cfg,
            http_reply_of(out).session_header,
            http_reply_of(out).decoded(client.next_id),
        ) == Ok::<(SessionView, JsonView), Seq<char>>((session, init)),
    ensures
        ({
            let (after, next) = run_after(
                client.advanced(),
                status_handshaking(client, cfg),
                seq![Ok(out)],
            );
            &&& after == client.advanced()
            &&& next matches TurnView::Call(asked, _) && asked == http_call(
                cfg,
                Some(session),
                Some(initialized_note()),
                15,
            )
        }),
{
    reveal_with_fuel(run_after, 2);
}

proof fn lemma_configure_agreed(
    client: ClientView,
    settings: SettingsView,
    cfg: ConfigView,
    session: SessionView,
    init: JsonView,
    out: JsonView,
)
    requires
        initialize_answer(
            cfg,
            http_reply_of(out).session_header,
            http_reply_of(out).decoded(client.next_id),
        ) == Ok::<(SessionView, JsonView), Seq<char>>((session, init)),
    ensures
        ({
            let (after, next) = run_after(
                client.advanced(),
                configure_handshaking(client, settings, cfg),
                seq![Ok(out)],
            );
            &&& after == client.advanced()
            &&& next matches TurnView::Call(asked, _) && asked == http_call(
                cfg,
                Some(session),
                Some(initialized_note()),
                15,
            )
        }),
{
    reveal_with_fuel(run_after, 2);
}

} // verus!
