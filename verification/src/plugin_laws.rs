//! What holds of the plugin as a whole: of the manifest and the tools behind
//! it, of the verdicts, of the reports and the catalog, and of what is stored.
use vstd::prelude::*;
use crate::config::{
    ConfigView, LoadingView, config_of, get_setting_call, load_call, load_next, masked,
    set_setting_call,
};
use crate::host::StepView;
use crate::json::{
    JsonView, json_parsed, lemma_empty_reads_back, lemma_strings_read_back, lemma_with_reads_back,
    nesting_limit, reads_back,
};
use crate::manifest::{manifest_of, settings_list, tools_list};
use crate::mcp_client::{
    CALL_TIMEOUT_SECS, ClientView, SessionView, call_params, http_call, initialize_params,
    initialized_note, rpc_request, snippet_of,
};
use crate::plugin::{
    RunView, ToolRunView, TurnView, allowing, arguments_in, cancelling, hook_start, invoke_start,
    run_next, seeded_answer, shutdown_answer, skipping, tool_in, tool_start, unknown_tool_words,
    verdict_of, with_seeded,
};
use crate::text::{lemma_trimmed_twice, mentions, occurs_at, trimmed};
use crate::tool_laws::string_lists_keep_their_order;
use crate::tools::{
    CallRunView, ConfigureRunView, SettingsView, StatusRunView, argument_of, call_next,
    configure_next, configure_start, configured_report, content_of, is_error, names_missing,
    strings_view, texts_of, tool_named, tools_found, unwrapped,
};

verus! {

// ── The manifest ──────────────────────────────────────────────────────
/// Whether the manifest lists a tool called `tool`.
pub open spec fn is_listed(tool: Seq<char>) -> bool {
    exists|i: int|
        0 <= i < tools_list().len() && #[trigger] tools_list()[i].str_at("name"@) == Some(tool)
}

proof fn lemma_listed_names()
    ensures
        tools_list()[0].str_at("name"@) == Some("npm_status"@),
        tools_list()[1].str_at("name"@) == Some("npm_list_tools"@),
        tools_list()[2].str_at("name"@) == Some("npm_call"@),
        tools_list()[3].str_at("name"@) == Some("npm_configure"@),
{
    reveal_strlit("name");
    reveal_strlit("title");
    reveal_strlit("description");
    reveal_strlit("input_schema");
    assert("name"@.len() == 4 && "title"@.len() == 5 && "description"@.len() == 11
        && "input_schema"@.len() == 12);
}

/// The plugin provides the tools that its manifest lists, and no others.
pub proof fn listed_tools_are_provided(client: ClientView, tool: Seq<char>, args: JsonView)
    ensures
        tool_start(client, tool, args) is Some <==> is_listed(tool),
{
    lemma_listed_names();
    if is_listed(tool) {
        let i = choose|i: int|
            0 <= i < tools_list().len() && #[trigger] tools_list()[i].str_at("name"@) == Some(tool);
        assert(i == 0 || i == 1 || i == 2 || i == 3);
    }
}

/// Whether `c` may stand in the name of a tool.
pub open spec fn is_name_char(c: char) -> bool {
    ('a' <= c <= 'z') || ('0' <= c <= '9') || c == '_'
}

/// The name of every tool keeps the core's rule: small letters, digits and
/// underscores, at most 64 of them.
pub proof fn tool_names_are_valid(tool: Seq<char>)
    requires
        is_listed(tool),
    ensures
        tool.len() <= 64,
        forall|i: int| 0 <= i < tool.len() ==> is_name_char(#[trigger] tool[i]),
{
    lemma_listed_names();
    reveal_strlit("npm_status");
    reveal_strlit("npm_list_tools");
    reveal_strlit("npm_call");
    reveal_strlit("npm_configure");
    let i = choose|i: int|
        0 <= i < tools_list().len() && #[trigger] tools_list()[i].str_at("name"@) == Some(tool);
    assert(i == 0 || i == 1 || i == 2 || i == 3);
}

/// The settings that the manifest has the operator edit are those that the
/// configuration is loaded from.
pub proof fn operator_settings_are_loaded(base_url: JsonView)
    ensures
        settings_list().len() == 2,
        settings_list()[0].str_at("key"@) matches Some(key) && load_call() == get_setting_call(key),
        settings_list()[1].str_at("key"@) matches Some(key) && (load_next(
            LoadingView::BaseUrl,
            Ok(base_url),
        ) matches StepView::Call(call, _) && call == get_setting_call(key)),
{
    reveal_strlit("key");
    reveal_strlit("title");
    reveal_strlit("description");
    reveal_strlit("required");
    reveal_strlit("type");
    reveal_strlit("secret");
    reveal_strlit("placeholder");
    assert("key"@.len() == 3 && "title"@.len() == 5 && "description"@.len() == 11
        && "required"@.len() == 8 && "type"@.len() == 4 && "secret"@.len() == 6
        && "placeholder"@.len() == 11);
}

// ── Verdicts ──────────────────────────────────────────────────────────
proof fn lemma_verdict_keys()
    ensures
        "verdict"@ != "payload"@,
        "verdict"@ != "reason"@,
        "allow"@ != "cancel"@,
{
    reveal_strlit("verdict");
    reveal_strlit("payload");
    reveal_strlit("reason");
    reveal_strlit("allow");
    reveal_strlit("cancel");
    assert("verdict"@[0] == 'v' && "payload"@[0] == 'p');
    assert("verdict"@.len() == 7 && "reason"@.len() == 6);
    assert("allow"@.len() == 5 && "cancel"@.len() == 6);
}

/// A tool's value is allowed and comes as the payload; its error cancels and
/// comes as the reason.
pub proof fn verdicts_tell_results_apart(result: Result<JsonView, Seq<char>>)
    ensures
        match result {
            Ok(value) => {
                &&& verdict_of(result).str_at("verdict"@) == Some("allow"@)
                &&& verdict_of(result).get("payload"@) == Some(value)
            },
            Err(reason) => {
                &&& verdict_of(result).str_at("verdict"@) == Some("cancel"@)
                &&& verdict_of(result).str_at("reason"@) == Some(reason)
            },
        },
        "allow"@ != "cancel"@,
{
    lemma_verdict_keys();
}

/// What the core is answered reads back from its text: the reason of a
/// cancel, a skip, the answers of `init` and `shutdown`, and an allowed value
/// that nests one level less than serde_json reads.
pub proof fn answers_read_back(value: JsonView, reason: Seq<char>, seeded: Seq<Seq<char>>)
    ensures
        reads_back(value, (nesting_limit() - 1) as nat) ==> reads_back(
            allowing(value),
            nesting_limit(),
        ),
        reads_back(cancelling(reason), nesting_limit()),
        reads_back(skipping(), nesting_limit()),
        reads_back(seeded_answer(seeded), nesting_limit()),
        reads_back(shutdown_answer(), nesting_limit()),
{
    broadcast use {lemma_empty_reads_back, lemma_with_reads_back};

    let items = strings_view(seeded)->Array_0;
    assert forall|i: int| 0 <= i < items.len() implies #[trigger] items[i] is String by {}
    lemma_strings_read_back(items, (nesting_limit() - 1) as nat);
}

/// What the host is asked reads back from its text, whatever the
/// configuration, the session and the payload hold.
pub proof fn host_calls_read_back(
    cfg: ConfigView,
    session: Option<SessionView>,
    payload: Option<JsonView>,
    timeout_secs: u64,
    key: Seq<char>,
    value: Seq<char>,
)
    ensures
        reads_back(http_call(cfg, session, payload, timeout_secs).input, nesting_limit()),
        reads_back(get_setting_call(key).input, nesting_limit()),
        reads_back(set_setting_call(key, value).input, nesting_limit()),
{
    broadcast use {lemma_empty_reads_back, lemma_with_reads_back};

    assert(reads_back(
        crate::mcp_client::headers_of(cfg, session, payload is Some),
        (nesting_limit() - 1) as nat,
    ));
}

/// What the server is sent reads back from its text: the handshake always, a
/// request where its parameters nest one level less than serde_json reads.
pub proof fn requests_read_back(id: u64, method: Seq<char>, params: JsonView, version: Seq<char>)
    ensures
        reads_back(params, (nesting_limit() - 1) as nat) ==> reads_back(
            rpc_request(id, method, params),
            nesting_limit(),
        ),
        reads_back(rpc_request(id, method, initialize_params(version)), nesting_limit()),
        reads_back(initialized_note(), nesting_limit()),
{
    broadcast use {lemma_empty_reads_back, lemma_with_reads_back};

    assert(reads_back(initialize_params(version), (nesting_limit() - 1) as nat));
}

/// A tool that the manifest does not list is cancelled, in words that name
/// it: the host is not called and the client stays as it is.
pub proof fn unlisted_tools_are_cancelled(client: ClientView, payload: JsonView)
    requires
        !is_listed(tool_in(payload)),
    ensures
        invoke_start(client, payload) == (
            client,
            TurnView::Answer(cancelling(unknown_tool_words(tool_in(payload)))),
        ),
        mentions(unknown_tool_words(tool_in(payload)), tool_in(payload)),
{
    listed_tools_are_provided(
        client,
        tool_in(payload),
        crate::plugin::arguments_in(payload),
    );
    let tool = tool_in(payload);
    let words = unknown_tool_words(tool);
    let at = "nginx-manager does not provide tool '"@.len() as int;
    assert(words.subrange(at, at + tool.len()) =~= tool);
    assert(occurs_at(words, tool, at));
}

/// `npm_status` is never cancelled: diagnostics belong in the payload.
pub proof fn status_is_never_cancelled(
    client: ClientView,
    run: StatusRunView,
    reply: Result<JsonView, Seq<char>>,
)
    ensures
        run_next(client, RunView::Tool(ToolRunView::Status(run)), reply).1 matches TurnView::Answer(
            verdict,
        ) ==> verdict.str_at("verdict"@) == Some("allow"@),
{
    lemma_verdict_keys();
}

// ── Reports ───────────────────────────────────────────────────────────
/// What `npm_configure` is asked to store where it is given both halves of
/// `cfg`.
pub open spec fn stored(cfg: ConfigView, verify: bool) -> SettingsView {
    SettingsView { base_url: Some(cfg.base_url), api_key: Some(cfg.api_key), verify }
}

/// What the reports of `npm_status` and `npm_configure` say of an API key is
/// its mask: keys with the same mask give the same report.
pub proof fn reports_show_only_the_mask(a: ConfigView, b: ConfigView, verify: bool)
    requires
        a.base_url == b.base_url,
        masked(a.api_key) == masked(b.api_key),
    ensures
        configured_report(a) == configured_report(b),
        stored(a, verify).saved_report() == stored(b, verify).saved_report(),
{
}

/// The words that quote a body hold at most 300 of its characters.
pub proof fn snippets_are_short(body: Seq<char>)
    ensures
        snippet_of(body).len() <= 301,
        trimmed(body).len() <= 300 ==> snippet_of(body) == trimmed(body),
{
    reveal_strlit("…");
}

/// Of the names asked for, each is found or missing, and none is both: the
/// tools found bear their names, and no tool bears a missing one.
pub proof fn names_are_found_or_missing(tools: Seq<JsonView>, names: Seq<Seq<char>>)
    ensures
        tools_found(tools, names).len() + names_missing(tools, names).len() == names.len(),
        forall|i: int|
            0 <= i < tools_found(tools, names).len() ==> {
                let tool = #[trigger] tools_found(tools, names)[i];
                tools.contains(tool) && (tool.str_at("name"@) matches Some(name) && names.contains(
                    name,
                ))
            },
        forall|i: int|
            0 <= i < names_missing(tools, names).len() ==> {
                let name = #[trigger] names_missing(tools, names)[i];
                names.contains(name) && forall|j: int|
                    0 <= j < tools.len() ==> (#[trigger] tools[j]).str_at("name"@) != Some(name)
            },
    decreases names.len(),
{
    if names.len() > 0 {
        let rest = names.drop_last();
        names_are_found_or_missing(tools, rest);
        lemma_tool_named(tools, names.last());
        assert forall|name: Seq<char>| #[trigger] rest.contains(name) implies names.contains(
            name,
        ) by {
            let k = choose|k: int| 0 <= k < rest.len() && rest[k] == name;
            assert(names[k] == name);
        }
        assert(names.contains(names.last())) by {
            assert(names[names.len() - 1] == names.last());
        }
    }
}

proof fn lemma_tool_named(tools: Seq<JsonView>, name: Seq<char>)
    ensures
        match tool_named(tools, name) {
            Some(tool) => tools.contains(tool) && tool.str_at("name"@) == Some(name),
            None => forall|j: int|
                0 <= j < tools.len() ==> (#[trigger] tools[j]).str_at("name"@) != Some(name),
        },
    decreases tools.len(),
{
    if tools.len() > 0 && tools[0].str_at("name"@) != Some(name) {
        let rest = tools.skip(1);
        lemma_tool_named(rest, name);
        match tool_named(rest, name) {
            Some(tool) => {
                let k = choose|k: int| 0 <= k < rest.len() && rest[k] == tool;
                assert(tools[k + 1] == tool);
            },
            None => {
                assert forall|j: int| 0 <= j < tools.len() implies (#[trigger] tools[j]).str_at(
                    "name"@,
                ) != Some(name) by {
                    if j > 0 {
                        assert(rest[j - 1] == tools[j]);
                    }
                }
            },
        }
    }
}

/// The MCP result of one text item.
pub open spec fn text_result(text: Seq<char>) -> JsonView {
    JsonView::empty().with(
        "content"@,
        JsonView::Array(
            seq![JsonView::empty().with_str("type"@, "text"@).with_str("text"@, text)],
        ),
    )
}

/// JSON text that the server answers with comes back as JSON, and any other
/// text as it is.
pub proof fn text_results_are_unwrapped(name: Seq<char>, text: Seq<char>)
    requires
        text.len() > 0,
    ensures
        unwrapped(name, text_result(text)) == (match json_parsed(text) {
            Ok(value) => Ok::<JsonView, Seq<char>>(value),
            Err(_) => Ok(JsonView::empty().with_str("text"@, text)),
        }),
{
    reveal_strlit("content");
    reveal_strlit("isError");
    reveal_strlit("type");
    reveal_strlit("text");
    assert("content"@[0] == 'c' && "isError"@[0] == 'i');
    assert("type"@[1] == 'y' && "text"@[1] == 'e');
    let items = text_result(text).get("content"@)->0->Array_0;
    assert(items.drop_last() =~= seq![]);
    assert(texts_of(items.drop_last()) =~= seq![]);
    assert(texts_of(items) =~= seq![text]);
    assert(content_of(text_result(text)) == text);
    assert(!is_error(text_result(text)));
}

// ── Configuring ───────────────────────────────────────────────────────
/// `npm_configure` stores no URL but one that starts with `http://` or
/// `https://`.
pub proof fn stored_urls_are_http(client: ClientView, args: JsonView)
    ensures
        configure_start(client, args).1 matches StepView::Call(call, run) ==> run.phase
            is SavingBaseUrl ==> (call.input.str_at("value"@) matches Some(url) && (
        "http://"@.is_prefix_of(url) || "https://"@.is_prefix_of(url))),
{
}

/// Once everything that was asked for is stored, the cached session is gone:
/// the next request makes a new one for the new configuration.
pub proof fn stored_settings_drop_the_session(
    client: ClientView,
    run: ConfigureRunView,
    reply: Result<JsonView, Seq<char>>,
)
    requires
        reply is Ok,
        run.phase is SavingApiKey || (run.phase is SavingBaseUrl && run.settings.api_key is None),
    ensures
        configure_next(client, run, reply).0 == client.with_session(None),
{
}

/// What is stored is what the next tool call uses: from the values that
/// `npm_configure` or `init` writes, the same configuration is loaded.
pub proof fn stored_settings_are_loaded(args: JsonView, url: Seq<char>, key: Seq<char>)
    requires
        argument_of(args, "base_url"@) == Some(url),
        argument_of(args, "api_key"@) == Some(key),
    ensures
        config_of(Some(url), Some(key)) == Ok::<ConfigView, Seq<char>>(
            ConfigView { base_url: url, api_key: key },
        ),
{
    lemma_trimmed_twice(args.str_at("base_url"@)->0);
    lemma_trimmed_twice(args.str_at("api_key"@)->0);
}

/// `npm_call` passes the name and the arguments it is given on to the server:
/// once the configuration is loaded and its session is at hand, they are sent
/// as they are.
pub proof fn calls_are_passed_on(
    client: ClientView,
    name: Seq<char>,
    arguments: JsonView,
    state: LoadingView,
    reply: Result<JsonView, Seq<char>>,
    cfg: ConfigView,
    session: SessionView,
)
    requires
        load_next(state, reply) == StepView::<LoadingView, ConfigView>::Done(Ok(cfg)),
        client.session_for(cfg) == Some(session),
    ensures
        call_next(client, CallRunView::Loading { name, arguments, state }, reply).1 matches
            StepView::Call(call, _) && call == http_call(
            cfg,
            Some(session),
            Some(rpc_request(client.next_id, "tools/call"@, call_params(name, arguments))),
            CALL_TIMEOUT_SECS,
        ),
{
}

// ── What the core is told ─────────────────────────────────────────────
proof fn lemma_answer_keys()
    ensures
        "verdict"@ != "payload"@,
        "verdict"@ != "reason"@,
        "verdict"@ != "ok"@,
        "verdict"@ != "seeded"@,
        "payload"@ != "reason"@,
        "payload"@ != "ok"@,
        "payload"@ != "seeded"@,
        "reason"@ != "ok"@,
        "reason"@ != "seeded"@,
        "ok"@ != "seeded"@,
{
    reveal_strlit("verdict");
    reveal_strlit("payload");
    reveal_strlit("reason");
    reveal_strlit("ok");
    reveal_strlit("seeded");
    assert("verdict"@.len() == 7);
    assert("payload"@.len() == 7);
    assert("reason"@.len() == 6);
    assert("ok"@.len() == 2);
    assert("seeded"@.len() == 6);
    assert("verdict"@[0] == 'v' && "payload"@[0] == 'p');
    assert("reason"@[0] == 'r' && "seeded"@[0] == 's');
}

/// An allowing verdict holds the value, a cancelling one the reason, a skipping
/// one neither; and none of them holds anything else.
pub proof fn verdicts_say_nothing_else(value: JsonView, reason: Seq<char>, other: Seq<char>)
    ensures
        allowing(value).str_at("verdict"@) == Some("allow"@),
        allowing(value).get("payload"@) == Some(value),
        other != "verdict"@ && other != "payload"@ ==> allowing(value).get(other) is None,
        cancelling(reason).str_at("verdict"@) == Some("cancel"@),
        cancelling(reason).str_at("reason"@) == Some(reason),
        other != "verdict"@ && other != "reason"@ ==> cancelling(reason).get(other) is None,
        skipping().str_at("verdict"@) == Some("skip"@),
        other != "verdict"@ ==> skipping().get(other) is None,
{
    lemma_answer_keys();
}

/// A payload names its tool under `tool`, as a string, and holds what the tool is
/// asked under `arguments`, whatever it is.
pub proof fn payloads_name_tool_and_arguments(payload: JsonView)
    ensures
        match payload.get("tool"@) {
            Some(JsonView::String(tool)) => tool_in(payload) == tool,
            _ => tool_in(payload).len() == 0,
        },
        match payload.get("arguments"@) {
            Some(args) => arguments_in(payload) == args,
            None => arguments_in(payload) is Null,
        },
{
    reveal_strlit("");
}

/// Only an `mcp.tool.invoke` is dispatched. Any other hook is skipped, without a
/// host call, and the client stays as it is.
pub proof fn other_hooks_are_skipped(client: ClientView, hook: Seq<char>, payload: JsonView)
    ensures
        hook == "mcp.tool.invoke"@ ==> hook_start(client, hook, payload) == invoke_start(
            client,
            payload,
        ),
        hook != "mcp.tool.invoke"@ ==> hook_start(client, hook, payload).0 == client && (hook_start(
            client,
            hook,
            payload,
        ).1 matches TurnView::Answer(verdict) && verdict.str_at("verdict"@) == Some("skip"@)),
{
}

/// The words for a tool that is not provided name it between quotes.
pub proof fn unknown_tools_are_named(tool: Seq<char>)
    ensures
        unknown_tool_words(tool) == "nginx-manager does not provide tool '"@ + tool + "'"@,
{
}

/// `init` answers which settings were seeded, in order, and `shutdown` that all
/// is well; neither says anything else.
pub proof fn answers_say_what_was_done(seeded: Seq<Seq<char>>, other: Seq<char>)
    ensures
        seeded_answer(seeded).get("ok"@) == Some(JsonView::Bool(true)),
        seeded_answer(seeded).get("seeded"@) matches Some(JsonView::Array(items)) && items.len()
            == seeded.len() && forall|i: int|
            0 <= i < items.len() ==> #[trigger] items[i] == JsonView::String(seeded[i]),
        other != "ok"@ && other != "seeded"@ ==> seeded_answer(seeded).get(other) is None,
        shutdown_answer().get("ok"@) == Some(JsonView::Bool(true)),
        other != "ok"@ ==> shutdown_answer().get(other) is None,
{
    lemma_answer_keys();
    string_lists_keep_their_order(seeded);
}

/// A setting counts as seeded where writing it succeeded, and only there.
pub proof fn only_written_settings_are_seeded(
    seeded: Seq<Seq<char>>,
    key: Seq<char>,
    value: JsonView,
    e: Seq<char>,
)
    ensures
        with_seeded(seeded, key, Ok(value)) == seeded + seq![key],
        with_seeded(seeded, key, Err(e)) == seeded,
{
    assert(with_seeded(seeded, key, Ok(value)) =~= seeded + seq![key]);
}

// ── What the manifest says ────────────────────────────────────────────
proof fn lemma_manifest_keys()
    ensures
        "description"@ != "version"@,
        "description"@ != "repository"@,
        "description"@ != "hooks"@,
        "description"@ != "call_timeout_secs"@,
        "description"@ != "settings"@,
        "description"@ != "mcp_tools"@,
        "description"@ != "permissions"@,
        "description"@ != "key"@,
        "description"@ != "title"@,
        "description"@ != "required"@,
        "description"@ != "type"@,
        "description"@ != "placeholder"@,
        "description"@ != "secret"@,
        "description"@ != "name"@,
        "description"@ != "input_schema"@,
        "version"@ != "repository"@,
        "version"@ != "hooks"@,
        "version"@ != "call_timeout_secs"@,
        "version"@ != "settings"@,
        "version"@ != "mcp_tools"@,
        "version"@ != "permissions"@,
        "version"@ != "key"@,
        "version"@ != "title"@,
        "version"@ != "required"@,
        "version"@ != "type"@,
        "version"@ != "placeholder"@,
        "version"@ != "secret"@,
        "version"@ != "name"@,
        "version"@ != "input_schema"@,
        "repository"@ != "hooks"@,
        "repository"@ != "call_timeout_secs"@,
        "repository"@ != "settings"@,
        "repository"@ != "mcp_tools"@,
        "repository"@ != "permissions"@,
        "repository"@ != "key"@,
        "repository"@ != "title"@,
        "repository"@ != "required"@,
        "repository"@ != "type"@,
        "repository"@ != "placeholder"@,
        "repository"@ != "secret"@,
        "repository"@ != "name"@,
        "repository"@ != "input_schema"@,
        "hooks"@ != "call_timeout_secs"@,
        "hooks"@ != "settings"@,
        "hooks"@ != "mcp_tools"@,
        "hooks"@ != "permissions"@,
        "hooks"@ != "key"@,
        "hooks"@ != "title"@,
        "hooks"@ != "required"@,
        "hooks"@ != "type"@,
        "hooks"@ != "placeholder"@,
        "hooks"@ != "secret"@,
        "hooks"@ != "name"@,
        "hooks"@ != "input_schema"@,
        "call_timeout_secs"@ != "settings"@,
        "call_timeout_secs"@ != "mcp_tools"@,
        "call_timeout_secs"@ != "permissions"@,
        "call_timeout_secs"@ != "key"@,
        "call_timeout_secs"@ != "title"@,
        "call_timeout_secs"@ != "required"@,
        "call_timeout_secs"@ != "type"@,
        "call_timeout_secs"@ != "placeholder"@,
        "call_timeout_secs"@ != "secret"@,
        "call_timeout_secs"@ != "name"@,
        "call_timeout_secs"@ != "input_schema"@,
        "settings"@ != "mcp_tools"@,
        "settings"@ != "permissions"@,
        "settings"@ != "key"@,
        "settings"@ != "title"@,
        "settings"@ != "required"@,
        "settings"@ != "type"@,
        "settings"@ != "placeholder"@,
        "settings"@ != "secret"@,
        "settings"@ != "name"@,
        "settings"@ != "input_schema"@,
        "mcp_tools"@ != "permissions"@,
        "mcp_tools"@ != "key"@,
        "mcp_tools"@ != "title"@,
        "mcp_tools"@ != "required"@,
        "mcp_tools"@ != "type"@,
        "mcp_tools"@ != "placeholder"@,
        "mcp_tools"@ != "secret"@,
        "mcp_tools"@ != "name"@,
        "mcp_tools"@ != "input_schema"@,
        "permissions"@ != "key"@,
        "permissions"@ != "title"@,
        "permissions"@ != "required"@,
        "permissions"@ != "type"@,
        "permissions"@ != "placeholder"@,
        "permissions"@ != "secret"@,
        "permissions"@ != "name"@,
        "permissions"@ != "input_schema"@,
        "key"@ != "title"@,
        "key"@ != "required"@,
        "key"@ != "type"@,
        "key"@ != "placeholder"@,
        "key"@ != "secret"@,
        "key"@ != "name"@,
        "key"@ != "input_schema"@,
        "title"@ != "required"@,
        "title"@ != "type"@,
        "title"@ != "placeholder"@,
        "title"@ != "secret"@,
        "title"@ != "name"@,
        "title"@ != "input_schema"@,
        "required"@ != "type"@,
        "required"@ != "placeholder"@,
        "required"@ != "secret"@,
        "required"@ != "name"@,
        "required"@ != "input_schema"@,
        "type"@ != "placeholder"@,
        "type"@ != "secret"@,
        "type"@ != "name"@,
        "type"@ != "input_schema"@,
        "placeholder"@ != "secret"@,
        "placeholder"@ != "name"@,
        "placeholder"@ != "input_schema"@,
        "secret"@ != "name"@,
        "secret"@ != "input_schema"@,
        "name"@ != "input_schema"@,
{
    reveal_strlit("description");
    reveal_strlit("version");
    reveal_strlit("repository");
    reveal_strlit("hooks");
    reveal_strlit("call_timeout_secs");
    reveal_strlit("settings");
    reveal_strlit("mcp_tools");
    reveal_strlit("permissions");
    reveal_strlit("key");
    reveal_strlit("title");
    reveal_strlit("required");
    reveal_strlit("type");
    reveal_strlit("placeholder");
    reveal_strlit("secret");
    reveal_strlit("name");
    reveal_strlit("input_schema");
    assert("description"@.len() == 11);
    assert("version"@.len() == 7);
    assert("repository"@.len() == 10);
    assert("hooks"@.len() == 5);
    assert("call_timeout_secs"@.len() == 17);
    assert("settings"@.len() == 8);
    assert("mcp_tools"@.len() == 9);
    assert("permissions"@.len() == 11);
    assert("key"@.len() == 3);
    assert("title"@.len() == 5);
    assert("required"@.len() == 8);
    assert("type"@.len() == 4);
    assert("placeholder"@.len() == 11);
    assert("secret"@.len() == 6);
    assert("name"@.len() == 4);
    assert("input_schema"@.len() == 12);
    assert("description"@[0] == 'd' && "permissions"@[0] == 'p');
    assert("description"@[0] == 'd' && "placeholder"@[0] == 'p');
    assert("hooks"@[0] == 'h' && "title"@[0] == 't');
    assert("settings"@[0] == 's' && "required"@[0] == 'r');
    assert("permissions"@[1] == 'e' && "placeholder"@[1] == 'l');
    assert("type"@[0] == 't' && "name"@[0] == 'n');
}

proof fn lemma_schema_keys()
    ensures
        "type"@ != "properties"@,
        "type"@ != "additionalProperties"@,
        "type"@ != "required"@,
        "type"@ != "names"@,
        "type"@ != "items"@,
        "type"@ != "name"@,
        "type"@ != "arguments"@,
        "type"@ != "base_url"@,
        "type"@ != "api_key"@,
        "type"@ != "verify"@,
        "type"@ != "description"@,
        "properties"@ != "additionalProperties"@,
        "properties"@ != "required"@,
        "properties"@ != "names"@,
        "properties"@ != "items"@,
        "properties"@ != "name"@,
        "properties"@ != "arguments"@,
        "properties"@ != "base_url"@,
        "properties"@ != "api_key"@,
        "properties"@ != "verify"@,
        "properties"@ != "description"@,
        "additionalProperties"@ != "required"@,
        "additionalProperties"@ != "names"@,
        "additionalProperties"@ != "items"@,
        "additionalProperties"@ != "name"@,
        "additionalProperties"@ != "arguments"@,
        "additionalProperties"@ != "base_url"@,
        "additionalProperties"@ != "api_key"@,
        "additionalProperties"@ != "verify"@,
        "additionalProperties"@ != "description"@,
        "required"@ != "names"@,
        "required"@ != "items"@,
        "required"@ != "name"@,
        "required"@ != "arguments"@,
        "required"@ != "base_url"@,
        "required"@ != "api_key"@,
        "required"@ != "verify"@,
        "required"@ != "description"@,
        "names"@ != "items"@,
        "names"@ != "name"@,
        "names"@ != "arguments"@,
        "names"@ != "base_url"@,
        "names"@ != "api_key"@,
        "names"@ != "verify"@,
        "names"@ != "description"@,
        "items"@ != "name"@,
        "items"@ != "arguments"@,
        "items"@ != "base_url"@,
        "items"@ != "api_key"@,
        "items"@ != "verify"@,
        "items"@ != "description"@,
        "name"@ != "arguments"@,
        "name"@ != "base_url"@,
        "name"@ != "api_key"@,
        "name"@ != "verify"@,
        "name"@ != "description"@,
        "arguments"@ != "base_url"@,
        "arguments"@ != "api_key"@,
        "arguments"@ != "verify"@,
        "arguments"@ != "description"@,
        "base_url"@ != "api_key"@,
        "base_url"@ != "verify"@,
        "base_url"@ != "description"@,
        "api_key"@ != "verify"@,
        "api_key"@ != "description"@,
        "verify"@ != "description"@,
{
    reveal_strlit("type");
    reveal_strlit("properties");
    reveal_strlit("additionalProperties");
    reveal_strlit("required");
    reveal_strlit("names");
    reveal_strlit("items");
    reveal_strlit("name");
    reveal_strlit("arguments");
    reveal_strlit("base_url");
    reveal_strlit("api_key");
    reveal_strlit("verify");
    reveal_strlit("description");
    assert("type"@.len() == 4);
    assert("properties"@.len() == 10);
    assert("additionalProperties"@.len() == 20);
    assert("required"@.len() == 8);
    assert("names"@.len() == 5);
    assert("items"@.len() == 5);
    assert("name"@.len() == 4);
    assert("arguments"@.len() == 9);
    assert("base_url"@.len() == 8);
    assert("api_key"@.len() == 7);
    assert("verify"@.len() == 6);
    assert("description"@.len() == 11);
    assert("type"@[0] == 't' && "name"@[0] == 'n');
    assert("required"@[0] == 'r' && "base_url"@[0] == 'b');
    assert("names"@[0] == 'n' && "items"@[0] == 'i');
}

/// The manifest says what it is told of the package, the hook, the time a call
/// may take, the settings, the tools and the permissions, and nothing else.
pub proof fn manifest_says_what_the_core_asks(
    description: Seq<char>,
    version: Seq<char>,
    repository: Seq<char>,
    other: Seq<char>,
)
    ensures
        ({
            let manifest = manifest_of(description, version, repository);
            &&& manifest.str_at("description"@) == Some(description)
            &&& manifest.str_at("version"@) == Some(version)
            &&& manifest.str_at("repository"@) == Some(repository)
            &&& manifest.get("hooks"@) == Some(
                JsonView::Array(seq![JsonView::String("mcp.tool.invoke"@)]),
            )
            &&& manifest.get("call_timeout_secs"@) == Some(JsonView::Int(120))
            &&& manifest.get("settings"@) == Some(JsonView::Array(settings_list()))
            &&& manifest.get("mcp_tools"@) == Some(JsonView::Array(tools_list()))
            &&& manifest.get("permissions"@) == Some(
                JsonView::Array(
                    seq![
                        JsonView::String("provide_mcp_tools"@),
                        JsonView::String("http_request"@),
                    ],
                ),
            )
            &&& other != "description"@ && other != "version"@ && other != "repository"@ && other !=
                "hooks"@ && other != "call_timeout_secs"@ && other != "settings"@ && other !=
                "mcp_tools"@ && other != "permissions"@ ==> manifest.get(other) is None
        }),
{
    lemma_manifest_keys();
}

/// The operator edits a URL and a key, both required, and the key is secret.
pub proof fn operator_settings_are_described(other: Seq<char>)
    ensures
        settings_list().len() == 2,
        ({
            let url = settings_list()[0];
            &&& url.str_at("key"@) == Some("base_url"@)
            &&& url.str_at("title"@) == Some("Nginx Proxy Manager URL"@)
            &&& url.str_at("description"@) is Some
            &&& url.get("required"@) == Some(JsonView::Bool(true))
            &&& url.str_at("type"@) == Some("url"@)
            &&& url.str_at("placeholder"@) == Some("http://192.168.1.10:81"@)
            &&& other != "key"@ && other != "title"@ && other != "description"@ && other !=
                "required"@ && other != "type"@ && other != "placeholder"@ ==> url.get(other) is
                None
        }),
        ({
            let key = settings_list()[1];
            &&& key.str_at("key"@) == Some("api_key"@)
            &&& key.str_at("title"@) == Some("API key"@)
            &&& key.str_at("description"@) is Some
            &&& key.get("required"@) == Some(JsonView::Bool(true))
            &&& key.str_at("type"@) == Some("string"@)
            &&& key.get("secret"@) == Some(JsonView::Bool(true))
            &&& key.str_at("placeholder"@) == Some("npm_…"@)
            &&& other != "key"@ && other != "title"@ && other != "description"@ && other !=
                "required"@ && other != "type"@ && other != "secret"@ && other != "placeholder"@ ==>
                key.get(other) is None
        }),
{
    lemma_manifest_keys();
}

/// Whether `tool` describes a tool with the given name and title, which takes an
/// object and no properties but those of its schema.
pub open spec fn describes(tool: JsonView, name: Seq<char>, title: Seq<char>) -> bool {
    &&& tool.str_at("name"@) == Some(name)
    &&& tool.str_at("title"@) == Some(title)
    &&& tool.str_at("description"@) is Some
    &&& tool.get("input_schema"@) matches Some(schema) && {
        &&& schema.str_at("type"@) == Some("object"@)
        &&& schema.get("properties"@) is Some
        &&& schema.get("additionalProperties"@) == Some(JsonView::Bool(false))
    }
}

/// What the schema of `tool` says of the argument `name`.
pub open spec fn property(tool: JsonView, name: Seq<char>) -> Option<JsonView> {
    match tool.get("input_schema"@) {
        Some(schema) => match schema.get("properties"@) {
            Some(properties) => properties.get(name),
            None => None,
        },
        None => None,
    }
}

/// The type that the schema of `tool` gives the argument `name`.
pub open spec fn property_type(tool: JsonView, name: Seq<char>) -> Option<Seq<char>> {
    match property(tool, name) {
        Some(argument) => argument.str_at("type"@),
        None => None,
    }
}

/// The four tools are described, each with the arguments it takes and no others:
/// `npm_status` none, `npm_list_tools` an array of names, `npm_call` a name, which
/// it requires, and an object of arguments, `npm_configure` a URL, a key and
/// whether to verify.
pub proof fn tools_are_described(other: Seq<char>)
    ensures
        tools_list().len() == 4,
        ({
            let tool = tools_list()[0];
            &&& describes(tool, "npm_status"@, "Nginx Proxy Manager connection status"@)
            &&& property(tool, other) is None
            &&& tool.get("input_schema"@)->0.get("required"@) is None
        }),
        ({
            let tool = tools_list()[1];
            &&& describes(tool, "npm_list_tools"@, "List Nginx Proxy Manager tools"@)
            &&& property_type(tool, "names"@) == Some("array"@)
            &&& property(tool, "names"@)->0.get("items"@) matches Some(items) && items.str_at(
                "type"@,
            ) == Some("string"@)
            &&& other != "names"@ ==> property(tool, other) is None
            &&& tool.get("input_schema"@)->0.get("required"@) is None
        }),
        ({
            let tool = tools_list()[2];
            &&& describes(tool, "npm_call"@, "Call a Nginx Proxy Manager tool"@)
            &&& property_type(tool, "name"@) == Some("string"@)
            &&& property_type(tool, "arguments"@) == Some("object"@)
            &&& other != "name"@ && other != "arguments"@ ==> property(tool, other) is None
            &&& tool.get("input_schema"@)->0.get("required"@) == Some(
                JsonView::Array(seq![JsonView::String("name"@)]),
            )
        }),
        ({
            let tool = tools_list()[3];
            &&& describes(tool, "npm_configure"@, "Configure the Nginx Proxy Manager connection"@)
            &&& property_type(tool, "base_url"@) == Some("string"@)
            &&& property_type(tool, "api_key"@) == Some("string"@)
            &&& property_type(tool, "verify"@) == Some("boolean"@)
            &&& other != "base_url"@ && other != "api_key"@ && other != "verify"@ ==> property(tool,
                other) is None
            &&& tool.get("input_schema"@)->0.get("required"@) is None
        }),
{
    lemma_manifest_keys();
    lemma_schema_keys();
}

/// What `tool` is described as.
pub open spec fn description(tool: JsonView) -> Option<Seq<char>> {
    tool.str_at("description"@)
}

/// What the schema of `tool` describes the argument `name` as.
pub open spec fn property_description(tool: JsonView, name: Seq<char>) -> Option<Seq<char>> {
    match property(tool, name) {
        Some(argument) => description(argument),
        None => None,
    }
}

/// What the settings, the tools and their arguments are described as: the
/// operator and the sessions read no other documentation.
pub proof fn descriptions_are_given()
    ensures
        description(settings_list()[0]) == Some(
            "Root URL of the NPM admin interface, e.g. \"http://192.168.1.10:81\" — /api/mcp is appended automatically (a full …/api/mcp URL is also accepted)."@,
        ),
        description(settings_list()[1]) == Some(
            "NPM API key used as the Bearer token (\"npm_…\"), created in the NPM UI under API Keys — its scopes bound everything npm_call can do."@,
        ),
        description(tools_list()[0]) == Some(
            "Check the Nginx Proxy Manager connection: whether base_url/api_key are configured, and if so handshake with the NPM MCP endpoint and report server info, negotiated protocol version, the server's usage instructions, and which npm_* tools the configured API key's scopes expose. Start here when NPM tools misbehave."@,
        ),
        description(tools_list()[1]) == Some(
            "List the management tools the configured NPM API key can use — proxy hosts, redirection hosts, 404 hosts, TCP/UDP streams, certificates, access lists, tags, users, settings, audit log, reports. Returns a compact name + description catalog (with read-only/destructive hints); pass names:[…] to fetch the full JSON input schemas of specific tools before invoking them with npm_call."@,
        ),
        property_description(tools_list()[1], "names"@) == Some(
            "Return full definitions (including input schema) for just these tool names, e.g. [\"npm_create_proxy_host\"]. Omit for the compact catalog of every available tool."@,
        ),
        description(tools_list()[2]) == Some(
            "Invoke one Nginx Proxy Manager tool by name (e.g. npm_list_proxy_hosts, npm_create_proxy_host, npm_renew_certificate) with arguments matching its input schema — discover names with npm_list_tools and schemas via its names:[…] parameter. The call is proxied to the configured NPM instance's MCP server and bounded by the API key's scopes. npm_delete_* tools take effect immediately; be sure before deleting."@,
        ),
        property_description(tools_list()[2], "name"@) == Some(
            "The NPM tool to invoke, e.g. \"npm_list_proxy_hosts\"."@,
        ),
        property_description(tools_list()[2], "arguments"@) == Some(
            "Arguments per that tool's input schema (npm_list_tools with names:[…] shows it). Omit for tools that take none."@,
        ),
        description(tools_list()[3]) == Some(
            "Set which Nginx Proxy Manager this Peckboard talks to: base_url of the NPM admin interface (e.g. \"http://192.168.1.10:81\") and api_key (an NPM API key, \"npm_…\", created in the NPM UI under API Keys — its scopes bound everything npm_call can do). Verifies the connection by default and reports the server info. Note the key passes through the chat transcript; operators who prefer not to can instead set both in Settings → Plugins → nginx-manager, or in Peckboard's config.json under plugins.nginx-manager.config."@,
        ),
        property_description(tools_list()[3], "base_url"@) == Some(
            "Root URL of the NPM instance, e.g. \"http://192.168.1.10:81\" — /api/mcp is appended automatically (a full …/api/mcp URL is also accepted)."@,
        ),
        property_description(tools_list()[3], "api_key"@) == Some(
            "NPM API key used as the Bearer token, e.g. \"npm_…\"."@,
        ),
        property_description(tools_list()[3], "verify"@) == Some(
            "Handshake with the endpoint after saving (default true)."@,
        ),
{
    lemma_manifest_keys();
    lemma_schema_keys();
}

} // verus!
