//! The plugin's exports: what Peckboard's core calls, and what it is answered.
//!
//! - `init` — called once on load with the plugin's config block; seeds the
//!   `base_url` / `api_key` plugin settings from it when present.
//! - `handle` — called per hook; answers an `mcp.tool.invoke` with a verdict.
//! - `shutdown` — tears down the cached MCP session (best-effort `DELETE`).
//!
//! Each starts with a [`Turn`]: a host call to make, or the text to answer
//! with. [`resume`] takes a [`Run`] on with what the host call gave back.
use vstd::prelude::*;
use vstd::string::StringExecFns;
use crate::config::{
    Config, ConfigView, Loading, LoadingView, load, load_call, load_next, load_reply, set_setting,
    set_setting_call,
};
use crate::host::{HostCall, HostCallView, Step, StepView, host_reply, reply_of};
use crate::json::{
    Json, JsonView, json_parsed, json_string, json_text, nesting_limit, outcome, parse_json,
    parses_to, reads_back,
};
use crate::mcp_client::{Client, ClientView, invalidate_session, shutdown_call, shutdown_session};
use crate::text::{same, texts};
use crate::tools::{
    CallRun, CallRunView, CatalogRun, CatalogRunView, ConfigureRun, ConfigureRunView, StatusRun,
    StatusRunView, argument, argument_of, call_next, call_reply, call_start, call_tool_tool,
    catalog_next, catalog_reply, configure_next, configure_reply, configure_start, configure_tool,
    list_tools_tool, names_in, status_next, status_reply, status_tool, string_array, strings_view,
    truth,
};

verus! {

// ── Verdicts ──────────────────────────────────────────────────────────
/// The verdict that a tool succeeded with `value`.
pub open spec fn allowing(value: JsonView) -> JsonView {
    JsonView::empty().with_str("verdict"@, "allow"@).with("payload"@, value)
}

/// The verdict that a tool failed for `reason`.
pub open spec fn cancelling(reason: Seq<char>) -> JsonView {
    JsonView::empty().with_str("verdict"@, "cancel"@).with_str("reason"@, reason)
}

/// The verdict on a hook that is not the plugin's business.
pub open spec fn skipping() -> JsonView {
    JsonView::empty().with_str("verdict"@, "skip"@)
}

/// The verdict on a tool's result: its value is allowed, its error cancels.
pub open spec fn verdict_of(result: Result<JsonView, Seq<char>>) -> JsonView {
    match result {
        Ok(value) => allowing(value),
        Err(reason) => cancelling(reason),
    }
}

/// The verdict that a tool succeeded with `value`.
pub fn allow(value: Json) -> (r: Json)
    ensures
        r@ == allowing(value@),
{
    let mut out = Json::object();
    out.set_str("verdict", "allow");
    out.set("payload", value);
    out
}

/// The verdict that a tool failed for `reason`.
pub fn cancel(reason: &str) -> (r: Json)
    ensures
        r@ == cancelling(reason@),
{
    let mut out = Json::object();
    out.set_str("verdict", "cancel");
    out.set_str("reason", reason);
    out
}

/// The verdict on a hook that is not the plugin's business.
pub fn skip() -> (r: Json)
    ensures
        r@ == skipping(),
{
    let mut out = Json::object();
    out.set_str("verdict", "skip");
    out
}

// ── Tools ─────────────────────────────────────────────────────────────
/// A tool under way.
#[derive(Debug)]
pub enum ToolRun {
    Status(StatusRun),
    Catalog(CatalogRun),
    Call(CallRun),
    Configure(ConfigureRun),
}

/// What a [`ToolRun`] means.
pub enum ToolRunView {
    Status(StatusRunView),
    Catalog(CatalogRunView),
    Call(CallRunView),
    Configure(ConfigureRunView),
}

impl View for ToolRun {
    type V = ToolRunView;

    open spec fn view(&self) -> ToolRunView {
        match self {
            ToolRun::Status(run) => ToolRunView::Status(run@),
            ToolRun::Catalog(run) => ToolRunView::Catalog(run@),
            ToolRun::Call(run) => ToolRunView::Call(run@),
            ToolRun::Configure(run) => ToolRunView::Configure(run@),
        }
    }
}

/// How the tool called `tool` starts; nothing where the plugin provides none
/// of that name.
pub open spec fn tool_start(client: ClientView, tool: Seq<char>, args: JsonView) -> Option<
    (ClientView, StepView<ToolRunView, JsonView>),
> {
    if tool == "npm_status"@ {
        Some(
            (
                client,
                StepView::Call(
                    load_call(),
                    ToolRunView::Status(StatusRunView::Loading(LoadingView::BaseUrl)),
                ),
            ),
        )
    } else if tool == "npm_list_tools"@ {
        Some(
            (
                client,
                StepView::Call(
                    load_call(),
                    ToolRunView::Catalog(
                        CatalogRunView::Loading {
                            names: names_in(args),
                            state: LoadingView::BaseUrl,
                        },
                    ),
                ),
            ),
        )
    } else if tool == "npm_call"@ {
        Some(
            (
                client,
                match call_start(args) {
                    StepView::Call(call, run) => StepView::Call(call, ToolRunView::Call(run)),
                    StepView::Done(result) => StepView::Done(result),
                },
            ),
        )
    } else if tool == "npm_configure"@ {
        Some(
            match configure_start(client, args) {
                (client, StepView::Call(call, run)) => (
                    client,
                    StepView::Call(call, ToolRunView::Configure(run)),
                ),
                (client, StepView::Done(result)) => (client, StepView::Done(result)),
            },
        )
    } else {
        None
    }
}

/// What a tool does with a reply.
pub open spec fn tool_next(
    client: ClientView,
    run: ToolRunView,
    reply: Result<JsonView, Seq<char>>,
) -> (ClientView, StepView<ToolRunView, JsonView>) {
    match run {
        ToolRunView::Status(run) => match status_next(client, run, reply) {
            (client, StepView::Call(call, run)) => (
                client,
                StepView::Call(call, ToolRunView::Status(run)),
            ),
            (client, StepView::Done(result)) => (client, StepView::Done(result)),
        },
        ToolRunView::Catalog(run) => match catalog_next(client, run, reply) {
            (client, StepView::Call(call, run)) => (
                client,
                StepView::Call(call, ToolRunView::Catalog(run)),
            ),
            (client, StepView::Done(result)) => (client, StepView::Done(result)),
        },
        ToolRunView::Call(run) => match call_next(client, run, reply) {
            (client, StepView::Call(call, run)) => (
                client,
                StepView::Call(call, ToolRunView::Call(run)),
            ),
            (client, StepView::Done(result)) => (client, StepView::Done(result)),
        },
        ToolRunView::Configure(run) => match configure_next(client, run, reply) {
            (client, StepView::Call(call, run)) => (
                client,
                StepView::Call(call, ToolRunView::Configure(run)),
            ),
            (client, StepView::Done(result)) => (client, StepView::Done(result)),
        },
    }
}

/// What an optional step means.
pub open spec fn optional_step(step: Option<Step<ToolRun, Json>>) -> Option<
    StepView<ToolRunView, JsonView>,
> {
    match step {
        Some(step) => Some(step@),
        None => None,
    }
}

/// Starts the tool called `tool`; nothing where the plugin provides none of
/// that name.
pub fn start_tool(client: &mut Client, tool: &str, args: Json) -> (r: Option<Step<ToolRun, Json>>)
    ensures
        match tool_start(old(client)@, tool@, args@) {
            Some((after, step)) => final(client)@ == after && optional_step(r) == Some(step),
            None => final(client)@ == old(client)@ && r is None,
        },
{
    if same(tool, "npm_status") {
        let (call, run) = status_tool(args);
        return Some(Step::Call(call, ToolRun::Status(run)));
    }
    if same(tool, "npm_list_tools") {
        let (call, run) = list_tools_tool(args);
        return Some(Step::Call(call, ToolRun::Catalog(run)));
    }
    if same(tool, "npm_call") {
        return Some(
            match call_tool_tool(args) {
                Step::Call(call, run) => Step::Call(call, ToolRun::Call(run)),
                Step::Done(result) => Step::Done(result),
            },
        );
    }
    if same(tool, "npm_configure") {
        return Some(
            match configure_tool(client, args) {
                Step::Call(call, run) => Step::Call(call, ToolRun::Configure(run)),
                Step::Done(result) => Step::Done(result),
            },
        );
    }
    None
}

/// Goes on with a tool.
pub fn tool_reply(client: &mut Client, run: ToolRun, reply: Result<Json, String>) -> (r: Step<
    ToolRun,
    Json,
>)
    ensures
        (final(client)@, r@) == tool_next(old(client)@, run@, outcome(reply)),
{
    match run {
        ToolRun::Status(run) => match status_reply(client, run, reply) {
            Step::Call(call, run) => Step::Call(call, ToolRun::Status(run)),
            Step::Done(result) => Step::Done(result),
        },
        ToolRun::Catalog(run) => match catalog_reply(client, run, reply) {
            Step::Call(call, run) => Step::Call(call, ToolRun::Catalog(run)),
            Step::Done(result) => Step::Done(result),
        },
        ToolRun::Call(run) => match call_reply(client, run, reply) {
            Step::Call(call, run) => Step::Call(call, ToolRun::Call(run)),
            Step::Done(result) => Step::Done(result),
        },
        ToolRun::Configure(run) => match configure_reply(client, run, reply) {
            Step::Call(call, run) => Step::Call(call, ToolRun::Configure(run)),
            Step::Done(result) => Step::Done(result),
        },
    }
}

// ── Seeding ───────────────────────────────────────────────────────────
/// How far seeding the settings has got: which setting is being written, what
/// is left to write, and which were written.
#[derive(Debug)]
pub enum Seeding {
    BaseUrl { api_key: Option<String> },
    ApiKey { seeded: Vec<String> },
}

/// What a [`Seeding`] means.
pub enum SeedingView {
    BaseUrl { api_key: Option<Seq<char>> },
    ApiKey { seeded: Seq<Seq<char>> },
}

impl View for Seeding {
    type V = SeedingView;

    open spec fn view(&self) -> SeedingView {
        match self {
            Seeding::BaseUrl { api_key } => SeedingView::BaseUrl { api_key: api_key.deep_view() },
            Seeding::ApiKey { seeded } => SeedingView::ApiKey { seeded: texts(seeded@) },
        }
    }
}

/// How far shutting down has got: it reads the configuration, or waits for the
/// server to drop the session.
#[derive(Debug)]
pub enum Shutdown {
    Loading(Loading),
    Deleting,
}

/// What a [`Shutdown`] means.
pub enum ShutdownView {
    Loading(LoadingView),
    Deleting,
}

impl View for Shutdown {
    type V = ShutdownView;

    open spec fn view(&self) -> ShutdownView {
        match self {
            Shutdown::Loading(state) => ShutdownView::Loading(state@),
            Shutdown::Deleting => ShutdownView::Deleting,
        }
    }
}

/// A call of an export under way.
#[derive(Debug)]
pub enum Run {
    Tool(ToolRun),
    Seeding(Seeding),
    Shutdown(Shutdown),
}

/// What a [`Run`] means.
pub enum RunView {
    Tool(ToolRunView),
    Seeding(SeedingView),
    Shutdown(ShutdownView),
}

impl View for Run {
    type V = RunView;

    open spec fn view(&self) -> RunView {
        match self {
            Run::Tool(run) => RunView::Tool(run@),
            Run::Seeding(state) => RunView::Seeding(state@),
            Run::Shutdown(state) => RunView::Shutdown(state@),
        }
    }
}

/// What is to be done next: make a host call, or answer with a tree.
#[derive(Debug)]
pub enum Turn {
    Call(HostCall, Run),
    Answer(Json),
}

/// What a [`Turn`] means.
pub enum TurnView {
    Call(HostCallView, RunView),
    Answer(JsonView),
}

impl View for Turn {
    type V = TurnView;

    open spec fn view(&self) -> TurnView {
        match self {
            Turn::Call(call, run) => TurnView::Call(call@, run@),
            Turn::Answer(answer) => TurnView::Answer(answer@),
        }
    }
}

/// The text that the core is answered with.
pub fn answer_text(answer: &Json) -> (r: String)
    ensures
        r@ == json_text(answer@),
        reads_back(answer@, nesting_limit()) ==> parses_to(r@, answer@),
{
    json_string(answer)
}

/// The answer of `init`: which settings were seeded.
pub open spec fn seeded_answer(seeded: Seq<Seq<char>>) -> JsonView {
    JsonView::empty().with("ok"@, JsonView::Bool(true)).with("seeded"@, strings_view(seeded))
}

/// What seeding comes to once `seeded` is written: the cached session is
/// dropped where anything is.
pub open spec fn seeding_done(client: ClientView, seeded: Seq<Seq<char>>) -> (
    ClientView,
    TurnView,
) {
    (
        if seeded.len() > 0 {
            client.with_session(None)
        } else {
            client
        },
        TurnView::Answer(seeded_answer(seeded)),
    )
}

/// How seeding goes on with the API key, once `seeded` is written.
pub open spec fn seed_key(
    client: ClientView,
    api_key: Option<Seq<char>>,
    seeded: Seq<Seq<char>>,
) -> (ClientView, TurnView) {
    match api_key {
        Some(key) => (
            client,
            TurnView::Call(
                set_setting_call("api_key"@, key),
                RunView::Seeding(SeedingView::ApiKey { seeded }),
            ),
        ),
        None => seeding_done(client, seeded),
    }
}

/// How seeding starts, given what reading the config block came to.
pub open spec fn seeding_start(client: ClientView, parsed: Result<JsonView, Seq<char>>) -> (
    ClientView,
    TurnView,
) {
    match parsed {
        Err(_) => seeding_done(client, seq![]),
        Ok(config) => {
            let api_key = argument_of(config, "api_key"@);
            match argument_of(config, "base_url"@) {
                Some(url) => (
                    client,
                    TurnView::Call(
                        set_setting_call("base_url"@, url),
                        RunView::Seeding(SeedingView::BaseUrl { api_key }),
                    ),
                ),
                None => seed_key(client, api_key, seq![]),
            }
        },
    }
}

/// `seeded` with `key`, where writing it succeeded.
pub open spec fn with_seeded(
    seeded: Seq<Seq<char>>,
    key: Seq<char>,
    reply: Result<JsonView, Seq<char>>,
) -> Seq<Seq<char>> {
    if reply is Ok {
        seeded.push(key)
    } else {
        seeded
    }
}

/// What seeding does with a reply.
pub open spec fn seeding_next(
    client: ClientView,
    state: SeedingView,
    reply: Result<JsonView, Seq<char>>,
) -> (ClientView, TurnView) {
    match state {
        SeedingView::BaseUrl { api_key } => seed_key(
            client,
            api_key,
            with_seeded(seq![], "base_url"@, reply),
        ),
        SeedingView::ApiKey { seeded } => seeding_done(
            client,
            with_seeded(seeded, "api_key"@, reply),
        ),
    }
}

/// Ends seeding.
fn finish_seeding(client: &mut Client, seeded: Vec<String>) -> (r: Turn)
    ensures
        (final(client)@, r@) == seeding_done(old(client)@, texts(seeded@)),
{
    assert(texts(seeded@).len() == seeded@.len());
    if seeded.len() > 0 {
        invalidate_session(client);
    }
    let mut answer = Json::object();
    answer.set("ok", truth(true));
    answer.set("seeded", string_array(&seeded));
    Turn::Answer(answer)
}

/// Goes on with the API key.
fn seed_api_key(client: &mut Client, api_key: Option<String>, seeded: Vec<String>) -> (r: Turn)
    ensures
        (final(client)@, r@) == seed_key(old(client)@, api_key.deep_view(), texts(seeded@)),
{
    match api_key {
        Some(key) => Turn::Call(
            set_setting("api_key", key.as_str()),
            Run::Seeding(Seeding::ApiKey { seeded }),
        ),
        None => finish_seeding(client, seeded),
    }
}

/// Starts seeding the settings, given what reading the config block came to.
pub fn seed(client: &mut Client, parsed: Result<Json, String>) -> (r: Turn)
    ensures
        (final(client)@, r@) == seeding_start(old(client)@, outcome(parsed)),
{
    let seeded: Vec<String> = Vec::new();
    assert(texts(seeded@) =~= seq![]);
    match parsed {
        Err(_) => finish_seeding(client, seeded),
        Ok(config) => {
            let base_url = argument(&config, "base_url");
            let api_key = argument(&config, "api_key");
            match base_url {
                Some(url) => Turn::Call(
                    set_setting("base_url", url.as_str()),
                    Run::Seeding(Seeding::BaseUrl { api_key }),
                ),
                None => seed_api_key(client, api_key, seeded),
            }
        },
    }
}

/// Seed `base_url` / `api_key` settings from the operator's config block
/// (`plugins.nginx-manager.config` in Peckboard's config.json). The file wins
/// over values set earlier via `npm_configure` — it is re-applied on every
/// load, so operators can rotate keys by editing one place.
pub fn init_impl(client: &mut Client, config: &str) -> (r: Turn)
    ensures
        (final(client)@, r@) == seeding_start(old(client)@, json_parsed(config@)),
{
    seed(client, parse_json(config))
}

/// Goes on with seeding.
fn seeding_reply(client: &mut Client, state: Seeding, reply: Result<Json, String>) -> (r: Turn)
    ensures
        (final(client)@, r@) == seeding_next(old(client)@, state@, outcome(reply)),
{
    match state {
        Seeding::BaseUrl { api_key } => {
            let mut seeded: Vec<String> = Vec::new();
            assert(texts(seeded@) =~= seq![]);
            if reply.is_ok() {
                seeded.push("base_url".to_owned());
                assert(texts(seeded@) =~= seq!["base_url"@]);
                assert(Seq::<Seq<char>>::empty().push("base_url"@) =~= seq!["base_url"@]);
            }
            seed_api_key(client, api_key, seeded)
        },
        Seeding::ApiKey { seeded } => {
            let mut seeded = seeded;
            let ghost before = texts(seeded@);
            if reply.is_ok() {
                seeded.push("api_key".to_owned());
                assert(texts(seeded@) =~= before.push("api_key"@));
            }
            finish_seeding(client, seeded)
        },
    }
}

// ── Shutting down ─────────────────────────────────────────────────────
/// The answer of `shutdown`.
pub open spec fn shutdown_answer() -> JsonView {
    JsonView::empty().with("ok"@, JsonView::Bool(true))
}

/// How shutting down goes on with what loading the configuration came to: the
/// cached session is dropped here, and on the server where it can be.
pub open spec fn shutdown_loaded(client: ClientView, cfg: Option<ConfigView>) -> (
    ClientView,
    TurnView,
) {
    (
        client.with_session(None),
        match shutdown_call(client, cfg) {
            Some(call) => TurnView::Call(call, RunView::Shutdown(ShutdownView::Deleting)),
            None => TurnView::Answer(shutdown_answer()),
        },
    )
}

/// What shutting down does with a reply.
pub open spec fn shutdown_next(
    client: ClientView,
    state: ShutdownView,
    reply: Result<JsonView, Seq<char>>,
) -> (ClientView, TurnView) {
    match state {
        ShutdownView::Loading(state) => match load_next(state, reply) {
            StepView::Call(call, state) => (
                client,
                TurnView::Call(call, RunView::Shutdown(ShutdownView::Loading(state))),
            ),
            StepView::Done(Ok(cfg)) => shutdown_loaded(client, Some(cfg)),
            StepView::Done(Err(_)) => shutdown_loaded(client, None),
        },
        ShutdownView::Deleting => (client, TurnView::Answer(shutdown_answer())),
    }
}

/// Starts shutting down.
pub fn shutdown() -> (r: Turn)
    ensures
        r@ == TurnView::Call(
            load_call(),
            RunView::Shutdown(ShutdownView::Loading(LoadingView::BaseUrl)),
        ),
{
    let (call, state) = load();
    Turn::Call(call, Run::Shutdown(Shutdown::Loading(state)))
}

/// The answer of `shutdown`.
fn shut_down() -> (r: Turn)
    ensures
        r@ == TurnView::Answer(shutdown_answer()),
{
    let mut answer = Json::object();
    answer.set("ok", truth(true));
    Turn::Answer(answer)
}

/// Drops the cached session, here and on the server.
fn drop_session(client: &mut Client, cfg: Option<&Config>) -> (r: Turn)
    ensures
        (final(client)@, r@) == shutdown_loaded(old(client)@, cfg.deep_view()),
{
    match shutdown_session(client, cfg) {
        Some(call) => Turn::Call(call, Run::Shutdown(Shutdown::Deleting)),
        None => shut_down(),
    }
}

/// Goes on with shutting down.
fn shutdown_reply(client: &mut Client, state: Shutdown, reply: Result<Json, String>) -> (r: Turn)
    ensures
        (final(client)@, r@) == shutdown_next(old(client)@, state@, outcome(reply)),
{
    match state {
        Shutdown::Loading(state) => match load_reply(state, reply) {
            Step::Call(call, state) => Turn::Call(call, Run::Shutdown(Shutdown::Loading(state))),
            Step::Done(Ok(cfg)) => drop_session(client, Some(&cfg)),
            Step::Done(Err(_)) => drop_session(client, None),
        },
        Shutdown::Deleting => shut_down(),
    }
}

// ── Hooks ─────────────────────────────────────────────────────────────
/// What a tool's step means to the core: a call to make, or the verdict.
pub open spec fn tool_turn(step: StepView<ToolRunView, JsonView>) -> TurnView {
    match step {
        StepView::Call(call, run) => TurnView::Call(call, RunView::Tool(run)),
        StepView::Done(result) => TurnView::Answer(verdict_of(result)),
    }
}

/// The tool that a payload names, nothing where it names none.
pub open spec fn tool_in(payload: JsonView) -> Seq<char> {
    match payload.str_at("tool"@) {
        Some(tool) => tool,
        None => ""@,
    }
}

/// The arguments that a payload holds, null where it holds none.
pub open spec fn arguments_in(payload: JsonView) -> JsonView {
    match payload.get("arguments"@) {
        Some(args) => args,
        None => JsonView::Null,
    }
}

/// The words for a tool that the plugin does not provide.
pub open spec fn unknown_tool_words(tool: Seq<char>) -> Seq<char> {
    "nginx-manager does not provide tool '"@ + tool + "'"@
}

/// How an `mcp.tool.invoke` is dispatched.
pub open spec fn invoke_start(client: ClientView, payload: JsonView) -> (ClientView, TurnView) {
    match tool_start(client, tool_in(payload), arguments_in(payload)) {
        Some((client, step)) => (client, tool_turn(step)),
        None => (
            client,
            TurnView::Answer(cancelling(unknown_tool_words(tool_in(payload)))),
        ),
    }
}

/// How a hook is handled.
pub open spec fn hook_start(client: ClientView, hook: Seq<char>, payload: JsonView) -> (
    ClientView,
    TurnView,
) {
    if hook == "mcp.tool.invoke"@ {
        invoke_start(client, payload)
    } else {
        (client, TurnView::Answer(skipping()))
    }
}

/// What a call of an export does with a reply.
pub open spec fn run_next(
    client: ClientView,
    run: RunView,
    reply: Result<JsonView, Seq<char>>,
) -> (ClientView, TurnView) {
    match run {
        RunView::Tool(run) => {
            let (client, step) = tool_next(client, run, reply);
            (client, tool_turn(step))
        },
        RunView::Seeding(state) => seeding_next(client, state, reply),
        RunView::Shutdown(state) => shutdown_next(client, state, reply),
    }
}

/// What a tool's step means to the core.
fn turn_of(step: Step<ToolRun, Json>) -> (r: Turn)
    ensures
        r@ == tool_turn(step@),
{
    match step {
        Step::Call(call, run) => Turn::Call(call, Run::Tool(run)),
        Step::Done(Ok(value)) => Turn::Answer(allow(value)),
        Step::Done(Err(reason)) => Turn::Answer(cancel(reason.as_str())),
    }
}

/// Dispatch an `mcp.tool.invoke` to the right tool. A tool's `Err` becomes a
/// cancel verdict (surfaced to the worker as an MCP tool error); an unknown
/// tool is also a cancel. Success is an allow verdict carrying the value.
pub fn handle_invoke(client: &mut Client, payload: Json) -> (r: Turn)
    ensures
        (final(client)@, r@) == invoke_start(old(client)@, payload@),
{
    let tool = match payload.str_at("tool") {
        Some(tool) => tool,
        None => "",
    };
    let args = match payload.get("arguments") {
        Some(args) => args.clone(),
        None => Json::Null,
    };
    match start_tool(client, tool, args) {
        Some(step) => turn_of(step),
        None => {
            let words = "nginx-manager does not provide tool '".to_owned().concat(tool).concat("'");
            Turn::Answer(cancel(words.as_str()))
        },
    }
}

/// Handles a hook: an `mcp.tool.invoke` is dispatched, anything else skipped.
pub fn handle(client: &mut Client, hook: &str, payload: Json) -> (r: Turn)
    ensures
        (final(client)@, r@) == hook_start(old(client)@, hook@, payload@),
{
    if same(hook, "mcp.tool.invoke") {
        handle_invoke(client, payload)
    } else {
        Turn::Answer(skip())
    }
}

/// Goes on with a call of an export, given what the host's reply means.
pub fn resume_with(client: &mut Client, run: Run, reply: Result<Json, String>) -> (r: Turn)
    ensures
        (final(client)@, r@) == run_next(old(client)@, run@, outcome(reply)),
{
    match run {
        Run::Tool(run) => turn_of(tool_reply(client, run, reply)),
        Run::Seeding(state) => seeding_reply(client, state, reply),
        Run::Shutdown(state) => shutdown_reply(client, state, reply),
    }
}

/// Goes on with a call of an export: the host function gave back a text, or
/// failed.
pub fn resume(client: &mut Client, run: Run, raw: Result<String, String>) -> (r: Turn)
    ensures
        (final(client)@, r@) == run_next(old(client)@, run@, reply_of(outcome(raw))),
{
    resume_with(client, run, host_reply(raw))
}

} // verus!
