//! The four MCP tools this plugin provides, on top of [`crate::mcp_client`].
//!
//! Deliberately a passthrough surface: NPM registers its own `npm_*` tool set
//! per API-key scope (44 tools on a full-access key), and mirroring those
//! statically would bloat every session's tool list and drift when NPM
//! changes. Instead sessions discover the live catalog with `npm_list_tools`
//! and invoke through `npm_call`.
use vstd::prelude::*;
use vstd::string::StringExecFns;
use crate::config::{
    Config, ConfigView, Loading, LoadingView, load, load_call, load_next, load_reply, mask_key,
    masked, set_setting, set_setting_call,
};
use crate::host::{HostCall, Step, StepView};
use crate::json::{Json, JsonView, json_parsed, outcome, parse_json};
use crate::mcp_client::{
    Client, ClientView, Handshake, HandshakeView, Listing, ListingView, Request, RequestView,
    SessionView, CALL_TIMEOUT_SECS, call_params, call_tool, initialize_call, initialize_fresh,
    initialize_next, initialize_reply, invalidate_session, list_next, list_tools, list_tools_reply,
    page_start, request_next, request_reply, request_start,
};
use crate::text::{is_blank, join, joined, same, starts_with, texts, trim, trimmed};

verus! {

/// A truth value as JSON.
pub(crate) fn truth(b: bool) -> (r: Json)
    ensures
        r@ == JsonView::Bool(b),
{
    Json::Bool(b)
}

/// The strings of a list as JSON.
pub open spec fn strings_view(strings: Seq<Seq<char>>) -> JsonView {
    JsonView::Array(strings.map_values(|s: Seq<char>| JsonView::String(s)))
}

/// The strings of a list as JSON.
pub(crate) fn string_array(strings: &Vec<String>) -> (r: Json)
    ensures
        r@ == strings_view(texts(strings@)),
{
    let mut items: Vec<Json> = Vec::new();
    let mut i: usize = 0;
    while i < strings.len()
        invariant
            i <= strings@.len(),
            items@.len() == i,
            forall|j: int|
                0 <= j < i ==> (#[trigger] items@[j])@ == JsonView::String(strings@[j]@),
        decreases strings@.len() - i,
    {
        items.push(Json::string(strings[i].as_str()));
        i += 1;
    }
    assert(items.deep_view() =~= texts(strings@).map_values(|s: Seq<char>| JsonView::String(s)));
    Json::array(items)
}

// ── npm_status ────────────────────────────────────────────────────────
/// The strings that the trees of a list hold under `key`, in order.
pub open spec fn strings_at(items: Seq<JsonView>, key: Seq<char>) -> Seq<Seq<char>>
    decreases items.len(),
{
    if items.len() == 0 {
        seq![]
    } else {
        match items.last().str_at(key) {
            Some(s) => strings_at(items.drop_last(), key).push(s),
            None => strings_at(items.drop_last(), key),
        }
    }
}

/// The strings that the trees of a list hold under `key`, in order.
fn all_strings_at(items: &Vec<Json>, key: &str) -> (r: Vec<String>)
    ensures
        texts(r@) == strings_at(items.deep_view(), key@),
{
    let ghost all = items.deep_view();
    let mut out: Vec<String> = Vec::new();
    let mut i: usize = 0;
    assert(all.take(0) =~= seq![]);
    assert(texts(out@) =~= seq![]);
    while i < items.len()
        invariant
            i <= items@.len(),
            all == items.deep_view(),
            texts(out@) == strings_at(all.take(i as int), key@),
        decreases items@.len() - i,
    {
        let ghost before = texts(out@);
        assert(all.take(i + 1).drop_last() =~= all.take(i as int));
        assert(all.take(i + 1).last() == items@[i as int]@);
        match items[i].str_at(key) {
            Some(s) => {
                out.push(s.to_owned());
                assert(texts(out@) =~= before.push(s@));
            },
            None => {},
        }
        i += 1;
    }
    assert(all.take(i as int) =~= all);
    out
}

/// The report where there is no configuration.
pub open spec fn unconfigured_report(e: Seq<char>) -> JsonView {
    JsonView::empty().with("configured"@, JsonView::Bool(false)).with_str("error"@, e)
}

/// The report on the configuration itself.
pub open spec fn configured_report(cfg: ConfigView) -> JsonView {
    JsonView::empty().with("configured"@, JsonView::Bool(true)).with_str(
        "base_url"@,
        cfg.base_url,
    ).with_str("endpoint"@, cfg.endpoint()).with_str("api_key"@, masked(cfg.api_key))
}

/// The report where the handshake failed.
pub open spec fn disconnected_report(out: JsonView, e: Seq<char>) -> JsonView {
    out.with("connected"@, JsonView::Bool(false)).with_str("error"@, e)
}

/// The tree with what `from` holds under `key`, if anything, under `name`.
pub open spec fn with_copied(
    out: JsonView,
    name: Seq<char>,
    from: JsonView,
    key: Seq<char>,
) -> JsonView {
    match from.get(key) {
        Some(value) => out.with(name, value),
        None => out,
    }
}

/// The report once the handshake succeeded.
pub open spec fn connected_report(
    out: JsonView,
    session: SessionView,
    init: JsonView,
) -> JsonView {
    let base = out.with("connected"@, JsonView::Bool(true)).with_str(
        "protocol_version"@,
        session.protocol_version,
    );
    with_copied(
        with_copied(base, "server"@, init, "serverInfo"@),
        "instructions"@,
        init,
        "instructions"@,
    )
}

/// The report with the catalog.
pub open spec fn with_catalog(out: JsonView, tools: Seq<JsonView>) -> JsonView {
    out.with("tool_count"@, JsonView::Int(tools.len() as int)).with(
        "tools"@,
        strings_view(strings_at(tools, "name"@)),
    )
}

/// How far `npm_status` has got: it reads the configuration, makes the
/// handshake, or lists the tools.
#[derive(Debug)]
pub enum StatusRun {
    Loading(Loading),
    Handshaking { cfg: Config, out: Json, handshake: Handshake },
    Listing { cfg: Config, out: Json, listing: Listing },
}

/// What a [`StatusRun`] means.
pub enum StatusRunView {
    Loading(LoadingView),
    Handshaking { cfg: ConfigView, out: JsonView, handshake: HandshakeView },
    Listing { cfg: ConfigView, out: JsonView, listing: ListingView },
}

impl View for StatusRun {
    type V = StatusRunView;

    open spec fn view(&self) -> StatusRunView {
        match self {
            StatusRun::Loading(state) => StatusRunView::Loading(state@),
            StatusRun::Handshaking { cfg, out, handshake } => StatusRunView::Handshaking {
                cfg: cfg@,
                out: out@,
                handshake: handshake@,
            },
            StatusRun::Listing { cfg, out, listing } => StatusRunView::Listing {
                cfg: cfg@,
                out: out@,
                listing: listing@,
            },
        }
    }
}

/// What `npm_status` does with a reply.
pub open spec fn status_next(
    client: ClientView,
    state: StatusRunView,
    reply: Result<JsonView, Seq<char>>,
) -> (ClientView, StepView<StatusRunView, JsonView>) {
    match state {
        StatusRunView::Loading(state) => match load_next(state, reply) {
            StepView::Call(call, state) => (
                client,
                StepView::Call(call, StatusRunView::Loading(state)),
            ),
            StepView::Done(Err(e)) => (client, StepView::Done(Ok(unconfigured_report(e)))),
            StepView::Done(Ok(cfg)) => (
                client.advanced(),
                StepView::Call(
                    initialize_call(client, cfg),
                    StatusRunView::Handshaking {
                        cfg,
                        out: configured_report(cfg),
                        handshake: HandshakeView::Initialize { id: client.next_id },
                    },
                ),
            ),
        },
        StatusRunView::Handshaking { cfg, out, handshake } => match initialize_next(
            client,
            cfg,
            handshake,
            reply,
        ) {
            (client, StepView::Call(call, handshake)) => (
                client,
                StepView::Call(call, StatusRunView::Handshaking { cfg, out, handshake }),
            ),
            (client, StepView::Done(Err(e))) => (
                client,
                StepView::Done(Ok(disconnected_report(out, e))),
            ),
            (client, StepView::Done(Ok((session, init)))) => {
                let (client, call, listing) = page_start(client, cfg, Seq::empty(), None);
                (
                    client,
                    StepView::Call(
                        call,
                        StatusRunView::Listing {
                            cfg,
                            out: connected_report(out, session, init),
                            listing,
                        },
                    ),
                )
            },
        },
        StatusRunView::Listing { cfg, out, listing } => match list_next(
            client,
            cfg,
            listing,
            reply,
        ) {
            (client, StepView::Call(call, listing)) => (
                client,
                StepView::Call(call, StatusRunView::Listing { cfg, out, listing }),
            ),
            (client, StepView::Done(Err(e))) => (
                client,
                StepView::Done(Ok(out.with_str("tools_error"@, e))),
            ),
            (client, StepView::Done(Ok(tools))) => (
                client,
                StepView::Done(Ok(with_catalog(out, tools))),
            ),
        },
    }
}

/// Copies what `from` holds under `key`, if anything, to `name`.
fn copy_field(out: &mut Json, name: &str, from: &Json, key: &str)
    ensures
        final(out)@ == with_copied(old(out)@, name@, from@, key@),
{
    match from.get(key) {
        Some(value) => out.set(name, value.clone()),
        None => {},
    }
}

/// The report on the configuration itself.
fn report_configured(cfg: &Config) -> (r: Json)
    ensures
        r@ == configured_report(cfg@),
{
    let mut out = Json::object();
    out.set("configured", truth(true));
    out.set_str("base_url", cfg.base_url.as_str());
    out.set_str("endpoint", cfg.endpoint().as_str());
    out.set_str("api_key", mask_key(cfg.api_key.as_str()).as_str());
    out
}

/// Starts `npm_status` — configuration + connectivity report. The tool takes no
/// arguments.
pub fn status_tool(_args: Json) -> (r: (HostCall, StatusRun))
    ensures
        r.0@ == load_call(),
        r.1@ == StatusRunView::Loading(LoadingView::BaseUrl),
{
    let (call, state) = load();
    (call, StatusRun::Loading(state))
}

/// Goes on with `npm_status`. Never a hard error: diagnostics belong in the
/// payload.
pub fn status_reply(client: &mut Client, state: StatusRun, reply: Result<Json, String>) -> (r: Step<
    StatusRun,
    Json,
>)
    ensures
        (final(client)@, r@) == status_next(old(client)@, state@, outcome(reply)),
        r matches Step::Done(result) ==> result is Ok,
{
    match state {
        StatusRun::Loading(state) => match load_reply(state, reply) {
            Step::Call(call, state) => Step::Call(call, StatusRun::Loading(state)),
            Step::Done(Err(e)) => {
                let mut out = Json::object();
                out.set("configured", truth(false));
                out.set_str("error", e.as_str());
                Step::Done(Ok(out))
            },
            Step::Done(Ok(cfg)) => {
                let out = report_configured(&cfg);
                let (call, handshake) = initialize_fresh(client, &cfg);
                Step::Call(call, StatusRun::Handshaking { cfg, out, handshake })
            },
        },
        StatusRun::Handshaking { cfg, out, handshake } => match initialize_reply(
            client,
            &cfg,
            handshake,
            reply,
        ) {
            Step::Call(call, handshake) => Step::Call(
                call,
                StatusRun::Handshaking { cfg, out, handshake },
            ),
            Step::Done(Err(e)) => {
                let mut out = out;
                out.set("connected", truth(false));
                out.set_str("error", e.as_str());
                Step::Done(Ok(out))
            },
            Step::Done(Ok((session, init))) => {
                let mut out = out;
                out.set("connected", truth(true));
                out.set_str("protocol_version", session.protocol_version.as_str());
                copy_field(&mut out, "server", &init, "serverInfo");
                copy_field(&mut out, "instructions", &init, "instructions");
                let (call, listing) = list_tools(client, &cfg);
                Step::Call(call, StatusRun::Listing { cfg, out, listing })
            },
        },
        StatusRun::Listing { cfg, out, listing } => match list_tools_reply(
            client,
            &cfg,
            listing,
            reply,
        ) {
            Step::Call(call, listing) => Step::Call(call, StatusRun::Listing { cfg, out, listing }),
            Step::Done(Err(e)) => {
                let mut out = out;
                out.set_str("tools_error", e.as_str());
                Step::Done(Ok(out))
            },
            Step::Done(Ok(tools)) => {
                let mut out = out;
                out.set("tool_count", Json::PosInt(tools.len() as u64));
                out.set("tools", string_array(&all_strings_at(&tools, "name")));
                Step::Done(Ok(out))
            },
        },
    }
}

// ── npm_list_tools ────────────────────────────────────────────────────
/// The strings among the trees of a list, in order.
pub open spec fn strings_among(items: Seq<JsonView>) -> Seq<Seq<char>>
    decreases items.len(),
{
    if items.len() == 0 {
        seq![]
    } else {
        match items.last().as_str() {
            Some(s) => strings_among(items.drop_last()).push(s),
            None => strings_among(items.drop_last()),
        }
    }
}

/// The tool names that `args` asks for.
pub open spec fn names_in(args: JsonView) -> Seq<Seq<char>> {
    match args.get("names"@) {
        Some(names) => match names.as_array() {
            Some(items) => strings_among(items),
            None => seq![],
        },
        None => seq![],
    }
}

/// The first of `tools` that is called `name`.
pub open spec fn tool_named(tools: Seq<JsonView>, name: Seq<char>) -> Option<JsonView>
    decreases tools.len(),
{
    if tools.len() == 0 {
        None
    } else if tools[0].str_at("name"@) == Some(name) {
        Some(tools[0])
    } else {
        tool_named(tools.skip(1), name)
    }
}

/// The tools of the given names, in the order of the names.
pub open spec fn tools_found(tools: Seq<JsonView>, names: Seq<Seq<char>>) -> Seq<JsonView>
    decreases names.len(),
{
    if names.len() == 0 {
        seq![]
    } else {
        match tool_named(tools, names.last()) {
            Some(tool) => tools_found(tools, names.drop_last()).push(tool),
            None => tools_found(tools, names.drop_last()),
        }
    }
}

/// The names that no tool has, in order.
pub open spec fn names_missing(tools: Seq<JsonView>, names: Seq<Seq<char>>) -> Seq<Seq<char>>
    decreases names.len(),
{
    if names.len() == 0 {
        seq![]
    } else {
        match tool_named(tools, names.last()) {
            Some(_) => names_missing(tools, names.drop_last()),
            None => names_missing(tools, names.drop_last()).push(names.last()),
        }
    }
}

/// The full definitions of the tools of the given names, and which names are
/// not among them.
pub open spec fn definitions(tools: Seq<JsonView>, names: Seq<Seq<char>>) -> JsonView {
    let found = JsonView::empty().with("tools"@, JsonView::Array(tools_found(tools, names)));
    let missing = names_missing(tools, names);
    if missing.len() == 0 {
        found
    } else {
        found.with(
            "missing"@,
            JsonView::empty().with("names"@, strings_view(missing)).with_str(
                "note"@,
                "not registered for this API key — its scopes may exclude the resource"@,
            ),
        )
    }
}

/// What a tree holds under `key`, null where it holds nothing.
pub open spec fn or_null(tree: JsonView, key: Seq<char>) -> JsonView {
    match tree.get(key) {
        Some(value) => value,
        None => JsonView::Null,
    }
}

/// The tree with the hint `key` of `annotations`, if there is one, under
/// `name`.
pub open spec fn with_hint(
    out: JsonView,
    name: Seq<char>,
    annotations: JsonView,
    key: Seq<char>,
) -> JsonView {
    match annotations.get(key) {
        Some(hint) => match hint.as_bool() {
            Some(b) => out.with(name, JsonView::Bool(b)),
            None => out,
        },
        None => out,
    }
}

/// The entry of a tool in the compact catalog.
pub open spec fn compact_entry(tool: JsonView) -> JsonView {
    let entry = JsonView::empty().with("name"@, or_null(tool, "name"@)).with(
        "description"@,
        or_null(tool, "description"@),
    );
    match tool.get("annotations"@) {
        Some(annotations) => with_hint(
            with_hint(entry, "read_only"@, annotations, "readOnlyHint"@),
            "destructive"@,
            annotations,
            "destructiveHint"@,
        ),
        None => entry,
    }
}

/// The compact catalog.
pub open spec fn compact_catalog(tools: Seq<JsonView>) -> JsonView {
    JsonView::empty().with("count"@, JsonView::Int(tools.len() as int)).with(
        "tools"@,
        JsonView::Array(tools.map_values(|tool: JsonView| compact_entry(tool))),
    ).with_str(
        "note"@,
        "pass names:[\"npm_…\"] to get a tool's full input schema before npm_call"@,
    )
}

/// The catalog: full definitions for the tools named in `names`, compact where
/// none is named.
pub open spec fn catalog_of(tools: Seq<JsonView>, names: Seq<Seq<char>>) -> JsonView {
    if names.len() == 0 {
        compact_catalog(tools)
    } else {
        definitions(tools, names)
    }
}

/// The tool names that `args` asks for.
fn wanted_names(args: &Json) -> (r: Vec<String>)
    ensures
        texts(r@) == names_in(args@),
{
    let mut out: Vec<String> = Vec::new();
    assert(texts(out@) =~= seq![]);
    match args.get("names") {
        Some(names) => match names.as_array() {
            Some(items) => {
                let ghost all = items.deep_view();
                let mut i: usize = 0;
                assert(all.take(0) =~= seq![]);
                while i < items.len()
                    invariant
                        i <= items@.len(),
                        all == items.deep_view(),
                        texts(out@) == strings_among(all.take(i as int)),
                    decreases items@.len() - i,
                {
                    let ghost before = texts(out@);
                    assert(all.take(i + 1).drop_last() =~= all.take(i as int));
                    assert(all.take(i + 1).last() == items@[i as int]@);
                    match items[i].as_str() {
                        Some(s) => {
                            out.push(s.to_owned());
                            assert(texts(out@) =~= before.push(s@));
                        },
                        None => {},
                    }
                    i += 1;
                }
                assert(all.take(i as int) =~= all);
            },
            None => {},
        },
        None => {},
    }
    out
}

/// The first of `tools` that is called `name`.
fn find_tool(tools: &Vec<Json>, name: &str) -> (r: Option<Json>)
    ensures
        r.deep_view() == tool_named(tools.deep_view(), name@),
{
    let ghost all = tools.deep_view();
    let mut i: usize = 0;
    assert(all.skip(0) =~= all);
    while i < tools.len()
        invariant
            i <= tools@.len(),
            all == tools.deep_view(),
            tool_named(all, name@) == tool_named(all.skip(i as int), name@),
        decreases tools@.len() - i,
    {
        assert(all.skip(i as int).skip(1) =~= all.skip(i + 1));
        assert(all.skip(i as int)[0] == tools@[i as int]@);
        match tools[i].str_at("name") {
            Some(s) => {
                if same(s, name) {
                    return Some(tools[i].clone());
                }
            },
            None => {},
        }
        i += 1;
    }
    None
}

/// The full definitions of the tools of the given names.
fn full_definitions(tools: &Vec<Json>, names: &Vec<String>) -> (r: Json)
    ensures
        r@ == definitions(tools.deep_view(), texts(names@)),
{
    let ghost all = tools.deep_view();
    let ghost wanted = texts(names@);
    let mut found: Vec<Json> = Vec::new();
    let mut missing: Vec<String> = Vec::new();
    let mut i: usize = 0;
    assert(wanted.take(0) =~= seq![]);
    assert(found.deep_view() =~= seq![]);
    assert(texts(missing@) =~= seq![]);
    while i < names.len()
        invariant
            i <= names@.len(),
            all == tools.deep_view(),
            wanted == texts(names@),
            found.deep_view() == tools_found(all, wanted.take(i as int)),
            texts(missing@) == names_missing(all, wanted.take(i as int)),
        decreases names@.len() - i,
    {
        let ghost found_before = found.deep_view();
        let ghost missing_before = texts(missing@);
        assert(wanted.take(i + 1).drop_last() =~= wanted.take(i as int));
        assert(wanted.take(i + 1).last() == names@[i as int]@);
        match find_tool(tools, names[i].as_str()) {
            Some(tool) => {
                found.push(tool);
                assert(found.deep_view() =~= found_before.push(tool@));
            },
            None => {
                missing.push(names[i].clone());
                assert(texts(missing@) =~= missing_before.push(names@[i as int]@));
            },
        }
        i += 1;
    }
    assert(wanted.take(i as int) =~= wanted);
    assert(texts(missing@).len() == missing@.len());
    let mut out = Json::object();
    out.set("tools", Json::array(found));
    if missing.len() > 0 {
        let mut note = Json::object();
        note.set("names", string_array(&missing));
        note.set_str(
            "note",
            "not registered for this API key — its scopes may exclude the resource",
        );
        out.set("missing", note);
    }
    out
}

/// Copies the hint `key` of `annotations`, if there is one, to `name`.
fn copy_hint(out: &mut Json, name: &str, annotations: &Json, key: &str)
    ensures
        final(out)@ == with_hint(old(out)@, name@, annotations@, key@),
{
    match annotations.get(key) {
        Some(hint) => match hint.as_bool() {
            Some(b) => out.set(name, truth(b)),
            None => {},
        },
        None => {},
    }
}

/// What a tree holds under `key`, null where it holds nothing.
fn field_or_null(tree: &Json, key: &str) -> (r: Json)
    ensures
        r@ == or_null(tree@, key@),
{
    match tree.get(key) {
        Some(value) => value.clone(),
        None => Json::Null,
    }
}

/// The entry of a tool in the compact catalog.
fn compact(tool: &Json) -> (r: Json)
    ensures
        r@ == compact_entry(tool@),
{
    let mut entry = Json::object();
    entry.set("name", field_or_null(tool, "name"));
    entry.set("description", field_or_null(tool, "description"));
    match tool.get("annotations") {
        Some(annotations) => {
            copy_hint(&mut entry, "read_only", annotations, "readOnlyHint");
            copy_hint(&mut entry, "destructive", annotations, "destructiveHint");
        },
        None => {},
    }
    entry
}

/// The catalog that `npm_list_tools` gives: compact (name, description, hints)
/// by default; full input schemas for the tools named in `names`.
pub fn catalog(tools: &Vec<Json>, names: &Vec<String>) -> (r: Json)
    ensures
        r@ == catalog_of(tools.deep_view(), texts(names@)),
{
    assert(texts(names@).len() == names@.len());
    if names.len() > 0 {
        return full_definitions(tools, names);
    }
    let mut entries: Vec<Json> = Vec::new();
    let mut i: usize = 0;
    while i < tools.len()
        invariant
            i <= tools@.len(),
            entries@.len() == i,
            forall|j: int| 0 <= j < i ==> (#[trigger] entries@[j])@ == compact_entry(tools@[j]@),
        decreases tools@.len() - i,
    {
        entries.push(compact(&tools[i]));
        i += 1;
    }
    assert(entries.deep_view() =~= tools.deep_view().map_values(
        |tool: JsonView| compact_entry(tool),
    ));
    let mut out = Json::object();
    out.set("count", Json::PosInt(entries.len() as u64));
    out.set("tools", Json::array(entries));
    out.set_str("note", "pass names:[\"npm_…\"] to get a tool's full input schema before npm_call");
    out
}

/// How far `npm_list_tools` has got: it reads the configuration, or lists the
/// tools.
#[derive(Debug)]
pub enum CatalogRun {
    Loading { names: Vec<String>, state: Loading },
    Listing { names: Vec<String>, cfg: Config, listing: Listing },
}

/// What a [`CatalogRun`] means.
pub enum CatalogRunView {
    Loading { names: Seq<Seq<char>>, state: LoadingView },
    Listing { names: Seq<Seq<char>>, cfg: ConfigView, listing: ListingView },
}

impl View for CatalogRun {
    type V = CatalogRunView;

    open spec fn view(&self) -> CatalogRunView {
        match self {
            CatalogRun::Loading { names, state } => CatalogRunView::Loading {
                names: texts(names@),
                state: state@,
            },
            CatalogRun::Listing { names, cfg, listing } => CatalogRunView::Listing {
                names: texts(names@),
                cfg: cfg@,
                listing: listing@,
            },
        }
    }
}

/// What `npm_list_tools` does with a reply.
pub open spec fn catalog_next(
    client: ClientView,
    state: CatalogRunView,
    reply: Result<JsonView, Seq<char>>,
) -> (ClientView, StepView<CatalogRunView, JsonView>) {
    match state {
        CatalogRunView::Loading { names, state } => match load_next(state, reply) {
            StepView::Call(call, state) => (
                client,
                StepView::Call(call, CatalogRunView::Loading { names, state }),
            ),
            StepView::Done(Err(e)) => (client, StepView::Done(Err(e))),
            StepView::Done(Ok(cfg)) => {
                let (client, call, listing) = page_start(client, cfg, Seq::empty(), None);
                (client, StepView::Call(call, CatalogRunView::Listing { names, cfg, listing }))
            },
        },
        CatalogRunView::Listing { names, cfg, listing } => match list_next(
            client,
            cfg,
            listing,
            reply,
        ) {
            (client, StepView::Call(call, listing)) => (
                client,
                StepView::Call(call, CatalogRunView::Listing { names, cfg, listing }),
            ),
            (client, StepView::Done(Err(e))) => (client, StepView::Done(Err(e))),
            (client, StepView::Done(Ok(tools))) => (
                client,
                StepView::Done(Ok(catalog_of(tools, names))),
            ),
        },
    }
}

/// Starts `npm_list_tools` — the live remote catalog.
pub fn list_tools_tool(args: Json) -> (r: (HostCall, CatalogRun))
    ensures
        r.0@ == load_call(),
        r.1@ == (CatalogRunView::Loading { names: names_in(args@), state: LoadingView::BaseUrl }),
{
    let names = wanted_names(&args);
    let (call, state) = load();
    (call, CatalogRun::Loading { names, state })
}

/// Goes on with `npm_list_tools`.
pub fn catalog_reply(client: &mut Client, state: CatalogRun, reply: Result<Json, String>) -> (r:
    Step<CatalogRun, Json>)
    ensures
        (final(client)@, r@) == catalog_next(old(client)@, state@, outcome(reply)),
{
    match state {
        CatalogRun::Loading { names, state } => match load_reply(state, reply) {
            Step::Call(call, state) => Step::Call(call, CatalogRun::Loading { names, state }),
            Step::Done(Err(e)) => Step::Done(Err(e)),
            Step::Done(Ok(cfg)) => {
                let (call, listing) = list_tools(client, &cfg);
                Step::Call(call, CatalogRun::Listing { names, cfg, listing })
            },
        },
        CatalogRun::Listing { names, cfg, listing } => match list_tools_reply(
            client,
            &cfg,
            listing,
            reply,
        ) {
            Step::Call(call, listing) => Step::Call(
                call,
                CatalogRun::Listing { names, cfg, listing },
            ),
            Step::Done(Err(e)) => Step::Done(Err(e)),
            Step::Done(Ok(tools)) => Step::Done(Ok(catalog(&tools, &names))),
        },
    }
}

// ── npm_call ──────────────────────────────────────────────────────────
/// What an argument of a tool says: the string under `key` without white space
/// at its ends, where there is something left of it.
pub open spec fn argument_of(args: JsonView, key: Seq<char>) -> Option<Seq<char>> {
    match args.str_at(key) {
        Some(s) => if is_blank(s) {
            None
        } else {
            Some(trimmed(s))
        },
        None => None,
    }
}

/// What an argument of a tool says.
pub(crate) fn argument(args: &Json, key: &str) -> (r: Option<String>)
    ensures
        r.deep_view() == argument_of(args@, key@),
{
    match args.str_at(key) {
        Some(s) => {
            let stripped = trim(s);
            if stripped.as_str().is_empty() {
                None
            } else {
                Some(stripped)
            }
        },
        None => None,
    }
}

/// What `npm_call` is asked to invoke, and with which arguments.
pub open spec fn call_wanted(args: JsonView) -> Result<(Seq<char>, JsonView), Seq<char>> {
    match argument_of(args, "name"@) {
        None => Err(
            "'name' is required — an NPM tool name like npm_list_proxy_hosts (discover them with npm_list_tools)"@,
        ),
        Some(name) => match args.get("arguments"@) {
            None => Ok((name, JsonView::empty())),
            Some(arguments) => if arguments is Object {
                Ok((name, arguments))
            } else {
                Err("'arguments' must be an object matching the tool's input schema"@)
            },
        },
    }
}

/// What `npm_call` is asked to invoke, and with which arguments.
fn wanted_call(args: &Json) -> (r: Result<(String, Json), String>)
    ensures
        outcome(r) == call_wanted(args@),
{
    let name = match argument(args, "name") {
        None => return Err(
            "'name' is required — an NPM tool name like npm_list_proxy_hosts (discover them with npm_list_tools)".to_owned(),
        ),
        Some(name) => name,
    };
    match args.get("arguments") {
        None => Ok((name, Json::object())),
        Some(arguments) => match arguments {
            Json::Object(_) => Ok((name, arguments.clone())),
            _ => Err("'arguments' must be an object matching the tool's input schema".to_owned()),
        },
    }
}

/// The texts of the text items among `items`, in order.
pub open spec fn texts_of(items: Seq<JsonView>) -> Seq<Seq<char>>
    decreases items.len(),
{
    if items.len() == 0 {
        seq![]
    } else if items.last().str_at("type"@) == Some("text"@) && items.last().str_at("text"@)
        is Some {
        texts_of(items.drop_last()).push(items.last().str_at("text"@)->0)
    } else {
        texts_of(items.drop_last())
    }
}

/// The text content of an MCP result, one item below the other.
pub open spec fn content_of(result: JsonView) -> Seq<char> {
    match result.get("content"@) {
        Some(content) => match content.as_array() {
            Some(items) => joined(texts_of(items), "\n"@),
            None => seq![],
        },
        None => seq![],
    }
}

/// Whether an MCP result says that it is an error.
pub open spec fn is_error(result: JsonView) -> bool {
    match result.get("isError"@) {
        Some(flag) => flag.as_bool() == Some(true),
        None => false,
    }
}

/// What an MCP result of the tool `name` comes to, given what reading its text
/// content as JSON came to.
pub open spec fn content_says(
    name: Seq<char>,
    failed: bool,
    content: Seq<char>,
    parsed: Result<JsonView, Seq<char>>,
) -> Result<JsonView, Seq<char>> {
    if failed {
        Err(
            if content.len() == 0 {
                name + " failed with no error detail"@
            } else {
                content
            },
        )
    } else if content.len() == 0 {
        Ok(JsonView::empty().with("ok"@, JsonView::Bool(true)))
    } else {
        match parsed {
            Ok(value) => Ok(value),
            Err(_) => Ok(JsonView::empty().with_str("text"@, content)),
        }
    }
}

/// What an MCP result of the tool `name` comes to.
pub open spec fn unwrapped(name: Seq<char>, result: JsonView) -> Result<JsonView, Seq<char>> {
    content_says(name, is_error(result), content_of(result), json_parsed(content_of(result)))
}

/// The text content of an MCP result, one item below the other.
pub fn content_text(result: &Json) -> (r: String)
    ensures
        r@ == content_of(result@),
{
    match result.get("content") {
        Some(content) => match content.as_array() {
            Some(items) => {
                let ghost all = items.deep_view();
                let mut out: Vec<String> = Vec::new();
                let mut i: usize = 0;
                assert(all.take(0) =~= seq![]);
                assert(texts(out@) =~= seq![]);
                while i < items.len()
                    invariant
                        i <= items@.len(),
                        all == items.deep_view(),
                        texts(out@) == texts_of(all.take(i as int)),
                    decreases items@.len() - i,
                {
                    let ghost before = texts(out@);
                    assert(all.take(i + 1).drop_last() =~= all.take(i as int));
                    assert(all.take(i + 1).last() == items@[i as int]@);
                    let is_text: bool = match items[i].str_at("type") {
                        Some(kind) => same(kind, "text"),
                        None => false,
                    };
                    if is_text {
                        match items[i].str_at("text") {
                            Some(s) => {
                                out.push(s.to_owned());
                                assert(texts(out@) =~= before.push(s@));
                            },
                            None => {},
                        }
                    }
                    i += 1;
                }
                assert(all.take(i as int) =~= all);
                join(&out, "\n")
            },
            None => String::new(),
        },
        None => String::new(),
    }
}

/// What an MCP result of the tool `name` comes to, given what reading its text
/// content as JSON came to.
pub fn unwrap_content(
    name: &str,
    failed: bool,
    content: String,
    parsed: Result<Json, String>,
) -> (r: Result<Json, String>)
    ensures
        outcome(r) == content_says(name@, failed, content@, outcome(parsed)),
{
    if failed {
        return Err(
            if content.as_str().is_empty() {
                name.to_owned().concat(" failed with no error detail")
            } else {
                content
            },
        );
    }
    if content.as_str().is_empty() {
        let mut out = Json::object();
        out.set("ok", truth(true));
        return Ok(out);
    }
    match parsed {
        Ok(value) => Ok(value),
        Err(_) => {
            let mut out = Json::object();
            out.set_str("text", content.as_str());
            Ok(out)
        },
    }
}

/// Flatten the MCP `{"content":[{"type":"text",…}],"isError"?}` result the
/// NPM server produces: errors become tool errors, JSON text comes back as
/// JSON, anything else as `{"text": …}`.
pub fn unwrap_tool_result(name: &str, result: &Json) -> (r: Result<Json, String>)
    ensures
        outcome(r) == unwrapped(name@, result@),
{
    let content = content_text(result);
    let failed: bool = match result.get("isError") {
        Some(flag) => flag.as_bool() == Some(true),
        None => false,
    };
    let parsed = parse_json(content.as_str());
    unwrap_content(name, failed, content, parsed)
}

/// How far `npm_call` has got: it reads the configuration, or waits for the
/// tool.
#[derive(Debug)]
pub enum CallRun {
    Loading { name: String, arguments: Json, state: Loading },
    Calling { name: String, cfg: Config, request: Request },
}

/// What a [`CallRun`] means.
pub enum CallRunView {
    Loading { name: Seq<char>, arguments: JsonView, state: LoadingView },
    Calling { name: Seq<char>, cfg: ConfigView, request: RequestView },
}

impl View for CallRun {
    type V = CallRunView;

    open spec fn view(&self) -> CallRunView {
        match self {
            CallRun::Loading { name, arguments, state } => CallRunView::Loading {
                name: name@,
                arguments: arguments@,
                state: state@,
            },
            CallRun::Calling { name, cfg, request } => CallRunView::Calling {
                name: name@,
                cfg: cfg@,
                request: request@,
            },
        }
    }
}

/// How `npm_call` starts: not at all where its arguments are wrong.
pub open spec fn call_start(args: JsonView) -> StepView<CallRunView, JsonView> {
    match call_wanted(args) {
        Err(e) => StepView::Done(Err(e)),
        Ok((name, arguments)) => StepView::Call(
            load_call(),
            CallRunView::Loading { name, arguments, state: LoadingView::BaseUrl },
        ),
    }
}

/// What `npm_call` does with a reply.
pub open spec fn call_next(
    client: ClientView,
    state: CallRunView,
    reply: Result<JsonView, Seq<char>>,
) -> (ClientView, StepView<CallRunView, JsonView>) {
    match state {
        CallRunView::Loading { name, arguments, state } => match load_next(state, reply) {
            StepView::Call(call, state) => (
                client,
                StepView::Call(call, CallRunView::Loading { name, arguments, state }),
            ),
            StepView::Done(Err(e)) => (client, StepView::Done(Err(e))),
            StepView::Done(Ok(cfg)) => {
                let (client, call, request) = request_start(
                    client,
                    cfg,
                    "tools/call"@,
                    call_params(name, arguments),
                    CALL_TIMEOUT_SECS,
                );
                (client, StepView::Call(call, CallRunView::Calling { name, cfg, request }))
            },
        },
        CallRunView::Calling { name, cfg, request } => match request_next(
            client,
            cfg,
            request,
            reply,
        ) {
            (client, StepView::Call(call, request)) => (
                client,
                StepView::Call(call, CallRunView::Calling { name, cfg, request }),
            ),
            (client, StepView::Done(Err(e))) => (client, StepView::Done(Err(e))),
            (client, StepView::Done(Ok(result))) => (
                client,
                StepView::Done(unwrapped(name, result)),
            ),
        },
    }
}

/// Starts `npm_call` — proxy one `tools/call` to the NPM MCP server and unwrap
/// its text-content result.
pub fn call_tool_tool(args: Json) -> (r: Step<CallRun, Json>)
    ensures
        r@ == call_start(args@),
{
    match wanted_call(&args) {
        Err(e) => Step::Done(Err(e)),
        Ok((name, arguments)) => {
            let (call, state) = load();
            Step::Call(call, CallRun::Loading { name, arguments, state })
        },
    }
}

/// Goes on with `npm_call`.
pub fn call_reply(client: &mut Client, state: CallRun, reply: Result<Json, String>) -> (r: Step<
    CallRun,
    Json,
>)
    ensures
        (final(client)@, r@) == call_next(old(client)@, state@, outcome(reply)),
{
    match state {
        CallRun::Loading { name, arguments, state } => match load_reply(state, reply) {
            Step::Call(call, state) => Step::Call(
                call,
                CallRun::Loading { name, arguments, state },
            ),
            Step::Done(Err(e)) => Step::Done(Err(e)),
            Step::Done(Ok(cfg)) => {
                let (call, request) = call_tool(client, &cfg, name.as_str(), arguments);
                Step::Call(call, CallRun::Calling { name, cfg, request })
            },
        },
        CallRun::Calling { name, cfg, request } => match request_reply(
            client,
            &cfg,
            request,
            reply,
        ) {
            Step::Call(call, request) => Step::Call(call, CallRun::Calling { name, cfg, request }),
            Step::Done(Err(e)) => Step::Done(Err(e)),
            Step::Done(Ok(result)) => Step::Done(unwrap_tool_result(name.as_str(), &result)),
        },
    }
}

// ── npm_configure ─────────────────────────────────────────────────────
/// What `npm_configure` is asked to store, and whether to verify it.
#[derive(Debug)]
pub struct Settings {
    pub base_url: Option<String>,
    pub api_key: Option<String>,
    pub verify: bool,
}

/// What a [`Settings`] means.
pub struct SettingsView {
    pub base_url: Option<Seq<char>>,
    pub api_key: Option<Seq<char>>,
    pub verify: bool,
}

impl View for Settings {
    type V = SettingsView;

    open spec fn view(&self) -> SettingsView {
        SettingsView {
            base_url: self.base_url.deep_view(),
            api_key: self.api_key.deep_view(),
            verify: self.verify,
        }
    }
}

impl DeepView for Settings {
    type V = SettingsView;

    open spec fn deep_view(&self) -> SettingsView {
        self@
    }
}

/// What `npm_configure` is asked to store, and whether to verify it.
pub open spec fn settings_wanted(args: JsonView) -> Result<SettingsView, Seq<char>> {
    let base_url = argument_of(args, "base_url"@);
    let api_key = argument_of(args, "api_key"@);
    let verify = match args.get("verify"@) {
        Some(verify) => match verify.as_bool() {
            Some(b) => b,
            None => true,
        },
        None => true,
    };
    if base_url is None && api_key is None {
        Err(
            "nothing to configure — pass base_url and/or api_key (or use npm_status to inspect the current state)"@,
        )
    } else if base_url is Some && !"http://"@.is_prefix_of(base_url->0)
        && !"https://"@.is_prefix_of(base_url->0) {
        Err("base_url must start with http:// or https://"@)
    } else {
        Ok(SettingsView { base_url, api_key, verify })
    }
}

impl SettingsView {
    /// The report once the settings are stored.
    pub open spec fn saved_report(self) -> JsonView {
        let saved = JsonView::empty().with("saved"@, JsonView::Bool(true));
        let with_url = match self.base_url {
            Some(url) => saved.with_str("base_url"@, url),
            None => saved,
        };
        match self.api_key {
            Some(key) => with_url.with_str("api_key"@, masked(key)),
            None => with_url,
        }
    }

    /// The report where the connection could not be verified.
    pub open spec fn unverified_report(self, e: Seq<char>) -> JsonView {
        self.saved_report().with("verified"@, JsonView::Bool(false)).with_str("verify_error"@, e)
    }

    /// The report once the connection is verified.
    pub open spec fn verified_report(self, init: JsonView) -> JsonView {
        with_copied(
            self.saved_report().with("verified"@, JsonView::Bool(true)),
            "server"@,
            init,
            "serverInfo"@,
        )
    }
}

/// Where `npm_configure` stands: it stores the URL or the key, reads the
/// configuration back, makes the handshake, or lists the tools.
#[derive(Debug)]
pub enum ConfigurePhase {
    SavingBaseUrl,
    SavingApiKey,
    Loading(Loading),
    Handshaking { cfg: Config, handshake: Handshake },
    Listing { cfg: Config, out: Json, listing: Listing },
}

/// What a [`ConfigurePhase`] means.
pub enum ConfigurePhaseView {
    SavingBaseUrl,
    SavingApiKey,
    Loading(LoadingView),
    Handshaking { cfg: ConfigView, handshake: HandshakeView },
    Listing { cfg: ConfigView, out: JsonView, listing: ListingView },
}

impl View for ConfigurePhase {
    type V = ConfigurePhaseView;

    open spec fn view(&self) -> ConfigurePhaseView {
        match self {
            ConfigurePhase::SavingBaseUrl => ConfigurePhaseView::SavingBaseUrl,
            ConfigurePhase::SavingApiKey => ConfigurePhaseView::SavingApiKey,
            ConfigurePhase::Loading(state) => ConfigurePhaseView::Loading(state@),
            ConfigurePhase::Handshaking { cfg, handshake } => ConfigurePhaseView::Handshaking {
                cfg: cfg@,
                handshake: handshake@,
            },
            ConfigurePhase::Listing { cfg, out, listing } => ConfigurePhaseView::Listing {
                cfg: cfg@,
                out: out@,
                listing: listing@,
            },
        }
    }
}

/// How far `npm_configure` has got.
#[derive(Debug)]
pub struct ConfigureRun {
    pub settings: Settings,
    pub phase: ConfigurePhase,
}

/// What a [`ConfigureRun`] means.
pub struct ConfigureRunView {
    pub settings: SettingsView,
    pub phase: ConfigurePhaseView,
}

impl View for ConfigureRun {
    type V = ConfigureRunView;

    open spec fn view(&self) -> ConfigureRunView {
        ConfigureRunView { settings: self.settings@, phase: self.phase@ }
    }
}

impl SettingsView {
    /// The run with these settings in the given phase.
    pub open spec fn at(self, phase: ConfigurePhaseView) -> ConfigureRunView {
        ConfigureRunView { settings: self, phase }
    }

    /// What `npm_configure` does once everything is stored: the cached session
    /// is dropped, and the connection is verified where that was asked for.
    pub open spec fn once_saved(self, client: ClientView) -> (
        ClientView,
        StepView<ConfigureRunView, JsonView>,
    ) {
        (
            client.with_session(None),
            if self.verify {
                StepView::Call(
                    load_call(),
                    self.at(ConfigurePhaseView::Loading(LoadingView::BaseUrl)),
                )
            } else {
                StepView::Done(Ok(self.saved_report()))
            },
        )
    }

    /// What `npm_configure` does once the URL is stored, or there is none.
    pub open spec fn once_url_saved(self, client: ClientView) -> (
        ClientView,
        StepView<ConfigureRunView, JsonView>,
    ) {
        match self.api_key {
            Some(key) => (
                client,
                StepView::Call(
                    set_setting_call("api_key"@, key),
                    self.at(ConfigurePhaseView::SavingApiKey),
                ),
            ),
            None => self.once_saved(client),
        }
    }
}

/// How `npm_configure` starts: not at all where its arguments are wrong.
pub open spec fn configure_start(client: ClientView, args: JsonView) -> (
    ClientView,
    StepView<ConfigureRunView, JsonView>,
) {
    match settings_wanted(args) {
        Err(e) => (client, StepView::Done(Err(e))),
        Ok(settings) => match settings.base_url {
            Some(url) => (
                client,
                StepView::Call(
                    set_setting_call("base_url"@, url),
                    settings.at(ConfigurePhaseView::SavingBaseUrl),
                ),
            ),
            None => settings.once_url_saved(client),
        },
    }
}

/// What `npm_configure` does with a reply.
pub open spec fn configure_next(
    client: ClientView,
    run: ConfigureRunView,
    reply: Result<JsonView, Seq<char>>,
) -> (ClientView, StepView<ConfigureRunView, JsonView>) {
    let settings = run.settings;
    match run.phase {
        ConfigurePhaseView::SavingBaseUrl => match reply {
            Err(e) => (client, StepView::Done(Err(e))),
            Ok(_) => settings.once_url_saved(client),
        },
        ConfigurePhaseView::SavingApiKey => match reply {
            Err(e) => (client, StepView::Done(Err(e))),
            Ok(_) => settings.once_saved(client),
        },
        ConfigurePhaseView::Loading(state) => match load_next(state, reply) {
            StepView::Call(call, state) => (
                client,
                StepView::Call(call, settings.at(ConfigurePhaseView::Loading(state))),
            ),
            StepView::Done(Err(e)) => (
                client,
                StepView::Done(Ok(settings.unverified_report(e))),
            ),
            StepView::Done(Ok(cfg)) => (
                client.advanced(),
                StepView::Call(
                    initialize_call(client, cfg),
                    settings.at(
                        ConfigurePhaseView::Handshaking {
                            cfg,
                            handshake: HandshakeView::Initialize { id: client.next_id },
                        },
                    ),
                ),
            ),
        },
        ConfigurePhaseView::Handshaking { cfg, handshake } => match initialize_next(
            client,
            cfg,
            handshake,
            reply,
        ) {
            (client, StepView::Call(call, handshake)) => (
                client,
                StepView::Call(
                    call,
                    settings.at(ConfigurePhaseView::Handshaking { cfg, handshake }),
                ),
            ),
            (client, StepView::Done(Err(e))) => (
                client,
                StepView::Done(Ok(settings.unverified_report(e))),
            ),
            (client, StepView::Done(Ok((_, init)))) => {
                let (client, call, listing) = page_start(client, cfg, Seq::empty(), None);
                (
                    client,
                    StepView::Call(
                        call,
                        settings.at(
                            ConfigurePhaseView::Listing {
                                cfg,
                                out: settings.verified_report(init),
                                listing,
                            },
                        ),
                    ),
                )
            },
        },
        ConfigurePhaseView::Listing { cfg, out, listing } => match list_next(
            client,
            cfg,
            listing,
            reply,
        ) {
            (client, StepView::Call(call, listing)) => (
                client,
                StepView::Call(
                    call,
                    settings.at(ConfigurePhaseView::Listing { cfg, out, listing }),
                ),
            ),
            (client, StepView::Done(Err(_))) => (client, StepView::Done(Ok(out))),
            (client, StepView::Done(Ok(tools))) => (
                client,
                StepView::Done(Ok(out.with("tool_count"@, JsonView::Int(tools.len() as int)))),
            ),
        },
    }
}

/// What `npm_configure` is asked to store, and whether to verify it.
fn wanted_settings(args: &Json) -> (r: Result<Settings, String>)
    ensures
        outcome(r) == settings_wanted(args@),
{
    let base_url = argument(args, "base_url");
    let api_key = argument(args, "api_key");
    let verify: bool = match args.get("verify") {
        Some(verify) => match verify.as_bool() {
            Some(b) => b,
            None => true,
        },
        None => true,
    };
    if base_url.is_none() && api_key.is_none() {
        return Err(
            "nothing to configure — pass base_url and/or api_key (or use npm_status to inspect the current state)".to_owned(),
        );
    }
    match &base_url {
        Some(url) => {
            if !starts_with(url.as_str(), "http://") && !starts_with(url.as_str(), "https://") {
                return Err("base_url must start with http:// or https://".to_owned());
            }
        },
        None => {},
    }
    Ok(Settings { base_url, api_key, verify })
}

/// The report once the settings are stored.
fn report_saved(settings: &Settings) -> (r: Json)
    ensures
        r@ == settings@.saved_report(),
{
    let mut out = Json::object();
    out.set("saved", truth(true));
    match &settings.base_url {
        Some(url) => out.set_str("base_url", url.as_str()),
        None => {},
    }
    match &settings.api_key {
        Some(key) => out.set_str("api_key", mask_key(key.as_str()).as_str()),
        None => {},
    }
    out
}

/// The report where the connection could not be verified.
fn report_unverified(settings: &Settings, e: &str) -> (r: Json)
    ensures
        r@ == settings@.unverified_report(e@),
{
    let mut out = report_saved(settings);
    out.set("verified", truth(false));
    out.set_str("verify_error", e);
    out
}

/// Goes on once everything is stored.
fn configure_saved(client: &mut Client, settings: Settings) -> (r: Step<ConfigureRun, Json>)
    ensures
        (final(client)@, r@) == settings@.once_saved(old(client)@),
{
    invalidate_session(client);
    if settings.verify {
        let (call, state) = load();
        Step::Call(call, ConfigureRun { settings, phase: ConfigurePhase::Loading(state) })
    } else {
        Step::Done(Ok(report_saved(&settings)))
    }
}

/// Goes on once the URL is stored, or there is none.
fn configure_key(client: &mut Client, settings: Settings) -> (r: Step<ConfigureRun, Json>)
    ensures
        (final(client)@, r@) == settings@.once_url_saved(old(client)@),
{
    let call: Option<HostCall> = match &settings.api_key {
        Some(key) => Some(set_setting("api_key", key.as_str())),
        None => None,
    };
    match call {
        Some(call) => Step::Call(
            call,
            ConfigureRun { settings, phase: ConfigurePhase::SavingApiKey },
        ),
        None => configure_saved(client, settings),
    }
}

/// Starts `npm_configure` — store `base_url` / `api_key`, then (by default)
/// verify by handshaking with the endpoint.
pub fn configure_tool(client: &mut Client, args: Json) -> (r: Step<ConfigureRun, Json>)
    ensures
        (final(client)@, r@) == configure_start(old(client)@, args@),
{
    let settings = match wanted_settings(&args) {
        Err(e) => return Step::Done(Err(e)),
        Ok(settings) => settings,
    };
    let call: Option<HostCall> = match &settings.base_url {
        Some(url) => Some(set_setting("base_url", url.as_str())),
        None => None,
    };
    match call {
        Some(call) => Step::Call(
            call,
            ConfigureRun { settings, phase: ConfigurePhase::SavingBaseUrl },
        ),
        None => configure_key(client, settings),
    }
}

/// Goes on with `npm_configure`.
pub fn configure_reply(client: &mut Client, run: ConfigureRun, reply: Result<Json, String>) -> (r:
    Step<ConfigureRun, Json>)
    ensures
        (final(client)@, r@) == configure_next(old(client)@, run@, outcome(reply)),
{
    let ConfigureRun { settings, phase } = run;
    match phase {
        ConfigurePhase::SavingBaseUrl => match reply {
            Err(e) => Step::Done(Err(e)),
            Ok(_) => configure_key(client, settings),
        },
        ConfigurePhase::SavingApiKey => match reply {
            Err(e) => Step::Done(Err(e)),
            Ok(_) => configure_saved(client, settings),
        },
        ConfigurePhase::Loading(state) => match load_reply(state, reply) {
            Step::Call(call, state) => Step::Call(
                call,
                ConfigureRun { settings, phase: ConfigurePhase::Loading(state) },
            ),
            Step::Done(Err(e)) => Step::Done(Ok(report_unverified(&settings, e.as_str()))),
            Step::Done(Ok(cfg)) => {
                let (call, handshake) = initialize_fresh(client, &cfg);
                let phase = ConfigurePhase::Handshaking { cfg, handshake };
                Step::Call(call, ConfigureRun { settings, phase })
            },
        },
        ConfigurePhase::Handshaking { cfg, handshake } => match initialize_reply(
            client,
            &cfg,
            handshake,
            reply,
        ) {
            Step::Call(call, handshake) => {
                let phase = ConfigurePhase::Handshaking { cfg, handshake };
                Step::Call(call, ConfigureRun { settings, phase })
            },
            Step::Done(Err(e)) => Step::Done(Ok(report_unverified(&settings, e.as_str()))),
            Step::Done(Ok((_, init))) => {
                let mut out = report_saved(&settings);
                out.set("verified", truth(true));
                copy_field(&mut out, "server", &init, "serverInfo");
                let (call, listing) = list_tools(client, &cfg);
                let phase = ConfigurePhase::Listing { cfg, out, listing };
                Step::Call(call, ConfigureRun { settings, phase })
            },
        },
        ConfigurePhase::Listing { cfg, out, listing } => match list_tools_reply(
            client,
            &cfg,
            listing,
            reply,
        ) {
            Step::Call(call, listing) => {
                let phase = ConfigurePhase::Listing { cfg, out, listing };
                Step::Call(call, ConfigureRun { settings, phase })
            },
            Step::Done(Err(_)) => Step::Done(Ok(out)),
            Step::Done(Ok(tools)) => {
                let mut out = out;
                out.set("tool_count", Json::PosInt(tools.len() as u64));
                Step::Done(Ok(out))
            },
        },
    }
}

} // verus!
