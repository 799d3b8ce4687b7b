//! What the four tools answer, told by what stands in their answers: which
//! value is under which key, and how it relates to what the tool was asked and
//! what came back.
use vstd::prelude::*;
use crate::config::{ConfigView, masked};
use crate::json::{JsonView, json_parsed};
use crate::mcp_client::SessionView;
use crate::text::{is_white, joined, trimmed};
use crate::text_laws::blank_texts_are_white;
use crate::tools::{
    SettingsView, argument_of, call_wanted, catalog_of, compact_entry, configured_report,
    connected_report, content_of, disconnected_report, is_error, names_in, names_missing,
    settings_wanted, strings_among, strings_at, strings_view, texts_of, tool_named, tools_found,
    unconfigured_report, unwrapped, with_catalog,
};

verus! {

// ── Lists of strings ──────────────────────────────────────────────────
/// A list of strings as JSON is an array of them, in order.
pub proof fn string_lists_keep_their_order(strings: Seq<Seq<char>>)
    ensures
        strings_view(strings) matches JsonView::Array(items) && items.len() == strings.len()
            && forall|i: int|
            0 <= i < items.len() ==> #[trigger] items[i] == JsonView::String(strings[i]),
{
}

/// The strings under a key are those of the trees that have one there, in order.
pub proof fn strings_under_a_key_are_gathered(items: Seq<JsonView>, key: Seq<char>)
    ensures
        strings_at(items, key) == items.filter_map(|item: JsonView| item.str_at(key)),
    decreases items.len(),
{
    if items.len() > 0 {
        strings_under_a_key_are_gathered(items.drop_last(), key);
    }
    assert(strings_at(items, key) =~= items.filter_map(|item: JsonView| item.str_at(key)));
}

proof fn lemma_strings_among(items: Seq<JsonView>)
    ensures
        strings_among(items) == items.filter_map(|item: JsonView| item.as_str()),
    decreases items.len(),
{
    if items.len() > 0 {
        lemma_strings_among(items.drop_last());
    }
    assert(strings_among(items) =~= items.filter_map(|item: JsonView| item.as_str()));
}

// ── Arguments ─────────────────────────────────────────────────────────
/// An argument counts where it is a string with more than white space in it,
/// and then without the white space around it.
pub proof fn arguments_are_trimmed_strings(args: JsonView, key: Seq<char>)
    ensures
        match args.get(key) {
            Some(JsonView::String(s)) => if exists|k: int|
                0 <= k < s.len() && !is_white(#[trigger] s[k]) {
                argument_of(args, key) == Some(trimmed(s))
            } else {
                argument_of(args, key) is None
            },
            _ => argument_of(args, key) is None,
        },
{
    if let Some(JsonView::String(s)) = args.get(key) {
        blank_texts_are_white(s);
    }
}

// ── npm_status ────────────────────────────────────────────────────────
proof fn lemma_status_keys()
    ensures
        "configured"@ != "base_url"@,
        "configured"@ != "endpoint"@,
        "configured"@ != "api_key"@,
        "configured"@ != "connected"@,
        "configured"@ != "protocol_version"@,
        "configured"@ != "server"@,
        "configured"@ != "instructions"@,
        "configured"@ != "tool_count"@,
        "configured"@ != "tools"@,
        "configured"@ != "tools_error"@,
        "configured"@ != "error"@,
        "base_url"@ != "endpoint"@,
        "base_url"@ != "api_key"@,
        "base_url"@ != "connected"@,
        "base_url"@ != "protocol_version"@,
        "base_url"@ != "server"@,
        "base_url"@ != "instructions"@,
        "base_url"@ != "tool_count"@,
        "base_url"@ != "tools"@,
        "base_url"@ != "tools_error"@,
        "base_url"@ != "error"@,
        "endpoint"@ != "api_key"@,
        "endpoint"@ != "connected"@,
        "endpoint"@ != "protocol_version"@,
        "endpoint"@ != "server"@,
        "endpoint"@ != "instructions"@,
        "endpoint"@ != "tool_count"@,
        "endpoint"@ != "tools"@,
        "endpoint"@ != "tools_error"@,
        "endpoint"@ != "error"@,
        "api_key"@ != "connected"@,
        "api_key"@ != "protocol_version"@,
        "api_key"@ != "server"@,
        "api_key"@ != "instructions"@,
        "api_key"@ != "tool_count"@,
        "api_key"@ != "tools"@,
        "api_key"@ != "tools_error"@,
        "api_key"@ != "error"@,
        "connected"@ != "protocol_version"@,
        "connected"@ != "server"@,
        "connected"@ != "instructions"@,
        "connected"@ != "tool_count"@,
        "connected"@ != "tools"@,
        "connected"@ != "tools_error"@,
        "connected"@ != "error"@,
        "protocol_version"@ != "server"@,
        "protocol_version"@ != "instructions"@,
        "protocol_version"@ != "tool_count"@,
        "protocol_version"@ != "tools"@,
        "protocol_version"@ != "tools_error"@,
        "protocol_version"@ != "error"@,
        "server"@ != "instructions"@,
        "server"@ != "tool_count"@,
        "server"@ != "tools"@,
        "server"@ != "tools_error"@,
        "server"@ != "error"@,
        "instructions"@ != "tool_count"@,
        "instructions"@ != "tools"@,
        "instructions"@ != "tools_error"@,
        "instructions"@ != "error"@,
        "tool_count"@ != "tools"@,
        "tool_count"@ != "tools_error"@,
        "tool_count"@ != "error"@,
        "tools"@ != "tools_error"@,
        "tools"@ != "error"@,
        "tools_error"@ != "error"@,
{
    reveal_strlit("configured");
    reveal_strlit("base_url");
    reveal_strlit("endpoint");
    reveal_strlit("api_key");
    reveal_strlit("connected");
    reveal_strlit("protocol_version");
    reveal_strlit("server");
    reveal_strlit("instructions");
    reveal_strlit("tool_count");
    reveal_strlit("tools");
    reveal_strlit("tools_error");
    reveal_strlit("error");
    assert("configured"@.len() == 10);
    assert("base_url"@.len() == 8);
    assert("endpoint"@.len() == 8);
    assert("api_key"@.len() == 7);
    assert("connected"@.len() == 9);
    assert("protocol_version"@.len() == 16);
    assert("server"@.len() == 6);
    assert("instructions"@.len() == 12);
    assert("tool_count"@.len() == 10);
    assert("tools"@.len() == 5);
    assert("tools_error"@.len() == 11);
    assert("error"@.len() == 5);
    assert("configured"@[0] == 'c' && "tool_count"@[0] == 't');
    assert("base_url"@[0] == 'b' && "endpoint"@[0] == 'e');
    assert("tools"@[0] == 't' && "error"@[0] == 'e');
}

/// Without a configuration, the report says so and why, and nothing else.
pub proof fn missing_configuration_is_told(e: Seq<char>, other: Seq<char>)
    ensures
        unconfigured_report(e).get("configured"@) == Some(JsonView::Bool(false)),
        unconfigured_report(e).get("error"@) == Some(JsonView::String(e)),
        other != "configured"@ && other != "error"@ ==> unconfigured_report(e).get(other) is None,
{
    lemma_status_keys();
}

/// The report on a connection that cannot be made shows the configuration, with
/// the key masked, and why it failed.
pub proof fn failed_connection_is_told(cfg: ConfigView, e: Seq<char>, other: Seq<char>)
    ensures
        ({
            let report = disconnected_report(configured_report(cfg), e);
            &&& report.get("configured"@) == Some(JsonView::Bool(true))
            &&& report.get("base_url"@) == Some(JsonView::String(cfg.base_url))
            &&& report.get("endpoint"@) == Some(JsonView::String(cfg.endpoint()))
            &&& report.get("api_key"@) == Some(JsonView::String(masked(cfg.api_key)))
            &&& report.get("connected"@) == Some(JsonView::Bool(false))
            &&& report.get("error"@) == Some(JsonView::String(e))
            &&& other != "configured"@ && other != "base_url"@ && other != "endpoint"@ && other !=
                "api_key"@ && other != "connected"@ && other != "error"@ ==> report.get(other) is
                None
        }),
{
    lemma_status_keys();
}

/// The report on a working connection shows the configuration, with the key
/// masked, the protocol version agreed on, what the server says of itself, how
/// many tools there are, and the name of each that has one, in order.
pub proof fn working_connection_is_told(
    cfg: ConfigView,
    session: SessionView,
    init: JsonView,
    tools: Seq<JsonView>,
    other: Seq<char>,
)
    ensures
        ({
            let report = with_catalog(
                connected_report(configured_report(cfg), session, init),
                tools,
            );
            let names = tools.filter_map(|tool: JsonView| tool.str_at("name"@));
            &&& report.get("configured"@) == Some(JsonView::Bool(true))
            &&& report.get("base_url"@) == Some(JsonView::String(cfg.base_url))
            &&& report.get("endpoint"@) == Some(JsonView::String(cfg.endpoint()))
            &&& report.get("api_key"@) == Some(JsonView::String(masked(cfg.api_key)))
            &&& report.get("connected"@) == Some(JsonView::Bool(true))
            &&& report.get("protocol_version"@) == Some(JsonView::String(session.protocol_version))
            &&& report.get("server"@) == init.get("serverInfo"@)
            &&& report.get("instructions"@) == init.get("instructions"@)
            &&& report.get("tool_count"@) == Some(JsonView::Int(tools.len() as int))
            &&& report.get("tools"@) matches Some(JsonView::Array(listed)) && listed.len()
                == names.len() && forall|i: int|
                0 <= i < listed.len() ==> #[trigger] listed[i] == JsonView::String(names[i])
            &&& other != "configured"@ && other != "base_url"@ && other != "endpoint"@ && other !=
                "api_key"@ && other != "connected"@ && other != "protocol_version"@ && other !=
                "server"@ && other != "instructions"@ && other != "tool_count"@ && other != "tools"@
                ==> report.get(other) is None
        }),
{
    lemma_status_keys();
    strings_under_a_key_are_gathered(tools, "name"@);
    string_lists_keep_their_order(strings_at(tools, "name"@));
}

/// Where the tools of a working connection cannot be listed, the report shows
/// the connection all the same, and why they are missing.
pub proof fn unlisted_catalog_is_told(
    cfg: ConfigView,
    session: SessionView,
    init: JsonView,
    e: Seq<char>,
    other: Seq<char>,
)
    ensures
        ({
            let report = connected_report(configured_report(cfg), session, init).with_str(
                "tools_error"@,
                e,
            );
            &&& report.get("configured"@) == Some(JsonView::Bool(true))
            &&& report.get("base_url"@) == Some(JsonView::String(cfg.base_url))
            &&& report.get("endpoint"@) == Some(JsonView::String(cfg.endpoint()))
            &&& report.get("api_key"@) == Some(JsonView::String(masked(cfg.api_key)))
            &&& report.get("connected"@) == Some(JsonView::Bool(true))
            &&& report.get("protocol_version"@) == Some(JsonView::String(session.protocol_version))
            &&& report.get("server"@) == init.get("serverInfo"@)
            &&& report.get("instructions"@) == init.get("instructions"@)
            &&& report.get("tools_error"@) == Some(JsonView::String(e))
            &&& other != "configured"@ && other != "base_url"@ && other != "endpoint"@ && other !=
                "api_key"@ && other != "connected"@ && other != "protocol_version"@ && other !=
                "server"@ && other != "instructions"@ && other != "tools_error"@ ==>
                report.get(other) is None
        }),
{
    lemma_status_keys();
}

// ── npm_list_tools ────────────────────────────────────────────────────
proof fn lemma_catalog_keys()
    ensures
        "tools"@ != "missing"@,
        "tools"@ != "names"@,
        "tools"@ != "note"@,
        "tools"@ != "count"@,
        "tools"@ != "name"@,
        "tools"@ != "description"@,
        "tools"@ != "read_only"@,
        "tools"@ != "destructive"@,
        "missing"@ != "names"@,
        "missing"@ != "note"@,
        "missing"@ != "count"@,
        "missing"@ != "name"@,
        "missing"@ != "description"@,
        "missing"@ != "read_only"@,
        "missing"@ != "destructive"@,
        "names"@ != "note"@,
        "names"@ != "count"@,
        "names"@ != "name"@,
        "names"@ != "description"@,
        "names"@ != "read_only"@,
        "names"@ != "destructive"@,
        "note"@ != "count"@,
        "note"@ != "name"@,
        "note"@ != "description"@,
        "note"@ != "read_only"@,
        "note"@ != "destructive"@,
        "count"@ != "name"@,
        "count"@ != "description"@,
        "count"@ != "read_only"@,
        "count"@ != "destructive"@,
        "name"@ != "description"@,
        "name"@ != "read_only"@,
        "name"@ != "destructive"@,
        "description"@ != "read_only"@,
        "description"@ != "destructive"@,
        "read_only"@ != "destructive"@,
{
    reveal_strlit("tools");
    reveal_strlit("missing");
    reveal_strlit("names");
    reveal_strlit("note");
    reveal_strlit("count");
    reveal_strlit("name");
    reveal_strlit("description");
    reveal_strlit("read_only");
    reveal_strlit("destructive");
    assert("tools"@.len() == 5);
    assert("missing"@.len() == 7);
    assert("names"@.len() == 5);
    assert("note"@.len() == 4);
    assert("count"@.len() == 5);
    assert("name"@.len() == 4);
    assert("description"@.len() == 11);
    assert("read_only"@.len() == 9);
    assert("destructive"@.len() == 11);
    assert("tools"@[0] == 't' && "names"@[0] == 'n');
    assert("tools"@[0] == 't' && "count"@[0] == 'c');
    assert("names"@[0] == 'n' && "count"@[0] == 'c');
    assert("note"@[1] == 'o' && "name"@[1] == 'a');
    assert("description"@[3] == 'c' && "destructive"@[3] == 't');
}

/// The names asked for are the strings of the array under `names`, in order, and
/// none where there is no array.
pub proof fn names_are_the_strings_asked_for(args: JsonView)
    ensures
        match args.get("names"@) {
            Some(JsonView::Array(items)) => names_in(args) == items.filter_map(
                |item: JsonView| item.as_str(),
            ),
            _ => names_in(args).len() == 0,
        },
{
    if let Some(JsonView::Array(items)) = args.get("names"@) {
        lemma_strings_among(items);
    }
}

/// Whether one of `tools` is called `name`.
pub open spec fn is_borne(tools: Seq<JsonView>, name: Seq<char>) -> bool {
    exists|j: int| 0 <= j < tools.len() && (#[trigger] tools[j]).str_at("name"@) == Some(name)
}

/// Whether `tool` is the first of `tools` that is called `name`.
pub open spec fn is_first_named(tools: Seq<JsonView>, name: Seq<char>, tool: JsonView) -> bool {
    exists|j: int|
        {
            &&& 0 <= j < tools.len()
            &&& #[trigger] tools[j] == tool
            &&& tool.str_at("name"@) == Some(name)
            &&& forall|k: int|
                0 <= k < j ==> (#[trigger] tools[k]).str_at("name"@) != Some(name)
        }
}

proof fn lemma_first_named(tools: Seq<JsonView>, name: Seq<char>)
    ensures
        match tool_named(tools, name) {
            Some(tool) => is_first_named(tools, name, tool) && is_borne(tools, name),
            None => !is_borne(tools, name),
        },
    decreases tools.len(),
{
    if tools.len() > 0 {
        if tools[0].str_at("name"@) == Some(name) {
            assert(is_first_named(tools, name, tools[0]));
        } else {
            let rest = tools.skip(1);
            lemma_first_named(rest, name);
            assert(forall|j: int| 0 <= j < rest.len() ==> rest[j] == tools[j + 1]);
            match tool_named(rest, name) {
                Some(tool) => {
                    let j = choose|j: int|
                        {
                            &&& 0 <= j < rest.len()
                            &&& #[trigger] rest[j] == tool
                            &&& tool.str_at("name"@) == Some(name)
                            &&& forall|k: int|
                                0 <= k < j ==> (#[trigger] rest[k]).str_at("name"@) != Some(name)
                        };
                    assert(tools[j + 1] == tool);
                    assert forall|k: int| 0 <= k < j + 1 implies (#[trigger] tools[k]).str_at(
                        "name"@,
                    ) != Some(name) by {
                        if k > 0 {
                            assert(rest[k - 1] == tools[k]);
                        }
                    }
                    assert(is_first_named(tools, name, tool));
                },
                None => {
                    if is_borne(tools, name) {
                        let j = choose|j: int|
                            0 <= j < tools.len() && (#[trigger] tools[j]).str_at("name"@) == Some(
                                name,
                            );
                        assert(rest[j - 1].str_at("name"@) == Some(name));
                    }
                },
            }
        }
    }
}

/// Every name asked for that a tool bears gets the definition of the first tool
/// of that name, in the order of the names, and the others are missing, in
/// their order.
pub proof fn every_name_gets_its_definition(tools: Seq<JsonView>, names: Seq<Seq<char>>)
    ensures
        ({
            let borne = names.filter(|name: Seq<char>| is_borne(tools, name));
            let found = tools_found(tools, names);
            &&& found.len() == borne.len()
            &&& forall|i: int|
                0 <= i < found.len() ==> is_first_named(tools, borne[i], #[trigger] found[i])
            &&& names_missing(tools, names) == names.filter(
                |name: Seq<char>| !is_borne(tools, name),
            )
        }),
    decreases names.len(),
{
    reveal(Seq::filter);
    let borne = names.filter(|name: Seq<char>| is_borne(tools, name));
    let lacking = names.filter(|name: Seq<char>| !is_borne(tools, name));
    if names.len() > 0 {
        let rest = names.drop_last();
        every_name_gets_its_definition(tools, rest);
        lemma_first_named(tools, names.last());
        let front = rest.filter(|name: Seq<char>| is_borne(tools, name));
        let found = tools_found(tools, names);
        let before = tools_found(tools, rest);
        assert forall|i: int| 0 <= i < found.len() implies is_first_named(
            tools,
            borne[i],
            #[trigger] found[i],
        ) by {
            if i < before.len() {
                assert(found[i] == before[i]);
                assert(borne[i] == front[i]);
            }
        }
    }
    assert(names_missing(tools, names) =~= lacking);
}

/// Where names are asked for, the answer holds the definitions found under
/// `tools`, as they came, and under `missing` the names that no tool bears, if
/// there are any, with a note; and nothing else.
pub proof fn named_tools_are_answered(
    tools: Seq<JsonView>,
    names: Seq<Seq<char>>,
    other: Seq<char>,
)
    requires
        names.len() > 0,
    ensures
        ({
            let answer = catalog_of(tools, names);
            let borne = names.filter(|name: Seq<char>| is_borne(tools, name));
            let lacking = names.filter(|name: Seq<char>| !is_borne(tools, name));
            &&& answer.get("tools"@) matches Some(JsonView::Array(found)) && found.len()
                == borne.len() && forall|i: int|
                0 <= i < found.len() ==> is_first_named(tools, borne[i], #[trigger] found[i])
            &&& answer.get("missing"@) is None <==> lacking.len() == 0
            &&& answer.get("missing"@) matches Some(missing) ==> {
                &&& missing.get("names"@) matches Some(JsonView::Array(items)) && items.len()
                    == lacking.len() && forall|i: int|
                    0 <= i < items.len() ==> #[trigger] items[i] == JsonView::String(lacking[i])
                &&& missing.str_at("note"@) == Some(
                    "not registered for this API key — its scopes may exclude the resource"@,
                )
            }
            &&& other != "tools"@ && other != "missing"@ ==> answer.get(other) is None
        }),
{
    lemma_catalog_keys();
    every_name_gets_its_definition(tools, names);
    string_lists_keep_their_order(names_missing(tools, names));
}

/// What a tool has under `key`, null where it has nothing.
pub open spec fn shown(tool: JsonView, key: Seq<char>) -> Option<JsonView> {
    match tool.get(key) {
        Some(value) => Some(value),
        None => Some(JsonView::Null),
    }
}

/// The hint `key` among the annotations of a tool, where it is a truth value.
pub open spec fn hint(tool: JsonView, key: Seq<char>) -> Option<JsonView> {
    match tool.get("annotations"@) {
        Some(annotations) => match annotations.get(key) {
            Some(JsonView::Bool(b)) => Some(JsonView::Bool(b)),
            _ => None,
        },
        None => None,
    }
}

proof fn lemma_compact_entry(tool: JsonView, other: Seq<char>)
    ensures
        compact_entry(tool).get("name"@) == shown(tool, "name"@),
        compact_entry(tool).get("description"@) == shown(tool, "description"@),
        compact_entry(tool).get("read_only"@) == hint(tool, "readOnlyHint"@),
        compact_entry(tool).get("destructive"@) == hint(tool, "destructiveHint"@),
        other != "name"@ && other != "description"@ && other != "read_only"@ && other !=
            "destructive"@ ==> compact_entry(tool).get(other) is None,
{
    lemma_catalog_keys();
}

/// Where no name is asked for, the answer holds an entry for every tool, in
/// order, and their number. An entry shows the name, the description and the
/// two hints of its tool, and no more.
pub proof fn all_tools_are_answered(tools: Seq<JsonView>, i: int, other: Seq<char>)
    requires
        0 <= i < tools.len(),
    ensures
        ({
            let answer = catalog_of(tools, seq![]);
            &&& answer.get("count"@) == Some(JsonView::Int(tools.len() as int))
            &&& answer.get("tools"@) matches Some(JsonView::Array(entries)) && {
                &&& entries.len() == tools.len()
                &&& entries[i].get("name"@) == shown(tools[i], "name"@)
                &&& entries[i].get("description"@) == shown(tools[i], "description"@)
                &&& entries[i].get("read_only"@) == hint(tools[i], "readOnlyHint"@)
                &&& entries[i].get("destructive"@) == hint(tools[i], "destructiveHint"@)
                &&& other != "name"@ && other != "description"@ && other != "read_only"@ && other !=
                    "destructive"@ ==> entries[i].get(other) is None
            }
        }),
{
    lemma_catalog_keys();
    lemma_compact_entry(tools[i], other);
}

/// The compact answer says how to get the full definitions, and it is there,
/// with a count of zero, where there are no tools at all.
pub proof fn compact_answer_has_a_note(tools: Seq<JsonView>, other: Seq<char>)
    ensures
        ({
            let answer = catalog_of(tools, seq![]);
            &&& answer.get("count"@) == Some(JsonView::Int(tools.len() as int))
            &&& answer.get("tools"@) matches Some(JsonView::Array(entries)) && entries.len()
                == tools.len()
            &&& answer.str_at("note"@) == Some(
                "pass names:[\"npm_…\"] to get a tool's full input schema before npm_call"@,
            )
            &&& other != "count"@ && other != "tools"@ && other != "note"@ ==> answer.get(other) is
                None
        }),
{
    lemma_catalog_keys();
}

// ── npm_call ──────────────────────────────────────────────────────────
/// `npm_call` takes a name and an object of arguments, none where they are left
/// out; without a name, or with arguments of another kind, it says what is
/// wrong.
pub proof fn calls_take_a_name_and_an_object(args: JsonView)
    ensures
        match argument_of(args, "name"@) {
            None => call_wanted(args) == Err::<(Seq<char>, JsonView), Seq<char>>(
                "'name' is required — an NPM tool name like npm_list_proxy_hosts (discover them with npm_list_tools)"@,
            ),
            Some(name) => match args.get("arguments"@) {
                None => call_wanted(args) matches Ok((called, given)) && called == name && given
                    is Object && forall|key: Seq<char>| (#[trigger] given.get(key)) is None,
                Some(JsonView::Object(map)) => call_wanted(args) == Ok::<
                    (Seq<char>, JsonView),
                    Seq<char>,
                >((name, JsonView::Object(map))),
                Some(_) => call_wanted(args) == Err::<(Seq<char>, JsonView), Seq<char>>(
                    "'arguments' must be an object matching the tool's input schema"@,
                ),
            },
        },
{
}

/// The text of an item of a result: what it has under `text` where its type says
/// so.
pub open spec fn text_in(item: JsonView) -> Option<Seq<char>> {
    if item.str_at("type"@) == Some("text"@) {
        item.str_at("text"@)
    } else {
        None
    }
}

proof fn lemma_texts_of(items: Seq<JsonView>)
    ensures
        texts_of(items) == items.filter_map(|item: JsonView| text_in(item)),
    decreases items.len(),
{
    if items.len() > 0 {
        lemma_texts_of(items.drop_last());
    }
    assert(texts_of(items) =~= items.filter_map(|item: JsonView| text_in(item)));
}

/// The text of a result is that of its text items, in order and one below the
/// other; items of other types say nothing.
pub proof fn results_say_their_texts(result: JsonView)
    ensures
        match result.get("content"@) {
            Some(JsonView::Array(items)) => content_of(result) == joined(
                items.filter_map(|item: JsonView| text_in(item)),
                seq!['\n'],
            ),
            _ => content_of(result).len() == 0,
        },
{
    reveal_strlit("\n");
    assert("\n"@ =~= seq!['\n']);
    if let Some(JsonView::Array(items)) = result.get("content"@) {
        lemma_texts_of(items);
    }
}

/// A result fails where its `isError` is true, and only there: false, anything
/// that is no truth value, and nothing at all make no difference to how it is
/// unwrapped.
pub proof fn only_true_is_an_error(name: Seq<char>, result: JsonView, flag: JsonView)
    ensures
        unwrapped(name, result) is Err <==> result.get("isError"@) == Some(JsonView::Bool(true)),
        result is Object && result.get("isError"@) != Some(JsonView::Bool(true)) && flag
            != JsonView::Bool(true) ==> {
            &&& unwrapped(name, result.with("isError"@, flag)) == unwrapped(name, result)
            &&& unwrapped(name, result) is Ok
        },
        result is Object ==> unwrapped(
            name,
            result.with("isError"@, JsonView::Bool(true)),
        ) is Err,
{
    reveal_strlit("content");
    reveal_strlit("isError");
    assert("content"@[0] == 'c' && "isError"@[0] == 'i');
    let flagged = result.with("isError"@, flag);
    if result is Object {
        assert(flagged.get("content"@) == result.get("content"@));
        assert(content_of(flagged) == content_of(result));
    }
}

/// A failed result is told by its text, or in words that name the tool where it
/// has none. The text of any other result comes back as the JSON it is, or else
/// under `text`; without a text, all is well.
pub proof fn results_come_back_by_their_text(
    name: Seq<char>,
    result: JsonView,
    value: JsonView,
    other: Seq<char>,
)
    ensures
        ({
            let content = content_of(result);
            if result.get("isError"@) == Some(JsonView::Bool(true)) {
                if content.len() == 0 {
                    unwrapped(name, result) == Err::<JsonView, Seq<char>>(
                        name + " failed with no error detail"@,
                    )
                } else {
                    unwrapped(name, result) == Err::<JsonView, Seq<char>>(content)
                }
            } else if content.len() == 0 {
                unwrapped(name, result) matches Ok(answer) && answer.get("ok"@) == Some(
                    JsonView::Bool(true),
                ) && (other != "ok"@ ==> answer.get(other) is None)
            } else {
                &&& json_parsed(content) == Ok::<JsonView, Seq<char>>(value) ==> unwrapped(
                    name,
                    result,
                ) == Ok::<JsonView, Seq<char>>(value)
                &&& json_parsed(content) is Err ==> (unwrapped(name, result) matches Ok(answer)
                    && answer.get("text"@) == Some(JsonView::String(content)) && (other
                    != "text"@ ==> answer.get(other) is None))
            }
        }),
{
    assert(is_error(result) == (result.get("isError"@) == Some(JsonView::Bool(true))));
}

// ── npm_configure ─────────────────────────────────────────────────────
proof fn lemma_configure_keys()
    ensures
        "saved"@ != "base_url"@,
        "saved"@ != "api_key"@,
        "saved"@ != "verified"@,
        "saved"@ != "server"@,
        "saved"@ != "tool_count"@,
        "saved"@ != "verify_error"@,
        "base_url"@ != "api_key"@,
        "base_url"@ != "verified"@,
        "base_url"@ != "server"@,
        "base_url"@ != "tool_count"@,
        "base_url"@ != "verify_error"@,
        "api_key"@ != "verified"@,
        "api_key"@ != "server"@,
        "api_key"@ != "tool_count"@,
        "api_key"@ != "verify_error"@,
        "verified"@ != "server"@,
        "verified"@ != "tool_count"@,
        "verified"@ != "verify_error"@,
        "server"@ != "tool_count"@,
        "server"@ != "verify_error"@,
        "tool_count"@ != "verify_error"@,
{
    reveal_strlit("saved");
    reveal_strlit("base_url");
    reveal_strlit("api_key");
    reveal_strlit("verified");
    reveal_strlit("server");
    reveal_strlit("tool_count");
    reveal_strlit("verify_error");
    assert("saved"@.len() == 5);
    assert("base_url"@.len() == 8);
    assert("api_key"@.len() == 7);
    assert("verified"@.len() == 8);
    assert("server"@.len() == 6);
    assert("tool_count"@.len() == 10);
    assert("verify_error"@.len() == 12);
    assert("base_url"@[0] == 'b' && "verified"@[0] == 'v');
}

/// `npm_configure` takes a URL, a key, or both, and verifies them unless it is
/// told `false`. Without either, or with a URL that does not start with `http://`
/// or `https://`, it says what is wrong.
pub proof fn settings_are_taken_from_the_arguments(args: JsonView)
    ensures
        ({
            let url = argument_of(args, "base_url"@);
            let key = argument_of(args, "api_key"@);
            if url is None && key is None {
                settings_wanted(args) == Err::<SettingsView, Seq<char>>(
                    "nothing to configure — pass base_url and/or api_key (or use npm_status to inspect the current state)"@,
                )
            } else if url is Some && !"http://"@.is_prefix_of(url->0) && !"https://"@.is_prefix_of(
                url->0,
            ) {
                settings_wanted(args) == Err::<SettingsView, Seq<char>>(
                    "base_url must start with http:// or https://"@,
                )
            } else {
                settings_wanted(args) matches Ok(settings) && {
                    &&& settings.base_url == url
                    &&& settings.api_key == key
                    &&& !settings.verify <==> args.get("verify"@) == Some(JsonView::Bool(false))
                }
            }
        }),
{
}

/// What a text stands for in a report, where there is one.
pub open spec fn told(s: Option<Seq<char>>) -> Option<JsonView> {
    match s {
        Some(s) => Some(JsonView::String(s)),
        None => None,
    }
}

/// The mask of a key, where there is one.
pub open spec fn mask_of(key: Option<Seq<char>>) -> Option<Seq<char>> {
    match key {
        Some(key) => Some(masked(key)),
        None => None,
    }
}

/// The report on stored settings shows the URL and the mask of the key, each
/// where it was given, and says nothing of a verification.
pub proof fn stored_settings_are_told(settings: SettingsView, other: Seq<char>)
    ensures
        ({
            let report = settings.saved_report();
            &&& report.get("saved"@) == Some(JsonView::Bool(true))
            &&& report.get("base_url"@) == told(settings.base_url)
            &&& report.get("api_key"@) == told(mask_of(settings.api_key))
            &&& other != "saved"@ && other != "base_url"@ && other != "api_key"@ ==>
                report.get(other) is None
        }),
{
    lemma_configure_keys();
}

/// The report on settings that could not be verified says so and why.
pub proof fn failed_verification_is_told(settings: SettingsView, e: Seq<char>, other: Seq<char>)
    ensures
        ({
            let report = settings.unverified_report(e);
            &&& report.get("saved"@) == Some(JsonView::Bool(true))
            &&& report.get("base_url"@) == told(settings.base_url)
            &&& report.get("api_key"@) == told(mask_of(settings.api_key))
            &&& report.get("verified"@) == Some(JsonView::Bool(false))
            &&& report.get("verify_error"@) == Some(JsonView::String(e))
            &&& other != "saved"@ && other != "base_url"@ && other != "api_key"@ && other !=
                "verified"@ && other != "verify_error"@ ==> report.get(other) is None
        }),
{
    lemma_configure_keys();
}

/// The report on verified settings says so, shows what the server says of
/// itself, and the number of tools where they could be listed.
pub proof fn verified_settings_are_told(
    settings: SettingsView,
    init: JsonView,
    tools: Seq<JsonView>,
    other: Seq<char>,
)
    ensures
        ({
            let report = settings.verified_report(init);
            let counted = report.with("tool_count"@, JsonView::Int(tools.len() as int));
            &&& report.get("saved"@) == Some(JsonView::Bool(true))
            &&& report.get("base_url"@) == told(settings.base_url)
            &&& report.get("api_key"@) == told(mask_of(settings.api_key))
            &&& report.get("verified"@) == Some(JsonView::Bool(true))
            &&& report.get("server"@) == init.get("serverInfo"@)
            &&& report.get("tool_count"@) is None
            &&& other != "saved"@ && other != "base_url"@ && other != "api_key"@ && other !=
                "verified"@ && other != "server"@ ==> report.get(other) is None
            &&& counted.get("tool_count"@) == Some(JsonView::Int(tools.len() as int))
            &&& other != "tool_count"@ ==> counted.get(other) == report.get(other)
        }),
{
    lemma_configure_keys();
}

} // verus!
