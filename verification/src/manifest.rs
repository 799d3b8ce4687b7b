//! The plugin manifest: identity, the single `mcp.tool.invoke` hook, the MCP
//! tools this plugin provides (with their input schemas), the operator
//! settings (`base_url`, `api_key`) Peckboard's Settings UI renders, and the
//! host permissions those tools require (`provide_mcp_tools` + `http_request`
//! for the outbound calls to the NPM instance, which may live on the LAN).
use vstd::prelude::*;
use crate::json::{
    Json, JsonView, json_string, json_text, lemma_empty_reads_back, lemma_strings_read_back,
    lemma_with_reads_back, nesting_limit, parses_to, reads_back,
};
use crate::tools::truth;

verus! {

/// How long a call of an export may take. `tools/call` against NPM can
/// legitimately take tens of seconds (a Let's Encrypt issuance under
/// npm_create_certificate); the default budget of two seconds counts host-side
/// HTTP time, so the manifest raises it.
pub const CALL_BUDGET_SECS: u64 = 120;

// ── Settings ──────────────────────────────────────────────────────────
/// The setting that holds the URL.
pub open spec fn base_url_setting() -> JsonView {
    JsonView::empty().with_str("key"@, "base_url"@).with_str(
        "title"@,
        "Nginx Proxy Manager URL"@,
    ).with_str(
        "description"@,
        "Root URL of the NPM admin interface, e.g. \"http://192.168.1.10:81\" — /api/mcp is appended automatically (a full …/api/mcp URL is also accepted)."@,
    ).with("required"@, JsonView::Bool(true)).with_str("type"@, "url"@).with_str(
        "placeholder"@,
        "http://192.168.1.10:81"@,
    )
}

/// The setting that holds the API key.
pub open spec fn api_key_setting() -> JsonView {
    JsonView::empty().with_str("key"@, "api_key"@).with_str("title"@, "API key"@).with_str(
        "description"@,
        "NPM API key used as the Bearer token (\"npm_…\"), created in the NPM UI under API Keys — its scopes bound everything npm_call can do."@,
    ).with("required"@, JsonView::Bool(true)).with_str("type"@, "string"@).with(
        "secret"@,
        JsonView::Bool(true),
    ).with_str("placeholder"@, "npm_…"@)
}

/// The setting that holds the URL.
fn base_url_entry() -> (r: Json)
    ensures
        r@ == base_url_setting(),
{
    let mut out = Json::object();
    out.set_str("key", "base_url");
    out.set_str("title", "Nginx Proxy Manager URL");
    out.set_str(
        "description",
        "Root URL of the NPM admin interface, e.g. \"http://192.168.1.10:81\" — /api/mcp is appended automatically (a full …/api/mcp URL is also accepted).",
    );
    out.set("required", truth(true));
    out.set_str("type", "url");
    out.set_str("placeholder", "http://192.168.1.10:81");
    out
}

/// The setting that holds the API key.
fn api_key_entry() -> (r: Json)
    ensures
        r@ == api_key_setting(),
{
    let mut out = Json::object();
    out.set_str("key", "api_key");
    out.set_str("title", "API key");
    out.set_str(
        "description",
        "NPM API key used as the Bearer token (\"npm_…\"), created in the NPM UI under API Keys — its scopes bound everything npm_call can do.",
    );
    out.set("required", truth(true));
    out.set_str("type", "string");
    out.set("secret", truth(true));
    out.set_str("placeholder", "npm_…");
    out
}

// ── Input schemas ─────────────────────────────────────────────────────
/// The schema of one argument.
pub open spec fn argument_schema(kind: Seq<char>, description: Seq<char>) -> JsonView {
    JsonView::empty().with_str("type"@, kind).with_str("description"@, description)
}

/// The schema of an object with the given properties and no others.
pub open spec fn closed_schema(properties: JsonView) -> JsonView {
    JsonView::empty().with_str("type"@, "object"@).with("properties"@, properties).with(
        "additionalProperties"@,
        JsonView::Bool(false),
    )
}

/// The definition of a tool.
pub open spec fn tool_entry(
    name: Seq<char>,
    title: Seq<char>,
    description: Seq<char>,
    input_schema: JsonView,
) -> JsonView {
    JsonView::empty().with_str("name"@, name).with_str("title"@, title).with_str(
        "description"@,
        description,
    ).with("input_schema"@, input_schema)
}

/// The schema of one argument.
fn argument_with(kind: &str, description: &str) -> (r: Json)
    ensures
        r@ == argument_schema(kind@, description@),
{
    let mut out = Json::object();
    out.set_str("type", kind);
    out.set_str("description", description);
    out
}

/// The schema of an object with the given properties and no others.
fn schema_with(properties: Json) -> (r: Json)
    ensures
        r@ == closed_schema(properties@),
{
    let mut out = Json::object();
    out.set_str("type", "object");
    out.set("properties", properties);
    out.set("additionalProperties", truth(false));
    out
}

/// The definition of a tool.
fn tool_with(name: &str, title: &str, description: &str, input_schema: Json) -> (r: Json)
    ensures
        r@ == tool_entry(name@, title@, description@, input_schema@),
{
    let mut out = Json::object();
    out.set_str("name", name);
    out.set_str("title", title);
    out.set_str("description", description);
    out.set("input_schema", input_schema);
    out
}

// ── Tools ─────────────────────────────────────────────────────────────
/// The definition of `npm_status`.
pub open spec fn status_entry() -> JsonView {
    tool_entry(
        "npm_status"@,
        "Nginx Proxy Manager connection status"@,
        "Check the Nginx Proxy Manager connection: whether base_url/api_key are configured, and if so handshake with the NPM MCP endpoint and report server info, negotiated protocol version, the server's usage instructions, and which npm_* tools the configured API key's scopes expose. Start here when NPM tools misbehave."@,
        closed_schema(JsonView::empty()),
    )
}

/// The definition of `npm_list_tools`.
pub open spec fn catalog_entry() -> JsonView {
    tool_entry(
        "npm_list_tools"@,
        "List Nginx Proxy Manager tools"@,
        "List the management tools the configured NPM API key can use — proxy hosts, redirection hosts, 404 hosts, TCP/UDP streams, certificates, access lists, tags, users, settings, audit log, reports. Returns a compact name + description catalog (with read-only/destructive hints); pass names:[…] to fetch the full JSON input schemas of specific tools before invoking them with npm_call."@,
        closed_schema(
            JsonView::empty().with(
                "names"@,
                JsonView::empty().with_str("type"@, "array"@).with(
                    "items"@,
                    JsonView::empty().with_str("type"@, "string"@),
                ).with_str(
                    "description"@,
                    "Return full definitions (including input schema) for just these tool names, e.g. [\"npm_create_proxy_host\"]. Omit for the compact catalog of every available tool."@,
                ),
            ),
        ),
    )
}

/// The definition of `npm_call`.
pub open spec fn call_entry() -> JsonView {
    tool_entry(
        "npm_call"@,
        "Call a Nginx Proxy Manager tool"@,
        "Invoke one Nginx Proxy Manager tool by name (e.g. npm_list_proxy_hosts, npm_create_proxy_host, npm_renew_certificate) with arguments matching its input schema — discover names with npm_list_tools and schemas via its names:[…] parameter. The call is proxied to the configured NPM instance's MCP server and bounded by the API key's scopes. npm_delete_* tools take effect immediately; be sure before deleting."@,
        closed_schema(
            JsonView::empty().with(
                "name"@,
                argument_schema(
                    "string"@,
                    "The NPM tool to invoke, e.g. \"npm_list_proxy_hosts\"."@,
                ),
            ).with(
                "arguments"@,
                argument_schema(
                    "object"@,
                    "Arguments per that tool's input schema (npm_list_tools with names:[…] shows it). Omit for tools that take none."@,
                ),
            ),
        ).with("required"@, JsonView::Array(seq![JsonView::String("name"@)])),
    )
}

/// The definition of `npm_configure`.
pub open spec fn configure_entry() -> JsonView {
    tool_entry(
        "npm_configure"@,
        "Configure the Nginx Proxy Manager connection"@,
        "Set which Nginx Proxy Manager this Peckboard talks to: base_url of the NPM admin interface (e.g. \"http://192.168.1.10:81\") and api_key (an NPM API key, \"npm_…\", created in the NPM UI under API Keys — its scopes bound everything npm_call can do). Verifies the connection by default and reports the server info. Note the key passes through the chat transcript; operators who prefer not to can instead set both in Settings → Plugins → nginx-manager, or in Peckboard's config.json under plugins.nginx-manager.config."@,
        closed_schema(
            JsonView::empty().with(
                "base_url"@,
                argument_schema(
                    "string"@,
                    "Root URL of the NPM instance, e.g. \"http://192.168.1.10:81\" — /api/mcp is appended automatically (a full …/api/mcp URL is also accepted)."@,
                ),
            ).with(
                "api_key"@,
                argument_schema(
                    "string"@,
                    "NPM API key used as the Bearer token, e.g. \"npm_…\"."@,
                ),
            ).with(
                "verify"@,
                argument_schema(
                    "boolean"@,
                    "Handshake with the endpoint after saving (default true)."@,
                ),
            ),
        ),
    )
}

/// The definition of `npm_status`.
fn status_definition() -> (r: Json)
    ensures
        r@ == status_entry(),
{
    tool_with(
        "npm_status",
        "Nginx Proxy Manager connection status",
        "Check the Nginx Proxy Manager connection: whether base_url/api_key are configured, and if so handshake with the NPM MCP endpoint and report server info, negotiated protocol version, the server's usage instructions, and which npm_* tools the configured API key's scopes expose. Start here when NPM tools misbehave.",
        schema_with(Json::object()),
    )
}

/// The definition of `npm_list_tools`.
fn catalog_definition() -> (r: Json)
    ensures
        r@ == catalog_entry(),
{
    let mut items = Json::object();
    items.set_str("type", "string");
    let mut names = Json::object();
    names.set_str("type", "array");
    names.set("items", items);
    names.set_str(
        "description",
        "Return full definitions (including input schema) for just these tool names, e.g. [\"npm_create_proxy_host\"]. Omit for the compact catalog of every available tool.",
    );
    let mut properties = Json::object();
    properties.set("names", names);
    tool_with(
        "npm_list_tools",
        "List Nginx Proxy Manager tools",
        "List the management tools the configured NPM API key can use — proxy hosts, redirection hosts, 404 hosts, TCP/UDP streams, certificates, access lists, tags, users, settings, audit log, reports. Returns a compact name + description catalog (with read-only/destructive hints); pass names:[…] to fetch the full JSON input schemas of specific tools before invoking them with npm_call.",
        schema_with(properties),
    )
}

/// The definition of `npm_call`.
fn call_definition() -> (r: Json)
    ensures
        r@ == call_entry(),
{
    let mut properties = Json::object();
    properties.set(
        "name",
        argument_with("string", "The NPM tool to invoke, e.g. \"npm_list_proxy_hosts\"."),
    );
    properties.set(
        "arguments",
        argument_with(
            "object",
            "Arguments per that tool's input schema (npm_list_tools with names:[…] shows it). Omit for tools that take none.",
        ),
    );
    let mut schema = schema_with(properties);
    schema.set("required", one_string("name"));
    tool_with(
        "npm_call",
        "Call a Nginx Proxy Manager tool",
        "Invoke one Nginx Proxy Manager tool by name (e.g. npm_list_proxy_hosts, npm_create_proxy_host, npm_renew_certificate) with arguments matching its input schema — discover names with npm_list_tools and schemas via its names:[…] parameter. The call is proxied to the configured NPM instance's MCP server and bounded by the API key's scopes. npm_delete_* tools take effect immediately; be sure before deleting.",
        schema,
    )
}

/// The definition of `npm_configure`.
fn configure_definition() -> (r: Json)
    ensures
        r@ == configure_entry(),
{
    let mut properties = Json::object();
    properties.set(
        "base_url",
        argument_with(
            "string",
            "Root URL of the NPM instance, e.g. \"http://192.168.1.10:81\" — /api/mcp is appended automatically (a full …/api/mcp URL is also accepted).",
        ),
    );
    properties.set(
        "api_key",
        argument_with("string", "NPM API key used as the Bearer token, e.g. \"npm_…\"."),
    );
    properties.set(
        "verify",
        argument_with("boolean", "Handshake with the endpoint after saving (default true)."),
    );
    tool_with(
        "npm_configure",
        "Configure the Nginx Proxy Manager connection",
        "Set which Nginx Proxy Manager this Peckboard talks to: base_url of the NPM admin interface (e.g. \"http://192.168.1.10:81\") and api_key (an NPM API key, \"npm_…\", created in the NPM UI under API Keys — its scopes bound everything npm_call can do). Verifies the connection by default and reports the server info. Note the key passes through the chat transcript; operators who prefer not to can instead set both in Settings → Plugins → nginx-manager, or in Peckboard's config.json under plugins.nginx-manager.config.",
        schema_with(properties),
    )
}

// ── The manifest ──────────────────────────────────────────────────────
/// The operator settings. They are the same plugin settings that the
/// configuration is loaded from, so a value saved in the form is exactly what
/// the next tool call uses — and unlike npm_configure, the key never passes
/// through a chat transcript. The keys match those of the config.json block.
pub open spec fn settings_list() -> Seq<JsonView> {
    seq![base_url_setting(), api_key_setting()]
}

/// The tools.
pub open spec fn tools_list() -> Seq<JsonView> {
    seq![status_entry(), catalog_entry(), call_entry(), configure_entry()]
}

/// The permissions.
pub open spec fn permissions_list() -> Seq<JsonView> {
    seq![JsonView::String("provide_mcp_tools"@), JsonView::String("http_request"@)]
}

/// The manifest of the package with the given description, version and
/// repository.
pub open spec fn manifest_of(
    description: Seq<char>,
    version: Seq<char>,
    repository: Seq<char>,
) -> JsonView {
    JsonView::empty().with_str("description"@, description).with_str("version"@, version).with_str(
        "repository"@,
        repository,
    ).with("hooks"@, JsonView::Array(seq![JsonView::String("mcp.tool.invoke"@)])).with(
        "call_timeout_secs"@,
        JsonView::Int(CALL_BUDGET_SECS as int),
    ).with("settings"@, JsonView::Array(settings_list())).with(
        "mcp_tools"@,
        JsonView::Array(tools_list()),
    ).with("permissions"@, JsonView::Array(permissions_list()))
}

/// An array of one string.
fn one_string(s: &str) -> (r: Json)
    ensures
        r@ == JsonView::Array(seq![JsonView::String(s@)]),
{
    let items: Vec<Json> = vec![Json::string(s)];
    assert(items.deep_view() =~= seq![JsonView::String(s@)]);
    Json::array(items)
}

/// The manifest of the package with the given description, version and
/// repository.
pub fn manifest(description: &str, version: &str, repository: &str) -> (r: Json)
    ensures
        r@ == manifest_of(description@, version@, repository@),
{
    let settings: Vec<Json> = vec![base_url_entry(), api_key_entry()];
    assert(settings.deep_view() =~= settings_list());
    let tools: Vec<Json> = vec![
        status_definition(),
        catalog_definition(),
        call_definition(),
        configure_definition(),
    ];
    assert(tools.deep_view() =~= tools_list());
    let permissions: Vec<Json> = vec![
        Json::string("provide_mcp_tools"),
        Json::string("http_request"),
    ];
    assert(permissions.deep_view() =~= permissions_list());
    let mut out = Json::object();
    out.set_str("description", description);
    out.set_str("version", version);
    out.set_str("repository", repository);
    out.set("hooks", one_string("mcp.tool.invoke"));
    out.set("call_timeout_secs", Json::PosInt(CALL_BUDGET_SECS));
    out.set("settings", Json::array(settings));
    out.set("mcp_tools", Json::array(tools));
    out.set("permissions", Json::array(permissions));
    out
}

/// The manifest text that the `manifest` export answers with.
pub fn manifest_json(description: &str, version: &str, repository: &str) -> (r: String)
    ensures
        r@ == json_text(manifest_of(description@, version@, repository@)),
        parses_to(r@, manifest_of(description@, version@, repository@)),
{
    proof {
        manifest_reads_back(description@, version@, repository@);
    }
    json_string(&manifest(description, version, repository))
}

/// The manifest is within what serde_json reads.
pub proof fn manifest_reads_back(
    description: Seq<char>,
    version: Seq<char>,
    repository: Seq<char>,
)
    ensures
        reads_back(manifest_of(description, version, repository), nesting_limit()),
{
    broadcast use {lemma_empty_reads_back, lemma_with_reads_back};

    assert(reads_back(base_url_setting(), 125));
    assert(reads_back(api_key_setting(), 125));
    assert(reads_back(JsonView::Array(settings_list()), 126));
    assert(reads_back(status_entry(), 125));
    assert(reads_back(catalog_entry(), 125));
    lemma_strings_read_back(seq![JsonView::String("name"@)], 123);
    assert(reads_back(call_entry(), 125));
    assert(reads_back(configure_entry(), 125));
    assert(reads_back(JsonView::Array(tools_list()), 126));
    lemma_strings_read_back(permissions_list(), 126);
    lemma_strings_read_back(seq![JsonView::String("mcp.tool.invoke"@)], 126);
}

} // verus!
