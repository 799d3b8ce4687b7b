//! Plugin configuration: where the target Nginx Proxy Manager lives and how
//! to authenticate against it.
//!
//! The two values (`base_url`, `api_key`) are stored in the plugin's own
//! settings namespace. They get there in one of three ways:
//!
//! - the operator edits them in Peckboard's Settings UI (Plugins →
//!   nginx-manager → Settings), whose form writes the settings read here;
//! - the operator puts them in Peckboard's `config.json` under
//!   `plugins.nginx-manager.config`, from which the plugin seeds the settings
//!   on every (re)start, so the file wins; or
//! - a session calls the `npm_configure` tool (convenient, but the key then
//!   passes through the chat transcript).
use vstd::prelude::*;
use vstd::string::StringExecFns;
use crate::host::{HostCall, HostCallView, HostFn, Step, StepView};
use crate::json::{Json, JsonView, json_string, json_text, outcome};
use crate::text_laws::{blank_texts_are_white, end_slashes_go, trimming_leaves_what_is_between};
use crate::text::{
    chars_of, decimal, decimal_text, ends_with, is_blank, is_white, lemma_trimmed,
    lemma_trimmed_fixed, lemma_trimmed_twice, or_empty, string_of, trim, trim_end_slashes, trimmed,
    without_end_slashes,
};

verus! {

/// A ready-to-use target: non-empty `base_url` and `api_key`.
#[derive(Debug, PartialEq)]
pub struct Config {
    pub base_url: String,
    pub api_key: String,
}

/// What a [`Config`] means.
pub struct ConfigView {
    pub base_url: Seq<char>,
    pub api_key: Seq<char>,
}

impl View for Config {
    type V = ConfigView;

    open spec fn view(&self) -> ConfigView {
        ConfigView { base_url: self.base_url@, api_key: self.api_key@ }
    }
}

impl DeepView for Config {
    type V = ConfigView;

    open spec fn deep_view(&self) -> ConfigView {
        self@
    }
}

impl Clone for Config {
    fn clone(&self) -> (r: Config)
        ensures
            r@ == self@,
    {
        Config { base_url: self.base_url.clone(), api_key: self.api_key.clone() }
    }
}

/// The path of the MCP endpoint below the root of an NPM instance.
pub const ENDPOINT_PATH: &'static str = "/api/mcp";

/// The endpoint of the instance at `base_url`.
pub open spec fn endpoint_of(base_url: Seq<char>) -> Seq<char> {
    let root = without_end_slashes(trimmed(base_url));
    if ENDPOINT_PATH@.is_suffix_of(root) {
        root
    } else {
        root + ENDPOINT_PATH@
    }
}

/// The endpoint of the instance at `base_url`.
pub fn endpoint_from(base_url: &str) -> (r: String)
    ensures
        r@ == endpoint_of(base_url@),
{
    let root = trim_end_slashes(trim(base_url).as_str());
    if ends_with(root.as_str(), ENDPOINT_PATH) {
        root
    } else {
        root.concat(ENDPOINT_PATH)
    }
}

/// `s` on one line: each line feed is written as a backslash and an `n`, and
/// each backslash is doubled.
pub open spec fn unfed(s: Seq<char>) -> Seq<char>
    decreases s.len(),
{
    if s.len() == 0 {
        seq![]
    } else if s[0] == '\n' {
        seq!['\\', 'n'] + unfed(s.skip(1))
    } else if s[0] == '\\' {
        seq!['\\', '\\'] + unfed(s.skip(1))
    } else {
        seq![s[0]] + unfed(s.skip(1))
    }
}

/// Whether `s` holds a line feed.
fn has_line_feed(s: &str) -> (r: bool)
    ensures
        r == s@.contains('\n'),
{
    let chars = chars_of(s);
    let mut i: usize = 0;
    while i < chars.len()
        invariant
            i <= chars@.len(),
            chars@ == s@,
            forall|j: int| 0 <= j < i ==> #[trigger] s@[j] != '\n',
        decreases chars@.len() - i,
    {
        if chars[i] == '\n' {
            assert(s@[i as int] == '\n');
            return true;
        }
        i += 1;
    }
    false
}

/// Writes `s` on one line.
fn without_line_feeds(s: &str) -> (r: String)
    ensures
        r@ == unfed(s@),
{
    let chars = chars_of(s);
    let mut out = String::new();
    let mut i: usize = 0;
    assert(s@.skip(0) =~= s@);
    assert(out@ + unfed(s@) =~= unfed(s@));
    while i < chars.len()
        invariant
            i <= chars@.len(),
            chars@ == s@,
            unfed(s@) == out@ + unfed(s@.skip(i as int)),
        decreases chars@.len() - i,
    {
        assert(s@.skip(i as int).skip(1) =~= s@.skip(i + 1));
        let c = chars[i];
        if c == '\n' {
            out.push('\\');
            out.push('n');
        } else if c == '\\' {
            out.push('\\');
            out.push('\\');
        } else {
            out.push(c);
        }
        i += 1;
        assert(unfed(s@) =~= out@ + unfed(s@.skip(i as int)));
    }
    assert(s@.skip(i as int) =~= seq![]);
    assert(out@ + unfed(s@.skip(i as int)) =~= out@);
    out
}

impl ConfigView {
    /// The MCP endpoint URL.
    pub open spec fn endpoint(self) -> Seq<char> {
        endpoint_of(self.base_url)
    }

    /// Identity of this configuration: the URL, and the key on the line below.
    /// A URL that spans lines itself is put on one line with the key, so that it
    /// cannot be taken for another URL and key.
    pub open spec fn fingerprint(self) -> Seq<char> {
        if self.base_url.contains('\n') {
            unfed(self.base_url) + "\\k"@ + unfed(self.api_key)
        } else {
            self.base_url + "\n"@ + self.api_key
        }
    }

    /// Whether the configuration is ready to use: neither half is empty or has
    /// white space at its ends.
    pub open spec fn is_ready(self) -> bool {
        &&& self.base_url.len() > 0
        &&& trimmed(self.base_url) == self.base_url
        &&& self.api_key.len() > 0
        &&& trimmed(self.api_key) == self.api_key
    }
}

impl Config {
    /// The MCP endpoint URL. `base_url` is normally the NPM root
    /// (`http://host:81`) and `/api/mcp` is appended; a value that already
    /// ends in `/api/mcp` is used as-is so pasting the full endpoint also
    /// works.
    pub fn endpoint(&self) -> (r: String)
        ensures
            r@ == self@.endpoint(),
    {
        endpoint_from(self.base_url.as_str())
    }

    /// Identity of this configuration for session caching: a cached MCP
    /// session is only reused while the target and credential are unchanged.
    pub fn fingerprint(&self) -> (r: String)
        ensures
            r@ == self@.fingerprint(),
    {
        if has_line_feed(self.base_url.as_str()) {
            without_line_feeds(self.base_url.as_str()).concat("\\k").concat(
                without_line_feeds(self.api_key.as_str()).as_str(),
            )
        } else {
            self.base_url.clone().concat("\n").concat(self.api_key.as_str())
        }
    }
}

/// `key` shortened.
pub open spec fn masked(key: Seq<char>) -> Seq<char> {
    if key.len() <= 8 {
        "****"@
    } else {
        key.take(6) + "…("@ + decimal(key.len() as int) + " chars)"@
    }
}

/// `key` shortened for echoing back to a session: enough to recognise, never
/// enough to reuse.
pub fn mask_key(key: &str) -> (r: String)
    ensures
        r@ == masked(key@),
{
    let chars = chars_of(key);
    if chars.len() <= 8 {
        return "****".to_owned();
    }
    let head = string_of(&chars, 0, 6);
    assert(head@ =~= key@.take(6));
    head.concat("…(").concat(decimal_text(chars.len() as u64).as_str()).concat(" chars)")
}

// ── Settings ──────────────────────────────────────────────────────────
/// The host call that reads the setting `key`.
pub open spec fn get_setting_call(key: Seq<char>) -> HostCallView {
    HostCallView {
        which: HostFn::GetPluginSetting,
        input: JsonView::empty().with_str("key"@, key),
    }
}

/// The host call that writes `value` to the setting `key`.
pub open spec fn set_setting_call(key: Seq<char>, value: Seq<char>) -> HostCallView {
    HostCallView {
        which: HostFn::SetPluginSetting,
        input: JsonView::empty().with_str("key"@, key).with_str("value"@, value),
    }
}

/// The setting that a reply to `get_setting_call` holds.
pub open spec fn setting_of(reply: JsonView) -> Option<Seq<char>> {
    match reply.get("value"@) {
        None => None,
        Some(JsonView::Null) => None,
        Some(JsonView::String(s)) => Some(s),
        Some(value) => Some(json_text(value)),
    }
}

/// Asks the host for the setting `key`.
pub fn get_setting(key: &str) -> (r: HostCall)
    ensures
        r@ == get_setting_call(key@),
{
    let mut input = Json::object();
    input.set_str("key", key);
    HostCall { which: HostFn::GetPluginSetting, input }
}

/// The setting that the reply to [`get_setting`] holds. A value that is no
/// string (a hand-edited one, say) is tolerated: its JSON text is kept.
pub fn setting_value(reply: &Json) -> (r: Option<String>)
    ensures
        r.deep_view() == setting_of(reply@),
{
    match reply.get("value") {
        None => None,
        Some(value) => match value {
            Json::Null => None,
            Json::String(s) => Some(s.clone()),
            _ => Some(json_string(value)),
        },
    }
}

/// Has the host write `value` to the setting `key`.
pub fn set_setting(key: &str, value: &str) -> (r: HostCall)
    ensures
        r@ == set_setting_call(key@, value@),
{
    let mut input = Json::object();
    input.set_str("key", key);
    input.set_str("value", value);
    HostCall { which: HostFn::SetPluginSetting, input }
}

// ── Loading ───────────────────────────────────────────────────────────
/// What a session is told where either half of the configuration is missing.
pub const NOT_CONFIGURED: &'static str = "nginx-manager is not configured. Set the Nginx Proxy Manager URL and API key in Settings → Plugins → nginx-manager, or set base_url (e.g. \"http://192.168.1.10:81\") and api_key (an NPM API key, \"npm_…\") with the npm_configure tool, or put them in Peckboard's config.json under plugins.nginx-manager.config and restart.";

/// The configuration that the two settings make.
pub open spec fn config_of(base_url: Option<Seq<char>>, api_key: Option<Seq<char>>) -> Result<
    ConfigView,
    Seq<char>,
> {
    if is_blank(or_empty(base_url)) || is_blank(or_empty(api_key)) {
        Err(NOT_CONFIGURED@)
    } else {
        Ok(
            ConfigView {
                base_url: trimmed(or_empty(base_url)),
                api_key: trimmed(or_empty(api_key)),
            },
        )
    }
}

/// The configuration that the two settings make; a helpful error when either
/// half is missing.
pub fn config_from(base_url: Option<String>, api_key: Option<String>) -> (r: Result<Config, String>)
    ensures
        outcome(r) == config_of(base_url.deep_view(), api_key.deep_view()),
        r matches Ok(config) ==> config@.is_ready(),
{
    proof {
        config_is_ready(base_url.deep_view(), api_key.deep_view());
    }
    let url = match base_url {
        Some(s) => trim(s.as_str()),
        None => trim(""),
    };
    let key = match api_key {
        Some(s) => trim(s.as_str()),
        None => trim(""),
    };
    proof {
        reveal_strlit("");
        assert(""@ =~= Seq::<char>::empty());
    }
    if url.as_str().is_empty() || key.as_str().is_empty() {
        Err(NOT_CONFIGURED.to_owned())
    } else {
        Ok(Config { base_url: url, api_key: key })
    }
}

/// How far loading the configuration has got: which setting it waits for.
#[derive(Debug)]
pub enum Loading {
    BaseUrl,
    ApiKey { base_url: Option<String> },
}

/// What a [`Loading`] means.
pub enum LoadingView {
    BaseUrl,
    ApiKey { base_url: Option<Seq<char>> },
}

impl View for Loading {
    type V = LoadingView;

    open spec fn view(&self) -> LoadingView {
        match self {
            Loading::BaseUrl => LoadingView::BaseUrl,
            Loading::ApiKey { base_url } => LoadingView::ApiKey { base_url: base_url.deep_view() },
        }
    }
}

/// The first call of loading the configuration.
pub open spec fn load_call() -> HostCallView {
    get_setting_call("base_url"@)
}

/// What loading the configuration does with a reply.
pub open spec fn load_next(
    state: LoadingView,
    reply: Result<JsonView, Seq<char>>,
) -> StepView<LoadingView, ConfigView> {
    match (state, reply) {
        (_, Err(e)) => StepView::Done(Err(e)),
        (LoadingView::BaseUrl, Ok(value)) => StepView::Call(
            get_setting_call("api_key"@),
            LoadingView::ApiKey { base_url: setting_of(value) },
        ),
        (LoadingView::ApiKey { base_url }, Ok(value)) => StepView::Done(
            config_of(base_url, setting_of(value)),
        ),
    }
}

/// Starts loading the configuration from the plugin settings.
pub fn load() -> (r: (HostCall, Loading))
    ensures
        r.0@ == load_call(),
        r.1@ == LoadingView::BaseUrl,
{
    (get_setting("base_url"), Loading::BaseUrl)
}

/// Goes on loading the configuration with what the host gave back.
pub fn load_reply(state: Loading, reply: Result<Json, String>) -> (r: Step<Loading, Config>)
    ensures
        r@ == load_next(state@, outcome(reply)),
{
    match reply {
        Err(e) => Step::Done(Err(e)),
        Ok(value) => match state {
            Loading::BaseUrl => {
                let base_url = setting_value(&value);
                Step::Call(get_setting("api_key"), Loading::ApiKey { base_url })
            },
            Loading::ApiKey { base_url } => {
                let api_key = setting_value(&value);
                Step::Done(config_from(base_url, api_key))
            },
        },
    }
}

// ── Laws ──────────────────────────────────────────────────────────────
proof fn lemma_without_end_slashes(s: Seq<char>)
    ensures
        without_end_slashes(s).len() <= s.len(),
        without_end_slashes(s) == s.take(without_end_slashes(s).len() as int),
        without_end_slashes(s).len() > 0 ==> without_end_slashes(s).last() != '/',
    decreases s.len(),
{
    if s.len() > 0 && s.last() == '/' {
        lemma_without_end_slashes(s.drop_last());
        let n = without_end_slashes(s).len() as int;
        assert(s.drop_last().take(n) =~= s.take(n));
    } else {
        assert(s.take(s.len() as int) =~= s);
    }
}

/// Every endpoint ends in `/api/mcp`.
pub proof fn endpoint_ends_in_path(base_url: Seq<char>)
    ensures
        ENDPOINT_PATH@.is_suffix_of(endpoint_of(base_url)),
{
    let root = without_end_slashes(trimmed(base_url));
    if !ENDPOINT_PATH@.is_suffix_of(root) {
        assert(endpoint_of(base_url).subrange(
            root.len() as int,
            endpoint_of(base_url).len() as int,
        ) =~= ENDPOINT_PATH@);
    }
}

/// Pasting the endpoint of an instance in place of its root URL works: the
/// endpoint of an endpoint is that endpoint.
pub proof fn endpoint_of_endpoint(base_url: Seq<char>)
    ensures
        endpoint_of(endpoint_of(base_url)) == endpoint_of(base_url),
{
    let stripped = trimmed(base_url);
    let root = without_end_slashes(stripped);
    let endpoint = endpoint_of(base_url);
    lemma_trimmed(base_url);
    lemma_without_end_slashes(stripped);
    endpoint_ends_in_path(base_url);
    reveal_strlit("/api/mcp");
    assert(endpoint.last() == ENDPOINT_PATH@.last()) by {
        let n = endpoint.len() - ENDPOINT_PATH@.len();
        assert(endpoint.subrange(n as int, endpoint.len() as int).last() == endpoint.last());
    }
    assert(endpoint.last() == 'p');
    if root.len() > 0 {
        assert(endpoint[0] == root[0] == stripped[0]);
    } else {
        assert(root + ENDPOINT_PATH@ =~= ENDPOINT_PATH@);
        assert(endpoint[0] == '/');
    }
    lemma_trimmed_fixed(endpoint);
}

/// A slash at the end of a root URL makes no difference, unless the URL ends in
/// white space before it.
pub proof fn endpoint_ignores_end_slash(base_url: Seq<char>)
    requires
        is_blank(base_url) || !is_white(base_url.last()),
    ensures
        endpoint_of(base_url.push('/')) == endpoint_of(base_url),
{
    lemma_trimmed_push(base_url, '/');
    let stripped = trimmed(base_url);
    assert(stripped.push('/').drop_last() =~= stripped);
}

/// A character that is not white space, put behind `s`, stays when `s` is
/// trimmed with it.
proof fn lemma_trimmed_push(s: Seq<char>, c: char)
    requires
        is_blank(s) || !is_white(s.last()),
        !is_white(c),
    ensures
        trimmed(s.push(c)) == trimmed(s).push(c),
    decreases s.len(),
{
    if s.len() == 0 {
        assert(s.push(c) =~= seq![c]);
        assert(trimmed(s).push(c) =~= seq![c]);
    } else if is_white(s[0]) {
        assert(s.push(c).skip(1) =~= s.skip(1).push(c));
        if s.len() == 1 {
            assert(s.skip(1) =~= Seq::empty());
        }
        lemma_trimmed_push(s.skip(1), c);
    } else {
        lemma_trimmed(s);
        if is_blank(s) {
            lemma_trim_end_keeps_first(s);
        } else {
            lemma_trimmed_fixed(s);
        }
        lemma_trimmed_fixed(s.push(c));
    }
}

proof fn lemma_trim_end_keeps_first(s: Seq<char>)
    requires
        s.len() > 0,
        !is_white(s[0]),
    ensures
        crate::text::trim_end(s).len() > 0,
    decreases s.len(),
{
    if is_white(s.last()) {
        lemma_trim_end_keeps_first(s.drop_last());
    }
}

/// A mask tells a key of more than eight characters from another only by its
/// first six characters and its length, and shorter keys not at all: whoever
/// sees it does not learn the rest of the key.
pub proof fn mask_hides_the_rest(a: Seq<char>, b: Seq<char>)
    requires
        (a.len() <= 8 && b.len() <= 8) || (a.len() == b.len() && a.take(6) == b.take(6)),
    ensures
        masked(a) == masked(b),
{
}

proof fn lemma_unfed(s: Seq<char>)
    ensures
        forall|i: int| 0 <= i < unfed(s).len() ==> #[trigger] unfed(s)[i] != '\n',
    decreases s.len(),
{
    if s.len() > 0 {
        lemma_unfed(s.skip(1));
        let rest = unfed(s.skip(1));
        assert forall|i: int| 0 <= i < unfed(s).len() implies #[trigger] unfed(s)[i] != '\n' by {
            if unfed(s).len() == rest.len() + 1 {
                assert(i > 0 ==> unfed(s)[i] == rest[i - 1]);
            } else {
                assert(i > 1 ==> unfed(s)[i] == rest[i - 2]);
            }
        }
    }
}

proof fn lemma_unfed_head(s: Seq<char>)
    requires
        s.len() > 0,
    ensures
        unfed(s).len() > 0,
        s[0] == '\n' ==> unfed(s).len() >= 2 && unfed(s)[0] == '\\' && unfed(s)[1] == 'n',
        s[0] == '\\' ==> unfed(s).len() >= 2 && unfed(s)[0] == '\\' && unfed(s)[1] == '\\',
        s[0] != '\n' && s[0] != '\\' ==> unfed(s)[0] == s[0],
        unfed(s.skip(1)) == unfed(s).skip(
            if s[0] == '\n' || s[0] == '\\' {
                2
            } else {
                1
            },
        ),
{
    assert(unfed(s.skip(1)) =~= unfed(s).skip(
        if s[0] == '\n' || s[0] == '\\' {
            2
        } else {
            1
        },
    ));
}

proof fn lemma_unfed_injective(a: Seq<char>, b: Seq<char>)
    requires
        unfed(a) == unfed(b),
    ensures
        a == b,
    decreases a.len(),
{
    if a.len() > 0 {
        lemma_unfed_head(a);
    }
    if b.len() > 0 {
        lemma_unfed_head(b);
    }
    if a.len() > 0 && b.len() > 0 {
        lemma_unfed_injective(a.skip(1), b.skip(1));
        assert(a =~= seq![a[0]] + a.skip(1));
        assert(b =~= seq![b[0]] + b.skip(1));
    } else {
        assert(a =~= b);
    }
}

/// A backslash and a `k` mark where the URL ends: nothing inside it reads so.
proof fn lemma_unfed_marked(a: Seq<char>, x: Seq<char>, b: Seq<char>, y: Seq<char>)
    requires
        unfed(a) + "\\k"@ + x == unfed(b) + "\\k"@ + y,
    ensures
        a == b,
        x == y,
    decreases a.len(),
{
    reveal_strlit("\\k");
    let all = unfed(a) + "\\k"@ + x;
    let same = unfed(b) + "\\k"@ + y;
    if a.len() > 0 {
        lemma_unfed_head(a);
        assert(unfed(a).len() >= 2 ==> all[1] == unfed(a)[1]);
    } else {
        assert(all[0] == '\\' && all[1] == 'k');
    }
    if b.len() > 0 {
        lemma_unfed_head(b);
        assert(unfed(b).len() >= 2 ==> same[1] == unfed(b)[1]);
    } else {
        assert(same[0] == '\\' && same[1] == 'k');
    }
    if a.len() > 0 && b.len() > 0 {
        assert(all[0] == unfed(a)[0] && same[0] == unfed(b)[0]);
        assert(a[0] == b[0]);
        let n: int = if a[0] == '\n' || a[0] == '\\' {
            2
        } else {
            1
        };
        assert(all.skip(n) =~= unfed(a.skip(1)) + "\\k"@ + x);
        assert(same.skip(n) =~= unfed(b.skip(1)) + "\\k"@ + y);
        lemma_unfed_marked(a.skip(1), x, b.skip(1), y);
        assert(a =~= seq![a[0]] + a.skip(1));
        assert(b =~= seq![b[0]] + b.skip(1));
    } else {
        assert(a.len() == 0 && b.len() == 0);
        assert(a =~= b);
        assert(x =~= all.skip(2));
        assert(y =~= same.skip(2));
    }
}

proof fn lemma_fingerprint_lines(a: ConfigView)
    ensures
        a.fingerprint().contains('\n') == !a.base_url.contains('\n'),
{
    reveal_strlit("\n");
    reveal_strlit("\\k");
    if a.base_url.contains('\n') {
        lemma_unfed(a.base_url);
        lemma_unfed(a.api_key);
    } else {
        assert(a.fingerprint()[a.base_url.len() as int] == '\n');
    }
}

/// Configurations with the same fingerprint are the same: neither the target
/// nor the credential can differ.
pub proof fn fingerprint_identifies(a: ConfigView, b: ConfigView)
    requires
        a.fingerprint() == b.fingerprint(),
    ensures
        a == b,
{
    reveal_strlit("\n");
    lemma_fingerprint_lines(a);
    lemma_fingerprint_lines(b);
    if a.base_url.contains('\n') {
        lemma_unfed_marked(a.base_url, unfed(a.api_key), b.base_url, unfed(b.api_key));
        lemma_unfed_injective(a.api_key, b.api_key);
    } else {
        let n = a.base_url.len() as int;
        let m = b.base_url.len() as int;
        assert(n == m) by {
            assert(a.fingerprint()[n] == '\n' && b.fingerprint()[m] == '\n');
            if n < m {
                assert(b.base_url[n] == '\n');
            } else if m < n {
                assert(a.base_url[m] == '\n');
            }
        }
        assert(a.base_url =~= a.fingerprint().take(n));
        assert(b.base_url =~= b.fingerprint().take(n));
        assert(a.api_key =~= a.fingerprint().skip(n + 1));
        assert(b.api_key =~= b.fingerprint().skip(n + 1));
    }
}

/// Whatever the settings hold, a configuration made of them is ready to use.
pub proof fn config_is_ready(base_url: Option<Seq<char>>, api_key: Option<Seq<char>>)
    ensures
        config_of(base_url, api_key) matches Ok(config) ==> config.is_ready(),
{
    lemma_trimmed_twice(or_empty(base_url));
    lemma_trimmed_twice(or_empty(api_key));
}

/// Loading asks for `base_url`, then for `api_key`, and makes the
/// configuration of what the two replies hold.
pub proof fn load_reads_both_settings(first: JsonView, second: JsonView)
    ensures
        load_next(LoadingView::BaseUrl, Ok(first)) matches StepView::Call(call, state) && call
            == get_setting_call("api_key"@) && load_next(state, Ok(second)) == StepView::<
            LoadingView,
            ConfigView,
        >::Done(config_of(setting_of(first), setting_of(second))),
{
}

/// The endpoint is the root URL as it was given, with `/api/mcp` behind it
/// where it does not end so already: only the white space around it and the
/// slashes at its end make no difference. The root stands from `i` up to `n`,
/// its end slashes up to `j`, and white space on either side.
pub proof fn endpoint_keeps_the_root(base_url: Seq<char>, i: int, n: int, j: int)
    requires
        0 <= i <= n <= j <= base_url.len(),
        forall|k: int| 0 <= k < i ==> is_white(#[trigger] base_url[k]),
        forall|k: int| j <= k < base_url.len() ==> is_white(#[trigger] base_url[k]),
        i < j ==> !is_white(base_url[i]) && !is_white(base_url[j - 1]),
        forall|k: int| n <= k < j ==> #[trigger] base_url[k] == '/',
        i < n ==> base_url[n - 1] != '/',
    ensures
        ({
            let root = base_url.subrange(i, n);
            if "/api/mcp"@.is_suffix_of(root) {
                endpoint_of(base_url) == root
            } else {
                endpoint_of(base_url) == root + "/api/mcp"@
            }
        }),
        base_url.subrange(i, n).is_prefix_of(endpoint_of(base_url)),
{
    let root = base_url.subrange(i, n);
    let stretch = base_url.subrange(i, j);
    trimming_leaves_what_is_between(base_url, i, j);
    assert forall|k: int| n - i <= k < stretch.len() implies #[trigger] stretch[k] == '/' by {
        assert(stretch[k] == base_url[i + k]);
    }
    end_slashes_go(stretch, n - i);
    assert(stretch.take(n - i) =~= root);
    assert(root =~= endpoint_of(base_url).subrange(0, root.len() as int));
}

/// The fingerprint of a configuration whose URL is on one line is the URL, and
/// the key on the line below.
pub proof fn fingerprint_of_one_line(cfg: ConfigView)
    requires
        !cfg.base_url.contains('\n'),
    ensures
        cfg.fingerprint() == cfg.base_url + seq!['\n'] + cfg.api_key,
{
    reveal_strlit("\n");
    assert("\n"@ =~= seq!['\n']);
}

/// A mask shows the first six characters and the length of a key that has more
/// than eight, and nothing of a shorter one.
pub proof fn mask_shows_head_and_length(key: Seq<char>)
    ensures
        key.len() > 8 ==> {
            &&& masked(key).take(6) == key.take(6)
            &&& masked(key).skip(6) == "…("@ + decimal(key.len() as int) + " chars)"@
        },
        key.len() <= 8 ==> masked(key) == "****"@,
{
    if key.len() > 8 {
        assert(masked(key).take(6) =~= key.take(6));
        assert(masked(key).skip(6) =~= "…("@ + decimal(key.len() as int) + " chars)"@);
    }
}

/// Reading a setting asks the host for its key, and writing one gives it the
/// key and the value; neither says anything else.
pub proof fn setting_calls_say_key_and_value(key: Seq<char>, value: Seq<char>, other: Seq<char>)
    ensures
        get_setting_call(key).which == HostFn::GetPluginSetting,
        get_setting_call(key).input.str_at("key"@) == Some(key),
        other != "key"@ ==> get_setting_call(key).input.get(other) is None,
        set_setting_call(key, value).which == HostFn::SetPluginSetting,
        set_setting_call(key, value).input.str_at("key"@) == Some(key),
        set_setting_call(key, value).input.str_at("value"@) == Some(value),
        other != "key"@ && other != "value"@ ==> set_setting_call(key, value).input.get(other)
            is None,
{
    reveal_strlit("key");
    reveal_strlit("value");
    assert("key"@.len() == 3 && "value"@.len() == 5);
}

/// A setting is the string under `value`, and the JSON text of what stands
/// there in place of a string; where there is nothing or null, it is not set.
pub proof fn settings_are_read(reply: JsonView)
    ensures
        reply.get("value"@) is None ==> setting_of(reply) is None,
        reply.get("value"@) matches Some(value) ==> {
            &&& value is Null ==> setting_of(reply) is None
            &&& value matches JsonView::String(s) ==> setting_of(reply) == Some(s)
            &&& !(value is Null) && !(value is String) ==> setting_of(reply) == Some(
                json_text(value),
            )
        },
{
}

/// A configuration takes a URL and a key that each hold more than white space,
/// and is made of the two without the white space around them; where one is
/// missing, the session is told how to set it.
pub proof fn configurations_need_both_settings(
    base_url: Option<Seq<char>>,
    api_key: Option<Seq<char>>,
)
    ensures
        ({
            let given = |s: Option<Seq<char>>|
                s is Some && exists|k: int| 0 <= k < s->0.len() && !is_white(#[trigger] s->0[k]);
            if given(base_url) && given(api_key) {
                config_of(base_url, api_key) matches Ok(cfg) && cfg.base_url == trimmed(base_url->0)
                    && cfg.api_key == trimmed(api_key->0)
            } else {
                config_of(base_url, api_key) == Err::<ConfigView, Seq<char>>(
                    "nginx-manager is not configured. Set the Nginx Proxy Manager URL and API key in Settings → Plugins → nginx-manager, or set base_url (e.g. \"http://192.168.1.10:81\") and api_key (an NPM API key, \"npm_…\") with the npm_configure tool, or put them in Peckboard's config.json under plugins.nginx-manager.config and restart."@,
                )
            }
        }),
{
    blank_texts_are_white(or_empty(base_url));
    blank_texts_are_white(or_empty(api_key));
}

/// Loading starts with the URL, goes on with the key, and ends at the first
/// reply that is an error, with its words.
pub proof fn loading_asks_for_url_and_key(
    state: LoadingView,
    first: JsonView,
    e: Seq<char>,
)
    ensures
        load_call().which == HostFn::GetPluginSetting,
        load_call().input.str_at("key"@) == Some("base_url"@),
        load_next(LoadingView::BaseUrl, Ok(first)) matches StepView::Call(call, next) && {
            &&& call.which == HostFn::GetPluginSetting
            &&& call.input.str_at("key"@) == Some("api_key"@)
            &&& next == (LoadingView::ApiKey { base_url: setting_of(first) })
        },
        load_next(state, Err(e)) == StepView::<LoadingView, ConfigView>::Done(Err(e)),
{
}

} // verus!
