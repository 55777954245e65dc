//! Plugin configuration, and what a command takes from it.

use vstd::prelude::*;
use vstd::string::*;

use crate::json;
use crate::json::{is_plain, json_parse, nullable, optional_text, Json, JsonValue};
use crate::key_map::precedes;
use crate::text;
use crate::text::{
    is_blank, strip_or_keep, trimmed, trimmed_end_of, with_slashes, without_suffix,
};

verus! {

/// What is configured for a workspace.
#[derive(Debug)]
pub struct SyncExtismConfig {
    pub server_url: Option<String>,
    pub auth_token: Option<String>,
    pub workspace_id: Option<String>,
}

/// What the host passes when it starts the plugin.
#[derive(Debug)]
pub struct InitParams {
    pub workspace_root: Option<String>,
    pub workspace_id: Option<String>,
    pub write_to_disk: Option<bool>,
    pub server_url: Option<String>,
    pub auth_token: Option<String>,
}

/// What a command finds configured: the stored configuration, and the context that the host
/// gives, if it gives one.
#[derive(Debug)]
pub struct Settings {
    pub config: SyncExtismConfig,
    pub runtime: Option<JsonValue>,
}

// ---------------------------------------------------------------------------
// Models
// ---------------------------------------------------------------------------

/// The model of a [`SyncExtismConfig`].
pub struct ConfigView {
    pub server_url: Option<Seq<char>>,
    pub auth_token: Option<Seq<char>>,
    pub workspace_id: Option<Seq<char>>,
}

/// The model of a [`Settings`].
pub struct SettingsView {
    pub config: ConfigView,
    pub runtime: Option<Json>,
}

impl View for SyncExtismConfig {
    type V = ConfigView;

    open spec fn view(&self) -> ConfigView {
        ConfigView {
            server_url: optional_text(self.server_url),
            auth_token: optional_text(self.auth_token),
            workspace_id: optional_text(self.workspace_id),
        }
    }
}

impl View for Settings {
    type V = SettingsView;

    open spec fn view(&self) -> SettingsView {
        SettingsView {
            config: self.config@,
            runtime: match self.runtime {
                Some(value) => Some(value@),
                None => None,
            },
        }
    }
}

/// The first of two that there is.
pub open spec fn first_of(
    a: Option<Seq<char>>,
    b: Option<Seq<char>>,
) -> Option<Seq<char>> {
    if a is Some {
        a
    } else {
        b
    }
}

/// A server address without the slashes and the `/sync` and `/sync2` at its end.
pub open spec fn without_sync(base: Seq<char>) -> Seq<char>
    decreases base.len(),
{
    proof {
        reveal_strlit("/sync2");
        reveal_strlit("/sync");
        lemma_trimmed_end_len(base.take(base.len() - 6), '/');
        lemma_trimmed_end_len(base.take(base.len() - 5), '/');
    }
    match without_suffix(base, "/sync2"@) {
        Some(rest) => without_sync(trimmed_end_of(rest, '/')),
        None => match without_suffix(base, "/sync"@) {
            Some(rest) => without_sync(trimmed_end_of(rest, '/')),
            None => base,
        },
    }
}

/// A server address as it is used: without white space around it, and without the slashes and
/// the `/sync` and `/sync2` at its end.
pub open spec fn server_base(url: Seq<char>) -> Seq<char> {
    without_sync(trimmed_end_of(trimmed(url), '/'))
}

/// A setting after a patch: cleared by `null` and by a blank text, set by any other text, and else
/// as it was.
pub open spec fn patched(old: Option<Seq<char>>, raw: Option<Json>) -> Option<Seq<char>> {
    match raw {
        Some(Json::Null) => None,
        Some(Json::Str(value)) => if is_blank(value) {
            None
        } else {
            Some(trimmed(value))
        },
        _ => old,
    }
}

impl ConfigView {
    /// The configuration of a workspace that was never configured.
    pub open spec fn empty() -> ConfigView {
        ConfigView { server_url: None, auth_token: None, workspace_id: None }
    }

    /// The configuration after a patch.
    pub open spec fn after_patch(self, incoming: Json) -> ConfigView {
        ConfigView {
            server_url: patched(self.server_url, incoming.member("server_url"@)),
            auth_token: patched(self.auth_token, incoming.member("auth_token"@)),
            workspace_id: patched(self.workspace_id, incoming.member("workspace_id"@)),
        }
    }

    /// The configuration with another workspace.
    pub open spec fn linked(self, workspace_id: Option<Seq<char>>) -> ConfigView {
        ConfigView { workspace_id, ..self }
    }

    /// The configuration as a JSON document.
    pub open spec fn json(self) -> Json {
        Json::Object(
            seq![
                ("auth_token"@, nullable(self.auth_token)),
                ("server_url"@, nullable(self.server_url)),
                ("workspace_id"@, nullable(self.workspace_id)),
            ],
        )
    }
}

impl SettingsView {
    /// A text of the host's context, without the white space around it.
    pub open spec fn context(self, key: Seq<char>) -> Option<Seq<char>> {
        match self.runtime {
            Some(runtime) => match runtime.text(key) {
                Some(value) => if is_blank(value) {
                    None
                } else {
                    Some(trimmed(value))
                },
                None => None,
            },
            None => None,
        }
    }

    /// The server that is talked to: the one that is named, else the configured one, else the one
    /// of the host's context.
    pub open spec fn server_for(self, named: Option<Seq<char>>) -> Option<Seq<char>> {
        match first_of(
            first_of(named, self.config.server_url),
            self.context("server_url"@),
        ) {
            Some(url) => Some(server_base(url)),
            None => None,
        }
    }

    /// The token that is shown, found as the server is.
    pub open spec fn token_for(self, named: Option<Seq<char>>) -> Option<Seq<char>> {
        first_of(
            first_of(named, self.config.auth_token),
            self.context("auth_token"@),
        )
    }

    /// The server that a command talks to.
    pub open spec fn server(self, params: Json) -> Option<Seq<char>> {
        self.server_for(params.text("server_url"@))
    }

    /// The token that a command shows.
    pub open spec fn token(self, params: Json) -> Option<Seq<char>> {
        self.token_for(params.text("auth_token"@))
    }

    /// The namespace of a command: the one that it names, else the configured one, else the
    /// one that the plugin holds; none, if the one that is found is blank.
    pub open spec fn namespace(self, params: Json, held: Option<Seq<char>>) -> Option<Seq<char>> {
        match first_of(
            first_of(params.text("namespace_id"@), self.config.workspace_id),
            held,
        ) {
            Some(id) => if is_blank(id) {
                None
            } else {
                Some(id)
            },
            None => None,
        }
    }
}

/// Whether a command is meant for this provider.
pub open spec fn is_for_us(params: Json) -> bool {
    match params.text("provider_id"@) {
        Some(id) => id == "sync"@ || id == "diaryx.sync"@,
        None => true,
    }
}

/// The path of a file, relative to the workspace.
pub open spec fn relative_path(root: Option<Seq<char>>, path: Seq<char>) -> Seq<char> {
    let root = trimmed(
        match root {
            Some(root) => root,
            None => Seq::empty(),
        },
    );
    if root.len() == 0 || root == "."@ {
        with_slashes(path)
    } else {
        strip_or_keep(with_slashes(path), trimmed_end_of(with_slashes(root), '/') + "/"@)
    }
}

// ---------------------------------------------------------------------------
// Functions
// ---------------------------------------------------------------------------

/// A text does not get longer when it is trimmed.
pub proof fn lemma_trimmed_end_len(s: Seq<char>, c: char)
    ensures
        trimmed_end_of(s, c).len() <= s.len(),
    decreases s.len(),
{
    if s.len() > 0 && s.last() == c {
        lemma_trimmed_end_len(s.drop_last(), c);
    }
}

/// A copy of an optional string.
pub(crate) fn copy_text(s: &Option<String>) -> (r: Option<String>)
    ensures
        optional_text(r) == optional_text(*s),
{
    match s {
        Some(s) => Some(s.clone()),
        None => None,
    }
}

/// The first of two that there is.
fn or_else(a: Option<String>, b: Option<String>) -> (r: Option<String>)
    ensures
        optional_text(r) == first_of(optional_text(a), optional_text(b)),
{
    match a {
        Some(a) => Some(a),
        None => b,
    }
}

impl SyncExtismConfig {
    /// The configuration of a workspace that was never configured.
    pub fn empty() -> (config: Self)
        ensures
            config@ == ConfigView::empty(),
    {
        SyncExtismConfig { server_url: None, auth_token: None, workspace_id: None }
    }

    /// A copy of the configuration.
    pub fn copied(&self) -> (config: Self)
        ensures
            config@ == self@,
    {
        SyncExtismConfig {
            server_url: copy_text(&self.server_url),
            auth_token: copy_text(&self.auth_token),
            workspace_id: copy_text(&self.workspace_id),
        }
    }

    /// The configuration as a JSON document.
    pub fn to_json(&self) -> (r: JsonValue)
        ensures
            r@ == self@.json(),
            is_plain(r@),
    {
        proof {
            lemma_config_is_plain(self@);
        }
        let members: Vec<(String, JsonValue)> = vec![
            json::member("auth_token", json::string_or_null(&self.auth_token)),
            json::member("server_url", json::string_or_null(&self.server_url)),
            json::member("workspace_id", json::string_or_null(&self.workspace_id)),
        ];
        let r = json::object(members);
        assert(r@->Object_0 =~= self@.json()->Object_0);
        r
    }
}

/// A server address as it is used: without white space around it, and without the slashes and
/// the `/sync` and `/sync2` at its end.
pub fn normalize_server_base(server_url: &str) -> (base: String)
    ensures
        base@ == server_base(server_url@),
{
    let mut base: String = text::trim_end_of(text::trim(server_url), '/').to_owned();
    loop
        invariant
            without_sync(base@) == server_base(server_url@),
        ensures
            base@ == server_base(server_url@),
        decreases base@.len(),
    {
        proof {
            reveal_strlit("/sync2");
            reveal_strlit("/sync");
            lemma_trimmed_end_len(base@.take(base@.len() - 6), '/');
            lemma_trimmed_end_len(base@.take(base@.len() - 5), '/');
        }
        let stripped: Option<String> = match text::strip_suffix(base.as_str(), "/sync2") {
            Some(rest) => Some(text::trim_end_of(rest, '/').to_owned()),
            None => match text::strip_suffix(base.as_str(), "/sync") {
                Some(rest) => Some(text::trim_end_of(rest, '/').to_owned()),
                None => None,
            },
        };
        match stripped {
            Some(rest) => {
                base = rest;
            },
            None => {
                break;
            },
        }
    }
    base
}

/// A parameter of a command, if it is a string.
pub fn command_param_str(params: &JsonValue, key: &str) -> (r: Option<String>)
    ensures
        optional_text(r) == params@.text(key@),
{
    params.text(key)
}

/// What a patch makes of one setting.
fn apply_config_string(old: Option<String>, incoming: &JsonValue, key: &str) -> (r: Option<String>)
    ensures
        optional_text(r) == patched(optional_text(old), incoming@.member(key@)),
{
    match incoming.get(key) {
        Some(raw) => if raw.is_null() {
            None
        } else {
            match raw.as_str() {
                Some(value) => {
                    let normalized: &str = text::trim(value);
                    if normalized.is_empty() {
                        None
                    } else {
                        Some(normalized.to_owned())
                    }
                },
                None => old,
            }
        },
        None => old,
    }
}

/// Applies a patch: `null` or a blank string clears a setting, any other string sets it, and
/// what is missing or of another type leaves it.
pub fn apply_config_patch(config: &mut SyncExtismConfig, incoming: &JsonValue)
    ensures
        final(config)@ == old(config)@.after_patch(incoming@),
{
    let server_url: Option<String> = apply_config_string(
        copy_text(&config.server_url),
        incoming,
        "server_url",
    );
    let auth_token: Option<String> = apply_config_string(
        copy_text(&config.auth_token),
        incoming,
        "auth_token",
    );
    let workspace_id: Option<String> = apply_config_string(
        copy_text(&config.workspace_id),
        incoming,
        "workspace_id",
    );
    config.server_url = server_url;
    config.auth_token = auth_token;
    config.workspace_id = workspace_id;
}

/// Applies a patch that the host passes as a text, or tells what is wrong with the text.
pub fn set_config(config: &SyncExtismConfig, input: &str) -> (r: Result<SyncExtismConfig, String>)
    ensures
        match r {
            Ok(after) => json_parse(input@) matches Ok(incoming) && after@ == config@.after_patch(
                incoming,
            ),
            Err(e) => json_parse(input@) == Err::<Json, Seq<char>>(e@),
        },
{
    match json::parse(input) {
        Ok(incoming) => {
            let mut after: SyncExtismConfig = config.copied();
            apply_config_patch(&mut after, &incoming);
            Ok(after)
        },
        Err(e) => Err(e),
    }
}

impl ConfigView {
    /// The configuration after the start of the plugin: what the host passes replaces what was
    /// stored.
    pub open spec fn after_init(self, params: InitParams) -> ConfigView {
        ConfigView {
            server_url: first_of(optional_text(params.server_url), self.server_url),
            auth_token: first_of(optional_text(params.auth_token), self.auth_token),
            workspace_id: first_of(optional_text(params.workspace_id), self.workspace_id),
        }
    }
}

/// The configuration after the start of the plugin.
pub fn initial_config(params: &InitParams, stored: &SyncExtismConfig) -> (config: SyncExtismConfig)
    ensures
        config@ == stored@.after_init(*params),
{
    SyncExtismConfig {
        server_url: or_else(copy_text(&params.server_url), copy_text(&stored.server_url)),
        auth_token: or_else(copy_text(&params.auth_token), copy_text(&stored.auth_token)),
        workspace_id: or_else(copy_text(&params.workspace_id), copy_text(&stored.workspace_id)),
    }
}

/// A text of the host's context, without the white space around it.
pub fn runtime_context_string(settings: &Settings, key: &str) -> (r: Option<String>)
    ensures
        optional_text(r) == settings@.context(key@),
{
    match &settings.runtime {
        Some(runtime) => match runtime.text(key) {
            Some(value) => {
                let value: &str = text::trim(value.as_str());
                if value.is_empty() {
                    None
                } else {
                    Some(value.to_owned())
                }
            },
            None => None,
        },
        None => None,
    }
}

/// The server that is talked to, where `named` is the one that is named, if one is.
pub fn server_for(named: Option<String>, settings: &Settings) -> (r: Option<String>)
    ensures
        optional_text(r) == settings@.server_for(optional_text(named)),
{
    let found: Option<String> = or_else(
        or_else(named, copy_text(&settings.config.server_url)),
        runtime_context_string(settings, "server_url"),
    );
    match found {
        Some(url) => Some(normalize_server_base(url.as_str())),
        None => None,
    }
}

/// The token that is shown, where `named` is the one that is named, if one is.
pub fn token_for(named: Option<String>, settings: &Settings) -> (r: Option<String>)
    ensures
        optional_text(r) == settings@.token_for(optional_text(named)),
{
    or_else(
        or_else(named, copy_text(&settings.config.auth_token)),
        runtime_context_string(settings, "auth_token"),
    )
}

/// The server that a command talks to.
pub fn resolve_server_url(params: &JsonValue, settings: &Settings) -> (r: Option<String>)
    ensures
        optional_text(r) == settings@.server(params@),
{
    server_for(command_param_str(params, "server_url"), settings)
}

/// The token that a command shows.
pub fn resolve_auth_token(params: &JsonValue, settings: &Settings) -> (r: Option<String>)
    ensures
        optional_text(r) == settings@.token(params@),
{
    token_for(command_param_str(params, "auth_token"), settings)
}

/// The namespace of a command, where `held` is the one that the plugin holds.
pub fn resolve_namespace_id(
    params: &JsonValue,
    settings: &Settings,
    held: &Option<String>,
) -> (r: Result<String, String>)
    ensures
        match r {
            Ok(id) => settings@.namespace(params@, optional_text(*held)) == Some(id@),
            Err(e) => settings@.namespace(params@, optional_text(*held)) is None && e@
                == "No namespace linked. Use `sync link` first."@,
        },
{
    let found: Option<String> = or_else(
        or_else(
            command_param_str(params, "namespace_id"),
            copy_text(&settings.config.workspace_id),
        ),
        copy_text(held),
    );
    match found {
        Some(id) => if text::blank(id.as_str()) {
            Err("No namespace linked. Use `sync link` first.".to_owned())
        } else {
            Ok(id)
        },
        None => Err("No namespace linked. Use `sync link` first.".to_owned()),
    }
}

/// The root of the workspace, where `held` is the one that the plugin holds.
pub fn resolve_workspace_root(held: &Option<String>) -> (r: Result<String, String>)
    ensures
        match r {
            Ok(root) => optional_text(*held) == Some(root@) && !is_blank(root@),
            Err(e) => (held is None || is_blank(held->0@)) && e@ == "Missing workspace_root"@,
        },
{
    match held {
        Some(root) => if text::blank(root.as_str()) {
            Err("Missing workspace_root".to_owned())
        } else {
            Ok(root.clone())
        },
        None => Err("Missing workspace_root".to_owned()),
    }
}

/// Whether a command is meant for this provider.
pub fn provider_supported(params: &JsonValue) -> (r: bool)
    ensures
        r == is_for_us(params@),
{
    match command_param_str(params, "provider_id") {
        Some(id) => text::same(id.as_str(), "sync") || text::same(id.as_str(), "diaryx.sync"),
        None => true,
    }
}

/// The path of a file, relative to the workspace, where `root` is the root of the workspace.
pub fn workspace_relative_path(root: &Option<String>, path: &str) -> (r: String)
    ensures
        r@ == relative_path(optional_text(*root), path@),
{
    let root: String = match root {
        Some(root) => root.clone(),
        None => String::new(),
    };
    let root: &str = text::trim(root.as_str());
    if root.is_empty() || text::same(root, ".") {
        return text::to_slashes(path);
    }
    let slashed: String = text::to_slashes(root);
    let prefix: String = text::join(text::trim_end_of(slashed.as_str(), '/'), "/");
    let normalized: String = text::to_slashes(path);
    text::strip_prefix_or_keep(normalized.as_str(), prefix.as_str()).to_owned()
}

// ---------------------------------------------------------------------------
// Laws
// ---------------------------------------------------------------------------

proof fn lemma_trimmed_end_last(s: Seq<char>, c: char)
    ensures
        trimmed_end_of(s, c).len() > 0 ==> trimmed_end_of(s, c).last() != c,
    decreases s.len(),
{
    if s.len() > 0 && s.last() == c {
        lemma_trimmed_end_last(s.drop_last(), c);
    }
}

proof fn lemma_without_sync(base: Seq<char>)
    requires
        base.len() > 0 ==> base.last() != '/',
    ensures
        ({
            let rest = without_sync(base);
            &&& rest.len() > 0 ==> rest.last() != '/'
            &&& !"/sync2"@.is_suffix_of(rest)
            &&& !"/sync"@.is_suffix_of(rest)
        }),
    decreases base.len(),
{
    reveal_strlit("/sync2");
    reveal_strlit("/sync");
    match without_suffix(base, "/sync2"@) {
        Some(rest) => {
            lemma_trimmed_end_len(rest, '/');
            lemma_trimmed_end_last(rest, '/');
            lemma_without_sync(trimmed_end_of(rest, '/'));
        },
        None => match without_suffix(base, "/sync"@) {
            Some(rest) => {
                lemma_trimmed_end_len(rest, '/');
                lemma_trimmed_end_last(rest, '/');
                lemma_without_sync(trimmed_end_of(rest, '/'));
            },
            None => {},
        },
    }
}

/// A server address as it is used ends neither in a slash nor in `/sync` or `/sync2`.
pub proof fn lemma_server_base_is_bare(url: Seq<char>)
    ensures
        server_base(url).len() > 0 ==> server_base(url).last() != '/',
        !"/sync2"@.is_suffix_of(server_base(url)),
        !"/sync"@.is_suffix_of(server_base(url)),
{
    lemma_trimmed_end_last(trimmed(url), '/');
    lemma_without_sync(trimmed_end_of(trimmed(url), '/'));
}

/// Whether a text is made of slashes, `/sync` and `/sync2`.
pub open spec fn is_sync_tail(s: Seq<char>) -> bool
    decreases s.len(),
{
    proof {
        reveal_strlit("/");
        reveal_strlit("/sync2");
        reveal_strlit("/sync");
    }
    ||| s.len() == 0
    ||| without_suffix(s, "/"@) matches Some(rest) && is_sync_tail(rest)
    ||| without_suffix(s, "/sync"@) matches Some(rest) && is_sync_tail(rest)
    ||| without_suffix(s, "/sync2"@) matches Some(rest) && is_sync_tail(rest)
}

/// A piece of a tail may follow a tail.
proof fn lemma_tail_grows(tail: Seq<char>, piece: Seq<char>)
    requires
        is_sync_tail(tail),
        piece == "/"@ || piece == "/sync"@ || piece == "/sync2"@,
    ensures
        is_sync_tail(tail + piece),
{
    reveal_strlit("/");
    reveal_strlit("/sync2");
    reveal_strlit("/sync");
    let s = tail + piece;
    assert(piece =~= s.subrange(s.len() - piece.len(), s.len() as int));
    assert(s.take(s.len() - piece.len()) =~= tail);
}

/// Two tails in a row are one.
proof fn lemma_tails_join(a: Seq<char>, b: Seq<char>)
    requires
        is_sync_tail(a),
        is_sync_tail(b),
    ensures
        is_sync_tail(a + b),
    decreases b.len(),
{
    reveal_strlit("/");
    reveal_strlit("/sync2");
    reveal_strlit("/sync");
    if b.len() == 0 {
        assert(a + b =~= a);
    } else {
        let piece = if "/"@.is_suffix_of(b) && is_sync_tail(b.take(b.len() - 1)) {
            "/"@
        } else if "/sync"@.is_suffix_of(b) && is_sync_tail(b.take(b.len() - 5)) {
            "/sync"@
        } else {
            "/sync2"@
        };
        let rest = b.take(b.len() - piece.len());
        lemma_tails_join(a, rest);
        lemma_tail_grows(a + rest, piece);
        assert(a + b =~= (a + rest) + piece);
    }
}

/// What is trimmed off the end are slashes.
proof fn lemma_trimmed_slashes(s: Seq<char>)
    ensures
        trimmed_end_of(s, '/').is_prefix_of(s),
        is_sync_tail(s.skip(trimmed_end_of(s, '/').len() as int)),
    decreases s.len(),
{
    reveal_strlit("/");
    if s.len() > 0 && s.last() == '/' {
        let rest = s.drop_last();
        lemma_trimmed_slashes(rest);
        let n = trimmed_end_of(rest, '/').len() as int;
        lemma_trimmed_end_len(rest, '/');
        assert(trimmed_end_of(rest, '/') =~= s.take(n));
        lemma_tail_grows(rest.skip(n), "/"@);
        assert(s.skip(n) =~= rest.skip(n) + "/"@);
    } else {
        assert(s.skip(s.len() as int) =~= Seq::empty());
        assert(s =~= s.take(s.len() as int));
    }
}

/// What is cut off with a piece and the slashes before it.
proof fn lemma_cut(base: Seq<char>, piece: Seq<char>)
    requires
        piece == "/sync"@ || piece == "/sync2"@,
        piece.is_suffix_of(base),
        ({
            let next = trimmed_end_of(base.take(base.len() - piece.len()), '/');
            &&& without_sync(next).is_prefix_of(next)
            &&& is_sync_tail(next.skip(without_sync(next).len() as int))
        }),
    ensures
        ({
            let kept = without_sync(trimmed_end_of(base.take(base.len() - piece.len()), '/'));
            &&& kept.is_prefix_of(base)
            &&& is_sync_tail(base.skip(kept.len() as int))
        }),
{
    let rest = base.take(base.len() - piece.len());
    let next = trimmed_end_of(rest, '/');
    let kept = without_sync(next);
    let n = kept.len() as int;
    lemma_trimmed_slashes(rest);
    lemma_trimmed_end_len(rest, '/');
    assert(kept =~= base.take(n));
    lemma_tails_join(next.skip(n), rest.skip(next.len() as int));
    assert(rest.skip(n) =~= next.skip(n) + rest.skip(next.len() as int));
    lemma_tail_grows(rest.skip(n), piece);
    assert(base.skip(n) =~= rest.skip(n) + piece);
}

proof fn lemma_without_sync_cuts(base: Seq<char>)
    ensures
        without_sync(base).is_prefix_of(base),
        is_sync_tail(base.skip(without_sync(base).len() as int)),
    decreases base.len(),
{
    reveal_strlit("/sync2");
    reveal_strlit("/sync");
    if "/sync2"@.is_suffix_of(base) {
        let rest = base.take(base.len() - 6);
        lemma_trimmed_end_len(rest, '/');
        lemma_without_sync_cuts(trimmed_end_of(rest, '/'));
        lemma_cut(base, "/sync2"@);
    } else if "/sync"@.is_suffix_of(base) {
        let rest = base.take(base.len() - 5);
        lemma_trimmed_end_len(rest, '/');
        lemma_without_sync_cuts(trimmed_end_of(rest, '/'));
        lemma_cut(base, "/sync"@);
    } else {
        assert(base.skip(base.len() as int) =~= Seq::empty());
        assert(base =~= base.take(base.len() as int));
    }
}

/// Of a server address without the white space around it nothing is cut off but slashes, `/sync`
/// and `/sync2` at its end.
pub proof fn lemma_server_base_cuts_only_sync(url: Seq<char>)
    ensures
        server_base(url).is_prefix_of(trimmed(url)),
        is_sync_tail(trimmed(url).skip(server_base(url).len() as int)),
{
    let s = trimmed(url);
    let base = trimmed_end_of(s, '/');
    lemma_trimmed_slashes(s);
    lemma_trimmed_end_len(s, '/');
    lemma_without_sync_cuts(base);
    let n = server_base(url).len() as int;
    assert(server_base(url) =~= s.take(n));
    lemma_tails_join(base.skip(n), s.skip(base.len() as int));
    assert(s.skip(n) =~= base.skip(n) + s.skip(base.len() as int));
}

/// A server address as it is used stays as it is when it is normalized again, unless what was
/// cut off its end left white space there.
pub proof fn lemma_server_base_is_stable(url: Seq<char>)
    requires
        trimmed(server_base(url)) == server_base(url),
    ensures
        server_base(server_base(url)) == server_base(url),
{
    lemma_server_base_is_bare(url);
}

/// A setting that a patch does not mention stays as it is.
pub proof fn lemma_patch_leaves_the_rest(config: ConfigView, incoming: Json)
    ensures
        incoming.member("server_url"@) is None ==> config.after_patch(incoming).server_url
            == config.server_url,
        incoming.member("auth_token"@) is None ==> config.after_patch(incoming).auth_token
            == config.auth_token,
        incoming.member("workspace_id"@) is None ==> config.after_patch(incoming).workspace_id
            == config.workspace_id,
        !(incoming is Object) ==> config.after_patch(incoming) == config,
{
}

/// A patch that is applied twice does what it does once.
pub proof fn lemma_patch_twice(config: ConfigView, incoming: Json)
    ensures
        config.after_patch(incoming).after_patch(incoming) == config.after_patch(incoming),
{
}

/// What was set is read back: a string without the white space around it, and nothing of a
/// setting that was cleared by `null` or by a blank string.
pub proof fn lemma_patch_is_read_back(config: ConfigView, incoming: Json)
    ensures
        forall|key: Seq<char>|
            key == "server_url"@ || key == "auth_token"@ || key == "workspace_id"@ ==> (
            match incoming.member(key) {
                Some(Json::Str(value)) => #[trigger] config.after_patch(incoming).json().text(key)
                    == if is_blank(value) {
                    None
                } else {
                    Some(trimmed(value))
                },
                Some(Json::Null) => config.after_patch(incoming).json().member(key) == Some(
                    Json::Null,
                ),
                _ => config.after_patch(incoming).json().text(key) == config.json().text(key),
            }),
{
    assert forall|c: ConfigView|
        ({
            &&& (#[trigger] c.json()).member("auth_token"@) == Some(nullable(c.auth_token))
            &&& c.json().member("server_url"@) == Some(nullable(c.server_url))
            &&& c.json().member("workspace_id"@) == Some(nullable(c.workspace_id))
        }) by {
        reveal_strlit("auth_token");
        reveal_strlit("server_url");
        reveal_strlit("workspace_id");
        let all = c.json()->Object_0;
        assert("auth_token"@[0] != "server_url"@[0]);
        assert("auth_token"@[0] != "workspace_id"@[0]);
        assert("server_url"@[0] != "workspace_id"@[0]);
        reveal_with_fuel(json::first_member, 4);
        assert(all.drop_first()[0] == all[1]);
        assert(all.drop_first().drop_first()[0] == all[2]);
    }
    assert(config.json().member("auth_token"@) == Some(nullable(config.auth_token)));
    let after = config.after_patch(incoming);
    assert(after.json().member("auth_token"@) == Some(nullable(after.auth_token)));
}

/// The document of a configuration is written down as `serde_json` holds it.
pub proof fn lemma_config_is_plain(config: ConfigView)
    ensures
        is_plain(config.json()),
{
    let members = config.json()->Object_0;
    reveal_strlit("auth_token");
    reveal_strlit("server_url");
    reveal_strlit("workspace_id");
    assert(precedes("auth_token"@, "server_url"@));
    assert(precedes("auth_token"@, "workspace_id"@));
    assert(precedes("server_url"@, "workspace_id"@));
    assert forall|i: int| 0 <= i < members.len() implies is_plain((#[trigger] members[i]).1) by {
        json::lemma_plain_leaf(members[i].1);
    }
    json::lemma_plain_object(members);
}

/// A file below the root of the workspace has the path that leads to it from the root.
pub proof fn lemma_relative_path_strips_root(root: Seq<char>, path: Seq<char>)
    requires
        trimmed(root) == root,
        root.len() > 0,
        root != "."@,
        root.last() != '/',
        root.last() != '\\',
    ensures
        relative_path(Some(root), root + "/"@ + path) == with_slashes(path),
{
    reveal_strlit("/");
    let r = with_slashes(root);
    assert(r.last() == root.last());
    assert(trimmed_end_of(r, '/') == r);
    let full = with_slashes(root + "/"@ + path);
    let prefix = r + "/"@;
    assert(full =~= prefix + with_slashes(path));
    assert(prefix =~= full.take(prefix.len() as int));
    assert(full.skip(prefix.len() as int) =~= with_slashes(path));
}

} // verus!
