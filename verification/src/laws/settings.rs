//! Settings: which server, token and namespace count, and what is told of them.

use vstd::prelude::*;
use vstd::string::*;

use crate::config::{is_for_us, relative_path, server_base, ConfigView, InitParams, SettingsView};
use crate::json::{first_member, Json, JsonNumber};
use crate::state::StateView;
use crate::status::{lacking, readiness_json, status_json};
use crate::sync_manifest::{FileEntryView, ManifestView, SyncState};
use crate::text::{is_blank, trimmed, trimmed_end_of, with_slashes};

verus! {

// ---------------------------------------------------------------------------
// Configuration
// ---------------------------------------------------------------------------

/// An address that has no white space around it and does not end in a slash, `/sync` or `/sync2`
/// is used as it is.
pub proof fn lemma_bare_servers_are_used_as_they_are(url: Seq<char>)
    requires
        trimmed(url) == url,
        url.len() > 0 ==> url.last() != '/',
        !"/sync"@.is_suffix_of(url),
        !"/sync2"@.is_suffix_of(url),
    ensures
        server_base(url) == url,
{
}

/// The server of a command is the one that it names; else the one that is configured; else the
/// one of the host's context, unless that is blank; else there is none.
pub proof fn lemma_which_server(settings: SettingsView, params: Json, url: Seq<char>)
    ensures
        params.member("server_url"@) == Some(Json::Str(url)) ==> settings.server(params) == Some(
            server_base(url),
        ),
        params.text("server_url"@) is None ==> {
            &&& settings.config.server_url == Some(url) ==> settings.server(params) == Some(
                server_base(url),
            )
            &&& settings.config.server_url is None ==> {
                &&& (settings.runtime matches Some(runtime) ==> {
                    &&& runtime.member("server_url"@) == Some(Json::Str(url)) && !is_blank(url)
                        ==> settings.server(params) == Some(server_base(trimmed(url)))
                    &&& runtime.member("server_url"@) == Some(Json::Str(url)) && is_blank(url)
                        ==> settings.server(params) is None
                    &&& runtime.text("server_url"@) is None ==> settings.server(params) is None
                })
                &&& settings.runtime is None ==> settings.server(params) is None
            }
        },
        settings.server_for(Some(url)) == Some(server_base(url)),
        params.text("server_url"@) is None ==> settings.server_for(None) == settings.server(params),
{
}

/// The token of a command is the one that it names; else the one that is configured; else the one
/// of the host's context, unless that is blank; else there is none.
pub proof fn lemma_which_token(settings: SettingsView, params: Json, token: Seq<char>)
    ensures
        params.member("auth_token"@) == Some(Json::Str(token)) ==> settings.token(params) == Some(
            token,
        ),
        params.text("auth_token"@) is None ==> {
            &&& settings.config.auth_token == Some(token) ==> settings.token(params) == Some(token)
            &&& settings.config.auth_token is None ==> {
                &&& (settings.runtime matches Some(runtime) ==> {
                    &&& runtime.member("auth_token"@) == Some(Json::Str(token)) && !is_blank(token)
                        ==> settings.token(params) == Some(trimmed(token))
                    &&& runtime.member("auth_token"@) == Some(Json::Str(token)) && is_blank(token)
                        ==> settings.token(params) is None
                    &&& runtime.text("auth_token"@) is None ==> settings.token(params) is None
                })
                &&& settings.runtime is None ==> settings.token(params) is None
            }
        },
        settings.token_for(Some(token)) == Some(token),
        params.text("auth_token"@) is None ==> settings.token_for(None) == settings.token(params),
{
}

/// The namespace of a command is the one that it names; else the one that is configured; else the
/// one that the plugin holds; and a blank one is none.
pub proof fn lemma_which_namespace(
    settings: SettingsView,
    params: Json,
    held: Option<Seq<char>>,
    id: Seq<char>,
)
    ensures
        params.member("namespace_id"@) == Some(Json::Str(id)) ==> settings.namespace(params, held)
            == (if is_blank(id) {
            None
        } else {
            Some(id)
        }),
        params.text("namespace_id"@) is None && settings.config.workspace_id == Some(id)
            ==> settings.namespace(params, held) == (if is_blank(id) {
            None
        } else {
            Some(id)
        }),
        params.text("namespace_id"@) is None && settings.config.workspace_id is None && held
            == Some(id) ==> settings.namespace(params, held) == (if is_blank(id) {
            None
        } else {
            Some(id)
        }),
        params.text("namespace_id"@) is None && settings.config.workspace_id is None
            && held is None ==> settings.namespace(params, held) is None,
{
}

/// A command is for this provider if it names it, or none at all.
pub proof fn lemma_which_provider(params: Json)
    ensures
        params.text("provider_id"@) is None ==> is_for_us(params),
        params.member("provider_id"@) == Some(Json::Str("sync"@)) ==> is_for_us(params),
        params.member("provider_id"@) == Some(Json::Str("diaryx.sync"@)) ==> is_for_us(params),
        (params.member("provider_id"@) matches Some(Json::Str(other)) ==> (other != "sync"@
            && other != "diaryx.sync"@ ==> !is_for_us(params))),
{
}

/// A patch sets a setting to the text that it gives, without the white space around it; `null`
/// and a blank text clear it; anything else, and nothing, leaves it.
pub proof fn lemma_patches(config: ConfigView, incoming: Json, value: Seq<char>)
    ensures
        ({
            let after = config.after_patch(incoming);
            &&& incoming.member("server_url"@) == Some(Json::Str(value)) ==> after.server_url == (
            if is_blank(value) {
                None
            } else {
                Some(trimmed(value))
            })
            &&& incoming.member("auth_token"@) == Some(Json::Str(value)) ==> after.auth_token == (
            if is_blank(value) {
                None
            } else {
                Some(trimmed(value))
            })
            &&& incoming.member("workspace_id"@) == Some(Json::Str(value)) ==> after.workspace_id
                == (if is_blank(value) {
                None
            } else {
                Some(trimmed(value))
            })
            &&& incoming.member("server_url"@) == Some(Json::Null) ==> after.server_url is None
            &&& incoming.member("auth_token"@) == Some(Json::Null) ==> after.auth_token is None
            &&& incoming.member("workspace_id"@) == Some(Json::Null) ==> after.workspace_id is None
            &&& (incoming.member("server_url"@) matches Some(other) ==> (!(other is Null)
                && !(other is Str) ==> after.server_url == config.server_url))
            &&& (incoming.member("auth_token"@) matches Some(other) ==> (!(other is Null)
                && !(other is Str) ==> after.auth_token == config.auth_token))
            &&& (incoming.member("workspace_id"@) matches Some(other) ==> (!(other is Null)
                && !(other is Str) ==> after.workspace_id == config.workspace_id))
            &&& incoming.member("server_url"@) is None ==> after.server_url == config.server_url
            &&& incoming.member("auth_token"@) is None ==> after.auth_token == config.auth_token
            &&& incoming.member("workspace_id"@) is None ==> after.workspace_id
                == config.workspace_id
        }),
{
}

/// To link changes the workspace of the configuration, and nothing else.
pub proof fn lemma_linked_configurations(config: ConfigView, id: Option<Seq<char>>)
    ensures
        config.linked(id).workspace_id == id,
        config.linked(id).server_url == config.server_url,
        config.linked(id).auth_token == config.auth_token,
{
}

/// The document of a configuration gives every setting as it is, and `null` for one that is not
/// set.
pub proof fn lemma_configurations_are_told(config: ConfigView)
    ensures
        config.json().member("server_url"@) == Some(
            match config.server_url {
                Some(s) => Json::Str(s),
                None => Json::Null,
            },
        ),
        config.json().member("auth_token"@) == Some(
            match config.auth_token {
                Some(s) => Json::Str(s),
                None => Json::Null,
            },
        ),
        config.json().member("workspace_id"@) == Some(
            match config.workspace_id {
                Some(s) => Json::Str(s),
                None => Json::Null,
            },
        ),
{
    reveal_strlit("auth_token");
    reveal_strlit("server_url");
    reveal_strlit("workspace_id");
    assert("auth_token"@[0] != "server_url"@[0]);
    assert("auth_token"@[0] != "workspace_id"@[0]);
    assert("server_url"@[0] != "workspace_id"@[0]);
    reveal_with_fuel(first_member, 4);
    let all = config.json()->Object_0;
    assert(all.drop_first()[0] == all[1]);
    assert(all.drop_first().drop_first()[0] == all[2]);
}

/// What the host gives at the start replaces what is stored, setting by setting.
pub proof fn lemma_started_configurations(config: ConfigView, params: InitParams)
    ensures
        ({
            let after = config.after_init(params);
            &&& (params.server_url matches Some(s) ==> after.server_url == Some(s@))
            &&& (params.auth_token matches Some(s) ==> after.auth_token == Some(s@))
            &&& (params.workspace_id matches Some(s) ==> after.workspace_id == Some(s@))
            &&& params.server_url is None ==> after.server_url == config.server_url
            &&& params.auth_token is None ==> after.auth_token == config.auth_token
            &&& params.workspace_id is None ==> after.workspace_id == config.workspace_id
        }),
{
}

/// Without a root, with a blank one and with `.`, a path is relative already; so is one that does
/// not lie below the root.
pub proof fn lemma_paths_that_are_relative(root: Option<Seq<char>>, path: Seq<char>)
    ensures
        root is None ==> relative_path(root, path) == with_slashes(path),
        (root matches Some(r) ==> (is_blank(r) || trimmed(r) == "."@ ==> relative_path(root, path)
            == with_slashes(path))),
        (root matches Some(r) ==> ((forall|rest: Seq<char>|
            with_slashes(path) != #[trigger] (trimmed_end_of(with_slashes(trimmed(r)), '/') + "/"@
                + rest)) ==> relative_path(root, path) == with_slashes(path))),
{
    reveal_with_fuel(crate::text::trimmed_start, 1);
    assert(trimmed(Seq::<char>::empty()).len() == 0);
    if let Some(r) = root {
        let prefix = trimmed_end_of(with_slashes(trimmed(r)), '/') + "/"@;
        crate::laws::texts::lemma_prefixes(with_slashes(path), prefix);
    }
}

/// A path that lies below the root is relative to it: what follows the root, without the slashes
/// at its end, and one slash.
pub proof fn lemma_paths_below_the_root(root: Seq<char>, path: Seq<char>, rest: Seq<char>)
    requires
        !is_blank(root),
        trimmed(root) != "."@,
        with_slashes(path) == trimmed_end_of(with_slashes(trimmed(root)), '/') + "/"@ + rest,
    ensures
        relative_path(Some(root), path) == rest,
{
    let prefix = trimmed_end_of(with_slashes(trimmed(root)), '/') + "/"@;
    crate::laws::texts::lemma_prefixes(with_slashes(path), prefix);
    assert(with_slashes(path) == prefix + rest);
}

// ---------------------------------------------------------------------------
// State
// ---------------------------------------------------------------------------

/// With another namespace the plugin takes up the manifest that is stored, if it is of this
/// namespace, and else one that knows of nothing.
pub proof fn lemma_taken_up_manifests(
    state: StateView,
    id: Seq<char>,
    stored: Option<ManifestView>,
)
    ensures
        ({
            let after = state.with_namespace(Some(id), stored);
            let unlinked = state.with_namespace(None, stored);
            &&& after.namespace_id == Some(id)
            &&& after.workspace_root == state.workspace_root
            &&& after.manifest is Some
            &&& (stored matches Some(m) ==> (m.namespace_id == id ==> after.manifest == Some(m)))
            &&& (stored is None || stored->0.namespace_id != id) ==> {
                &&& after.manifest->0.namespace_id == id
                &&& after.manifest->0.files == Map::<Seq<char>, FileEntryView>::empty()
                &&& after.manifest->0.last_sync_at is None
                &&& after.manifest->0.pending_deletes.len() == 0
            }
            &&& unlinked.namespace_id is None
            &&& unlinked.workspace_root == state.workspace_root
            &&& unlinked.manifest is Some
            &&& unlinked.manifest->0.namespace_id.len() == 0
            &&& unlinked.manifest->0.files == Map::<Seq<char>, FileEntryView>::empty()
            &&& unlinked.manifest->0.last_sync_at is None
            &&& unlinked.manifest->0.pending_deletes.len() == 0
        }),
{
}

/// A plugin that is off holds nothing.
pub proof fn lemma_off_is_empty()
    ensures
        StateView::off().manifest is None,
        StateView::off().workspace_root is None,
        StateView::off().namespace_id is None,
{
}

// ---------------------------------------------------------------------------
// Status
// ---------------------------------------------------------------------------

/// The paths in a state are those that are followed and whose entry is in it.
pub proof fn lemma_paths_in_a_state(manifest: ManifestView, state: SyncState, path: Seq<char>)
    ensures
        manifest.in_state(state).contains(path) <==> manifest.files.contains_key(path)
            && manifest.files[path].state == state,
{
}

/// The status tells how many files are changed, how many are in sync and how many removals are
/// pending, and when the last cycle was.
pub proof fn lemma_status_tells(config: ConfigView, manifest: ManifestView)
    requires
        manifest.in_state(SyncState::Dirty).len() <= u64::MAX,
        manifest.in_state(SyncState::Clean).len() <= u64::MAX,
        manifest.pending_deletes.len() <= u64::MAX,
    ensures
        ({
            let status = status_json(config, Some(manifest));
            let dirty = manifest.in_state(SyncState::Dirty).len();
            &&& (status.member("dirty_count"@) matches Some(Json::Number(JsonNumber::PosInt(n)))
                && n == dirty)
            &&& (status.member("clean_count"@) matches Some(Json::Number(JsonNumber::PosInt(n)))
                && n == manifest.in_state(SyncState::Clean).len())
            &&& (status.member("pending_deletes"@) matches Some(
                Json::Number(JsonNumber::PosInt(n)),
            ) && n == manifest.pending_deletes.len())
            &&& status.member("last_sync_at"@) == Some(
                match manifest.last_sync_at {
                    Some(t) => Json::Number(JsonNumber::PosInt(t)),
                    None => Json::Null,
                },
            )
            &&& status.member("state"@) == Some(
                Json::Str(
                    if dirty > 0 {
                        "dirty"@
                    } else {
                        "synced"@
                    },
                ),
            )
            &&& status.member("label"@) == Some(
                Json::Str(
                    if config.workspace_id is None || is_blank(config.workspace_id->0) {
                        "Not linked"@
                    } else if dirty > 0 {
                        "Modified"@
                    } else {
                        "Synced"@
                    },
                ),
            )
        }),
{
    lemma_status_members(config, Some(manifest));
}

proof fn lemma_status_members(config: ConfigView, manifest: Option<ManifestView>)
    ensures
        ({
            let status = status_json(config, manifest);
            let all = status->Object_0;
            &&& status.member("clean_count"@) == Some(all[0].1)
            &&& status.member("dirty_count"@) == Some(all[1].1)
            &&& status.member("label"@) == Some(all[2].1)
            &&& status.member("last_sync_at"@) == Some(all[3].1)
            &&& status.member("pending_deletes"@) == Some(all[4].1)
            &&& status.member("state"@) == Some(all[5].1)
        }),
{
    reveal_strlit("clean_count");
    reveal_strlit("dirty_count");
    reveal_strlit("label");
    reveal_strlit("last_sync_at");
    reveal_strlit("pending_deletes");
    reveal_strlit("state");
    assert("clean_count"@[0] == 'c');
    assert("dirty_count"@[0] == 'd');
    assert("label"@[0] == 'l' && "label"@.len() == 5);
    assert("last_sync_at"@[0] == 'l' && "last_sync_at"@.len() == 12);
    assert("pending_deletes"@[0] == 'p');
    assert("state"@[0] == 's');
    let status = status_json(config, manifest);
    let all = status->Object_0;
    crate::laws::listings::lemma_members_are_found(all, "clean_count"@, 0);
    crate::laws::listings::lemma_members_are_found(all, "dirty_count"@, 1);
    crate::laws::listings::lemma_members_are_found(all, "label"@, 2);
    crate::laws::listings::lemma_members_are_found(all, "last_sync_at"@, 3);
    crate::laws::listings::lemma_members_are_found(all, "pending_deletes"@, 4);
    crate::laws::listings::lemma_members_are_found(all, "state"@, 5);
}

/// Without a manifest the status counts nothing.
pub proof fn lemma_status_of_nothing(config: ConfigView)
    ensures
        ({
            let status = status_json(config, None);
            let zero = Some(Json::Number(JsonNumber::PosInt(0)));
            &&& status.member("dirty_count"@) == zero
            &&& status.member("clean_count"@) == zero
            &&& status.member("pending_deletes"@) == zero
            &&& status.member("last_sync_at"@) == Some(Json::Null)
            &&& status.member("state"@) == Some(Json::Str("synced"@))
            &&& status.member("label"@) == Some(
                Json::Str(
                    if config.workspace_id is None || is_blank(config.workspace_id->0) {
                        "Not linked"@
                    } else {
                        "Synced"@
                    },
                ),
            )
        }),
{
    lemma_status_members(config, None);
}

/// The provider is ready exactly if it is the one that is asked for and has a server and a token,
/// neither of them blank; else it says what is missing first.
pub proof fn lemma_readiness(params: Json, settings: SettingsView)
    ensures
        ({
            let answer = readiness_json(lacking(params, settings));
            let server = settings.server(params) is Some && !is_blank(settings.server(params)->0);
            let token = settings.token(params) is Some && !is_blank(settings.token(params)->0);
            &&& answer.member("ready"@) == Some(
                Json::Bool(is_for_us(params) && server && token),
            )
            &&& answer.member("message"@) == Some(
                if !is_for_us(params) {
                    Json::Str("Unsupported provider"@)
                } else if !server {
                    Json::Str("Sync server URL is not configured"@)
                } else if !token {
                    Json::Str("Sign in to enable sync"@)
                } else {
                    Json::Null
                },
            )
        }),
{
    reveal_strlit("message");
    reveal_strlit("ready");
    assert("message"@[0] != "ready"@[0]);
    let all = readiness_json(lacking(params, settings))->Object_0;
    crate::laws::listings::lemma_members_are_found(all, "message"@, 0);
    crate::laws::listings::lemma_members_are_found(all, "ready"@, 1);
}

} // verus!
