//! What the plugin says of itself.

use vstd::prelude::*;
use vstd::string::*;

use crate::config;
use crate::config::{is_for_us, ConfigView, Settings, SettingsView, SyncExtismConfig};
use crate::json;
use crate::json::{is_plain, Json, JsonNumber, JsonValue};
use crate::key_map::precedes;
use crate::state::PluginState;
use crate::sync_manifest::{ManifestView, SyncState};
use crate::text;
use crate::text::is_blank;

verus! {

// ---------------------------------------------------------------------------
// Models
// ---------------------------------------------------------------------------

/// A number as a JSON document.
pub open spec fn number_json(n: nat) -> Json {
    Json::Number(JsonNumber::PosInt(n as u64))
}

/// An optional number as a JSON document: `null` if there is none.
pub open spec fn nullable_number(n: Option<u64>) -> Json {
    match n {
        Some(n) => Json::Number(JsonNumber::PosInt(n)),
        None => Json::Null,
    }
}

/// How many paths are in a given state.
pub open spec fn count_in(manifest: Option<ManifestView>, state: SyncState) -> nat {
    match manifest {
        Some(m) => m.in_state(state).len(),
        None => 0,
    }
}

/// The text that stands for the state of the sync.
pub open spec fn status_label(config: ConfigView, dirty: nat) -> Seq<char> {
    if config.workspace_id is None || is_blank(config.workspace_id->0) {
        "Not linked"@
    } else if dirty > 0 {
        "Modified"@
    } else {
        "Synced"@
    }
}

/// The state of the sync.
pub open spec fn status_json(config: ConfigView, manifest: Option<ManifestView>) -> Json {
    let dirty = count_in(manifest, SyncState::Dirty);
    Json::Object(
        seq![
            ("clean_count"@, number_json(count_in(manifest, SyncState::Clean))),
            ("dirty_count"@, number_json(dirty)),
            ("label"@, Json::Str(status_label(config, dirty))),
            (
                "last_sync_at"@,
                nullable_number(
                    match manifest {
                        Some(m) => m.last_sync_at,
                        None => None,
                    },
                ),
            ),
            (
                "pending_deletes"@,
                number_json(
                    match manifest {
                        Some(m) => m.pending_deletes.len(),
                        None => 0,
                    },
                ),
            ),
            (
                "state"@,
                Json::Str(
                    if dirty > 0 {
                        "dirty"@
                    } else {
                        "synced"@
                    },
                ),
            ),
        ],
    )
}

/// Whether the provider is ready, and if not, why.
pub open spec fn readiness_json(message: Option<Seq<char>>) -> Json {
    Json::Object(
        seq![
            (
                "message"@,
                match message {
                    Some(m) => Json::Str(m),
                    None => Json::Null,
                },
            ),
            ("ready"@, Json::Bool(message is None)),
        ],
    )
}

/// Whether there is a text that is not blank.
pub open spec fn is_given(s: Option<Seq<char>>) -> bool {
    s is Some && !is_blank(s->0)
}

/// What the provider lacks: it needs a server and a token, in this order.
pub open spec fn lacking(params: Json, settings: SettingsView) -> Option<Seq<char>> {
    if !is_for_us(params) {
        Some("Unsupported provider"@)
    } else if !is_given(settings.server(params)) {
        Some("Sync server URL is not configured"@)
    } else if !is_given(settings.token(params)) {
        Some("Sign in to enable sync"@)
    } else {
        None
    }
}

// ---------------------------------------------------------------------------
// Functions
// ---------------------------------------------------------------------------

/// The state of the sync.
pub fn sync_status_from_state(config: &SyncExtismConfig, state: &PluginState) -> (r: JsonValue)
    ensures
        r@ == status_json(config@, state@.manifest),
        is_plain(r@),
{
    let has_workspace_id: bool = match &config.workspace_id {
        Some(id) => !text::blank(id.as_str()),
        None => false,
    };
    let (dirty, clean, last_sync, pending_deletes): (usize, usize, Option<u64>, usize) =
        match &state.manifest {
        Some(m) => (m.dirty_count(), m.clean_count(), m.last_sync_at, m.pending_deletes.len()),
        None => (0, 0, None, 0),
    };
    let label: &str = if !has_workspace_id {
        "Not linked"
    } else if dirty > 0 {
        "Modified"
    } else {
        "Synced"
    };
    let word: &str = if dirty > 0 {
        "dirty"
    } else {
        "synced"
    };
    let last: JsonValue = match last_sync {
        Some(t) => json::unsigned(t),
        None => JsonValue::Null,
    };
    let r = json::object(
        vec![
            json::member("clean_count", json::unsigned(clean as u64)),
            json::member("dirty_count", json::unsigned(dirty as u64)),
            json::member("label", json::string(label)),
            json::member("last_sync_at", last),
            json::member("pending_deletes", json::unsigned(pending_deletes as u64)),
            json::member("state", json::string(word)),
        ],
    );
    proof {
        assert(r@->Object_0 =~= status_json(config@, state@.manifest)->Object_0);
        lemma_status_is_plain(config@, state@.manifest);
    }
    r
}

/// Whether the provider is ready, and if not, why.
fn readiness(message: Option<&str>) -> (r: JsonValue)
    ensures
        r@ == readiness_json(
            match message {
                Some(m) => Some(m@),
                None => None,
            },
        ),
        is_plain(r@),
{
    let why: JsonValue = match message {
        Some(m) => json::string(m),
        None => JsonValue::Null,
    };
    let r = json::object(
        vec![
            json::member("message", why),
            json::member("ready", JsonValue::Bool(message.is_none())),
        ],
    );
    proof {
        let members = r@->Object_0;
        assert(members =~= readiness_json(
            match message {
                Some(m) => Some(m@),
                None => None,
            },
        )->Object_0);
        reveal_strlit("message");
        reveal_strlit("ready");
        assert(precedes("message"@, "ready"@));
        assert forall|i: int| 0 <= i < members.len() implies is_plain((#[trigger] members[i]).1) by {
            json::lemma_plain_leaf(members[i].1);
        }
        json::lemma_plain_object(members);
    }
    r
}

/// Whether there is a text that is not blank.
fn given(s: &Option<String>) -> (r: bool)
    ensures
        r == is_given(json::optional_text(*s)),
{
    match s {
        Some(s) => !text::blank(s.as_str()),
        None => false,
    }
}

/// Whether the provider is ready, and if not, why.
pub fn handle_get_provider_status(params: &JsonValue, settings: &Settings) -> (r: JsonValue)
    ensures
        r@ == readiness_json(lacking(params@, settings@)),
        is_plain(r@),
{
    if !config::provider_supported(params) {
        return readiness(Some("Unsupported provider"));
    }
    if !given(&config::resolve_server_url(params, settings)) {
        return readiness(Some("Sync server URL is not configured"));
    }
    if !given(&config::resolve_auth_token(params, settings)) {
        return readiness(Some("Sign in to enable sync"));
    }
    readiness(None)
}

// ---------------------------------------------------------------------------
// Laws
// ---------------------------------------------------------------------------

/// The document of a status is written down as `serde_json` holds it.
pub proof fn lemma_status_is_plain(config: ConfigView, manifest: Option<ManifestView>)
    ensures
        is_plain(status_json(config, manifest)),
{
    let members = status_json(config, manifest)->Object_0;
    reveal_strlit("clean_count");
    reveal_strlit("dirty_count");
    reveal_strlit("label");
    reveal_strlit("last_sync_at");
    reveal_strlit("pending_deletes");
    reveal_strlit("state");
    assert(precedes("label"@, "last_sync_at"@)) by {
        reveal_with_fuel(precedes, 4);
    }
    assert forall|i: int| 0 <= i < members.len() implies is_plain((#[trigger] members[i]).1) by {
        json::lemma_plain_leaf(members[i].1);
    }
    let keys = json::keys_of(members);
    assert forall|i: int, j: int| 0 <= i < j < keys.len() implies precedes(
        #[trigger] keys[i],
        #[trigger] keys[j],
    ) by {
        assert(keys[i] == members[i].0);
        assert(keys[j] == members[j].0);
    }
    json::lemma_plain_object(members);
}

/// The status says that there are changes exactly if a path is dirty.
pub proof fn lemma_status_shows_changes(config: ConfigView, manifest: ManifestView, path: Seq<char>)
    requires
        manifest.files.dom().finite(),
        manifest.entry(path) matches Some(e) && e.state is Dirty,
    ensures
        status_json(config, Some(manifest)).text("state"@) == Some("dirty"@),
        count_in(Some(manifest), SyncState::Dirty) > 0,
{
    let dirty = manifest.in_state(SyncState::Dirty);
    assert(dirty.contains(path));
    assert(dirty.len() > 0) by {
        if dirty.len() == 0 {
            assert(dirty.finite());
            assert(dirty =~= Set::empty());
        }
    }
    reveal_strlit("clean_count");
    reveal_strlit("dirty_count");
    reveal_strlit("label");
    reveal_strlit("last_sync_at");
    reveal_strlit("pending_deletes");
    reveal_strlit("state");
    let all = status_json(config, Some(manifest))->Object_0;
    assert(all[0].0[0] != "state"@[0]);
    assert(all[1].0[0] != "state"@[0]);
    assert(all[2].0[0] != "state"@[0]);
    assert(all[3].0[0] != "state"@[0]);
    assert(all[4].0[0] != "state"@[0]);
    reveal_with_fuel(json::first_member, 7);
    assert(all.drop_first()[0] == all[1]);
    assert(all.drop_first().drop_first()[0] == all[2]);
    assert(all.drop_first().drop_first().drop_first()[0] == all[3]);
    assert(all.drop_first().drop_first().drop_first().drop_first()[0] == all[4]);
    assert(all.drop_first().drop_first().drop_first().drop_first().drop_first()[0] == all[5]);
}

} // verus!
