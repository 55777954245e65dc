//! Filesystem events from the host.

use vstd::prelude::*;
use vstd::string::*;

use crate::config;
use crate::config::relative_path;
use crate::json::{Json, JsonValue};
use crate::state;
use crate::state::{PluginState, StateView};
use crate::sync_engine::paths::object_key;
use crate::sync_manifest::ManifestView;
use crate::text;

verus! {

// ---------------------------------------------------------------------------
// Models
// ---------------------------------------------------------------------------

/// The key of the object for a file that the host names.
pub open spec fn event_key(state: StateView, path: Seq<char>) -> Seq<char> {
    object_key(relative_path(state.workspace_root, path))
}

impl StateView {
    /// The state with another manifest, if there is one.
    pub open spec fn mapped(self, f: spec_fn(ManifestView) -> ManifestView) -> StateView {
        match self.manifest {
            Some(m) => StateView { manifest: Some(f(m)), ..self },
            None => self,
        }
    }
}

/// The state after an event: a saved or created file is marked dirty, a deleted file is
/// recorded as deleted, and a renamed or moved file is both, under the one name and the other.
/// Any other event, and one that names no file, changes nothing.
pub open spec fn after_event(
    state: StateView,
    event_type: Seq<char>,
    payload: Json,
    deleted_at: Option<u64>,
    modified_at: Option<u64>,
) -> StateView {
    if event_type == "file_saved"@ || event_type == "file_created"@ {
        match payload.text("path"@) {
            Some(path) => state.mapped(
                |m: ManifestView| m.dirtied(event_key(state, path), modified_at),
            ),
            None => state,
        }
    } else if event_type == "file_deleted"@ {
        match payload.text("path"@) {
            Some(path) => state.mapped(
                |m: ManifestView| m.deleted(event_key(state, path), deleted_at),
            ),
            None => state,
        }
    } else if event_type == "file_renamed"@ || event_type == "file_moved"@ {
        match (payload.text("old_path"@), payload.text("new_path"@)) {
            (Some(from), Some(to)) => state.mapped(
                |m: ManifestView|
                    m.deleted(event_key(state, from), deleted_at).dirtied(
                        event_key(state, to),
                        modified_at,
                    ),
            ),
            _ => state,
        }
    } else {
        state
    }
}

// ---------------------------------------------------------------------------
// Functions
// ---------------------------------------------------------------------------

/// The key of the object for a file that the host names.
fn key_for(root: &Option<String>, path: &str) -> (key: String)
    ensures
        key@ == object_key(relative_path(crate::json::optional_text(*root), path@)),
{
    let relative: String = config::workspace_relative_path(root, path);
    text::join("files/", relative.as_str())
}

/// Handle a filesystem/workspace event from the host, where `deleted_at` and `modified_at` are
/// readings of the clock.
pub fn on_event(
    state: &mut PluginState,
    event_type: &str,
    payload: &JsonValue,
    deleted_at: Option<u64>,
    modified_at: Option<u64>,
)
    ensures
        final(state)@ == after_event(
            old(state)@,
            event_type@,
            payload@,
            deleted_at,
            modified_at,
        ),
{
    if text::same(event_type, "file_saved") || text::same(event_type, "file_created") {
        match payload.text("path") {
            Some(path) => {
                let key: String = key_for(&state.workspace_root, path.as_str());
                match state::with_manifest_mut(state) {
                    Some(m) => m.mark_dirty(key.as_str(), modified_at),
                    None => {},
                }
            },
            None => {},
        }
    } else if text::same(event_type, "file_deleted") {
        match payload.text("path") {
            Some(path) => {
                let key: String = key_for(&state.workspace_root, path.as_str());
                match state::with_manifest_mut(state) {
                    Some(m) => m.record_delete(key.as_str(), deleted_at),
                    None => {},
                }
            },
            None => {},
        }
    } else if text::same(event_type, "file_renamed") || text::same(event_type, "file_moved") {
        match (payload.text("old_path"), payload.text("new_path")) {
            (Some(from), Some(to)) => {
                let old_key: String = key_for(&state.workspace_root, from.as_str());
                let new_key: String = key_for(&state.workspace_root, to.as_str());
                match state::with_manifest_mut(state) {
                    Some(m) => {
                        m.record_delete(old_key.as_str(), deleted_at);
                        m.mark_dirty(new_key.as_str(), modified_at);
                    },
                    None => {},
                }
            },
            _ => {},
        }
    }
}

// ---------------------------------------------------------------------------
// Laws
// ---------------------------------------------------------------------------

/// An event changes neither the namespace nor the root of the workspace, nor of which namespace
/// the manifest is, and a plugin that does not run is not changed at all.
pub proof fn lemma_events_change_the_manifest_only(
    state: StateView,
    event_type: Seq<char>,
    payload: Json,
    deleted_at: Option<u64>,
    modified_at: Option<u64>,
)
    ensures
        ({
            let after = after_event(state, event_type, payload, deleted_at, modified_at);
            &&& after.workspace_root == state.workspace_root
            &&& after.namespace_id == state.namespace_id
            &&& after.manifest is Some <==> state.manifest is Some
            &&& state.manifest is None ==> after == state
            &&& state.is_coherent() ==> after.is_coherent()
        }),
{
}

/// A file that is deleted after it was created is not followed any more, and its removal from
/// the server is pending.
pub proof fn lemma_created_and_deleted(
    state: StateView,
    payload: Json,
    path: Seq<char>,
    deleted_at: Option<u64>,
    modified_at: Option<u64>,
)
    requires
        state.manifest is Some,
        payload.text("path"@) == Some(path),
    ensures
        ({
            let created = after_event(state, "file_created"@, payload, deleted_at, modified_at);
            let after = after_event(created, "file_deleted"@, payload, deleted_at, modified_at);
            let key = event_key(state, path);
            &&& created.manifest->0.entry(key) matches Some(e) && e.state is Dirty
            &&& after.manifest->0.entry(key) is None
            &&& after.manifest->0.is_pending(key)
        }),
{
    reveal_strlit("file_saved");
    reveal_strlit("file_created");
    reveal_strlit("file_deleted");
    assert("file_deleted"@[5] != "file_saved"@[5]);
    assert("file_deleted"@[5] != "file_created"@[5]);
    let created = after_event(state, "file_created"@, payload, deleted_at, modified_at);
    let key = event_key(state, path);
    crate::sync_manifest::lemma_dirtied(state.manifest->0, key, modified_at);
    crate::sync_manifest::lemma_deleted(created.manifest->0, key, deleted_at, deleted_at);
}

/// A renamed file is followed under its new name as changed, and its removal under the old name
/// is pending, unless the two are the same to the workspace.
pub proof fn lemma_renamed(
    state: StateView,
    payload: Json,
    from: Seq<char>,
    to: Seq<char>,
    deleted_at: Option<u64>,
    modified_at: Option<u64>,
)
    requires
        state.manifest is Some,
        payload.text("old_path"@) == Some(from),
        payload.text("new_path"@) == Some(to),
        event_key(state, from) != event_key(state, to),
    ensures
        ({
            let after = after_event(state, "file_renamed"@, payload, deleted_at, modified_at);
            &&& after.manifest->0.entry(event_key(state, to)) matches Some(e) && e.state is Dirty
            &&& after.manifest->0.entry(event_key(state, from)) is None
            &&& after.manifest->0.is_pending(event_key(state, from))
        }),
{
    reveal_strlit("file_saved");
    reveal_strlit("file_created");
    reveal_strlit("file_deleted");
    reveal_strlit("file_renamed");
    assert("file_renamed"@[5] != "file_saved"@[5]);
    assert("file_renamed"@[5] != "file_created"@[5]);
    assert("file_renamed"@[5] != "file_deleted"@[5]);
    let m = state.manifest->0;
    let old_key = event_key(state, from);
    let new_key = event_key(state, to);
    crate::sync_manifest::lemma_deleted(m, old_key, deleted_at, deleted_at);
    crate::sync_manifest::lemma_dirtied(m.deleted(old_key, deleted_at), new_key, modified_at);
}

} // verus!
