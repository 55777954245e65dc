//! Changes that the host tells of, and what is recorded of them.

use vstd::prelude::*;
use vstd::string::*;

use crate::config::relative_path;
use crate::events::after_event;
use crate::json::Json;
use crate::state::StateView;
use crate::sync_manifest::{DeleteView, FileEntryView, ManifestView, SyncState};

verus! {

/// A file that is marked as changed keeps its hash, its size and its time, and one that was not
/// followed is followed from now on, with nothing known of its content. No other file is touched.
pub proof fn lemma_marked_changes(manifest: ManifestView, key: Seq<char>, now: Option<u64>)
    ensures
        ({
            let after = manifest.dirtied(key, now);
            &&& after.files.contains_key(key)
            &&& after.files[key].state == SyncState::Dirty
            &&& manifest.files.contains_key(key) ==> {
                &&& after.files[key].content_hash == manifest.files[key].content_hash
                &&& after.files[key].size_bytes == manifest.files[key].size_bytes
                &&& after.files[key].modified_at == manifest.files[key].modified_at
            }
            &&& !manifest.files.contains_key(key) ==> {
                &&& after.files[key].content_hash.len() == 0
                &&& after.files[key].size_bytes == 0
                &&& after.files[key].modified_at == (match now {
                    Some(t) => t,
                    None => 0,
                })
            }
            &&& forall|other: Seq<char>|
                other != key ==> (#[trigger] after.files.contains_key(other)
                    <==> manifest.files.contains_key(other))
            &&& forall|other: Seq<char>|
                other != key && manifest.files.contains_key(other) ==> #[trigger] after.files[other]
                    == manifest.files[other]
            &&& after.pending_deletes == manifest.pending_deletes
            &&& after.namespace_id == manifest.namespace_id
            &&& after.last_sync_at == manifest.last_sync_at
        }),
{
}

/// A file that is recorded as in sync has the hash, the size and the time that are given, and no
/// other file is touched.
pub proof fn lemma_recorded_files(
    manifest: ManifestView,
    key: Seq<char>,
    hash: Seq<char>,
    size: u64,
    at: u64,
)
    ensures
        ({
            let after = manifest.cleaned(key, hash, size, at);
            &&& after.files.contains_key(key)
            &&& after.files[key].content_hash == hash
            &&& after.files[key].size_bytes == size
            &&& after.files[key].modified_at == at
            &&& after.files[key].state == SyncState::Clean
            &&& forall|other: Seq<char>|
                other != key ==> (#[trigger] after.files.contains_key(other)
                    <==> manifest.files.contains_key(other))
            &&& forall|other: Seq<char>|
                other != key && manifest.files.contains_key(other) ==> #[trigger] after.files[other]
                    == manifest.files[other]
            &&& after.pending_deletes == manifest.pending_deletes
            &&& after.namespace_id == manifest.namespace_id
            &&& after.last_sync_at == manifest.last_sync_at
        }),
{
}

/// A file that is deleted is not followed any more, and its removal is pending, once, from the
/// first time on. No other file and no other removal is touched.
pub proof fn lemma_recorded_deletions(manifest: ManifestView, key: Seq<char>, now: Option<u64>)
    ensures
        ({
            let after = manifest.deleted(key, now);
            let known = exists|i: int|
                0 <= i < manifest.pending_deletes.len()
                    && (#[trigger] manifest.pending_deletes[i]).path == key;
            &&& !after.files.contains_key(key)
            &&& forall|other: Seq<char>|
                other != key ==> (#[trigger] after.files.contains_key(other)
                    <==> manifest.files.contains_key(other))
            &&& forall|other: Seq<char>|
                other != key && manifest.files.contains_key(other) ==> #[trigger] after.files[other]
                    == manifest.files[other]
            &&& known ==> after.pending_deletes == manifest.pending_deletes
            &&& !known ==> {
                &&& after.pending_deletes.len() == manifest.pending_deletes.len() + 1
                &&& after.pending_deletes.take(manifest.pending_deletes.len() as int)
                    == manifest.pending_deletes
                &&& after.pending_deletes.last().path == key
                &&& after.pending_deletes.last().deleted_at == (match now {
                    Some(t) => t,
                    None => 0,
                })
            }
            &&& after.namespace_id == manifest.namespace_id
            &&& after.last_sync_at == manifest.last_sync_at
        }),
{
    let after = manifest.deleted(key, now);
    if !manifest.is_pending(key) {
        assert(after.pending_deletes.take(manifest.pending_deletes.len() as int)
            =~= manifest.pending_deletes);
    }
}

/// A saved or created file is marked as changed under the key of its path.
pub proof fn lemma_saved_files(
    state: StateView,
    manifest: ManifestView,
    event: Seq<char>,
    payload: Json,
    path: Seq<char>,
    deleted_at: Option<u64>,
    modified_at: Option<u64>,
)
    requires
        state.manifest == Some(manifest),
        event == "file_saved"@ || event == "file_created"@,
        payload.member("path"@) == Some(Json::Str(path)),
    ensures
        ({
            let after = after_event(state, event, payload, deleted_at, modified_at);
            let key = "files/"@ + relative_path(state.workspace_root, path);
            &&& after.workspace_root == state.workspace_root
            &&& after.namespace_id == state.namespace_id
            &&& (after.manifest matches Some(m) && {
                &&& m.files.contains_key(key)
                &&& m.files[key].state == SyncState::Dirty
                &&& manifest.files.contains_key(key) ==> m.files[key] == (FileEntryView {
                    state: SyncState::Dirty,
                    ..manifest.files[key]
                })
                &&& !manifest.files.contains_key(key) ==> m.files[key] == (FileEntryView {
                    content_hash: Seq::empty(),
                    size_bytes: 0,
                    modified_at: match modified_at {
                        Some(t) => t,
                        None => 0,
                    },
                    state: SyncState::Dirty,
                })
                &&& forall|other: Seq<char>|
                    other != key ==> (#[trigger] m.files.contains_key(other)
                        <==> manifest.files.contains_key(other))
                &&& forall|other: Seq<char>|
                    other != key && manifest.files.contains_key(other) ==> #[trigger] m.files[other]
                        == manifest.files[other]
                &&& m.pending_deletes == manifest.pending_deletes
                &&& m.namespace_id == manifest.namespace_id
                &&& m.last_sync_at == manifest.last_sync_at
            })
        }),
{
}

/// A deleted file is not followed any more, and its removal from the server is pending, under the
/// key of its path.
pub proof fn lemma_deleted_files(
    state: StateView,
    manifest: ManifestView,
    payload: Json,
    path: Seq<char>,
    deleted_at: Option<u64>,
    modified_at: Option<u64>,
)
    requires
        state.manifest == Some(manifest),
        payload.member("path"@) == Some(Json::Str(path)),
    ensures
        ({
            let after = after_event(state, "file_deleted"@, payload, deleted_at, modified_at);
            let key = "files/"@ + relative_path(state.workspace_root, path);
            let known = exists|i: int|
                0 <= i < manifest.pending_deletes.len()
                    && (#[trigger] manifest.pending_deletes[i]).path == key;
            &&& after.workspace_root == state.workspace_root
            &&& after.namespace_id == state.namespace_id
            &&& (after.manifest matches Some(m) && {
                &&& !m.files.contains_key(key)
                &&& forall|other: Seq<char>|
                    other != key ==> (#[trigger] m.files.contains_key(other)
                        <==> manifest.files.contains_key(other))
                &&& forall|other: Seq<char>|
                    other != key && manifest.files.contains_key(other) ==> #[trigger] m.files[other]
                        == manifest.files[other]
                &&& known ==> m.pending_deletes == manifest.pending_deletes
                &&& !known ==> m.pending_deletes == manifest.pending_deletes.push(
                    DeleteView {
                        path: key,
                        deleted_at: match deleted_at {
                            Some(t) => t,
                            None => 0,
                        },
                    },
                )
                &&& m.namespace_id == manifest.namespace_id
                &&& m.last_sync_at == manifest.last_sync_at
            })
        }),
{
    reveal_strlit("file_saved");
    reveal_strlit("file_created");
    reveal_strlit("file_deleted");
    assert("file_deleted"@.len() != "file_saved"@.len());
    assert("file_deleted"@[5] != "file_created"@[5]);
}

/// A renamed or moved file is deleted under its old path and changed under its new one.
pub proof fn lemma_moved_files(
    state: StateView,
    manifest: ManifestView,
    event: Seq<char>,
    payload: Json,
    from: Seq<char>,
    to: Seq<char>,
    deleted_at: Option<u64>,
    modified_at: Option<u64>,
)
    requires
        state.manifest == Some(manifest),
        event == "file_renamed"@ || event == "file_moved"@,
        payload.member("old_path"@) == Some(Json::Str(from)),
        payload.member("new_path"@) == Some(Json::Str(to)),
    ensures
        ({
            let after = after_event(state, event, payload, deleted_at, modified_at);
            let old_key = "files/"@ + relative_path(state.workspace_root, from);
            let new_key = "files/"@ + relative_path(state.workspace_root, to);
            let known = exists|i: int|
                0 <= i < manifest.pending_deletes.len()
                    && (#[trigger] manifest.pending_deletes[i]).path == old_key;
            &&& after.workspace_root == state.workspace_root
            &&& after.namespace_id == state.namespace_id
            &&& (after.manifest matches Some(m) && {
                &&& m.files.contains_key(new_key)
                &&& m.files[new_key].state == SyncState::Dirty
                &&& old_key != new_key ==> !m.files.contains_key(old_key)
                &&& old_key != new_key && manifest.files.contains_key(new_key)
                    ==> m.files[new_key] == (FileEntryView {
                    state: SyncState::Dirty,
                    ..manifest.files[new_key]
                })
                &&& old_key == new_key || !manifest.files.contains_key(new_key) ==> {
                    &&& m.files[new_key].content_hash.len() == 0
                    &&& m.files[new_key].size_bytes == 0
                    &&& m.files[new_key].modified_at == (match modified_at {
                        Some(t) => t,
                        None => 0,
                    })
                }
                &&& forall|other: Seq<char>|
                    other != old_key && other != new_key ==> (#[trigger] m.files.contains_key(other)
                        <==> manifest.files.contains_key(other))
                &&& forall|other: Seq<char>|
                    other != old_key && other != new_key && manifest.files.contains_key(other)
                        ==> #[trigger] m.files[other] == manifest.files[other]
                &&& known ==> m.pending_deletes == manifest.pending_deletes
                &&& !known ==> m.pending_deletes == manifest.pending_deletes.push(
                    DeleteView {
                        path: old_key,
                        deleted_at: match deleted_at {
                            Some(t) => t,
                            None => 0,
                        },
                    },
                )
                &&& m.namespace_id == manifest.namespace_id
                &&& m.last_sync_at == manifest.last_sync_at
            })
        }),
{
    reveal_strlit("file_saved");
    reveal_strlit("file_created");
    reveal_strlit("file_deleted");
    reveal_strlit("file_renamed");
    reveal_strlit("file_moved");
    assert("file_renamed"@[5] == 'r');
    assert("file_moved"@[5] == 'm');
    assert("file_saved"@[5] == 's');
    assert("file_created"@[5] == 'c');
    assert("file_deleted"@[5] == 'd');
}

/// Any other event, one that names no file, and any event while there is no manifest, change
/// nothing.
pub proof fn lemma_other_events(
    state: StateView,
    event: Seq<char>,
    payload: Json,
    deleted_at: Option<u64>,
    modified_at: Option<u64>,
)
    ensures
        ({
            let after = after_event(state, event, payload, deleted_at, modified_at);
            &&& state.manifest is None ==> after == state
            &&& event != "file_saved"@ && event != "file_created"@ && event != "file_deleted"@
                && event != "file_renamed"@ && event != "file_moved"@ ==> after == state
            &&& payload.text("path"@) is None && (payload.text("old_path"@) is None
                || payload.text("new_path"@) is None) ==> after == state
        }),
{
}

} // verus!
