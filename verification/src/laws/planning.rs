//! What a plan holds: for every file, by what is known of it here, what is there now, and what the
//! server has.
//!
//! In all of these `keys` are the keys of the local files, and `entries[i]` is the last entry
//! that the server gives for `key`.

use vstd::prelude::*;
use vstd::string::*;

use crate::key_map::{ascending, precedes};
use crate::sync_engine::plan::{
    lemma_filter_members, lemma_plan_members, planned, server_entry, Action, LocalView, ServerView,
};
use crate::sync_manifest::{DeleteView, ManifestView, SyncState};

verus! {

/// The last entry of a key is the one that counts.
pub proof fn lemma_last_entry_counts(entries: Seq<ServerView>, key: Seq<char>, i: int)
    requires
        0 <= i < entries.len(),
        entries[i].key == key,
        forall|j: int| i < j < entries.len() ==> (#[trigger] entries[j]).key != key,
    ensures
        server_entry(entries, key) == Some(entries[i]),
    decreases entries.len(),
{
    if i < entries.len() - 1 {
        let rest = entries.drop_last();
        assert(entries[entries.len() - 1].key != key);
        assert forall|j: int| i < j < rest.len() implies (#[trigger] rest[j]).key != key by {
            assert(rest[j] == entries[j]);
        }
        lemma_last_entry_counts(rest, key, i);
    }
}

/// What the server has no entry of, it does not have.
pub proof fn lemma_no_entry(entries: Seq<ServerView>, key: Seq<char>)
    requires
        forall|j: int| 0 <= j < entries.len() ==> (#[trigger] entries[j]).key != key,
    ensures
        server_entry(entries, key) is None,
    decreases entries.len(),
{
    if entries.len() > 0 {
        let rest = entries.drop_last();
        assert(entries[entries.len() - 1].key != key);
        assert forall|j: int| 0 <= j < rest.len() implies (#[trigger] rest[j]).key != key by {
            assert(rest[j] == entries[j]);
        }
        lemma_no_entry(rest, key);
    }
}

/// A file that was changed here and not on the server is pushed, and neither pulled nor deleted,
/// whatever the times are: no local change is lost to an older copy.
pub proof fn lemma_local_changes_are_pushed(
    manifest: ManifestView,
    keys: Seq<Seq<char>>,
    local: Map<Seq<char>, LocalView>,
    entries: Seq<ServerView>,
    key: Seq<char>,
    i: int,
)
    requires
        forall|k: Seq<char>| #[trigger] local.contains_key(k) <==> keys.contains(k),
        local.contains_key(key),
        manifest.files.contains_key(key),
        0 <= i < entries.len(),
        entries[i].key == key,
        forall|j: int| i < j < entries.len() ==> (#[trigger] entries[j]).key != key,
        manifest.files[key].state == SyncState::Dirty || manifest.files[key].content_hash.len() == 0
            || manifest.files[key].content_hash != local[key].hash,
        entries[i].content_hash is None || entries[i].content_hash == Some(
            manifest.files[key].content_hash,
        ),
    ensures
        planned(manifest, keys, local, entries).push.contains(key),
        !planned(manifest, keys, local, entries).pull.contains(key),
        !planned(manifest, keys, local, entries).delete_local.contains(key),
{
    lemma_last_entry_counts(entries, key, i);
    lemma_plan_members(manifest, keys, local, entries, key);
}

/// A file that was changed on the server and not here is pulled, and neither pushed nor deleted,
/// whatever the times are.
pub proof fn lemma_remote_changes_are_pulled(
    manifest: ManifestView,
    keys: Seq<Seq<char>>,
    local: Map<Seq<char>, LocalView>,
    entries: Seq<ServerView>,
    key: Seq<char>,
    i: int,
)
    requires
        forall|k: Seq<char>| #[trigger] local.contains_key(k) <==> keys.contains(k),
        local.contains_key(key),
        manifest.files.contains_key(key),
        0 <= i < entries.len(),
        entries[i].key == key,
        forall|j: int| i < j < entries.len() ==> (#[trigger] entries[j]).key != key,
        manifest.files[key].state == SyncState::Clean,
        manifest.files[key].content_hash.len() > 0,
        manifest.files[key].content_hash == local[key].hash,
        entries[i].content_hash is Some,
        entries[i].content_hash != Some(manifest.files[key].content_hash),
    ensures
        planned(manifest, keys, local, entries).pull.contains(key),
        !planned(manifest, keys, local, entries).push.contains(key),
        !planned(manifest, keys, local, entries).delete_local.contains(key),
{
    lemma_last_entry_counts(entries, key, i);
    lemma_plan_members(manifest, keys, local, entries, key);
}

/// A file that was changed on both sides goes the way of the later change, and of the local one on
/// a tie. The local time is read as a signed number, so one of 2^63 or more lies before all others.
pub proof fn lemma_later_change_wins(
    manifest: ManifestView,
    keys: Seq<Seq<char>>,
    local: Map<Seq<char>, LocalView>,
    entries: Seq<ServerView>,
    key: Seq<char>,
    i: int,
)
    requires
        forall|k: Seq<char>| #[trigger] local.contains_key(k) <==> keys.contains(k),
        local.contains_key(key),
        manifest.files.contains_key(key),
        0 <= i < entries.len(),
        entries[i].key == key,
        forall|j: int| i < j < entries.len() ==> (#[trigger] entries[j]).key != key,
        manifest.files[key].state == SyncState::Dirty || manifest.files[key].content_hash.len() == 0
            || manifest.files[key].content_hash != local[key].hash,
        entries[i].content_hash is Some,
        entries[i].content_hash != Some(manifest.files[key].content_hash),
    ensures
        ({
            let plan = planned(manifest, keys, local, entries);
            let here = manifest.files[key].modified_at as int;
            let there = entries[i].updated_at as int;
            let here_is_later = if here <= 0x7fff_ffff_ffff_ffff {
                here >= there
            } else {
                here - 0x1_0000_0000_0000_0000 >= there
            };
            &&& plan.push.contains(key) <==> here_is_later
            &&& plan.pull.contains(key) <==> !here_is_later
            &&& !plan.delete_local.contains(key)
        }),
{
    lemma_last_entry_counts(entries, key, i);
    lemma_plan_members(manifest, keys, local, entries, key);
}

/// A file that was changed on neither side is left alone.
pub proof fn lemma_unchanged_files_stay(
    manifest: ManifestView,
    keys: Seq<Seq<char>>,
    local: Map<Seq<char>, LocalView>,
    entries: Seq<ServerView>,
    key: Seq<char>,
    i: int,
)
    requires
        forall|k: Seq<char>| #[trigger] local.contains_key(k) <==> keys.contains(k),
        local.contains_key(key),
        manifest.files.contains_key(key),
        0 <= i < entries.len(),
        entries[i].key == key,
        forall|j: int| i < j < entries.len() ==> (#[trigger] entries[j]).key != key,
        manifest.files[key].state == SyncState::Clean,
        manifest.files[key].content_hash.len() > 0,
        manifest.files[key].content_hash == local[key].hash,
        entries[i].content_hash is None || entries[i].content_hash == Some(
            manifest.files[key].content_hash,
        ),
    ensures
        !planned(manifest, keys, local, entries).push.contains(key),
        !planned(manifest, keys, local, entries).pull.contains(key),
        !planned(manifest, keys, local, entries).delete_local.contains(key),
{
    lemma_last_entry_counts(entries, key, i);
    lemma_plan_members(manifest, keys, local, entries, key);
}

/// A known file that the server does not have is deleted here if it is marked as in sync, with a
/// hash, and else pushed; it is never pulled.
pub proof fn lemma_files_gone_from_the_server(
    manifest: ManifestView,
    keys: Seq<Seq<char>>,
    local: Map<Seq<char>, LocalView>,
    entries: Seq<ServerView>,
    key: Seq<char>,
)
    requires
        forall|k: Seq<char>| #[trigger] local.contains_key(k) <==> keys.contains(k),
        local.contains_key(key),
        manifest.files.contains_key(key),
        forall|j: int| 0 <= j < entries.len() ==> (#[trigger] entries[j]).key != key,
    ensures
        ({
            let plan = planned(manifest, keys, local, entries);
            let known = manifest.files[key];
            let was_in_sync = known.state == SyncState::Clean && known.content_hash.len() > 0;
            &&& plan.delete_local.contains(key) <==> was_in_sync
            &&& plan.push.contains(key) <==> !was_in_sync
            &&& !plan.pull.contains(key)
        }),
{
    lemma_no_entry(entries, key);
    lemma_plan_members(manifest, keys, local, entries, key);
}

/// A local file of which nothing is known is pushed, unless the server has the same content; it
/// is neither pulled over nor deleted.
pub proof fn lemma_unknown_local_files(
    manifest: ManifestView,
    keys: Seq<Seq<char>>,
    local: Map<Seq<char>, LocalView>,
    entries: Seq<ServerView>,
    key: Seq<char>,
)
    requires
        forall|k: Seq<char>| #[trigger] local.contains_key(k) <==> keys.contains(k),
        local.contains_key(key),
        !manifest.files.contains_key(key),
    ensures
        ({
            let plan = planned(manifest, keys, local, entries);
            &&& (forall|j: int| 0 <= j < entries.len() ==> (#[trigger] entries[j]).key != key)
                ==> plan.push.contains(key)
            &&& forall|i: int|
                0 <= i < entries.len() && (#[trigger] entries[i]).key == key && (forall|j: int|
                    i < j < entries.len() ==> (#[trigger] entries[j]).key != key) ==> (
                plan.push.contains(key) <==> entries[i].content_hash != Some(local[key].hash))
            &&& !plan.pull.contains(key)
            &&& !plan.delete_local.contains(key)
        }),
{
    lemma_plan_members(manifest, keys, local, entries, key);
    if forall|j: int| 0 <= j < entries.len() ==> (#[trigger] entries[j]).key != key {
        lemma_no_entry(entries, key);
    }
    let plan = planned(manifest, keys, local, entries);
    assert forall|i: int|
        0 <= i < entries.len() && (#[trigger] entries[i]).key == key && (forall|j: int|
            i < j < entries.len() ==> (#[trigger] entries[j]).key != key) implies (
    plan.push.contains(key) <==> entries[i].content_hash != Some(local[key].hash)) by {
        lemma_last_entry_counts(entries, key, i);
    }
}

/// What is not here is neither pushed nor deleted here; it is pulled exactly if the server has it
/// and it was not in sync before it went away.
pub proof fn lemma_files_that_are_not_here(
    manifest: ManifestView,
    keys: Seq<Seq<char>>,
    local: Map<Seq<char>, LocalView>,
    entries: Seq<ServerView>,
    key: Seq<char>,
)
    requires
        forall|k: Seq<char>| #[trigger] local.contains_key(k) <==> keys.contains(k),
        !local.contains_key(key),
    ensures
        ({
            let plan = planned(manifest, keys, local, entries);
            let was_in_sync = manifest.files.contains_key(key) && manifest.files[key].state
                == SyncState::Clean;
            &&& plan.pull.contains(key) <==> !was_in_sync && exists|j: int|
                0 <= j < entries.len() && (#[trigger] entries[j]).key == key
            &&& !plan.push.contains(key)
            &&& !plan.delete_local.contains(key)
        }),
{
    lemma_plan_members(manifest, keys, local, entries, key);
    if exists|j: int| 0 <= j < entries.len() && (#[trigger] entries[j]).key == key {
        let j = choose|j: int| 0 <= j < entries.len() && (#[trigger] entries[j]).key == key;
        crate::sync_engine::plan::lemma_server_entry(entries, key);
        assert(entries.contains(entries[j]));
    } else {
        lemma_no_entry(entries, key);
    }
}

/// An object is removed from the server exactly if it is there and its removal is pending, be it
/// by its key or by its path alone.
pub proof fn lemma_pending_removals_are_planned(
    manifest: ManifestView,
    keys: Seq<Seq<char>>,
    local: Map<Seq<char>, LocalView>,
    entries: Seq<ServerView>,
    key: Seq<char>,
)
    requires
        forall|k: Seq<char>| #[trigger] local.contains_key(k) <==> keys.contains(k),
    ensures
        planned(manifest, keys, local, entries).delete_remote.contains(key) <==> {
            &&& exists|j: int| 0 <= j < entries.len() && (#[trigger] entries[j]).key == key
            &&& exists|d: int|
                0 <= d < manifest.pending_deletes.len() && {
                    let path = (#[trigger] manifest.pending_deletes[d]).path;
                    ||| path == key && "files/"@.is_prefix_of(path)
                    ||| "files/"@ + path == key && !"files/"@.is_prefix_of(path)
                }
        },
{
    lemma_plan_members(manifest, keys, local, entries, key);
    crate::sync_engine::plan::lemma_server_entry(entries, key);
    let there = exists|j: int| 0 <= j < entries.len() && (#[trigger] entries[j]).key == key;
    if there {
        let j = choose|j: int| 0 <= j < entries.len() && (#[trigger] entries[j]).key == key;
        assert(entries.contains(entries[j]));
    } else {
        lemma_no_entry(entries, key);
    }
    let plan = planned(manifest, keys, local, entries);
    let pending = manifest.pending_deletes;
    if plan.delete_remote.contains(key) {
        let d = choose|d: DeleteView| #[trigger]
            pending.contains(d) && crate::sync_engine::plan::remote_key(d.path) == key;
        let n = pending.index_of(d);
        assert(pending[n] == d);
    }
    if exists|d: int|
        0 <= d < pending.len() && {
            let path = (#[trigger] pending[d]).path;
            ||| path == key && "files/"@.is_prefix_of(path)
            ||| "files/"@ + path == key && !"files/"@.is_prefix_of(path)
        } {
        let d = choose|d: int|
            0 <= d < pending.len() && {
                let path = (#[trigger] pending[d]).path;
                ||| path == key && "files/"@.is_prefix_of(path)
                ||| "files/"@ + path == key && !"files/"@.is_prefix_of(path)
            };
        assert(pending.contains(pending[d]));
    }
}

proof fn lemma_filter_ascends(keys: Seq<Seq<char>>, keep: spec_fn(Seq<char>) -> bool)
    requires
        ascending(keys),
    ensures
        ascending(keys.filter(keep)),
    decreases keys.len(),
{
    reveal(Seq::filter);
    if keys.len() > 0 {
        let rest = keys.drop_last();
        assert forall|i: int, j: int| 0 <= i < j < rest.len() implies precedes(
            #[trigger] rest[i],
            #[trigger] rest[j],
        ) by {
            assert(precedes(keys[i], keys[j]));
        }
        lemma_filter_ascends(rest, keep);
        let f = rest.filter(keep);
        if keep(keys.last()) {
            let g = f.push(keys.last());
            assert forall|i: int, j: int| 0 <= i < j < g.len() implies precedes(
                #[trigger] g[i],
                #[trigger] g[j],
            ) by {
                assert(f.contains(f[i]));
                lemma_filter_members(rest, keep, f[i]);
                if j < f.len() {
                    assert(precedes(f[i], f[j]));
                } else {
                    let k = rest.index_of(f[i]);
                    assert(precedes(keys[k], keys[keys.len() - 1]));
                }
            }
        }
    }
}

/// The files to push and the files to delete stand in ascending order.
pub proof fn lemma_plan_is_in_order(
    manifest: ManifestView,
    keys: Seq<Seq<char>>,
    local: Map<Seq<char>, LocalView>,
    entries: Seq<ServerView>,
)
    requires
        ascending(keys),
    ensures
        ascending(planned(manifest, keys, local, entries).push),
        ascending(planned(manifest, keys, local, entries).delete_local),
{
    lemma_filter_ascends(
        keys,
        |k: Seq<char>|
            crate::sync_engine::plan::decided(manifest, local, entries, k) == Action::Push,
    );
    lemma_filter_ascends(
        keys,
        |k: Seq<char>|
            crate::sync_engine::plan::decided(manifest, local, entries, k) == Action::DeleteLocal,
    );
}

proof fn lemma_filter_alike(
    keys: Seq<Seq<char>>,
    f: spec_fn(Seq<char>) -> bool,
    g: spec_fn(Seq<char>) -> bool,
)
    requires
        forall|k: Seq<char>| #[trigger] keys.contains(k) ==> f(k) == g(k),
    ensures
        keys.filter(f) == keys.filter(g),
    decreases keys.len(),
{
    reveal(Seq::filter);
    if keys.len() > 0 {
        let rest = keys.drop_last();
        assert forall|k: Seq<char>| #[trigger] rest.contains(k) implies f(k) == g(k) by {
            let i = rest.index_of(k);
            assert(keys[i] == k);
            assert(keys.contains(k));
        }
        assert(keys.contains(keys[keys.len() - 1]));
        lemma_filter_alike(rest, f, g);
    }
}

/// The removals are planned in the order in which they became pending: one more is planned behind
/// the others, if the server has the object, and nothing else changes.
pub proof fn lemma_removals_are_planned_in_order(
    manifest: ManifestView,
    keys: Seq<Seq<char>>,
    local: Map<Seq<char>, LocalView>,
    entries: Seq<ServerView>,
    pending: DeleteView,
)
    requires
        forall|k: Seq<char>| #[trigger] local.contains_key(k) <==> keys.contains(k),
    ensures
        ({
            let more = ManifestView {
                pending_deletes: manifest.pending_deletes.push(pending),
                ..manifest
            };
            let before = planned(manifest, keys, local, entries);
            let after = planned(more, keys, local, entries);
            let key = if "files/"@.is_prefix_of(pending.path) {
                pending.path
            } else {
                "files/"@ + pending.path
            };
            let there = exists|j: int| 0 <= j < entries.len() && (#[trigger] entries[j]).key == key;
            &&& there ==> after.delete_remote == before.delete_remote.push(key)
            &&& !there ==> after.delete_remote == before.delete_remote
            &&& after.push == before.push
            &&& after.pull == before.pull
            &&& after.delete_local == before.delete_local
            &&& manifest.pending_deletes.len() == 0 ==> before.delete_remote.len() == 0
        }),
{
    reveal(Seq::filter);
    let more = ManifestView {
        pending_deletes: manifest.pending_deletes.push(pending),
        ..manifest
    };
    let key = if "files/"@.is_prefix_of(pending.path) {
        pending.path
    } else {
        "files/"@ + pending.path
    };
    let f = |d: DeleteView| crate::sync_engine::plan::remote_key(d.path);
    assert(more.pending_deletes.map_values(f).drop_last() =~= manifest.pending_deletes.map_values(
        f,
    ));
    assert(more.pending_deletes.map_values(f).last() == key);
    if exists|j: int| 0 <= j < entries.len() && (#[trigger] entries[j]).key == key {
        let j = choose|j: int| 0 <= j < entries.len() && (#[trigger] entries[j]).key == key;
        crate::sync_engine::plan::lemma_server_entry(entries, key);
        assert(entries.contains(entries[j]));
    } else {
        lemma_no_entry(entries, key);
    }
    assert forall|k: Seq<char>| manifest.entry(k) == more.entry(k) by {}
    lemma_filter_alike(
        keys,
        |k: Seq<char>|
            crate::sync_engine::plan::decided(manifest, local, entries, k) == Action::Push,
        |k: Seq<char>| crate::sync_engine::plan::decided(more, local, entries, k) == Action::Push,
    );
    lemma_filter_alike(
        keys,
        |k: Seq<char>|
            crate::sync_engine::plan::decided(manifest, local, entries, k) == Action::Pull,
        |k: Seq<char>| crate::sync_engine::plan::decided(more, local, entries, k) == Action::Pull,
    );
    lemma_filter_alike(
        keys,
        |k: Seq<char>|
            crate::sync_engine::plan::decided(manifest, local, entries, k) == Action::DeleteLocal,
        |k: Seq<char>|
            crate::sync_engine::plan::decided(more, local, entries, k) == Action::DeleteLocal,
    );
    let a = |e: ServerView| crate::sync_engine::plan::missing_here(manifest, local, e.key);
    let b = |e: ServerView| crate::sync_engine::plan::missing_here(more, local, e.key);
    assert(a =~= b);
    let before = planned(manifest, keys, local, entries);
    let after = planned(more, keys, local, entries);
    assert(after.push =~= before.push);
    assert(after.pull =~= before.pull);
    assert(after.delete_local =~= before.delete_local);
}

/// What is not here is pulled in the order in which the server lists it: one more object is pulled
/// behind the others, unless it was in sync before it went away, and nothing else changes.
pub proof fn lemma_objects_are_planned_in_order(
    manifest: ManifestView,
    keys: Seq<Seq<char>>,
    local: Map<Seq<char>, LocalView>,
    entries: Seq<ServerView>,
    entry: ServerView,
)
    requires
        forall|k: Seq<char>| #[trigger] local.contains_key(k) <==> keys.contains(k),
        !local.contains_key(entry.key),
    ensures
        ({
            let before = planned(manifest, keys, local, entries);
            let after = planned(manifest, keys, local, entries.push(entry));
            let was_in_sync = manifest.files.contains_key(entry.key)
                && manifest.files[entry.key].state == SyncState::Clean;
            &&& was_in_sync ==> after.pull == before.pull
            &&& !was_in_sync ==> after.pull == before.pull.push(entry.key)
            &&& after.push == before.push
            &&& after.delete_local == before.delete_local
        }),
{
    let more = entries.push(entry);
    assert(more.drop_last() =~= entries);
    assert forall|k: Seq<char>| #[trigger] keys.contains(k) implies server_entry(more, k)
        == server_entry(entries, k) by {
        assert(local.contains_key(k));
    }
    lemma_filter_alike(
        keys,
        |k: Seq<char>|
            crate::sync_engine::plan::decided(manifest, local, entries, k) == Action::Push,
        |k: Seq<char>| crate::sync_engine::plan::decided(manifest, local, more, k) == Action::Push,
    );
    lemma_filter_alike(
        keys,
        |k: Seq<char>|
            crate::sync_engine::plan::decided(manifest, local, entries, k) == Action::Pull,
        |k: Seq<char>| crate::sync_engine::plan::decided(manifest, local, more, k) == Action::Pull,
    );
    lemma_filter_alike(
        keys,
        |k: Seq<char>|
            crate::sync_engine::plan::decided(manifest, local, entries, k) == Action::DeleteLocal,
        |k: Seq<char>|
            crate::sync_engine::plan::decided(manifest, local, more, k) == Action::DeleteLocal,
    );
    reveal(Seq::filter);
    let keep = |e: ServerView| crate::sync_engine::plan::missing_here(manifest, local, e.key);
    let name = |e: ServerView| e.key;
    if keep(entry) {
        assert(more.filter(keep).map_values(name) =~= entries.filter(keep).map_values(name).push(
            entry.key,
        ));
    }
    let before = planned(manifest, keys, local, entries);
    let after = planned(manifest, keys, local, more);
    assert(after.push =~= before.push);
    assert(after.delete_local =~= before.delete_local);
    if keep(entry) {
        assert(after.pull =~= before.pull.push(entry.key));
    } else {
        assert(after.pull =~= before.pull);
    }
}

/// Where the server has nothing that is not here, the files to pull stand in ascending order.
pub proof fn lemma_pulled_files_are_in_order(
    manifest: ManifestView,
    keys: Seq<Seq<char>>,
    local: Map<Seq<char>, LocalView>,
    entries: Seq<ServerView>,
)
    requires
        ascending(keys),
        forall|j: int| 0 <= j < entries.len() ==> local.contains_key((#[trigger] entries[j]).key),
    ensures
        ascending(planned(manifest, keys, local, entries).pull),
{
    lemma_filter_ascends(
        keys,
        |k: Seq<char>|
            crate::sync_engine::plan::decided(manifest, local, entries, k) == Action::Pull,
    );
    let keep = |e: ServerView| crate::sync_engine::plan::missing_here(manifest, local, e.key);
    if entries.filter(keep).len() > 0 {
        let e = entries.filter(keep)[0];
        assert(entries.filter(keep).contains(e));
        lemma_filter_members(entries, keep, e);
        let j = entries.index_of(e);
        assert(local.contains_key(entries[j].key));
    }
    let here = crate::sync_engine::plan::keys_with(manifest, keys, local, entries, Action::Pull);
    assert(planned(manifest, keys, local, entries).pull =~= here);
}

/// What one file is planned for does not depend on the others: two manifests, two sets of local
/// files and two lists of the server that are alike at a key plan alike for it.
pub proof fn lemma_files_are_planned_one_by_one(
    manifest: ManifestView,
    keys: Seq<Seq<char>>,
    local: Map<Seq<char>, LocalView>,
    entries: Seq<ServerView>,
    other_manifest: ManifestView,
    other_keys: Seq<Seq<char>>,
    other_local: Map<Seq<char>, LocalView>,
    other_entries: Seq<ServerView>,
    key: Seq<char>,
)
    requires
        forall|k: Seq<char>| #[trigger] local.contains_key(k) <==> keys.contains(k),
        forall|k: Seq<char>| #[trigger] other_local.contains_key(k) <==> other_keys.contains(k),
        local.contains_key(key) == other_local.contains_key(key),
        local.contains_key(key) ==> local[key].hash == other_local[key].hash,
        manifest.files.contains_key(key) == other_manifest.files.contains_key(key),
        manifest.files.contains_key(key) ==> manifest.files[key] == other_manifest.files[key],
        server_entry(entries, key) == server_entry(other_entries, key),
    ensures
        ({
            let plan = planned(manifest, keys, local, entries);
            let other = planned(other_manifest, other_keys, other_local, other_entries);
            &&& plan.push.contains(key) == other.push.contains(key)
            &&& plan.pull.contains(key) == other.pull.contains(key)
            &&& plan.delete_local.contains(key) == other.delete_local.contains(key)
        }),
{
    lemma_plan_members(manifest, keys, local, entries, key);
    lemma_plan_members(other_manifest, other_keys, other_local, other_entries, key);
}

} // verus!
