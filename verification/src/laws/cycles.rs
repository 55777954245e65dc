//! Cycles: in which order what happens, what each stage hands to the next, and what is reported.

use vstd::prelude::*;
use vstd::string::*;

use crate::config::SettingsView;
use crate::host::{Call, Reply};
use crate::json::{Json, JsonNumber};
use crate::key_map::walk;
use crate::sync_engine::cycle::{JobView, ResultView, StageView, SyncMode, SyncView};
use crate::sync_engine::fetch::{FetchStep, FetchView};
use crate::sync_engine::plan::{lemma_filter_members, planned, LocalView, PlanView, ServerView};
use crate::sync_engine::pull::PullView;
use crate::sync_engine::push::PushView;
use crate::sync_engine::scan::ScanView;
use crate::sync_manifest::{FileEntryView, ManifestView, SyncState};

verus! {

/// A cycle is about the namespace and the root that it is given, and about the server and the
/// token that the command names; it begins with the list of the files below the root.
pub proof fn lemma_cycles_begin(
    mode: SyncMode,
    params: Json,
    namespace_id: Seq<char>,
    root: Seq<char>,
    manifest: ManifestView,
)
    ensures
        ({
            let job = JobView::new(mode, params, namespace_id, root);
            let sync = SyncView::start(job, manifest);
            &&& job.mode == mode
            &&& job.namespace_id == namespace_id
            &&& job.root == root
            &&& job.server_url == params.text("server_url"@)
            &&& job.auth_token == params.text("auth_token"@)
            &&& sync.job == job
            &&& sync.call() == Some(Call::ListFiles(root))
            &&& sync.stage == StageView::Scan(ScanView::start(root), manifest)
        }),
{
}

/// When the scan is over, the settings are read, and the objects of the namespace are fetched from
/// the server that they give. Without a server a full cycle reports this and any other fails, and
/// the manifest stays as it is.
pub proof fn lemma_cycles_fetch_next(
    sync: SyncView,
    scan: ScanView,
    manifest: ManifestView,
    reply: Reply,
    settings: SettingsView,
)
    requires
        sync.stage == StageView::Scan(scan, manifest),
        scan.after(reply).is_over(),
    ensures
        ({
            let scanned = sync.after(reply);
            let ready = scanned.after(Reply::Settings(settings));
            let found = scan.after(reply).found;
            &&& scanned.call() == Some(Call::LoadSettings)
            &&& scanned.job == sync.job
            &&& ready.job == sync.job
            &&& (settings.server_for(sync.job.server_url) matches Some(server) ==> ready.stage
                == StageView::Fetch(
                FetchView {
                    server,
                    namespace_id: sync.job.namespace_id,
                    token: settings.token_for(sync.job.auth_token),
                    step: FetchStep::Page(0),
                    entries: Seq::empty(),
                },
                found,
                manifest,
            ))
            &&& settings.server_for(sync.job.server_url) is None && sync.job.mode is Full ==> (
            ready.stage matches StageView::Over(kept, Ok(result)) && kept == manifest
                && result.pushed == 0 && result.pulled == 0 && result.deleted_remote == 0
                && result.deleted_local == 0 && result.errors == seq![
                "fetch server manifest: "@ + "Missing server_url"@,
            ])
            &&& settings.server_for(sync.job.server_url) is None && !(sync.job.mode is Full)
                ==> ready.stage == StageView::Over(manifest, Err("Missing server_url"@))
        }),
{
}

/// A scan that is not over goes on with the same manifest.
pub proof fn lemma_scans_go_on(
    sync: SyncView,
    scan: ScanView,
    manifest: ManifestView,
    reply: Reply,
)
    requires
        sync.stage == StageView::Scan(scan, manifest),
        !scan.after(reply).is_over(),
    ensures
        sync.call() == scan.call(),
        sync.after(reply).stage == StageView::Scan(scan.after(reply), manifest),
        sync.after(reply).job == sync.job,
{
}

/// When the objects are known, the plan is made of what the manifest holds, what the scan found
/// and what the server has; the settings are read again; and a push or a full cycle pushes first,
/// while a pull only pulls.
pub proof fn lemma_cycles_plan_next(
    sync: SyncView,
    fetch: FetchView,
    local: Map<Seq<char>, LocalView>,
    manifest: ManifestView,
    reply: Reply,
    entries: Seq<ServerView>,
    e: Seq<char>,
)
    requires
        sync.stage == StageView::Fetch(fetch, local, manifest),
    ensures
        ({
            let after = sync.after(reply);
            let plan = planned(manifest, walk(local), local, entries);
            let over = fetch.after(reply).is_over();
            let got = fetch.after(reply).result() == Ok::<Seq<ServerView>, Seq<char>>(entries);
            let failed = fetch.after(reply).result() == Err::<Seq<ServerView>, Seq<char>>(e);
            &&& after.job == sync.job
            &&& sync.call() == fetch.call()
            &&& !over ==> after.stage == StageView::Fetch(fetch.after(reply), local, manifest)
            &&& over && got && sync.job.mode is Pull ==> after.stage == StageView::ReadyPull(
                plan,
                local,
                entries,
                manifest,
                0,
                Seq::empty(),
            )
            &&& over && got && !(sync.job.mode is Pull) ==> after.stage == StageView::ReadyPush(
                plan,
                local,
                entries,
                manifest,
            )
            &&& over && got ==> after.call() == Some(Call::LoadSettings)
            &&& over && failed && sync.job.mode is Full ==> (after.stage matches StageView::Over(
                kept,
                Ok(result),
            ) && kept == manifest && result.pushed == 0 && result.pulled == 0
                && result.deleted_remote == 0 && result.deleted_local == 0 && result.errors == seq![
                "fetch server manifest: "@ + e,
            ])
            &&& over && failed && !(sync.job.mode is Full) ==> after.stage == StageView::Over(
                manifest,
                Err(e),
            )
        }),
{
}

/// The push of a cycle goes to the server of the settings, for the namespace and the root of the
/// cycle, by the plan, with what the scan found, and from the manifest as it is.
pub proof fn lemma_cycles_push(
    sync: SyncView,
    plan: PlanView,
    local: Map<Seq<char>, LocalView>,
    entries: Seq<ServerView>,
    manifest: ManifestView,
    settings: SettingsView,
)
    requires
        sync.stage == StageView::ReadyPush(plan, local, entries, manifest),
    ensures
        ({
            let push = PushView::start(
                settings.server_for(sync.job.server_url),
                settings.token_for(sync.job.auth_token),
                sync.job.namespace_id,
                sync.job.root,
                plan,
                local,
                manifest,
            );
            let after = sync.after(Reply::Settings(settings));
            &&& sync.call() == Some(Call::LoadSettings)
            &&& after.job == sync.job
            &&& !(push.step is Over) ==> after.stage == StageView::Push(push, plan, entries)
            &&& push.step is Over ==> after == (SyncView {
                stage: StageView::Push(push, plan, entries),
                ..sync
            }).after(Reply::Saved)
        }),
{
}

/// What a push does is the push's own business until it is over. A push cycle then stores the
/// manifest and reports what was pushed and what was to be removed; a full cycle goes on to pull,
/// with the manifest, the count and the errors of the push.
pub proof fn lemma_cycles_after_the_push(
    sync: SyncView,
    push: PushView,
    plan: PlanView,
    entries: Seq<ServerView>,
    reply: Reply,
)
    requires
        sync.stage == StageView::Push(push, plan, entries),
    ensures
        ({
            let after = sync.after(reply);
            let next = push.after(reply);
            &&& sync.call() == push.call()
            &&& after.job == sync.job
            &&& !(next.step is Over) ==> after.stage == StageView::Push(next, plan, entries)
            &&& next.step is Over && sync.job.mode is Push ==> {
                &&& after.call() == Some(Call::SaveManifest(next.manifest))
                &&& (after.stage matches StageView::Save(manifest, result) && {
                    &&& manifest == next.manifest
                    &&& result.pushed == next.pushed
                    &&& result.pulled == 0
                    &&& result.deleted_remote == plan.delete_remote.len()
                    &&& result.deleted_local == 0
                    &&& result.errors == next.errors
                })
            }
            &&& next.step is Over && !(sync.job.mode is Push) ==> after.stage
                == StageView::ReadyPull(
                plan,
                next.local,
                entries,
                next.manifest,
                next.pushed,
                next.errors,
            )
        }),
{
}

/// The pull of a cycle goes to the server of the settings, for the namespace and the root of the
/// cycle, by the plan, with what the server told, and from the manifest as it is.
pub proof fn lemma_cycles_pull(
    sync: SyncView,
    plan: PlanView,
    local: Map<Seq<char>, LocalView>,
    entries: Seq<ServerView>,
    manifest: ManifestView,
    pushed: int,
    errors: Seq<Seq<char>>,
    settings: SettingsView,
)
    requires
        sync.stage == StageView::ReadyPull(plan, local, entries, manifest, pushed, errors),
    ensures
        ({
            let pull = PullView::start(
                settings.server_for(sync.job.server_url),
                settings.token_for(sync.job.auth_token),
                sync.job.namespace_id,
                sync.job.root,
                plan,
                entries,
                manifest,
            );
            let after = sync.after(Reply::Settings(settings));
            &&& sync.call() == Some(Call::LoadSettings)
            &&& after.job == sync.job
            &&& !(pull.step is Over) ==> after.stage == StageView::Pull(
                pull,
                plan,
                local,
                pushed,
                errors,
            )
            &&& pull.step is Over ==> after == (SyncView {
                stage: StageView::Pull(pull, plan, local, pushed, errors),
                ..sync
            }).after(Reply::Saved)
        }),
{
}

/// When the pull is over, a pull cycle stores the manifest and reports what was pulled and what
/// was to be deleted here. A full cycle reports both ways, with the errors of both in order, and
/// first records the files of which nothing is known, and then the time.
pub proof fn lemma_cycles_after_the_pull(
    sync: SyncView,
    pull: PullView,
    plan: PlanView,
    local: Map<Seq<char>, LocalView>,
    pushed: int,
    errors: Seq<Seq<char>>,
    reply: Reply,
)
    requires
        sync.stage == StageView::Pull(pull, plan, local, pushed, errors),
        crate::key_map::ascending(walk(local)),
        forall|k: Seq<char>| #[trigger] walk(local).contains(k) <==> local.contains_key(k),
    ensures
        ({
            let after = sync.after(reply);
            let next = pull.after(reply);
            let report = |result: ResultView|
                {
                    &&& result.pushed == pushed
                    &&& result.pulled == next.pulled
                    &&& sync.job.mode is Pull ==> result.deleted_remote == 0
                    &&& !(sync.job.mode is Pull) ==> result.deleted_remote
                        == plan.delete_remote.len()
                    &&& result.deleted_local == plan.delete_local.len()
                    &&& result.errors == errors + next.errors
                };
            &&& sync.call() == pull.call()
            &&& after.job == sync.job
            &&& !(next.step is Over) ==> after.stage == StageView::Pull(
                next,
                plan,
                local,
                pushed,
                errors,
            )
            &&& next.step is Over && sync.job.mode is Pull ==> (after.stage matches StageView::Save(
                manifest,
                result,
            ) && manifest == next.manifest && report(result))
            &&& next.step is Over && !(sync.job.mode is Pull) ==> match after.stage {
                StageView::Mark(todo, found, manifest, result) => {
                    &&& found == local
                    &&& manifest == next.manifest
                    &&& report(result)
                    &&& todo.len() > 0
                    &&& forall|key: Seq<char>| #[trigger]
                        todo.contains(key) <==> local.contains_key(key)
                            && !next.manifest.files.contains_key(key)
                },
                StageView::Stamp(manifest, result) => {
                    &&& manifest == next.manifest
                    &&& report(result)
                    &&& forall|key: Seq<char>| #[trigger]
                        local.contains_key(key) ==> next.manifest.files.contains_key(key)
                },
                _ => false,
            }
        }),
{
    let next = pull.after(reply);
    let keep = |key: Seq<char>| !next.manifest.files.contains_key(key);
    let todo = walk(local).filter(keep);
    assert forall|key: Seq<char>| #[trigger] todo.contains(key) <==> local.contains_key(key)
        && !next.manifest.files.contains_key(key) by {
        lemma_filter_members(walk(local), keep, key);
    }
    if todo.len() == 0 {
        assert forall|key: Seq<char>| #[trigger]
            local.contains_key(key) implies next.manifest.files.contains_key(key) by {
            assert(!todo.contains(key));
        }
    }
}

/// A file of which nothing is known is recorded as in sync, with the hash and the size that the
/// scan found, and the time; the others stay.
pub proof fn lemma_unknown_files_are_recorded(
    sync: SyncView,
    todo: Seq<Seq<char>>,
    local: Map<Seq<char>, LocalView>,
    manifest: ManifestView,
    result: ResultView,
    now: Option<u64>,
)
    requires
        sync.stage == StageView::Mark(todo, local, manifest, result),
        todo.len() > 0,
    ensures
        ({
            let after = sync.after(Reply::Time(now));
            let recorded = |m: ManifestView|
                {
                    &&& m.files.dom() == manifest.files.dom().insert(todo[0])
                    &&& m.files[todo[0]] == (FileEntryView {
                        content_hash: local[todo[0]].hash,
                        size_bytes: local[todo[0]].size,
                        modified_at: match now {
                            Some(t) => t,
                            None => 0,
                        },
                        state: SyncState::Clean,
                    })
                    &&& forall|other: Seq<char>|
                        other != todo[0] && manifest.files.contains_key(other)
                            ==> #[trigger] m.files[other] == manifest.files[other]
                    &&& m.pending_deletes == manifest.pending_deletes
                    &&& m.namespace_id == manifest.namespace_id
                    &&& m.last_sync_at == manifest.last_sync_at
                };
            &&& sync.call() == Some(Call::Now)
            &&& after.job == sync.job
            &&& todo.len() > 1 ==> (after.stage matches StageView::Mark(rest, found, m, told)
                && rest == todo.skip(1) && found == local && told == result && recorded(m))
            &&& todo.len() == 1 ==> (after.stage matches StageView::Stamp(m, told) && told == result
                && recorded(m))
        }),
{
    assert(todo.drop_first() =~= todo.skip(1));
    let after = sync.after(Reply::Time(now));
    match after.stage {
        StageView::Mark(_, _, m, _) => {
            assert(m.files.dom() =~= manifest.files.dom().insert(todo[0]));
        },
        StageView::Stamp(m, _) => {
            assert(m.files.dom() =~= manifest.files.dom().insert(todo[0]));
        },
        _ => {},
    }
}

/// At its end a full cycle records the time, and every cycle stores its manifest and then gives
/// it back with its result.
pub proof fn lemma_cycles_end(
    sync: SyncView,
    manifest: ManifestView,
    result: ResultView,
    now: Option<u64>,
)
    ensures
        sync.stage == StageView::Stamp(manifest, result) ==> {
            &&& sync.call() == Some(Call::Now)
            &&& (sync.after(Reply::Time(now)).stage matches StageView::Save(stamped, told) && {
                &&& told == result
                &&& stamped.last_sync_at == Some(
                    match now {
                        Some(t) => t,
                        None => 0,
                    },
                )
                &&& stamped.files == manifest.files
                &&& stamped.pending_deletes == manifest.pending_deletes
                &&& stamped.namespace_id == manifest.namespace_id
            })
        },
        sync.stage == StageView::Save(manifest, result) ==> {
            &&& sync.call() == Some(Call::SaveManifest(manifest))
            &&& sync.after(Reply::Saved).stage == StageView::Over(manifest, Ok(result))
        },
        sync.is_over() <==> sync.stage is Over,
        sync.is_over() ==> sync.call() is None,
{
}

/// A cycle reads, stores and removes objects, and never sends anything else to the server: it
/// creates no namespace.
pub proof fn lemma_cycles_send_only_object_requests(sync: SyncView)
    ensures
        (sync.call() matches Some(Call::Send(request)) ==> request.method == "GET"@
            || request.method == "PUT"@ || request.method == "DELETE"@),
{
}

/// A pull cycle stores nothing on the server and removes nothing from it, and a push cycle
/// writes nothing here and deletes nothing here.
pub proof fn lemma_cycles_go_their_way(sync: SyncView, reply: Reply)
    ensures
        sync.job.mode is Pull && !(sync.stage is ReadyPush) && !(sync.stage is Push) ==> !(
        sync.after(reply).stage is ReadyPush) && !(sync.after(reply).stage is Push),
        sync.job.mode is Push && !(sync.stage is ReadyPull) && !(sync.stage is Pull) ==> !(
        sync.after(reply).stage is ReadyPull) && !(sync.after(reply).stage is Pull),
        !(sync.stage is Push) ==> (sync.call() matches Some(Call::Send(request)) ==> request.method
            == "GET"@),
        !(sync.stage is Pull) ==> !(sync.call() matches Some(Call::WriteText(_, _))) && !(
        sync.call() matches Some(Call::WriteBinary(_, _))) && !(sync.call() matches Some(
            Call::DeleteFile(_),
        )),
{
}

/// A cycle waits for the reply to its call: any other reply leaves it where it is.
pub proof fn lemma_cycles_wait(sync: SyncView, reply: Reply)
    ensures
        sync.stage is Over ==> sync.after(reply) == sync,
        sync.stage is ReadyFetch && !(reply is Settings) ==> sync.after(reply) == sync,
        sync.stage is ReadyPush && !(reply is Settings) ==> sync.after(reply) == sync,
        sync.stage is ReadyPull && !(reply is Settings) ==> sync.after(reply) == sync,
        sync.stage is Mark && !(reply is Time) ==> sync.after(reply) == sync,
        sync.stage is Stamp && !(reply is Time) ==> sync.after(reply) == sync,
        sync.stage is Save && !(reply is Saved) ==> sync.after(reply) == sync,
        sync.after(reply).job == sync.job,
{
}

/// The document of a result gives its numbers and its errors as they are.
pub proof fn lemma_results_are_told(result: ResultView, i: int)
    requires
        0 <= result.pushed <= u64::MAX,
        0 <= result.pulled <= u64::MAX,
        0 <= result.deleted_remote <= u64::MAX,
        0 <= result.deleted_local <= u64::MAX,
    ensures
        ({
            let told = result.json();
            &&& (told.member("pushed"@) matches Some(Json::Number(JsonNumber::PosInt(n))) && n
                == result.pushed)
            &&& (told.member("pulled"@) matches Some(Json::Number(JsonNumber::PosInt(n))) && n
                == result.pulled)
            &&& (told.member("deleted_remote"@) matches Some(Json::Number(JsonNumber::PosInt(n)))
                && n == result.deleted_remote)
            &&& (told.member("deleted_local"@) matches Some(Json::Number(JsonNumber::PosInt(n)))
                && n == result.deleted_local)
            &&& (told.member("errors"@) matches Some(Json::Array(errors)) && errors.len()
                == result.errors.len() && (0 <= i < errors.len() ==> errors[i] == Json::Str(
                result.errors[i],
            )))
        }),
{
    reveal_strlit("deleted_local");
    reveal_strlit("deleted_remote");
    reveal_strlit("errors");
    reveal_strlit("pulled");
    reveal_strlit("pushed");
    assert("deleted_local"@.len() == 13);
    assert("deleted_remote"@.len() == 14);
    assert("errors"@[0] == 'e' && "errors"@.len() == 6);
    assert("pulled"@[0] == 'p' && "pulled"@[2] == 'l' && "pulled"@.len() == 6);
    assert("pushed"@[0] == 'p' && "pushed"@[2] == 's' && "pushed"@.len() == 6);
    let all = result.json()->Object_0;
    crate::laws::listings::lemma_members_are_found(all, "deleted_local"@, 0);
    crate::laws::listings::lemma_members_are_found(all, "deleted_remote"@, 1);
    crate::laws::listings::lemma_members_are_found(all, "errors"@, 2);
    crate::laws::listings::lemma_members_are_found(all, "pulled"@, 3);
    crate::laws::listings::lemma_members_are_found(all, "pushed"@, 4);
}

} // verus!
