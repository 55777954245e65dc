//! Laws of the full cycle: what a cycle without errors leaves in the manifest, and that it need
//! not be run twice.

use vstd::prelude::*;

use crate::config::SettingsView;
use crate::host::Reply;
use crate::key_map::walk;
use crate::sync_engine::cycle::{unknown_files, JobView, ResultView, StageView, SyncView};
use crate::sync_engine::plan::{
    are_keys_of, changed_here, changed_there, in_agreement, lemma_agreement_is_stable,
    lemma_filter_members, lemma_plan_disjoint, lemma_plan_members, lemma_server_entry,
    missing_here, planned, server_entry, LocalView, PlanView, ServerView,
};
use crate::sync_engine::pull::{hash_on_server, PullView};
use crate::sync_engine::push;
use crate::sync_engine::push::PushView;
use crate::sync_manifest::{reading, ManifestView};

verus! {

/// What a cycle starts from: the manifest, the local files, and the objects on the server.
pub struct Basis {
    pub manifest: ManifestView,
    pub local: Map<Seq<char>, LocalView>,
    pub entries: Seq<ServerView>,
}

/// Whether a manifest holds a file as in sync, with the given hash.
pub open spec fn in_sync(manifest: ManifestView, key: Seq<char>, hash: Seq<char>) -> bool {
    manifest.entry(key) matches Some(entry) && entry.state is Clean && entry.content_hash == hash
}

impl Basis {
    /// What the cycle has to do.
    pub open spec fn plan(self) -> PlanView {
        planned(self.manifest, walk(self.local), self.local, self.entries)
    }

    /// Whether the walk of the local files goes through them all.
    pub open spec fn wf(self) -> bool {
        are_keys_of(walk(self.local), self.local)
    }

    /// Whether a local file is only noted at the end of the cycle: nothing was known of it, or it
    /// was deleted.
    pub open spec fn noted_last(self, key: Seq<char>) -> bool {
        ||| self.plan().delete_local.contains(key)
        ||| self.local.contains_key(key) && self.manifest.entry(key) is None
            && !self.plan().push.contains(key) && !self.plan().pull.contains(key)
    }

    /// What a cycle without errors leaves of a file in the manifest: a file that was pushed, and
    /// one that was only noted, is in sync with the hash that the scan found, a file that was
    /// pulled is in sync with the hash that the server gave, and of any other file the manifest
    /// holds what it held.
    pub open spec fn leaves(self, manifest: ManifestView, key: Seq<char>) -> bool {
        if self.plan().push.contains(key) || self.noted_last(key) {
            in_sync(manifest, key, self.local[key].hash)
        } else if self.plan().pull.contains(key) {
            in_sync(manifest, key, hash_on_server(self.entries, key))
        } else {
            manifest.entry(key) == self.manifest.entry(key)
        }
    }

    /// What a pull leaves of a file that has dealt with `done` objects and `gone` deletions.
    pub open spec fn pull_leaves(
        self,
        manifest: ManifestView,
        done: int,
        gone: int,
        key: Seq<char>,
    ) -> bool {
        if self.plan().push.contains(key) {
            in_sync(manifest, key, self.local[key].hash)
        } else if self.plan().pull.take(done).contains(key) {
            in_sync(manifest, key, hash_on_server(self.entries, key))
        } else if self.plan().delete_local.take(gone).contains(key) {
            manifest.entry(key) is None
        } else {
            manifest.entry(key) == self.manifest.entry(key)
        }
    }

    /// Whether a push does what was planned, as long as there is no error.
    pub open spec fn pushes(self, run: PushView) -> bool {
        &&& run.wf()
        &&& run.local == self.local
        &&& push::touches_only(run, self.manifest, self.plan().push)
        &&& push::stores_in_order(run, self.plan().push)
    }

    /// Whether a pull does what was planned, as long as there is no error, neither in it nor
    /// among the `errors` before it.
    pub open spec fn pulls(self, run: PullView, errors: Seq<Seq<char>>) -> bool {
        let plan = self.plan();
        let done = plan.pull.len() - run.todo.len();
        let gone = plan.delete_local.len() - run.deletions.len();
        &&& run.wf()
        &&& run.entries == self.entries
        &&& 0 <= done
        &&& 0 <= gone
        &&& run.todo == plan.pull.skip(done)
        &&& run.deletions == plan.delete_local.skip(gone)
        &&& errors.len() == 0 && run.errors.len() == 0 ==> self.holds(run.manifest, done, gone)
    }

    /// Whether a manifest holds what a pull leaves that has dealt with `done` objects and `gone`
    /// deletions, and no removal is pending.
    pub open spec fn holds(self, manifest: ManifestView, done: int, gone: int) -> bool {
        &&& manifest.pending_deletes.len() == 0
        &&& forall|key: Seq<char>| #[trigger] self.pull_leaves(manifest, done, gone, key)
    }

    /// Whether the files that are left to be noted are those of which nothing is known yet, if
    /// there was no error.
    pub open spec fn notes(
        self,
        todo: Seq<Seq<char>>,
        manifest: ManifestView,
        result: ResultView,
    ) -> bool {
        result.errors.len() == 0 ==> {
            &&& manifest.pending_deletes.len() == 0
            &&& forall|i: int| 0 <= i < todo.len() ==> self.noted_last(#[trigger] todo[i])
            &&& forall|key: Seq<char>| #[trigger]
                self.leaves(manifest, key) || todo.contains(key)
        }
    }

    /// Whether a manifest is what a cycle leaves, if there was no error.
    pub open spec fn ends_with(self, manifest: ManifestView, result: ResultView) -> bool {
        result.errors.len() == 0 ==> {
            &&& manifest.pending_deletes.len() == 0
            &&& forall|key: Seq<char>| #[trigger] self.leaves(manifest, key)
        }
    }

    /// Whether a full cycle that knows what is on both sides does what was planned.
    pub open spec fn is_followed(self, stage: StageView) -> bool {
        match stage {
            StageView::ReadyPush(plan, local, entries, manifest) => plan == self.plan() && local
                == self.local && entries == self.entries && manifest == self.manifest,
            StageView::Push(run, plan, entries) => plan == self.plan() && entries == self.entries
                && self.pushes(run),
            StageView::ReadyPull(plan, local, entries, manifest, _, errors) => plan == self.plan()
                && local == self.local && entries == self.entries && (errors.len() == 0
                ==> self.holds(manifest, 0, 0)),
            StageView::Pull(run, plan, local, _, errors) => plan == self.plan() && local
                == self.local && self.pulls(run, errors),
            StageView::Mark(todo, local, manifest, result) => local == self.local && todo.len() > 0
                && self.notes(todo, manifest, result),
            StageView::Stamp(manifest, result) => self.ends_with(manifest, result),
            StageView::Save(manifest, result) => self.ends_with(manifest, result),
            StageView::Over(manifest, Ok(result)) => self.ends_with(manifest, result),
            _ => false,
        }
    }
}

// ---------------------------------------------------------------------------
// Steps
// ---------------------------------------------------------------------------

proof fn lemma_notes(
    basis: Basis,
    job: JobView,
    todo: Seq<Seq<char>>,
    manifest: ManifestView,
    result: ResultView,
)
    requires
        basis.notes(todo, manifest, result),
    ensures
        basis.is_followed(job.after_mark(todo, basis.local, manifest, result)),
{
    if todo.len() == 0 && result.errors.len() == 0 {
        assert forall|key: Seq<char>| #[trigger] basis.leaves(manifest, key) by {
            assert(basis.leaves(manifest, key) || todo.contains(key));
        }
    }
}

proof fn lemma_noted(
    basis: Basis,
    job: JobView,
    todo: Seq<Seq<char>>,
    manifest: ManifestView,
    result: ResultView,
    now: u64,
)
    requires
        basis.notes(todo, manifest, result),
        todo.len() > 0,
    ensures
        basis.is_followed(
            job.after_mark(
                todo.drop_first(),
                basis.local,
                manifest.cleaned(
                    todo[0],
                    basis.local[todo[0]].hash,
                    basis.local[todo[0]].size,
                    now,
                ),
                result,
            ),
        ),
{
    let first = todo[0];
    let rest = todo.drop_first();
    let next = manifest.cleaned(first, basis.local[first].hash, basis.local[first].size, now);
    if result.errors.len() == 0 {
        assert forall|i: int| 0 <= i < rest.len() implies basis.noted_last(#[trigger] rest[i]) by {
            assert(rest[i] == todo[i + 1]);
        }
        assert forall|key: Seq<char>| #[trigger] basis.leaves(next, key) || rest.contains(key) by {
            if key == first {
                assert(basis.noted_last(todo[0]));
            } else {
                assert(basis.leaves(manifest, key) || todo.contains(key));
                assert(next.entry(key) == manifest.entry(key));
                if todo.contains(key) {
                    let i = todo.index_of(key);
                    assert(rest[i - 1] == key);
                }
            }
        }
    }
    lemma_notes(basis, job, rest, next, result);
}

proof fn lemma_pulls(
    basis: Basis,
    job: JobView,
    run: PullView,
    pushed: int,
    errors: Seq<Seq<char>>,
)
    requires
        basis.wf(),
        job.mode is Full,
        basis.pulls(run, errors),
    ensures
        basis.is_followed(job.after_pull(run, basis.plan(), basis.local, pushed, errors)),
{
    if run.is_over() {
        let plan = basis.plan();
        let m = run.manifest;
        let result = ResultView {
            pushed,
            pulled: run.pulled,
            deleted_remote: plan.delete_remote.len() as int,
            deleted_local: plan.delete_local.len() as int,
            errors: errors + run.errors,
        };
        let todo = unknown_files(basis.local, m);
        let keep = |key: Seq<char>| !m.files.contains_key(key);
        if result.errors.len() == 0 {
            assert(plan.pull.take(plan.pull.len() as int) =~= plan.pull);
            assert(plan.delete_local.take(plan.delete_local.len() as int) =~= plan.delete_local);
            let done = plan.pull.len() as int;
            let gone = plan.delete_local.len() as int;
            assert forall|i: int| 0 <= i < todo.len() implies basis.noted_last(
                #[trigger] todo[i],
            ) by {
                let key = todo[i];
                assert(todo.contains(key));
                lemma_filter_members(walk(basis.local), keep, key);
                assert(basis.local.contains_key(key));
                assert(basis.pull_leaves(m, done, gone, key));
            }
            assert forall|key: Seq<char>| #[trigger] basis.leaves(m, key) || todo.contains(key) by {
                lemma_filter_members(walk(basis.local), keep, key);
                lemma_plan_members(
                    basis.manifest,
                    walk(basis.local),
                    basis.local,
                    basis.entries,
                    key,
                );
                lemma_plan_disjoint(
                    basis.manifest,
                    walk(basis.local),
                    basis.local,
                    basis.entries,
                    key,
                );
                assert(basis.pull_leaves(m, done, gone, key));
                assert(basis.local.contains_key(key) <==> walk(basis.local).contains(key));
            }
        }
        lemma_notes(basis, job, todo, m, result);
    }
}

proof fn lemma_pulled(
    basis: Basis,
    job: JobView,
    run: PullView,
    pushed: int,
    errors: Seq<Seq<char>>,
    reply: Reply,
)
    requires
        basis.wf(),
        job.mode is Full,
        basis.pulls(run, errors),
    ensures
        basis.is_followed(
            job.after_pull(run.after(reply), basis.plan(), basis.local, pushed, errors),
        ),
{
    let plan = basis.plan();
    let next = run.after(reply);
    let done = plan.pull.len() - run.todo.len();
    let gone = plan.delete_local.len() - run.deletions.len();
    let done_next = plan.pull.len() - next.todo.len();
    let gone_next = plan.delete_local.len() - next.deletions.len();
    if next.todo.len() != run.todo.len() {
        assert(next.todo =~= plan.pull.skip(done_next));
        assert(run.todo[0] == plan.pull[done]);
        assert(plan.pull.take(done_next) =~= plan.pull.take(done).push(plan.pull[done]));
    }
    if next.deletions.len() != run.deletions.len() {
        assert(next.deletions =~= plan.delete_local.skip(gone_next));
        assert(run.deletions[0] == plan.delete_local[gone]);
        assert(plan.delete_local.take(gone_next) =~= plan.delete_local.take(gone).push(
            plan.delete_local[gone],
        ));
    }
    if errors.len() == 0 && next.errors.len() == 0 {
        assert forall|key: Seq<char>| #[trigger]
            basis.pull_leaves(next.manifest, done_next, gone_next, key) by {
            assert(basis.pull_leaves(run.manifest, done, gone, key));
            lemma_plan_disjoint(
                basis.manifest,
                walk(basis.local),
                basis.local,
                basis.entries,
                key,
            );
            if next.todo.len() != run.todo.len() {
                let first = plan.pull[done];
                assert(plan.pull.contains(first));
                lemma_contains_push(plan.pull.take(done), first, key);
            }
            if next.deletions.len() != run.deletions.len() {
                let first = plan.delete_local[gone];
                assert(plan.delete_local.contains(first));
                lemma_contains_push(plan.delete_local.take(gone), first, key);
                if plan.pull.take(done).contains(key) {
                    assert(plan.pull.contains(key)) by {
                        let i = plan.pull.take(done).index_of(key);
                        assert(plan.pull[i] == key);
                    }
                }
            }
        }
    }
    lemma_pulls(basis, job, next, pushed, errors);
}

proof fn lemma_contains_push(s: Seq<Seq<char>>, x: Seq<char>, y: Seq<char>)
    ensures
        s.push(x).contains(y) <==> s.contains(y) || x == y,
{
    if s.contains(y) {
        assert(s.push(x)[s.index_of(y)] == y);
    }
    if x == y {
        assert(s.push(x)[s.len() as int] == y);
    }
    if s.push(x).contains(y) {
        let i = s.push(x).index_of(y);
        if i < s.len() {
            assert(s[i] == y);
        }
    }
}

proof fn lemma_pushes(basis: Basis, job: JobView, run: PushView)
    requires
        basis.wf(),
        job.mode is Full,
        basis.pushes(run),
    ensures
        basis.is_followed(job.after_push(run, basis.plan(), basis.entries)),
{
    if run.is_over() && run.errors.len() == 0 {
        let plan = basis.plan();
        assert forall|key: Seq<char>| #[trigger] basis.pull_leaves(run.manifest, 0, 0, key) by {
            assert(run.manifest.entry(key) == basis.manifest.entry(key) || (plan.push.contains(key)
                && push::is_stored(run, key)));
            if plan.push.contains(key) {
                lemma_plan_members(
                    basis.manifest,
                    walk(basis.local),
                    basis.local,
                    basis.entries,
                    key,
                );
                let i = plan.push.index_of(key);
                assert(push::is_stored(run, plan.push[i]));
            }
        }
    }
}

proof fn lemma_push_begins(basis: Basis, job: JobView, settings: SettingsView)
    requires
        basis.wf(),
        job.mode is Full,
    ensures
        basis.is_followed(
            job.after_push(
                job.push_with(settings, basis.plan(), basis.local, basis.manifest),
                basis.plan(),
                basis.entries,
            ),
        ),
{
    let server = settings.server_for(job.server_url);
    if server is Some {
        push::lemma_push_starts(
            server->0,
            settings.token_for(job.auth_token),
            job.namespace_id,
            job.root,
            basis.plan(),
            basis.local,
            basis.manifest,
        );
        lemma_pushes(
            basis,
            job,
            job.push_with(settings, basis.plan(), basis.local, basis.manifest),
        );
    }
}

proof fn lemma_pull_begins(
    basis: Basis,
    job: JobView,
    settings: SettingsView,
    manifest: ManifestView,
    pushed: int,
    errors: Seq<Seq<char>>,
)
    requires
        basis.wf(),
        job.mode is Full,
        errors.len() == 0 ==> basis.holds(manifest, 0, 0),
    ensures
        basis.is_followed(
            job.after_pull(
                job.pull_with(settings, basis.plan(), basis.entries, manifest),
                basis.plan(),
                basis.local,
                pushed,
                errors,
            ),
        ),
{
    let plan = basis.plan();
    let run = job.pull_with(settings, plan, basis.entries, manifest);
    if settings.server_for(job.server_url) is Some {
        assert(plan.pull.skip(0) =~= plan.pull);
        assert(plan.delete_local.skip(0) =~= plan.delete_local);
    } else {
        assert(run.todo =~= plan.pull.skip(plan.pull.len() as int));
        assert(run.deletions =~= plan.delete_local.skip(plan.delete_local.len() as int));
    }
    lemma_pulls(basis, job, run, pushed, errors);
}

// ---------------------------------------------------------------------------
// Laws
// ---------------------------------------------------------------------------

/// Once a full cycle has the list of objects, it does what was planned.
pub proof fn lemma_cycle_takes_up_the_plan(
    sync: SyncView,
    reply: Reply,
    local: Map<Seq<char>, LocalView>,
    entries: Seq<ServerView>,
    manifest: ManifestView,
)
    requires
        sync.job.mode is Full,
        sync.stage matches StageView::Fetch(fetch, l, m) && l == local && m == manifest
            && fetch.after(reply).is_over() && fetch.after(reply).result() == Ok::<
            Seq<ServerView>,
            Seq<char>,
        >(entries),
    ensures
        (Basis { manifest, local, entries }).is_followed(sync.after(reply).stage),
{
}

/// A full cycle that does what was planned goes on to do so, whatever the host replies, until it
/// is over; and be it that the settings change on the way.
pub proof fn lemma_cycle_follows_the_plan(sync: SyncView, reply: Reply, basis: Basis)
    requires
        sync.job.mode is Full,
        basis.wf(),
        basis.is_followed(sync.stage),
    ensures
        basis.is_followed(sync.after(reply).stage),
{
    let job = sync.job;
    match sync.stage {
        StageView::ReadyPush(_, _, _, _) => {
            if reply is Settings {
                lemma_push_begins(basis, job, reply->Settings_0);
            }
        },
        StageView::Push(run, plan, entries) => {
            push::lemma_push_touches_only(run, reply, basis.manifest, plan.push);
            push::lemma_push_stores_in_order(run, reply, plan.push);
            lemma_pushes(basis, job, run.after(reply));
        },
        StageView::ReadyPull(_, _, _, manifest, pushed, errors) => {
            if reply is Settings {
                lemma_pull_begins(basis, job, reply->Settings_0, manifest, pushed, errors);
            }
        },
        StageView::Pull(run, plan, local, pushed, errors) => {
            lemma_pulled(basis, job, run, pushed, errors, reply);
        },
        StageView::Mark(todo, local, manifest, result) => {
            if reply is Time {
                lemma_noted(basis, job, todo, manifest, result, reading(reply->Time_0));
            }
        },
        StageView::Stamp(manifest, result) => {
            if reply is Time && result.errors.len() == 0 {
                let next = sync.after(reply).stage->Save_0;
                assert forall|key: Seq<char>| #[trigger] basis.leaves(next, key) by {
                    assert(basis.leaves(manifest, key));
                    assert(next.entry(key) == manifest.entry(key));
                }
            }
        },
        _ => {},
    }
}

/// What the two sides hold after a cycle without errors, if they did what they were asked to:
/// the files that were pulled are here, with what the server had of them, those that were
/// deleted are not, the objects that were pushed are on the server, with what was here, and
/// everything else is as it was.
pub open spec fn carried_out(
    basis: Basis,
    local: Map<Seq<char>, LocalView>,
    entries: Seq<ServerView>,
) -> bool {
    let plan = basis.plan();
    &&& forall|key: Seq<char>| #[trigger]
        local.contains_key(key) <==> plan.pull.contains(key) || (basis.local.contains_key(key)
            && !plan.delete_local.contains(key))
    &&& forall|key: Seq<char>| #[trigger]
        local.contains_key(key) ==> local[key].hash == if plan.pull.contains(key) {
            hash_on_server(basis.entries, key)
        } else {
            basis.local[key].hash
        }
    &&& forall|key: Seq<char>|
        if plan.push.contains(key) {
            (#[trigger] server_entry(entries, key)) matches Some(e) && e.content_hash == Some(
                basis.local[key].hash,
            )
        } else {
            server_entry(entries, key) == server_entry(basis.entries, key)
        }
}

/// After a full cycle without errors the two sides agree, and the next cycle finds nothing to
/// do: if no removal was due on the server, every file had a hash, here or on the server where it
/// was pulled from, and the two sides did what they were asked to.
pub proof fn lemma_cycle_reaches_agreement(
    basis: Basis,
    manifest: ManifestView,
    result: ResultView,
    local: Map<Seq<char>, LocalView>,
    entries: Seq<ServerView>,
)
    requires
        basis.wf(),
        basis.is_followed(StageView::Over(manifest, Ok(result))),
        result.errors.len() == 0,
        basis.plan().delete_remote.len() == 0,
        carried_out(basis, local, entries),
        are_keys_of(walk(local), local),
        forall|key: Seq<char>| #[trigger] local.contains_key(key) ==> local[key].hash.len() > 0,
    ensures
        in_agreement(manifest, local, entries),
        ({
            let plan = planned(manifest, walk(local), local, entries);
            &&& plan.push.len() == 0
            &&& plan.pull.len() == 0
            &&& plan.delete_remote.len() == 0
            &&& plan.delete_local.len() == 0
        }),
{
    let plan = basis.plan();
    let keys = walk(basis.local);
    assert forall|key: Seq<char>| #[trigger] local.contains_key(key) implies ({
        &&& manifest.entry(key) matches Some(t) && !changed_here(t, local[key])
        &&& server_entry(entries, key) matches Some(r) && !changed_there(
            manifest.entry(key)->0,
            r,
        )
    }) by {
        lemma_plan_members(basis.manifest, keys, basis.local, basis.entries, key);
        lemma_plan_disjoint(basis.manifest, keys, basis.local, basis.entries, key);
        assert(basis.leaves(manifest, key));
    }
    assert forall|e: ServerView| #[trigger] entries.contains(e) implies
        !missing_here(manifest, local, e.key) by {
        let key = e.key;
        lemma_server_entry(entries, key);
        lemma_plan_members(basis.manifest, keys, basis.local, basis.entries, key);
        lemma_plan_disjoint(basis.manifest, keys, basis.local, basis.entries, key);
        assert(basis.leaves(manifest, key));
        assert(server_entry(entries, key) is Some);
        assert(local.contains_key(key) <==> plan.pull.contains(key) || (
        basis.local.contains_key(key) && !plan.delete_local.contains(key)));
    }
    lemma_agreement_is_stable(manifest, walk(local), local, entries);
}

} // verus!
