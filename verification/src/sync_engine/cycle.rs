//! Sync cycles: scan, fetch, compare, and then push, pull, or both.
//!
//! The settings are read before the fetch, again before the push, and again before the pull, so
//! each of these goes by what is configured when it begins.

use vstd::prelude::*;
use vstd::string::*;

use crate::config::{
    command_param_str, copy_text, server_for, token_for, Settings, SettingsView,
};
use crate::host::{answers, call_view, Call, HostCall, HostReply, Reply};
use crate::json;
use crate::json::{
    is_plain, optional_text, strings_json, texts, Json, JsonNumber, JsonValue,
};
use crate::key_map::{precedes, walk, KeyMap};
use crate::sync_engine::fetch::{FetchRun, FetchView};
use crate::sync_engine::plan::{
    compute_diff, lemma_filter_step, planned, server_views, LocalFileInfo, LocalView, PlanView,
    ServerEntry, ServerView, SyncPlan,
};
use crate::sync_engine::pull::{PullRun, PullView};
use crate::sync_engine::push::{PushRun, PushView};
use crate::sync_engine::scan::{scan_local, ScanRun, ScanView};
use crate::sync_manifest::{clock_or_zero, reading, ManifestView, SyncManifest};
use crate::text;

verus! {

/// Which way a cycle goes.
#[derive(Debug, Clone, Copy, PartialEq, Eq, Structural)]
pub enum SyncMode {
    Full,
    Push,
    Pull,
}

/// What a cycle did.
#[derive(Debug)]
pub struct SyncResult {
    pub pushed: usize,
    pub pulled: usize,
    pub deleted_remote: usize,
    pub deleted_local: usize,
    pub errors: Vec<String>,
}

/// What a cycle is about: the server and the token are those that were named for it, if any
/// were.
#[derive(Debug)]
struct Job {
    mode: SyncMode,
    server_url: Option<String>,
    auth_token: Option<String>,
    namespace_id: String,
    root: String,
}

/// How far a cycle has come.
#[derive(Debug)]
enum Stage {
    Scan(ScanRun, SyncManifest),
    /// The settings for the fetch are asked for.
    ReadyFetch(KeyMap<LocalFileInfo>, SyncManifest),
    Fetch(FetchRun, KeyMap<LocalFileInfo>, SyncManifest),
    /// The settings for the push are asked for.
    ReadyPush(SyncPlan, KeyMap<LocalFileInfo>, Vec<ServerEntry>, SyncManifest),
    Push(PushRun, SyncPlan, Vec<ServerEntry>),
    /// The settings for the pull are asked for.
    ReadyPull(
        SyncPlan,
        KeyMap<LocalFileInfo>,
        Vec<ServerEntry>,
        SyncManifest,
        usize,
        Vec<String>,
    ),
    Pull(PullRun, SyncPlan, KeyMap<LocalFileInfo>, usize, Vec<String>),
    /// Files of which nothing was known are marked as in sync.
    Mark(Vec<String>, usize, KeyMap<LocalFileInfo>, SyncManifest, SyncResult),
    /// The time of the cycle is noted.
    Stamp(SyncManifest, SyncResult),
    /// The manifest is stored.
    Save(SyncManifest, SyncResult),
    Over(SyncManifest, Result<SyncResult, String>),
}

/// A sync cycle.
#[derive(Debug)]
pub struct SyncRun {
    job: Job,
    stage: Stage,
}

// ---------------------------------------------------------------------------
// Models
// ---------------------------------------------------------------------------

/// The model of a [`SyncResult`].
#[verifier::ext_equal]
pub struct ResultView {
    pub pushed: int,
    pub pulled: int,
    pub deleted_remote: int,
    pub deleted_local: int,
    pub errors: Seq<Seq<char>>,
}

/// What a cycle is about: the server and the token are those that were named for it, if any
/// were.
pub struct JobView {
    pub mode: SyncMode,
    pub server_url: Option<Seq<char>>,
    pub auth_token: Option<Seq<char>>,
    pub namespace_id: Seq<char>,
    pub root: Seq<char>,
}

/// How far a cycle has come.
pub enum StageView {
    Scan(ScanView, ManifestView),
    ReadyFetch(Map<Seq<char>, LocalView>, ManifestView),
    Fetch(FetchView, Map<Seq<char>, LocalView>, ManifestView),
    ReadyPush(PlanView, Map<Seq<char>, LocalView>, Seq<ServerView>, ManifestView),
    Push(PushView, PlanView, Seq<ServerView>),
    ReadyPull(
        PlanView,
        Map<Seq<char>, LocalView>,
        Seq<ServerView>,
        ManifestView,
        int,
        Seq<Seq<char>>,
    ),
    Pull(PullView, PlanView, Map<Seq<char>, LocalView>, int, Seq<Seq<char>>),
    Mark(Seq<Seq<char>>, Map<Seq<char>, LocalView>, ManifestView, ResultView),
    Stamp(ManifestView, ResultView),
    Save(ManifestView, ResultView),
    Over(ManifestView, Result<ResultView, Seq<char>>),
}

/// The model of a [`SyncRun`].
pub struct SyncView {
    pub job: JobView,
    pub stage: StageView,
}

impl View for SyncResult {
    type V = ResultView;

    open spec fn view(&self) -> ResultView {
        ResultView {
            pushed: self.pushed as int,
            pulled: self.pulled as int,
            deleted_remote: self.deleted_remote as int,
            deleted_local: self.deleted_local as int,
            errors: texts(self.errors@),
        }
    }
}

/// A number as a JSON document.
pub open spec fn count_json(n: int) -> Json {
    Json::Number(JsonNumber::PosInt(n as u64))
}

impl ResultView {
    /// The result of a cycle that did nothing, for the given reason.
    pub open spec fn nothing(error: Seq<char>) -> ResultView {
        ResultView {
            pushed: 0,
            pulled: 0,
            deleted_remote: 0,
            deleted_local: 0,
            errors: seq![error],
        }
    }

    /// The result as a JSON document.
    pub open spec fn json(self) -> Json {
        Json::Object(
            seq![
                ("deleted_local"@, count_json(self.deleted_local)),
                ("deleted_remote"@, count_json(self.deleted_remote)),
                ("errors"@, strings_json(self.errors)),
                ("pulled"@, count_json(self.pulled)),
                ("pushed"@, count_json(self.pushed)),
            ],
        )
    }
}

/// The local files of which nothing is known, in order.
pub open spec fn unknown_files(
    local: Map<Seq<char>, LocalView>,
    manifest: ManifestView,
) -> Seq<Seq<char>> {
    walk(local).filter(|key: Seq<char>| !manifest.files.contains_key(key))
}

impl JobView {
    /// What the cycle of a command is about.
    pub open spec fn new(
        mode: SyncMode,
        params: Json,
        namespace_id: Seq<char>,
        root: Seq<char>,
    ) -> JobView {
        JobView {
            mode,
            server_url: params.text("server_url"@),
            auth_token: params.text("auth_token"@),
            namespace_id,
            root,
        }
    }

    /// The cycle when the list of objects cannot be had: a full cycle reports it, and any other
    /// fails.
    pub open spec fn unfetched(self, manifest: ManifestView, e: Seq<char>) -> StageView {
        StageView::Over(
            manifest,
            match self.mode {
                SyncMode::Full => Ok(ResultView::nothing("fetch server manifest: "@ + e)),
                _ => Err(e),
            },
        )
    }

    /// The cycle when it begins to fetch, with the given settings.
    pub open spec fn enter_fetch(
        self,
        settings: SettingsView,
        local: Map<Seq<char>, LocalView>,
        manifest: ManifestView,
    ) -> StageView {
        match settings.server_for(self.server_url) {
            Some(server) => StageView::Fetch(
                FetchView::start(server, self.namespace_id, settings.token_for(self.auth_token)),
                local,
                manifest,
            ),
            None => self.unfetched(manifest, "Missing server_url"@),
        }
    }

    /// The cycle when the objects on the server are known too.
    pub open spec fn after_fetch(
        self,
        local: Map<Seq<char>, LocalView>,
        manifest: ManifestView,
        fetched: Result<Seq<ServerView>, Seq<char>>,
    ) -> StageView {
        match fetched {
            Ok(entries) => {
                let plan = planned(manifest, walk(local), local, entries);
                match self.mode {
                    SyncMode::Pull => StageView::ReadyPull(
                        plan,
                        local,
                        entries,
                        manifest,
                        0,
                        Seq::empty(),
                    ),
                    _ => StageView::ReadyPush(plan, local, entries, manifest),
                }
            },
            Err(e) => self.unfetched(manifest, e),
        }
    }

    /// The push with which the cycle begins to push, with the given settings.
    pub open spec fn push_with(
        self,
        settings: SettingsView,
        plan: PlanView,
        local: Map<Seq<char>, LocalView>,
        manifest: ManifestView,
    ) -> PushView {
        PushView::start(
            settings.server_for(self.server_url),
            settings.token_for(self.auth_token),
            self.namespace_id,
            self.root,
            plan,
            local,
            manifest,
        )
    }

    /// The cycle when the push has come to a given point.
    pub open spec fn after_push(
        self,
        push: PushView,
        plan: PlanView,
        entries: Seq<ServerView>,
    ) -> StageView {
        if !push.is_over() {
            StageView::Push(push, plan, entries)
        } else {
            match self.mode {
                SyncMode::Push => StageView::Save(
                    push.manifest,
                    ResultView {
                        pushed: push.pushed,
                        pulled: 0,
                        deleted_remote: plan.delete_remote.len() as int,
                        deleted_local: 0,
                        errors: push.errors,
                    },
                ),
                _ => StageView::ReadyPull(
                    plan,
                    push.local,
                    entries,
                    push.manifest,
                    push.pushed,
                    push.errors,
                ),
            }
        }
    }

    /// The pull with which the cycle begins to pull, with the given settings.
    pub open spec fn pull_with(
        self,
        settings: SettingsView,
        plan: PlanView,
        entries: Seq<ServerView>,
        manifest: ManifestView,
    ) -> PullView {
        PullView::start(
            settings.server_for(self.server_url),
            settings.token_for(self.auth_token),
            self.namespace_id,
            self.root,
            plan,
            entries,
            manifest,
        )
    }

    /// The cycle when the pull has come to a given point. What a full cycle reports of the
    /// deletions is what was planned.
    pub open spec fn after_pull(
        self,
        pull: PullView,
        plan: PlanView,
        local: Map<Seq<char>, LocalView>,
        pushed: int,
        errors: Seq<Seq<char>>,
    ) -> StageView {
        if !pull.is_over() {
            StageView::Pull(pull, plan, local, pushed, errors)
        } else {
            let result = ResultView {
                pushed,
                pulled: pull.pulled,
                deleted_remote: if self.mode is Pull {
                    0
                } else {
                    plan.delete_remote.len() as int
                },
                deleted_local: plan.delete_local.len() as int,
                errors: errors + pull.errors,
            };
            match self.mode {
                SyncMode::Pull => StageView::Save(pull.manifest, result),
                _ => self.after_mark(
                    unknown_files(local, pull.manifest),
                    local,
                    pull.manifest,
                    result,
                ),
            }
        }
    }

    /// The cycle when the given files of which nothing is known are left.
    pub open spec fn after_mark(
        self,
        todo: Seq<Seq<char>>,
        local: Map<Seq<char>, LocalView>,
        manifest: ManifestView,
        result: ResultView,
    ) -> StageView {
        if todo.len() > 0 {
            StageView::Mark(todo, local, manifest, result)
        } else {
            StageView::Stamp(manifest, result)
        }
    }
}

impl SyncView {
    /// A cycle that has not begun.
    pub open spec fn start(job: JobView, manifest: ManifestView) -> SyncView {
        SyncView { job, stage: StageView::Scan(ScanView::start(job.root), manifest) }
    }

    /// Whether the cycle is over.
    pub open spec fn is_over(self) -> bool {
        self.stage is Over
    }

    /// The call that the cycle waits for.
    pub open spec fn call(self) -> Option<Call> {
        match self.stage {
            StageView::Scan(scan, _) => scan.call(),
            StageView::ReadyFetch(_, _) => Some(Call::LoadSettings),
            StageView::Fetch(fetch, _, _) => fetch.call(),
            StageView::ReadyPush(_, _, _, _) => Some(Call::LoadSettings),
            StageView::Push(push, _, _) => push.call(),
            StageView::ReadyPull(_, _, _, _, _, _) => Some(Call::LoadSettings),
            StageView::Pull(pull, _, _, _, _) => pull.call(),
            StageView::Mark(_, _, _, _) => Some(Call::Now),
            StageView::Stamp(_, _) => Some(Call::Now),
            StageView::Save(manifest, _) => Some(Call::SaveManifest(manifest)),
            StageView::Over(_, _) => None,
        }
    }

    /// The cycle after a reply; a reply to another call changes nothing.
    pub open spec fn after(self, reply: Reply) -> SyncView {
        let job = self.job;
        SyncView {
            job,
            stage: match (self.stage, reply) {
                (StageView::Scan(scan, manifest), _) => {
                    let next = scan.after(reply);
                    if next.is_over() {
                        StageView::ReadyFetch(next.found, manifest)
                    } else {
                        StageView::Scan(next, manifest)
                    }
                },
                (StageView::ReadyFetch(local, manifest), Reply::Settings(settings)) => {
                    job.enter_fetch(settings, local, manifest)
                },
                (StageView::Fetch(fetch, local, manifest), _) => {
                    let next = fetch.after(reply);
                    if next.is_over() {
                        job.after_fetch(local, manifest, next.result())
                    } else {
                        StageView::Fetch(next, local, manifest)
                    }
                },
                (
                    StageView::ReadyPush(plan, local, entries, manifest),
                    Reply::Settings(settings),
                ) => job.after_push(
                    job.push_with(settings, plan, local, manifest),
                    plan,
                    entries,
                ),
                (StageView::Push(push, plan, entries), _) => job.after_push(
                    push.after(reply),
                    plan,
                    entries,
                ),
                (
                    StageView::ReadyPull(plan, local, entries, manifest, pushed, errors),
                    Reply::Settings(settings),
                ) => job.after_pull(
                    job.pull_with(settings, plan, entries, manifest),
                    plan,
                    local,
                    pushed,
                    errors,
                ),
                (StageView::Pull(pull, plan, local, pushed, errors), _) => job.after_pull(
                    pull.after(reply),
                    plan,
                    local,
                    pushed,
                    errors,
                ),
                (StageView::Mark(todo, local, manifest, result), Reply::Time(now)) => job.after_mark(
                    todo.drop_first(),
                    local,
                    manifest.cleaned(
                        todo[0],
                        local[todo[0]].hash,
                        local[todo[0]].size,
                        reading(now),
                    ),
                    result,
                ),
                (StageView::Stamp(manifest, result), Reply::Time(now)) => StageView::Save(
                    ManifestView { last_sync_at: Some(reading(now)), ..manifest },
                    result,
                ),
                (StageView::Save(manifest, result), Reply::Saved) => StageView::Over(
                    manifest,
                    Ok(result),
                ),
                (stage, _) => stage,
            },
        }
    }
}

impl Job {
    spec fn view(&self) -> JobView {
        JobView {
            mode: self.mode,
            server_url: optional_text(self.server_url),
            auth_token: optional_text(self.auth_token),
            namespace_id: self.namespace_id@,
            root: self.root@,
        }
    }
}

spec fn outcome_view(r: Result<SyncResult, String>) -> Result<ResultView, Seq<char>> {
    match r {
        Ok(result) => Ok(result@),
        Err(e) => Err(e@),
    }
}

impl Stage {
    spec fn view(&self) -> StageView {
        match self {
            Stage::Scan(scan, manifest) => StageView::Scan(scan@, manifest@),
            Stage::ReadyFetch(local, manifest) => StageView::ReadyFetch(local@, manifest@),
            Stage::Fetch(fetch, local, manifest) => StageView::Fetch(fetch@, local@, manifest@),
            Stage::ReadyPush(plan, local, entries, manifest) => StageView::ReadyPush(
                plan@,
                local@,
                server_views(entries@),
                manifest@,
            ),
            Stage::Push(push, plan, entries) => StageView::Push(
                push@,
                plan@,
                server_views(entries@),
            ),
            Stage::ReadyPull(plan, local, entries, manifest, pushed, errors) => {
                StageView::ReadyPull(
                    plan@,
                    local@,
                    server_views(entries@),
                    manifest@,
                    *pushed as int,
                    texts(errors@),
                )
            },
            Stage::Pull(pull, plan, local, pushed, errors) => StageView::Pull(
                pull@,
                plan@,
                local@,
                *pushed as int,
                texts(errors@),
            ),
            Stage::Mark(todo, at, local, manifest, result) => StageView::Mark(
                texts(todo@).skip(*at as int),
                local@,
                manifest@,
                result@,
            ),
            Stage::Stamp(manifest, result) => StageView::Stamp(manifest@, result@),
            Stage::Save(manifest, result) => StageView::Save(manifest@, result@),
            Stage::Over(manifest, outcome) => StageView::Over(manifest@, outcome_view(*outcome)),
        }
    }

    spec fn in_range(self) -> bool {
        match self {
            Stage::Mark(todo, at, local, _, _) => at < todo@.len() && forall|i: int|
                0 <= i < todo@.len() ==> local@.contains_key((#[trigger] todo@[i])@),
            _ => true,
        }
    }
}

impl SyncRun {
    #[verifier::type_invariant]
    spec fn in_range(self) -> bool {
        self.stage.in_range()
    }

    /// The model of the cycle.
    pub closed spec fn view(&self) -> SyncView {
        SyncView { job: self.job@, stage: self.stage@ }
    }
}

// ---------------------------------------------------------------------------
// Functions
// ---------------------------------------------------------------------------

impl SyncResult {
    /// The result of a cycle that did nothing, for the given reason.
    fn nothing(error: String) -> (r: SyncResult)
        ensures
            r@ == ResultView::nothing(error@),
    {
        let r = SyncResult {
            pushed: 0,
            pulled: 0,
            deleted_remote: 0,
            deleted_local: 0,
            errors: vec![error],
        };
        assert(r@ =~= ResultView::nothing(error@));
        r
    }

    /// The result as a JSON document.
    pub fn to_json(&self) -> (r: JsonValue)
        ensures
            r@ == self@.json(),
            is_plain(r@),
    {
        let r = json::object(
            vec![
                json::member("deleted_local", json::unsigned(self.deleted_local as u64)),
                json::member("deleted_remote", json::unsigned(self.deleted_remote as u64)),
                json::member("errors", json::strings(&self.errors)),
                json::member("pulled", json::unsigned(self.pulled as u64)),
                json::member("pushed", json::unsigned(self.pushed as u64)),
            ],
        );
        proof {
            assert(r@->Object_0 =~= self@.json()->Object_0);
            lemma_result_is_plain(self@);
        }
        r
    }
}

/// The local files of which nothing is known, in order.
fn find_unknown(local: &KeyMap<LocalFileInfo>, manifest: &SyncManifest) -> (r: Vec<String>)
    ensures
        texts(r@) == unknown_files(local@, manifest@),
        forall|i: int| 0 <= i < r@.len() ==> local@.contains_key((#[trigger] r@[i])@),
{
    let ghost keys = local.keys();
    let ghost keep = |key: Seq<char>| !manifest@.files.contains_key(key);
    let count: usize = local.len();
    let mut r: Vec<String> = Vec::new();
    proof {
        local.lemma_walk();
        reveal(Seq::filter);
        assert(keys.take(0) =~= Seq::empty());
    }
    for i in 0..count
        invariant
            count == keys.len(),
            keys == local.keys(),
            keep == |key: Seq<char>| !manifest@.files.contains_key(key),
            texts(r@) =~= keys.take(i as int).filter(keep),
            forall|j: int| 0 <= j < r@.len() ==> local@.contains_key((#[trigger] r@[j])@),
    {
        let (key, _) = local.entry(i);
        proof {
            lemma_filter_step(keys, i as int, keep);
        }
        if !manifest.files.contains_key(key) {
            r.push(key.to_owned());
        }
    }
    assert(keys.take(count as int) =~= keys);
    r
}

impl Job {
    /// The cycle when the list of objects cannot be had.
    fn unfetched(&self, manifest: SyncManifest, e: String) -> (stage: Stage)
        ensures
            stage@ == self@.unfetched(manifest@, e@),
            stage.in_range(),
    {
        match self.mode {
            SyncMode::Full => Stage::Over(
                manifest,
                Ok(SyncResult::nothing(text::join("fetch server manifest: ", e.as_str()))),
            ),
            _ => Stage::Over(manifest, Err(e)),
        }
    }

    /// The cycle when it begins to fetch, with the given settings.
    fn enter_fetch(
        &self,
        settings: &Settings,
        local: KeyMap<LocalFileInfo>,
        manifest: SyncManifest,
    ) -> (stage: Stage)
        ensures
            stage@ == self@.enter_fetch(settings@, local@, manifest@),
            stage.in_range(),
    {
        match server_for(copy_text(&self.server_url), settings) {
            Some(server) => {
                let token: Option<String> = token_for(copy_text(&self.auth_token), settings);
                Stage::Fetch(
                    FetchRun::new(server, self.namespace_id.clone(), token),
                    local,
                    manifest,
                )
            },
            None => self.unfetched(manifest, "Missing server_url".to_owned()),
        }
    }

    /// The cycle when the objects on the server are known too.
    fn after_fetch(
        &self,
        local: KeyMap<LocalFileInfo>,
        manifest: SyncManifest,
        fetched: Result<Vec<ServerEntry>, String>,
    ) -> (stage: Stage)
        ensures
            stage@ == self@.after_fetch(
                local@,
                manifest@,
                match fetched {
                    Ok(entries) => Ok(server_views(entries@)),
                    Err(e) => Err(e@),
                },
            ),
            stage.in_range(),
    {
        match fetched {
            Ok(entries) => {
                let plan: SyncPlan = compute_diff(&manifest, &local, entries.as_slice());
                match self.mode {
                    SyncMode::Pull => {
                        let errors: Vec<String> = Vec::new();
                        assert(texts(errors@) =~= Seq::empty());
                        Stage::ReadyPull(plan, local, entries, manifest, 0, errors)
                    },
                    _ => Stage::ReadyPush(plan, local, entries, manifest),
                }
            },
            Err(e) => self.unfetched(manifest, e),
        }
    }

    /// The cycle when it begins to push, with the given settings.
    fn enter_push(
        &self,
        settings: &Settings,
        plan: SyncPlan,
        local: KeyMap<LocalFileInfo>,
        entries: Vec<ServerEntry>,
        manifest: SyncManifest,
    ) -> (stage: Stage)
        ensures
            stage@ == self@.after_push(
                self@.push_with(settings@, plan@, local@, manifest@),
                plan@,
                server_views(entries@),
            ),
            stage.in_range(),
    {
        let push: PushRun = PushRun::begin(
            server_for(copy_text(&self.server_url), settings),
            token_for(copy_text(&self.auth_token), settings),
            self.namespace_id.as_str(),
            self.root.as_str(),
            &plan,
            local,
            manifest,
        );
        self.after_push(push, plan, entries)
    }

    /// The cycle when the push has come to a given point.
    fn after_push(&self, push: PushRun, plan: SyncPlan, entries: Vec<ServerEntry>) -> (stage: Stage)
        ensures
            stage@ == self@.after_push(push@, plan@, server_views(entries@)),
            stage.in_range(),
    {
        if !push.is_over() {
            return Stage::Push(push, plan, entries);
        }
        let (pushed, errors, manifest, local) = push.into_result();
        match self.mode {
            SyncMode::Push => Stage::Save(
                manifest,
                SyncResult {
                    pushed,
                    pulled: 0,
                    deleted_remote: plan.delete_remote.len(),
                    deleted_local: 0,
                    errors,
                },
            ),
            _ => Stage::ReadyPull(plan, local, entries, manifest, pushed, errors),
        }
    }

    /// The cycle when it begins to pull, with the given settings.
    fn enter_pull(
        &self,
        settings: &Settings,
        plan: SyncPlan,
        local: KeyMap<LocalFileInfo>,
        entries: Vec<ServerEntry>,
        manifest: SyncManifest,
        pushed: usize,
        errors: Vec<String>,
    ) -> (stage: Stage)
        ensures
            stage@ == self@.after_pull(
                self@.pull_with(settings@, plan@, server_views(entries@), manifest@),
                plan@,
                local@,
                pushed as int,
                texts(errors@),
            ),
            stage.in_range(),
    {
        let pull: PullRun = PullRun::begin(
            server_for(copy_text(&self.server_url), settings),
            token_for(copy_text(&self.auth_token), settings),
            self.namespace_id.as_str(),
            self.root.as_str(),
            &plan,
            entries,
            manifest,
        );
        self.after_pull(pull, plan, local, pushed, errors)
    }

    /// The cycle when the pull has come to a given point.
    fn after_pull(
        &self,
        pull: PullRun,
        plan: SyncPlan,
        local: KeyMap<LocalFileInfo>,
        pushed: usize,
        errors: Vec<String>,
    ) -> (stage: Stage)
        ensures
            stage@ == self@.after_pull(pull@, plan@, local@, pushed as int, texts(errors@)),
            stage.in_range(),
    {
        if !pull.is_over() {
            return Stage::Pull(pull, plan, local, pushed, errors);
        }
        let ghost earlier = texts(errors@);
        let (pulled, later, manifest) = pull.into_result();
        let mut errors: Vec<String> = errors;
        let mut later: Vec<String> = later;
        let ghost added = texts(later@);
        errors.append(&mut later);
        assert(texts(errors@) =~= earlier + added);
        let deleted_remote: usize = match self.mode {
            SyncMode::Pull => 0,
            _ => plan.delete_remote.len(),
        };
        let result = SyncResult {
            pushed,
            pulled,
            deleted_remote,
            deleted_local: plan.delete_local.len(),
            errors,
        };
        match self.mode {
            SyncMode::Pull => Stage::Save(manifest, result),
            _ => {
                let todo: Vec<String> = find_unknown(&local, &manifest);
                assert(texts(todo@).skip(0) =~= texts(todo@));
                self.after_mark(todo, 0, local, manifest, result)
            },
        }
    }

    /// The cycle when the files from a given one on are left of which nothing is known.
    fn after_mark(
        &self,
        todo: Vec<String>,
        at: usize,
        local: KeyMap<LocalFileInfo>,
        manifest: SyncManifest,
        result: SyncResult,
    ) -> (stage: Stage)
        requires
            at <= todo@.len(),
            forall|i: int| 0 <= i < todo@.len() ==> local@.contains_key((#[trigger] todo@[i])@),
        ensures
            stage@ == self@.after_mark(
                texts(todo@).skip(at as int),
                local@,
                manifest@,
                result@,
            ),
            stage.in_range(),
    {
        if at < todo.len() {
            Stage::Mark(todo, at, local, manifest, result)
        } else {
            Stage::Stamp(manifest, result)
        }
    }

    /// The cycle after a reply.
    fn advance(&self, stage: Stage, reply: HostReply) -> (next: Stage)
        requires
            stage.in_range(),
        ensures
            next@ == (SyncView { job: self@, stage: stage@ }).after(reply@).stage,
            next.in_range(),
    {
        match (stage, reply) {
            (Stage::Scan(scan, manifest), reply) => {
                let next: ScanRun = scan.step(reply);
                if next.is_over() {
                    Stage::ReadyFetch(next.into_found(), manifest)
                } else {
                    Stage::Scan(next, manifest)
                }
            },
            (Stage::ReadyFetch(local, manifest), HostReply::Settings(settings)) => {
                self.enter_fetch(&settings, local, manifest)
            },
            (Stage::Fetch(fetch, local, manifest), reply) => {
                let next: FetchRun = fetch.step(reply);
                if next.is_over() {
                    self.after_fetch(local, manifest, next.into_result())
                } else {
                    Stage::Fetch(next, local, manifest)
                }
            },
            (
                Stage::ReadyPush(plan, local, entries, manifest),
                HostReply::Settings(settings),
            ) => self.enter_push(&settings, plan, local, entries, manifest),
            (Stage::Push(push, plan, entries), reply) => self.after_push(
                push.step(reply),
                plan,
                entries,
            ),
            (
                Stage::ReadyPull(plan, local, entries, manifest, pushed, errors),
                HostReply::Settings(settings),
            ) => self.enter_pull(&settings, plan, local, entries, manifest, pushed, errors),
            (Stage::Pull(pull, plan, local, pushed, errors), reply) => self.after_pull(
                pull.step(reply),
                plan,
                local,
                pushed,
                errors,
            ),
            (Stage::Mark(todo, at, local, manifest, result), HostReply::Time(now)) => {
                let mut manifest: SyncManifest = manifest;
                let key: String = todo[at].clone();
                assert(local@.contains_key(todo@[at as int]@));
                match local.get(key.as_str()) {
                    Some(info) => {
                        manifest.mark_clean(
                            key.as_str(),
                            info.hash.as_str(),
                            info.size,
                            clock_or_zero(now),
                        );
                    },
                    None => {},
                }
                proof {
                    assert(at < todo.len());
                    let left = texts(todo@).skip(at as int);
                    assert(left[0] == key@);
                    assert(texts(todo@).skip(at + 1) =~= left.drop_first());
                }
                self.after_mark(todo, at + 1, local, manifest, result)
            },
            (Stage::Stamp(manifest, result), HostReply::Time(now)) => {
                let mut manifest: SyncManifest = manifest;
                manifest.last_sync_at = Some(clock_or_zero(now));
                Stage::Save(manifest, result)
            },
            (Stage::Save(manifest, result), HostReply::Saved) => Stage::Over(manifest, Ok(result)),
            (stage, _) => stage,
        }
    }
}

/// Run a full push+pull sync cycle.
pub fn sync(
    params: &JsonValue,
    namespace_id: &str,
    workspace_root: &str,
    manifest: SyncManifest,
) -> (run: SyncRun)
    ensures
        run@ == SyncView::start(
            JobView::new(SyncMode::Full, params@, namespace_id@, workspace_root@),
            manifest@,
        ),
{
    start_cycle(SyncMode::Full, params, namespace_id, workspace_root, manifest)
}

/// Run a sync cycle that goes one way or both.
pub fn start_cycle(
    mode: SyncMode,
    params: &JsonValue,
    namespace_id: &str,
    workspace_root: &str,
    manifest: SyncManifest,
) -> (run: SyncRun)
    ensures
        run@ == SyncView::start(
            JobView::new(mode, params@, namespace_id@, workspace_root@),
            manifest@,
        ),
{
    SyncRun {
        job: Job {
            mode,
            server_url: command_param_str(params, "server_url"),
            auth_token: command_param_str(params, "auth_token"),
            namespace_id: namespace_id.to_owned(),
            root: workspace_root.to_owned(),
        },
        stage: Stage::Scan(scan_local(workspace_root), manifest),
    }
}

impl SyncRun {
    /// Whether the cycle is over.
    pub fn is_over(&self) -> (r: bool)
        ensures
            r == self@.is_over(),
    {
        match &self.stage {
            Stage::Over(_, _) => true,
            _ => false,
        }
    }

    /// The call that the cycle waits for.
    pub fn call(&self) -> (r: Option<HostCall>)
        ensures
            call_view(r) == self@.call(),
    {
        match &self.stage {
            Stage::Scan(scan, _) => scan.call(),
            Stage::ReadyFetch(_, _) => Some(HostCall::LoadSettings),
            Stage::Fetch(fetch, _, _) => fetch.call(),
            Stage::ReadyPush(_, _, _, _) => Some(HostCall::LoadSettings),
            Stage::Push(push, _, _) => push.call(),
            Stage::ReadyPull(_, _, _, _, _, _) => Some(HostCall::LoadSettings),
            Stage::Pull(pull, _, _, _, _) => pull.call(),
            Stage::Mark(_, _, _, _, _) => Some(HostCall::Now),
            Stage::Stamp(_, _) => Some(HostCall::Now),
            Stage::Save(manifest, _) => Some(HostCall::SaveManifest(manifest.copied())),
            Stage::Over(_, _) => None,
        }
    }

    /// The cycle after a reply.
    pub fn step(self, reply: HostReply) -> (next: SyncRun)
        ensures
            next@ == self@.after(reply@),
    {
        proof {
            use_type_invariant(&self);
        }
        let SyncRun { job, stage } = self;
        let stage: Stage = job.advance(stage, reply);
        SyncRun { job, stage }
    }

    /// What the cycle did, or why it failed, and the manifest; `None` as long as it is not over.
    pub fn into_result(self) -> (r: Option<(Result<SyncResult, String>, SyncManifest)>)
        ensures
            match r {
                Some((outcome, manifest)) => self@.stage == StageView::Over(
                    manifest@,
                    match outcome {
                        Ok(result) => Ok(result@),
                        Err(e) => Err(e@),
                    },
                ),
                None => !self@.is_over(),
            },
    {
        match self.stage {
            Stage::Over(manifest, outcome) => Some((outcome, manifest)),
            _ => None,
        }
    }
}

// ---------------------------------------------------------------------------
// Laws
// ---------------------------------------------------------------------------

/// The document of a result is written down as `serde_json` holds it.
pub proof fn lemma_result_is_plain(result: ResultView)
    ensures
        is_plain(result.json()),
{
    let members = result.json()->Object_0;
    reveal_strlit("deleted_local");
    reveal_strlit("deleted_remote");
    reveal_strlit("errors");
    reveal_strlit("pulled");
    reveal_strlit("pushed");
    json::lemma_plain_strings(result.errors);
    assert(precedes("deleted_local"@, "deleted_remote"@)) by {
        reveal_with_fuel(precedes, 10);
    }
    assert(precedes("deleted_local"@, "errors"@));
    assert(precedes("deleted_local"@, "pulled"@));
    assert(precedes("deleted_local"@, "pushed"@));
    assert(precedes("deleted_remote"@, "errors"@));
    assert(precedes("deleted_remote"@, "pulled"@));
    assert(precedes("deleted_remote"@, "pushed"@));
    assert(precedes("errors"@, "pulled"@));
    assert(precedes("errors"@, "pushed"@));
    assert(precedes("pulled"@, "pushed"@)) by {
        reveal_with_fuel(precedes, 4);
    }
    json::lemma_plain_object(members);
}

impl SyncView {
    /// Whether what the cycle waits for is there to be waited for.
    pub open spec fn wf(self) -> bool {
        match self.stage {
            StageView::Scan(scan, _) => !scan.is_over(),
            StageView::Fetch(fetch, _, _) => !fetch.is_over(),
            StageView::Push(push, _, _) => push.wf() && !push.is_over(),
            StageView::Pull(pull, _, _, _, _) => pull.wf() && !pull.is_over(),
            StageView::Mark(todo, _, _, _) => todo.len() > 0,
            _ => true,
        }
    }

    /// How far the cycle is from its end: how many stages are left, and how many replies the
    /// present one waits for at most.
    pub open spec fn distance(self) -> (int, int) {
        match self.stage {
            StageView::Scan(scan, _) => (10, scan.remaining()),
            StageView::ReadyFetch(_, _) => (9, 0),
            StageView::Fetch(_, _, _) => (8, 0),
            StageView::ReadyPush(_, _, _, _) => (7, 0),
            StageView::Push(push, _, _) => (6, push.remaining()),
            StageView::ReadyPull(_, _, _, _, _, _) => (5, 0),
            StageView::Pull(pull, _, _, _, _) => (4, pull.remaining()),
            StageView::Mark(todo, _, _, _) => (3, todo.len() as int),
            StageView::Stamp(_, _) => (2, 0),
            StageView::Save(_, _) => (1, 0),
            StageView::Over(_, _) => (0, 0),
        }
    }
}

/// A cycle that is not over waits for a call: it does at the start, and after every reply.
pub proof fn lemma_cycle_never_stalls(
    sync: SyncView,
    reply: Reply,
    job: JobView,
    manifest: ManifestView,
)
    requires
        sync.wf(),
    ensures
        SyncView::start(job, manifest).wf(),
        sync.after(reply).wf(),
        sync.call() is Some <==> !sync.is_over(),
{
}

/// Every reply to what a cycle waits for brings it closer to its end, except for the list of
/// files, and for a page of the list of objects that is followed by another.
pub proof fn lemma_cycle_progresses(sync: SyncView, reply: Reply)
    requires
        sync.wf(),
        !sync.is_over(),
        answers(sync.call()->0, reply),
        sync.stage matches StageView::Scan(scan, _) ==> !(scan.step is List),
        sync.stage is Fetch ==> !(sync.after(reply).stage is Fetch),
    ensures
        ({
            let before = sync.distance();
            let after = sync.after(reply).distance();
            ||| 0 <= after.0 < before.0
            ||| after.0 == before.0 && 0 <= after.1 < before.1
        }),
{
    match sync.stage {
        StageView::Scan(scan, _) => {
            crate::sync_engine::scan::lemma_scan_progresses(scan, reply);
        },
        StageView::Push(push, _, _) => {
            crate::sync_engine::push::lemma_push_progresses(push, reply);
        },
        StageView::Pull(pull, _, _, _, _) => {
            crate::sync_engine::pull::lemma_pull_progresses(pull, reply);
        },
        _ => {},
    }
}

impl SyncView {
    /// The manifest that the cycle holds.
    pub open spec fn manifest(self) -> ManifestView {
        match self.stage {
            StageView::Scan(_, manifest) => manifest,
            StageView::ReadyFetch(_, manifest) => manifest,
            StageView::Fetch(_, _, manifest) => manifest,
            StageView::ReadyPush(_, _, _, manifest) => manifest,
            StageView::Push(push, _, _) => push.manifest,
            StageView::ReadyPull(_, _, _, manifest, _, _) => manifest,
            StageView::Pull(pull, _, _, _, _) => pull.manifest,
            StageView::Mark(_, _, manifest, _) => manifest,
            StageView::Stamp(manifest, _) => manifest,
            StageView::Save(manifest, _) => manifest,
            StageView::Over(manifest, _) => manifest,
        }
    }
}

/// A cycle holds the manifest that it was given, and whatever it changes of it, not the
/// namespace.
pub proof fn lemma_cycle_keeps_namespace(
    sync: SyncView,
    reply: Reply,
    job: JobView,
    manifest: ManifestView,
)
    ensures
        SyncView::start(job, manifest).manifest() == manifest,
        sync.after(reply).manifest().namespace_id == sync.manifest().namespace_id,
{
}

/// A fetch, a push and a pull each go by the settings that are read when they begin: the call
/// before any of them is for the settings, and what begins is given by the reply.
pub proof fn lemma_settings_are_read_anew(sync: SyncView, reply: Reply)
    ensures
        ({
            let job = sync.job;
            let next = sync.after(reply).stage;
            let begins = (next is Fetch && !(sync.stage is Fetch)) || (next is Push && !(
            sync.stage is Push)) || (next is Pull && !(sync.stage is Pull));
            begins ==> sync.call() == Some(Call::LoadSettings) && (reply matches Reply::Settings(
                settings,
            ) && match (sync.stage, next) {
                (_, StageView::Fetch(fetch, _, _)) => settings.server_for(job.server_url)
                    matches Some(server) && fetch == FetchView::start(
                    server,
                    job.namespace_id,
                    settings.token_for(job.auth_token),
                ),
                (
                    StageView::ReadyPush(plan, local, _, manifest),
                    StageView::Push(push, _, _),
                ) => push == job.push_with(settings, plan, local, manifest),
                (
                    StageView::ReadyPull(plan, _, entries, manifest, _, _),
                    StageView::Pull(pull, _, _, _, _),
                ) => pull == job.pull_with(settings, plan, entries, manifest),
                _ => false,
            })
        }),
{
}

/// The manifest that a cycle gives back is the one that it had stored; the one exception is a
/// cycle that could not get the list of objects, which leaves the manifest as it was.
pub proof fn lemma_cycle_stores_what_it_returns(sync: SyncView, reply: Reply)
    requires
        !sync.is_over(),
        sync.after(reply).is_over(),
    ensures
        ({
            let manifest = sync.after(reply).stage->Over_0;
            match sync.stage {
                StageView::ReadyFetch(_, before) => manifest == before,
                StageView::Fetch(_, _, before) => manifest == before,
                _ => sync.call() == Some(Call::SaveManifest(manifest)) && sync.after(
                    reply,
                ).stage->Over_1 is Ok,
            }
        }),
{
}

/// Whether the counts of a cycle add up.
pub open spec fn adds_up(sync: SyncView) -> bool {
    match sync.stage {
        StageView::Push(push, plan, _) => push.wf() && crate::sync_engine::push::adds_up(
            push,
            plan.push.len() as int,
            plan.delete_remote.len() as int,
        ),
        StageView::ReadyPull(plan, _, _, _, pushed, errors) => errors.len() == 0 && !(
        sync.job.mode is Pull) ==> pushed == plan.push.len(),
        StageView::Pull(pull, plan, _, pushed, errors) => {
            &&& pull.wf()
            &&& crate::sync_engine::pull::adds_up(
                pull,
                plan.pull.len() as int,
                plan.delete_local.len() as int,
            )
            &&& errors.len() == 0 && !(sync.job.mode is Pull) ==> pushed == plan.push.len()
        },
        _ => true,
    }
}

/// The counts of a cycle add up: they do at the start, and every reply keeps it.
pub proof fn lemma_cycle_adds_up(
    sync: SyncView,
    reply: Reply,
    job: JobView,
    manifest: ManifestView,
)
    requires
        adds_up(sync),
    ensures
        adds_up(SyncView::start(job, manifest)),
        adds_up(sync.after(reply)),
{
    let job = sync.job;
    match (sync.stage, reply) {
        (StageView::ReadyPush(plan, local, _, manifest), Reply::Settings(settings)) => {
            let server = settings.server_for(job.server_url);
            if server is Some {
                crate::sync_engine::push::lemma_push_starts(
                    server->0,
                    settings.token_for(job.auth_token),
                    job.namespace_id,
                    job.root,
                    plan,
                    local,
                    manifest,
                );
            }
        },
        (StageView::Push(push, plan, _), _) => {
            crate::sync_engine::push::lemma_push_adds_up(
                push,
                reply,
                plan.push.len() as int,
                plan.delete_remote.len() as int,
            );
        },
        (StageView::ReadyPull(plan, _, entries, manifest, _, _), Reply::Settings(settings)) => {
            let server = settings.server_for(job.server_url);
            if server is Some {
                crate::sync_engine::pull::lemma_pull_starts(
                    server->0,
                    settings.token_for(job.auth_token),
                    job.namespace_id,
                    job.root,
                    plan,
                    entries,
                    manifest,
                );
            }
        },
        (StageView::Pull(pull, plan, _, _, _), _) => {
            crate::sync_engine::pull::lemma_pull_adds_up(
                pull,
                reply,
                plan.pull.len() as int,
                plan.delete_local.len() as int,
            );
        },
        _ => {},
    }
}

/// The plan of a cycle that pulls or is about to, and the errors that there were before.
pub open spec fn pulling(stage: StageView) -> Option<(PlanView, Seq<Seq<char>>)> {
    match stage {
        StageView::ReadyPull(plan, _, _, _, _, errors) => Some((plan, errors)),
        StageView::Pull(_, plan, _, _, errors) => Some((plan, errors)),
        _ => None,
    }
}

/// The result that a cycle has come to, once the pull is behind it.
pub open spec fn result_of(stage: StageView) -> Option<ResultView> {
    match stage {
        StageView::Mark(_, _, _, result) => Some(result),
        StageView::Stamp(_, result) => Some(result),
        StageView::Save(_, result) => Some(result),
        StageView::Over(_, Ok(result)) => Some(result),
        _ => None,
    }
}

/// A full cycle whose pull ends without an error before it or in it has pushed and pulled all
/// that was planned; and the errors before it and in it are all reported, in order.
pub proof fn lemma_cycle_without_errors(sync: SyncView, reply: Reply)
    requires
        sync.job.mode is Full,
        adds_up(sync),
        pulling(sync.stage) is Some,
        pulling(sync.after(reply).stage) is None,
    ensures
        ({
            let (plan, earlier) = pulling(sync.stage)->0;
            let result = result_of(sync.after(reply).stage);
            &&& result is Some
            &&& earlier.is_prefix_of(result->0.errors)
            &&& result->0.deleted_remote == plan.delete_remote.len()
            &&& result->0.deleted_local == plan.delete_local.len()
            &&& result->0.errors.len() == 0 ==> result->0.pushed == plan.push.len()
                && result->0.pulled == plan.pull.len()
        }),
{
    let (plan, earlier) = pulling(sync.stage)->0;
    match (sync.stage, reply) {
        (StageView::Pull(pull, _, _, _, _), _) => {
            crate::sync_engine::pull::lemma_pull_adds_up(
                pull,
                reply,
                plan.pull.len() as int,
                plan.delete_local.len() as int,
            );
            let all = earlier + pull.after(reply).errors;
            assert(earlier =~= all.take(earlier.len() as int));
        },
        (StageView::ReadyPull(_, _, entries, manifest, _, _), Reply::Settings(settings)) => {
            let pull = sync.job.pull_with(settings, plan, entries, manifest);
            let all = earlier + pull.errors;
            assert(earlier =~= all.take(earlier.len() as int));
        },
        _ => {},
    }
}

/// Whether every local file is known or still to be marked.
pub open spec fn covers(
    todo: Seq<Seq<char>>,
    local: Map<Seq<char>, LocalView>,
    manifest: ManifestView,
) -> bool {
    forall|key: Seq<char>| #[trigger]
        local.contains_key(key) ==> manifest.files.contains_key(key) || todo.contains(key)
}

/// At the end of a full cycle every local file is known: the files that are to be marked cover
/// those that are not, each that is marked is known, and when none is left all are known.
pub proof fn lemma_cycle_knows_all_files(
    sync: SyncView,
    reply: Reply,
    local: Map<Seq<char>, LocalView>,
    manifest: ManifestView,
)
    requires
        sync.stage matches StageView::Mark(todo, l, m, _) && l == local && m == manifest && todo.len()
            > 0 && covers(todo, l, m),
    ensures
        match sync.after(reply).stage {
            StageView::Mark(todo, l, m, _) => l == local && covers(todo, l, m),
            StageView::Stamp(m, _) => covers(Seq::empty(), local, m),
            _ => false,
        },
{
    let todo = sync.stage->Mark_0;
    if reply is Time {
        let now = reply->Time_0;
        let rest = todo.drop_first();
        let next = manifest.cleaned(todo[0], local[todo[0]].hash, local[todo[0]].size, reading(now));
        assert forall|key: Seq<char>| #[trigger] local.contains_key(key) implies
            next.files.contains_key(key) || rest.contains(key) by {
            if !manifest.files.contains_key(key) && key != todo[0] {
                let i = todo.index_of(key);
                assert(rest[i - 1] == key);
            }
        }
        if rest.len() == 0 {
            assert(rest =~= Seq::empty());
        }
    }
}

/// The files that are marked at the end of a full cycle are those of which nothing is known.
pub proof fn lemma_marked_files_cover(local: Map<Seq<char>, LocalView>, manifest: ManifestView)
    requires
        crate::sync_engine::plan::are_keys_of(walk(local), local),
    ensures
        covers(unknown_files(local, manifest), local, manifest),
{
    let keep = |key: Seq<char>| !manifest.files.contains_key(key);
    assert forall|key: Seq<char>| #[trigger] local.contains_key(key) implies
        manifest.files.contains_key(key) || unknown_files(local, manifest).contains(key) by {
        crate::sync_engine::plan::lemma_filter_members(walk(local), keep, key);
    }
}

} // verus!
