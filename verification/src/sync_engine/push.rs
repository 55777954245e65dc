//! Pushing local files to the server.

use vstd::prelude::*;
use vstd::string::*;

use crate::config::{resolve_auth_token, resolve_server_url, Settings};
use crate::host::{answers, call_view, Call, HostCall, HostReply, Reply};
use crate::json::{optional_text, texts, JsonValue};
use crate::key_map::KeyMap;
use crate::server_api;
use crate::server_api::{bare_request, object_url, upload_request};
use crate::sync_engine::paths;
use crate::sync_engine::paths::{content_type, file_path, path_of_key, root_prefix};
use crate::sync_engine::plan::{LocalFileInfo, LocalView, PlanView, SyncPlan};
use crate::sync_manifest::{clock_or_zero, reading, ManifestView, SyncManifest};
use crate::text;
use crate::text::decimal;

verus! {

/// What a push waits for.
#[derive(Debug)]
enum Step {
    /// The content of the next file.
    Read,
    /// The server's answer to the next file, whose content is known.
    Send(Vec<u8>),
    /// The time at which the next file, of the given size, was stored.
    Stamp(u64),
    /// The server's answer to the next removal.
    Remove,
    /// Nothing.
    Over,
}

/// A push of local files to the server.
#[derive(Debug)]
pub struct PushRun {
    server: String,
    namespace_id: String,
    prefix: String,
    token: Option<String>,
    local: KeyMap<LocalFileInfo>,
    manifest: SyncManifest,
    push: Vec<String>,
    at: usize,
    removals: Vec<String>,
    removed: usize,
    step: Step,
    pushed: usize,
    errors: Vec<String>,
}

// ---------------------------------------------------------------------------
// Models
// ---------------------------------------------------------------------------

/// What a push waits for.
pub enum PushStep {
    Read,
    Send(Seq<u8>),
    Stamp(u64),
    Remove,
    Over,
}

/// The model of a [`PushRun`]: the files that are still to be stored, the objects that are
/// still to be removed, and what came of the others.
#[verifier::ext_equal]
pub struct PushView {
    pub server: Seq<char>,
    pub namespace_id: Seq<char>,
    pub prefix: Seq<char>,
    pub token: Option<Seq<char>>,
    pub local: Map<Seq<char>, LocalView>,
    pub manifest: ManifestView,
    pub todo: Seq<Seq<char>>,
    pub removals: Seq<Seq<char>>,
    pub step: PushStep,
    pub pushed: int,
    pub errors: Seq<Seq<char>>,
}

/// A message about an object.
pub open spec fn about(what: Seq<char>, key: Seq<char>, problem: Seq<char>) -> Seq<char> {
    what + key + ": "@ + problem
}

/// What is said of a status that is not the expected one.
pub open spec fn bad_status(status: u16) -> Seq<char> {
    "HTTP "@ + decimal(status as nat)
}

impl PushView {
    /// A push that has not begun.
    pub open spec fn start(
        server: Option<Seq<char>>,
        token: Option<Seq<char>>,
        namespace_id: Seq<char>,
        workspace_root: Seq<char>,
        plan: PlanView,
        local: Map<Seq<char>, LocalView>,
        manifest: ManifestView,
    ) -> PushView {
        match server {
            Some(server) => PushView {
                server,
                namespace_id,
                prefix: root_prefix(workspace_root),
                token,
                local,
                manifest,
                todo: plan.push,
                removals: plan.delete_remote,
                step: PushStep::Over,
                pushed: 0,
                errors: Seq::empty(),
            }.settle(),
            None => PushView {
                server: Seq::empty(),
                namespace_id,
                prefix: root_prefix(workspace_root),
                token,
                local,
                manifest,
                todo: Seq::empty(),
                removals: Seq::empty(),
                step: PushStep::Over,
                pushed: 0,
                errors: seq!["Missing server_url"@],
            },
        }
    }

    /// The push when it turns to what comes next: first the files, then the removals. When all
    /// is done, no removal is pending any more.
    pub open spec fn settle(self) -> PushView {
        if self.todo.len() > 0 {
            PushView { step: PushStep::Read, ..self }
        } else if self.removals.len() > 0 {
            PushView { step: PushStep::Remove, ..self }
        } else {
            PushView { step: PushStep::Over, manifest: self.manifest.settled(), ..self }
        }
    }

    /// Whether the push is over.
    pub open spec fn is_over(self) -> bool {
        self.step is Over
    }

    /// The call that the push waits for.
    pub open spec fn call(self) -> Option<Call> {
        match self.step {
            PushStep::Read => Some(Call::ReadBinary(file_path(self.prefix, self.todo[0]))),
            PushStep::Send(bytes) => Some(
                Call::Send(
                    upload_request(
                        object_url(self.server, self.namespace_id, self.todo[0]),
                        content_type(path_of_key(self.todo[0])),
                        self.token,
                        bytes,
                    ),
                ),
            ),
            PushStep::Stamp(_) => Some(Call::Now),
            PushStep::Remove => Some(
                Call::Send(
                    bare_request(
                        "DELETE"@,
                        object_url(self.server, self.namespace_id, self.removals[0]),
                        self.token,
                    ),
                ),
            ),
            PushStep::Over => None,
        }
    }

    /// The push when the next file could not be stored.
    pub open spec fn failed(self, error: Seq<char>) -> PushView {
        PushView {
            todo: self.todo.drop_first(),
            errors: self.errors.push(error),
            ..self
        }.settle()
    }

    /// The push when the next file was stored: it is in sync, with the hash that the scan found.
    pub open spec fn stored(self, size: u64, now: Option<u64>) -> PushView {
        let key = self.todo[0];
        let hash = if self.local.contains_key(key) {
            self.local[key].hash
        } else {
            Seq::empty()
        };
        PushView {
            todo: self.todo.drop_first(),
            pushed: self.pushed + 1,
            manifest: self.manifest.cleaned(key, hash, size, reading(now)),
            ..self
        }.settle()
    }

    /// The push when the next removal was answered, with an error if it failed.
    pub open spec fn removed(self, error: Option<Seq<char>>) -> PushView {
        PushView {
            removals: self.removals.drop_first(),
            errors: match error {
                Some(e) => self.errors.push(about("delete remote "@, self.removals[0], e)),
                None => self.errors,
            },
            ..self
        }.settle()
    }

    /// The push after a reply; a reply to another call changes nothing.
    pub open spec fn after(self, reply: Reply) -> PushView {
        match (self.step, reply) {
            (PushStep::Read, Reply::Bytes(Ok(bytes))) => PushView {
                step: PushStep::Send(bytes),
                ..self
            },
            (PushStep::Read, Reply::Bytes(Err(e))) => self.failed(
                about("read "@, self.todo[0], e),
            ),
            (PushStep::Send(bytes), Reply::Response(Ok(response))) => if response.status == 200 {
                PushView { step: PushStep::Stamp(bytes.len() as u64), ..self }
            } else {
                self.failed(about("push "@, self.todo[0], bad_status(response.status)))
            },
            (PushStep::Send(_), Reply::Response(Err(e))) => self.failed(
                about("push "@, self.todo[0], e),
            ),
            (PushStep::Stamp(size), Reply::Time(now)) => self.stored(size, now),
            (PushStep::Remove, Reply::Response(Ok(response))) => self.removed(
                if response.status == 204 || response.status == 200 {
                    None
                } else {
                    Some(bad_status(response.status))
                },
            ),
            (PushStep::Remove, Reply::Response(Err(e))) => self.removed(Some(e)),
            _ => self,
        }
    }

    /// How many replies the push still waits for at most.
    pub open spec fn remaining(self) -> int {
        3 * self.todo.len() + self.removals.len() - (match self.step {
            PushStep::Send(_) => 1int,
            PushStep::Stamp(_) => 2,
            _ => 0,
        })
    }

    /// Whether what the push waits for is there to be waited for.
    pub open spec fn wf(self) -> bool {
        match self.step {
            PushStep::Read => self.todo.len() > 0,
            PushStep::Send(_) => self.todo.len() > 0,
            PushStep::Stamp(_) => self.todo.len() > 0,
            PushStep::Remove => self.todo.len() == 0 && self.removals.len() > 0,
            PushStep::Over => self.todo.len() == 0 && self.removals.len() == 0,
        }
    }
}

impl PushRun {
    #[verifier::type_invariant]
    spec fn in_range(self) -> bool {
        &&& self.pushed <= self.at <= self.push@.len()
        &&& self.removed <= self.removals@.len()
        &&& match self.step {
            Step::Read => self.at < self.push@.len(),
            Step::Send(_) => self.at < self.push@.len(),
            Step::Stamp(_) => self.at < self.push@.len(),
            Step::Remove => self.at == self.push@.len() && self.removed < self.removals@.len(),
            Step::Over => self.at == self.push@.len() && self.removed == self.removals@.len(),
        }
    }

    /// The model of the push.
    pub closed spec fn view(&self) -> PushView {
        PushView {
            server: self.server@,
            namespace_id: self.namespace_id@,
            prefix: self.prefix@,
            token: optional_text(self.token),
            local: self.local@,
            manifest: self.manifest@,
            todo: texts(self.push@).skip(self.at as int),
            removals: texts(self.removals@).skip(self.removed as int),
            step: match self.step {
                Step::Read => PushStep::Read,
                Step::Send(bytes) => PushStep::Send(bytes@),
                Step::Stamp(size) => PushStep::Stamp(size),
                Step::Remove => PushStep::Remove,
                Step::Over => PushStep::Over,
            },
            pushed: self.pushed as int,
            errors: texts(self.errors@),
        }
    }
}

// ---------------------------------------------------------------------------
// Functions
// ---------------------------------------------------------------------------

/// A message about an object.
pub(crate) fn message(what: &str, key: &str, problem: &str) -> (r: String)
    ensures
        r@ == about(what@, key@, problem@),
{
    text::join4(what, key, ": ", problem)
}

/// What is said of a status that is not the expected one.
pub(crate) fn status_message(status: u16) -> (r: String)
    ensures
        r@ == bad_status(status),
{
    text::join("HTTP ", text::number(status as u64).as_str())
}

/// A copy of the keys.
pub(crate) fn copy_keys(keys: &Vec<String>) -> (r: Vec<String>)
    ensures
        texts(r@) == texts(keys@),
{
    let mut r: Vec<String> = Vec::new();
    for i in 0..keys.len()
        invariant
            r@.len() == i,
            forall|j: int| 0 <= j < i ==> (#[trigger] r@[j])@ == keys@[j]@,
    {
        r.push(keys[i].clone());
    }
    assert(texts(r@) =~= texts(keys@));
    r
}

/// Push local files to the server.
pub fn execute_push(
    params: &JsonValue,
    settings: &Settings,
    namespace_id: &str,
    workspace_root: &str,
    plan: &SyncPlan,
    local_scan: KeyMap<LocalFileInfo>,
    manifest: SyncManifest,
) -> (run: PushRun)
    ensures
        run@ == PushView::start(
            settings@.server(params@),
            settings@.token(params@),
            namespace_id@,
            workspace_root@,
            plan@,
            local_scan@,
            manifest@,
        ),
        run@.wf(),
{
    PushRun::begin(
        resolve_server_url(params, settings),
        resolve_auth_token(params, settings),
        namespace_id,
        workspace_root,
        plan,
        local_scan,
        manifest,
    )
}

impl PushRun {
    /// The same, from a given server.
    pub fn begin(
        server: Option<String>,
        token: Option<String>,
        namespace_id: &str,
        workspace_root: &str,
        plan: &SyncPlan,
        local_scan: KeyMap<LocalFileInfo>,
        manifest: SyncManifest,
    ) -> (run: PushRun)
        ensures
            run@ == PushView::start(
                optional_text(server),
                optional_text(token),
                namespace_id@,
                workspace_root@,
                plan@,
                local_scan@,
                manifest@,
            ),
            run@.wf(),
    {
        let ghost want = PushView::start(
            optional_text(server),
            optional_text(token),
            namespace_id@,
            workspace_root@,
            plan@,
            local_scan@,
            manifest@,
        );
        let prefix: String = paths::normalize_root_prefix(workspace_root);
        match server {
            Some(server) => {
                let raw = Parts {
                    server,
                    namespace_id: namespace_id.to_owned(),
                    prefix,
                    token,
                    local: local_scan,
                    manifest,
                    push: copy_keys(&plan.push),
                    at: 0,
                    removals: copy_keys(&plan.delete_remote),
                    removed: 0,
                    pushed: 0,
                    errors: Vec::new(),
                };
                proof {
                    assert(texts(raw.push@).skip(0) =~= plan@.push);
                    assert(texts(raw.removals@).skip(0) =~= plan@.delete_remote);
                    assert(texts(raw.errors@) =~= Seq::empty());
                }
                let run = raw.settle();
                assert(run@ =~= want);
                run
            },
            None => {
                let run = PushRun {
                    server: String::new(),
                    namespace_id: namespace_id.to_owned(),
                    prefix,
                    token,
                    local: local_scan,
                    manifest,
                    push: Vec::new(),
                    at: 0,
                    removals: Vec::new(),
                    removed: 0,
                    step: Step::Over,
                    pushed: 0,
                    errors: vec!["Missing server_url".to_owned()],
                };
                assert(run@ =~= want);
                run
            },
        }
    }
}

/// The parts of a push that has still to turn to what comes next.
struct Parts {
    server: String,
    namespace_id: String,
    prefix: String,
    token: Option<String>,
    local: KeyMap<LocalFileInfo>,
    manifest: SyncManifest,
    push: Vec<String>,
    at: usize,
    removals: Vec<String>,
    removed: usize,
    pushed: usize,
    errors: Vec<String>,
}

impl Parts {
    spec fn view(&self) -> PushView {
        PushView {
            server: self.server@,
            namespace_id: self.namespace_id@,
            prefix: self.prefix@,
            token: optional_text(self.token),
            local: self.local@,
            manifest: self.manifest@,
            todo: texts(self.push@).skip(self.at as int),
            removals: texts(self.removals@).skip(self.removed as int),
            step: PushStep::Over,
            pushed: self.pushed as int,
            errors: texts(self.errors@),
        }
    }

    spec fn in_range(self) -> bool {
        &&& self.pushed <= self.at <= self.push@.len()
        &&& self.removed <= self.removals@.len()
    }

    /// The push that waits for a given step.
    fn into_run(self, step: Step) -> (run: PushRun)
        requires
            self.in_range(),
            step is Over <==> self.at == self.push@.len() && self.removed == self.removals@.len(),
            step is Remove <==> self.at == self.push@.len() && self.removed < self.removals@.len(),
        ensures
            run@ == (PushView {
                step: match step {
                    Step::Read => PushStep::Read,
                    Step::Send(bytes) => PushStep::Send(bytes@),
                    Step::Stamp(size) => PushStep::Stamp(size),
                    Step::Remove => PushStep::Remove,
                    Step::Over => PushStep::Over,
                },
                ..self@
            }),
    {
        PushRun {
            server: self.server,
            namespace_id: self.namespace_id,
            prefix: self.prefix,
            token: self.token,
            local: self.local,
            manifest: self.manifest,
            push: self.push,
            at: self.at,
            removals: self.removals,
            removed: self.removed,
            step,
            pushed: self.pushed,
            errors: self.errors,
        }
    }

    /// The push when it turns to what comes next.
    fn settle(self) -> (run: PushRun)
        requires
            self.in_range(),
        ensures
            run@ == self@.settle(),
            run@.wf(),
    {
        if self.at < self.push.len() {
            self.into_run(Step::Read)
        } else if self.removed < self.removals.len() {
            self.into_run(Step::Remove)
        } else {
            let mut parts: Parts = self;
            parts.manifest.clear_deletes();
            parts.into_run(Step::Over)
        }
    }

    /// The push when the next file could not be stored.
    fn failed(self, what: &str, problem: &str) -> (run: PushRun)
        requires
            self.in_range(),
            self.at < self.push@.len(),
        ensures
            run@ == self@.failed(about(what@, self@.todo[0], problem@)),
            run@.wf(),
    {
        let mut parts: Parts = self;
        let error: String = message(what, parts.push[parts.at].as_str(), problem);
        parts.errors.push(error);
        assert(parts.at < parts.push.len());
        parts.at += 1;
        proof {
            assert(parts@.todo =~= self@.todo.drop_first());
            assert(parts@.errors =~= self@.errors.push(error@));
        }
        parts.settle()
    }

    /// The push when the next file was stored.
    fn stored(self, size: u64, now: Option<u64>) -> (run: PushRun)
        requires
            self.in_range(),
            self.at < self.push@.len(),
        ensures
            run@ == self@.stored(size, now),
            run@.wf(),
    {
        let mut parts: Parts = self;
        let key: String = parts.push[parts.at].clone();
        let hash: String = match parts.local.get(key.as_str()) {
            Some(info) => info.hash.clone(),
            None => String::new(),
        };
        parts.manifest.mark_clean(key.as_str(), hash.as_str(), size, clock_or_zero(now));
        assert(parts.at < parts.push.len());
        parts.at += 1;
        parts.pushed += 1;
        proof {
            assert(self@.todo[0] == key@);
            assert(parts@.todo =~= self@.todo.drop_first());
        }
        parts.settle()
    }

    /// The push when the next removal was answered.
    fn removal_answered(self, error: Option<String>) -> (run: PushRun)
        requires
            self.in_range(),
            self.at == self.push@.len(),
            self.removed < self.removals@.len(),
        ensures
            run@ == self@.removed(optional_text(error)),
            run@.wf(),
    {
        let mut parts: Parts = self;
        match error {
            Some(e) => {
                let error: String = message(
                    "delete remote ",
                    parts.removals[parts.removed].as_str(),
                    e.as_str(),
                );
                parts.errors.push(error);
                assert(parts@.errors =~= self@.errors.push(error@));
            },
            None => {},
        }
        assert(parts.removed < parts.removals.len());
        parts.removed += 1;
        assert(parts@.removals =~= self@.removals.drop_first());
        parts.settle()
    }
}

impl PushRun {
    /// Whether the push is over.
    pub fn is_over(&self) -> (r: bool)
        ensures
            r == self@.is_over(),
    {
        match &self.step {
            Step::Over => true,
            _ => false,
        }
    }

    /// The call that the push waits for.
    pub fn call(&self) -> (r: Option<HostCall>)
        ensures
            call_view(r) == self@.call(),
    {
        proof {
            use_type_invariant(self);
        }
        match &self.step {
            Step::Read => {
                let key: &str = self.push[self.at].as_str();
                Some(HostCall::ReadBinary(paths::path_for(self.prefix.as_str(), key)))
            },
            Step::Send(bytes) => {
                let key: &str = self.push[self.at].as_str();
                let url: String = server_api::object_address(
                    self.server.as_str(),
                    self.namespace_id.as_str(),
                    key,
                );
                let relative: &str = text::strip_prefix_or_keep(key, "files/");
                let mut body: Vec<u8> = Vec::new();
                body.extend_from_slice(bytes.as_slice());
                assert(body@ =~= bytes@);
                Some(
                    HostCall::Send(
                        server_api::new_upload(
                            url,
                            paths::guess_content_type(relative),
                            &self.token,
                            body,
                        ),
                    ),
                )
            },
            Step::Stamp(_) => Some(HostCall::Now),
            Step::Remove => {
                let key: &str = self.removals[self.removed].as_str();
                let url: String = server_api::object_address(
                    self.server.as_str(),
                    self.namespace_id.as_str(),
                    key,
                );
                Some(HostCall::Send(server_api::new_request("DELETE", url, &self.token)))
            },
            Step::Over => None,
        }
    }

    /// The push after a reply.
    pub fn step(self, reply: HostReply) -> (next: PushRun)
        ensures
            next@ == self@.after(reply@),
            next@.wf(),
    {
        proof {
            use_type_invariant(&self);
        }
        let PushRun {
            server,
            namespace_id,
            prefix,
            token,
            local,
            manifest,
            push,
            at,
            removals,
            removed,
            step,
            pushed,
            errors,
        } = self;
        let parts = Parts {
            server,
            namespace_id,
            prefix,
            token,
            local,
            manifest,
            push,
            at,
            removals,
            removed,
            pushed,
            errors,
        };
        match (step, reply) {
            (Step::Read, HostReply::Bytes(Ok(bytes))) => parts.into_run(Step::Send(bytes)),
            (Step::Read, HostReply::Bytes(Err(e))) => parts.failed("read ", e.as_str()),
            (Step::Send(bytes), HostReply::Response(Ok(response))) => if response.status == 200 {
                parts.into_run(Step::Stamp(bytes.len() as u64))
            } else {
                parts.failed("push ", status_message(response.status).as_str())
            },
            (Step::Send(_), HostReply::Response(Err(e))) => parts.failed("push ", e.as_str()),
            (Step::Stamp(size), HostReply::Time(now)) => parts.stored(size, now),
            (Step::Remove, HostReply::Response(Ok(response))) => if response.status == 204
                || response.status == 200 {
                parts.removal_answered(None)
            } else {
                parts.removal_answered(Some(status_message(response.status)))
            },
            (Step::Remove, HostReply::Response(Err(e))) => parts.removal_answered(Some(e)),
            (step, _) => parts.into_run(step),
        }
    }

    /// How many files were stored, what went wrong with the others, and the manifest.
    pub fn into_result(self) -> (r: (usize, Vec<String>, SyncManifest, KeyMap<LocalFileInfo>))
        ensures
            r.0 == self@.pushed,
            texts(r.1@) == self@.errors,
            r.2@ == self@.manifest,
            r.3@ == self@.local,
    {
        (self.pushed, self.errors, self.manifest, self.local)
    }
}

// ---------------------------------------------------------------------------
// Laws
// ---------------------------------------------------------------------------

/// Every reply to what a push waits for brings it closer to its end.
pub proof fn lemma_push_progresses(push: PushView, reply: Reply)
    requires
        push.wf(),
        push.call() is Some,
        answers(push.call()->0, reply),
    ensures
        push.after(reply).wf(),
        0 <= push.after(reply).remaining() < push.remaining(),
{
}

/// Whether the counts of a push of `files` files and `removals` removals add up: every file
/// that was dealt with was either stored or gave an error, and no removal gave more than one.
pub open spec fn adds_up(push: PushView, files: int, removals: int) -> bool {
    let failed = files - push.todo.len() - push.pushed;
    &&& 0 <= push.pushed
    &&& 0 <= failed <= push.errors.len() <= failed + removals - push.removals.len()
}

/// The counts of a push add up: they do at the start, and every reply keeps it.
pub proof fn lemma_push_adds_up(push: PushView, reply: Reply, files: int, removals: int)
    requires
        push.wf(),
        adds_up(push, files, removals),
    ensures
        adds_up(push.after(reply), files, removals),
{
}

/// The counts of a push add up at its start, if there is a server to push to.
pub proof fn lemma_push_starts(
    server: Seq<char>,
    token: Option<Seq<char>>,
    namespace_id: Seq<char>,
    workspace_root: Seq<char>,
    plan: PlanView,
    local: Map<Seq<char>, LocalView>,
    manifest: ManifestView,
)
    ensures
        ({
            let push = PushView::start(
                Some(server),
                token,
                namespace_id,
                workspace_root,
                plan,
                local,
                manifest,
            );
            &&& adds_up(push, plan.push.len() as int, plan.delete_remote.len() as int)
            &&& touches_only(push, manifest, plan.push)
            &&& stores_in_order(push, plan.push)
        }),
{
    assert(plan.push.skip(0) =~= plan.push);
    assert forall|i: int| 0 <= i < plan.push.len() implies plan.push.contains(
        #[trigger] plan.push[i],
    ) by {}
}

/// A push that is over without an error has stored all files.
pub proof fn lemma_push_without_errors(push: PushView, files: int, removals: int)
    requires
        push.wf(),
        push.is_over(),
        adds_up(push, files, removals),
        push.errors.len() == 0,
    ensures
        push.pushed == files,
{
}

/// Whether a path is in sync with what the scan found.
pub open spec fn is_stored(push: PushView, key: Seq<char>) -> bool {
    push.manifest.entry(key) matches Some(entry) && entry.state is Clean && entry.content_hash == (
    if push.local.contains_key(key) {
        push.local[key].hash
    } else {
        Seq::empty()
    })
}

/// Whether a push has left everything as it was but for files of `keys` that it stored.
pub open spec fn touches_only(
    push: PushView,
    manifest: ManifestView,
    keys: Seq<Seq<char>>,
) -> bool {
    &&& push.manifest.namespace_id == manifest.namespace_id
    &&& push.manifest.last_sync_at == manifest.last_sync_at
    &&& push.manifest.pending_deletes == if push.is_over() {
        Seq::empty()
    } else {
        manifest.pending_deletes
    }
    &&& forall|i: int| 0 <= i < push.todo.len() ==> keys.contains(#[trigger] push.todo[i])
    &&& forall|key: Seq<char>|
        (#[trigger] push.manifest.entry(key)) == manifest.entry(key) || (keys.contains(key)
            && is_stored(push, key))
}

/// A push changes the manifest only at the files that it stores, and clears the pending
/// removals only when it is over: every reply keeps it.
pub proof fn lemma_push_touches_only(
    push: PushView,
    reply: Reply,
    manifest: ManifestView,
    keys: Seq<Seq<char>>,
)
    requires
        push.wf(),
        touches_only(push, manifest, keys),
    ensures
        touches_only(push.after(reply), manifest, keys),
{
    let next = push.after(reply);
    assert forall|i: int| 0 <= i < next.todo.len() implies keys.contains(#[trigger] next.todo[i]) by {
        if next.todo.len() == push.todo.len() {
            assert(next.todo[i] == push.todo[i]);
        } else {
            assert(next.todo[i] == push.todo[i + 1]);
        }
    }
    assert forall|key: Seq<char>|
        (#[trigger] next.manifest.entry(key)) == manifest.entry(key) || (keys.contains(key)
            && is_stored(next, key)) by {
        assert(push.manifest.entry(key) == manifest.entry(key) || (keys.contains(key)
            && is_stored(push, key)));
        if push.todo.len() > 0 {
            assert(keys.contains(push.todo[0]));
        }
    }
}

/// Whether a push deals with `keys` in order, and, as long as there is no error, has stored
/// all that it has dealt with.
pub open spec fn stores_in_order(push: PushView, keys: Seq<Seq<char>>) -> bool {
    let done = keys.len() - push.todo.len();
    &&& 0 <= done
    &&& push.todo == keys.skip(done)
    &&& push.errors.len() == 0 ==> forall|i: int| 0 <= i < done ==> is_stored(push, #[trigger] keys[i])
}

/// A push stores the files in order, and none is skipped without an error: every reply keeps it.
pub proof fn lemma_push_stores_in_order(push: PushView, reply: Reply, keys: Seq<Seq<char>>)
    requires
        push.wf(),
        stores_in_order(push, keys),
    ensures
        stores_in_order(push.after(reply), keys),
{
    let next = push.after(reply);
    let done = keys.len() - push.todo.len();
    if next.todo.len() != push.todo.len() {
        assert(next.todo =~= keys.skip(done + 1));
        assert(push.todo[0] == keys[done]);
    }
    if next.errors.len() == 0 {
        assert forall|i: int| 0 <= i < keys.len() - next.todo.len() implies is_stored(
            next,
            #[trigger] keys[i],
        ) by {
            if i < done {
                assert(is_stored(push, keys[i]));
            }
        }
    }
}

} // verus!
