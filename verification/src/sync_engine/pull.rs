//! Pulling remote files to the local workspace.

use vstd::prelude::*;
use vstd::string::*;

use crate::codec;
use crate::codec::utf8_lossy;
use crate::config::{resolve_auth_token, resolve_server_url, Settings};
use crate::host::{answers, call_view, Call, HostCall, HostReply, Reply};
use crate::http;
use crate::http::bytes_of;
use crate::json::{optional_text, texts, JsonValue};
use crate::server_api;
use crate::server_api::{bare_request, object_url};
use crate::sync_engine::paths;
use crate::sync_engine::paths::{file_path, path_of_key, root_prefix};
use crate::sync_engine::plan::{
    server_entry, server_views, PlanView, ServerEntry, ServerView, SyncPlan,
};
use crate::sync_engine::push::{about, bad_status, copy_keys, message, status_message};
use crate::sync_manifest::{clock_or_zero, reading, ManifestView, SyncManifest};
use crate::text;
use crate::text::last_position;

verus! {

/// What a pull waits for.
#[derive(Debug)]
enum Step {
    /// The next object.
    Get,
    /// That the directory of the next file, whose content is known, was made by writing a
    /// marker to it.
    Mark(Vec<u8>),
    /// That the marker was deleted.
    Unmark(Vec<u8>),
    /// That the next file was written.
    Write(Vec<u8>),
    /// The time at which the next file, of the given size, was written.
    Stamp(u64),
    /// That the next file was deleted.
    Delete,
    /// Nothing.
    Over,
}

/// A pull of remote files to the local workspace.
#[derive(Debug)]
pub struct PullRun {
    server: String,
    namespace_id: String,
    prefix: String,
    token: Option<String>,
    entries: Vec<ServerEntry>,
    manifest: SyncManifest,
    pull: Vec<String>,
    at: usize,
    deletions: Vec<String>,
    deleted: usize,
    step: Step,
    pulled: usize,
    errors: Vec<String>,
}

// ---------------------------------------------------------------------------
// Models
// ---------------------------------------------------------------------------

/// What a pull waits for.
pub enum PullStep {
    Get,
    Mark(Seq<u8>),
    Unmark(Seq<u8>),
    Write(Seq<u8>),
    Stamp(u64),
    Delete,
    Over,
}

/// The model of a [`PullRun`]: the objects that are still to be fetched, the files that are
/// still to be deleted, and what came of the others.
#[verifier::ext_equal]
pub struct PullView {
    pub server: Seq<char>,
    pub namespace_id: Seq<char>,
    pub prefix: Seq<char>,
    pub token: Option<Seq<char>>,
    pub entries: Seq<ServerView>,
    pub manifest: ManifestView,
    pub todo: Seq<Seq<char>>,
    pub deletions: Seq<Seq<char>>,
    pub step: PullStep,
    pub pulled: int,
    pub errors: Seq<Seq<char>>,
}

/// The marker by which the directory of a file is made, if the path names one.
pub open spec fn marker(path: Seq<char>) -> Option<Seq<char>> {
    match last_position(path, '/') {
        Some(end) => Some(path.take(end) + "/.diaryx_sync_tmp"@),
        None => None,
    }
}

/// How the content of an object is written: Markdown as text, everything else as bytes.
pub open spec fn write_call(prefix: Seq<char>, key: Seq<char>, bytes: Seq<u8>) -> Call {
    if ".md"@.is_suffix_of(path_of_key(key)) {
        Call::WriteText(file_path(prefix, key), utf8_lossy(bytes))
    } else {
        Call::WriteBinary(file_path(prefix, key), bytes)
    }
}

/// The hash that the server gives for an object, empty if it gives none.
pub open spec fn hash_on_server(entries: Seq<ServerView>, key: Seq<char>) -> Seq<char> {
    match server_entry(entries, key) {
        Some(entry) => match entry.content_hash {
            Some(hash) => hash,
            None => Seq::empty(),
        },
        None => Seq::empty(),
    }
}

impl PullView {
    /// A pull that has not begun.
    pub open spec fn start(
        server: Option<Seq<char>>,
        token: Option<Seq<char>>,
        namespace_id: Seq<char>,
        workspace_root: Seq<char>,
        plan: PlanView,
        entries: Seq<ServerView>,
        manifest: ManifestView,
    ) -> PullView {
        match server {
            Some(server) => PullView {
                server,
                namespace_id,
                prefix: root_prefix(workspace_root),
                token,
                entries,
                manifest,
                todo: plan.pull,
                deletions: plan.delete_local,
                step: PullStep::Over,
                pulled: 0,
                errors: Seq::empty(),
            }.settle(),
            None => PullView {
                server: Seq::empty(),
                namespace_id,
                prefix: root_prefix(workspace_root),
                token,
                entries,
                manifest,
                todo: Seq::empty(),
                deletions: Seq::empty(),
                step: PullStep::Over,
                pulled: 0,
                errors: seq!["Missing server_url"@],
            },
        }
    }

    /// The pull when it turns to what comes next: first the objects, then the deletions.
    pub open spec fn settle(self) -> PullView {
        PullView {
            step: if self.todo.len() > 0 {
                PullStep::Get
            } else if self.deletions.len() > 0 {
                PullStep::Delete
            } else {
                PullStep::Over
            },
            ..self
        }
    }

    /// Whether the pull is over.
    pub open spec fn is_over(self) -> bool {
        self.step is Over
    }

    /// The call that the pull waits for.
    pub open spec fn call(self) -> Option<Call> {
        match self.step {
            PullStep::Get => Some(
                Call::Send(
                    bare_request(
                        "GET"@,
                        object_url(self.server, self.namespace_id, self.todo[0]),
                        self.token,
                    ),
                ),
            ),
            PullStep::Mark(_) => match marker(file_path(self.prefix, self.todo[0])) {
                Some(path) => Some(Call::WriteText(path, ""@)),
                None => None,
            },
            PullStep::Unmark(_) => match marker(file_path(self.prefix, self.todo[0])) {
                Some(path) => Some(Call::DeleteFile(path)),
                None => None,
            },
            PullStep::Write(bytes) => Some(write_call(self.prefix, self.todo[0], bytes)),
            PullStep::Stamp(_) => Some(Call::Now),
            PullStep::Delete => Some(Call::DeleteFile(file_path(self.prefix, self.deletions[0]))),
            PullStep::Over => None,
        }
    }

    /// The pull when the next file could not be had.
    pub open spec fn failed(self, error: Seq<char>) -> PullView {
        PullView {
            todo: self.todo.drop_first(),
            errors: self.errors.push(error),
            ..self
        }.settle()
    }

    /// The pull when the content of the next file is known: its directory is made, if its path
    /// names one, and then it is written.
    pub open spec fn fetched(self, bytes: Seq<u8>) -> PullView {
        PullView {
            step: if marker(file_path(self.prefix, self.todo[0])) is Some {
                PullStep::Mark(bytes)
            } else {
                PullStep::Write(bytes)
            },
            ..self
        }
    }

    /// The pull when the next file was written: it is in sync, with the hash that the server
    /// gave.
    pub open spec fn written(self, size: u64, now: Option<u64>) -> PullView {
        let key = self.todo[0];
        PullView {
            todo: self.todo.drop_first(),
            pulled: self.pulled + 1,
            manifest: self.manifest.cleaned(
                key,
                hash_on_server(self.entries, key),
                size,
                reading(now),
            ),
            ..self
        }.settle()
    }

    /// The pull when the next deletion was answered, with an error if it failed; either way the
    /// file is not followed any more.
    pub open spec fn deleted(self, error: Option<Seq<char>>) -> PullView {
        let key = self.deletions[0];
        PullView {
            deletions: self.deletions.drop_first(),
            manifest: self.manifest.untracked(key),
            errors: match error {
                Some(e) => self.errors.push(about("delete local "@, key, e)),
                None => self.errors,
            },
            ..self
        }.settle()
    }

    /// The pull after a response to the request for the next object.
    pub open spec fn after_response(self, response: crate::http::ResponseView) -> PullView {
        if response.status != 200 {
            self.failed(about("pull "@, self.todo[0], bad_status(response.status)))
        } else {
            match bytes_of(response.json()) {
                Ok(bytes) => self.fetched(bytes),
                Err(e) => self.failed(about("pull "@, self.todo[0], e)),
            }
        }
    }

    /// The pull after a reply; a reply to another call changes nothing.
    pub open spec fn after(self, reply: Reply) -> PullView {
        match (self.step, reply) {
            (PullStep::Get, Reply::Response(Ok(response))) => self.after_response(response),
            (PullStep::Get, Reply::Response(Err(e))) => self.failed(
                about("pull "@, self.todo[0], e),
            ),
            (PullStep::Mark(bytes), Reply::Done(_)) => PullView {
                step: PullStep::Unmark(bytes),
                ..self
            },
            (PullStep::Unmark(bytes), Reply::Done(_)) => PullView {
                step: PullStep::Write(bytes),
                ..self
            },
            (PullStep::Write(bytes), Reply::Done(Ok(_))) => PullView {
                step: PullStep::Stamp(bytes.len() as u64),
                ..self
            },
            (PullStep::Write(_), Reply::Done(Err(e))) => self.failed(
                about("write "@, self.todo[0], e),
            ),
            (PullStep::Stamp(size), Reply::Time(now)) => self.written(size, now),
            (PullStep::Delete, Reply::Done(Ok(_))) => self.deleted(None),
            (PullStep::Delete, Reply::Done(Err(e))) => self.deleted(Some(e)),
            _ => self,
        }
    }

    /// How many replies the pull still waits for at most.
    pub open spec fn remaining(self) -> int {
        5 * self.todo.len() + self.deletions.len() - (match self.step {
            PullStep::Mark(_) => 1int,
            PullStep::Unmark(_) => 2,
            PullStep::Write(_) => 3,
            PullStep::Stamp(_) => 4,
            _ => 0,
        })
    }

    /// Whether what the pull waits for is there to be waited for.
    pub open spec fn wf(self) -> bool {
        match self.step {
            PullStep::Mark(_) => self.todo.len() > 0 && marker(
                file_path(self.prefix, self.todo[0]),
            ) is Some,
            PullStep::Unmark(_) => self.todo.len() > 0 && marker(
                file_path(self.prefix, self.todo[0]),
            ) is Some,
            PullStep::Delete => self.todo.len() == 0 && self.deletions.len() > 0,
            PullStep::Over => self.todo.len() == 0 && self.deletions.len() == 0,
            _ => self.todo.len() > 0,
        }
    }
}

impl PullRun {
    #[verifier::type_invariant]
    spec fn in_range(self) -> bool {
        &&& self.pulled <= self.at <= self.pull@.len()
        &&& self.deleted <= self.deletions@.len()
        &&& match self.step {
            Step::Mark(_) => self.at < self.pull@.len() && marker(
                file_path(self.prefix@, self.pull@[self.at as int]@),
            ) is Some,
            Step::Unmark(_) => self.at < self.pull@.len() && marker(
                file_path(self.prefix@, self.pull@[self.at as int]@),
            ) is Some,
            Step::Delete => self.at == self.pull@.len() && self.deleted < self.deletions@.len(),
            Step::Over => self.at == self.pull@.len() && self.deleted == self.deletions@.len(),
            _ => self.at < self.pull@.len(),
        }
    }

    /// The model of the pull.
    pub closed spec fn view(&self) -> PullView {
        PullView {
            server: self.server@,
            namespace_id: self.namespace_id@,
            prefix: self.prefix@,
            token: optional_text(self.token),
            entries: server_views(self.entries@),
            manifest: self.manifest@,
            todo: texts(self.pull@).skip(self.at as int),
            deletions: texts(self.deletions@).skip(self.deleted as int),
            step: step_view(self.step),
            pulled: self.pulled as int,
            errors: texts(self.errors@),
        }
    }
}

/// The model of what a pull waits for.
spec fn step_view(step: Step) -> PullStep {
    match step {
        Step::Get => PullStep::Get,
        Step::Mark(bytes) => PullStep::Mark(bytes@),
        Step::Unmark(bytes) => PullStep::Unmark(bytes@),
        Step::Write(bytes) => PullStep::Write(bytes@),
        Step::Stamp(size) => PullStep::Stamp(size),
        Step::Delete => PullStep::Delete,
        Step::Over => PullStep::Over,
    }
}

// ---------------------------------------------------------------------------
// Functions
// ---------------------------------------------------------------------------

/// The marker by which the directory of a file is made, if the path names one.
fn marker_for(path: &str) -> (r: Option<String>)
    ensures
        optional_text(r) == marker(path@),
{
    match text::before_last(path, '/') {
        Some(parent) => Some(text::join(parent, "/.diaryx_sync_tmp")),
        None => None,
    }
}

/// The hash that the server gives for an object, empty if it gives none.
fn server_hash(entries: &Vec<ServerEntry>, key: &str) -> (hash: String)
    ensures
        hash@ == hash_on_server(server_views(entries@), key@),
{
    let ghost all = server_views(entries@);
    let mut n: usize = entries.len();
    assert(all.take(n as int) =~= all);
    while n > 0
        invariant
            n <= entries@.len(),
            all == server_views(entries@),
            server_entry(all, key@) == server_entry(all.take(n as int), key@),
        decreases n,
    {
        proof {
            assert(all.take(n as int).drop_last() =~= all.take(n - 1));
            assert(all.take(n as int).last() == entries@[n - 1]@);
        }
        if text::same(entries[n - 1].key.as_str(), key) {
            return match &entries[n - 1].content_hash {
                Some(hash) => hash.clone(),
                None => String::new(),
            };
        }
        n -= 1;
    }
    String::new()
}

/// Pull remote files to the local workspace.
pub fn execute_pull(
    params: &JsonValue,
    settings: &Settings,
    namespace_id: &str,
    workspace_root: &str,
    plan: &SyncPlan,
    server_entries: Vec<ServerEntry>,
    manifest: SyncManifest,
) -> (run: PullRun)
    ensures
        run@ == PullView::start(
            settings@.server(params@),
            settings@.token(params@),
            namespace_id@,
            workspace_root@,
            plan@,
            server_views(server_entries@),
            manifest@,
        ),
        run@.wf(),
{
    PullRun::begin(
        resolve_server_url(params, settings),
        resolve_auth_token(params, settings),
        namespace_id,
        workspace_root,
        plan,
        server_entries,
        manifest,
    )
}

impl PullRun {
    /// The same, from a given server.
    pub fn begin(
        server: Option<String>,
        token: Option<String>,
        namespace_id: &str,
        workspace_root: &str,
        plan: &SyncPlan,
        server_entries: Vec<ServerEntry>,
        manifest: SyncManifest,
    ) -> (run: PullRun)
        ensures
            run@ == PullView::start(
                optional_text(server),
                optional_text(token),
                namespace_id@,
                workspace_root@,
                plan@,
                server_views(server_entries@),
                manifest@,
            ),
            run@.wf(),
    {
        let ghost want = PullView::start(
            optional_text(server),
            optional_text(token),
            namespace_id@,
            workspace_root@,
            plan@,
            server_views(server_entries@),
            manifest@,
        );
        let prefix: String = paths::normalize_root_prefix(workspace_root);
        match server {
            Some(server) => {
                let raw = Parts {
                    server,
                    namespace_id: namespace_id.to_owned(),
                    prefix,
                    token,
                    entries: server_entries,
                    manifest,
                    pull: copy_keys(&plan.pull),
                    at: 0,
                    deletions: copy_keys(&plan.delete_local),
                    deleted: 0,
                    pulled: 0,
                    errors: Vec::new(),
                };
                proof {
                    assert(texts(raw.pull@).skip(0) =~= plan@.pull);
                    assert(texts(raw.deletions@).skip(0) =~= plan@.delete_local);
                    assert(texts(raw.errors@) =~= Seq::empty());
                }
                let run = raw.settle();
                assert(run@ =~= want);
                run
            },
            None => {
                let run = PullRun {
                    server: String::new(),
                    namespace_id: namespace_id.to_owned(),
                    prefix,
                    token,
                    entries: server_entries,
                    manifest,
                    pull: Vec::new(),
                    at: 0,
                    deletions: Vec::new(),
                    deleted: 0,
                    step: Step::Over,
                    pulled: 0,
                    errors: vec!["Missing server_url".to_owned()],
                };
                assert(run@ =~= want);
                run
            },
        }
    }
}

/// The parts of a pull that has still to turn to what comes next.
struct Parts {
    server: String,
    namespace_id: String,
    prefix: String,
    token: Option<String>,
    entries: Vec<ServerEntry>,
    manifest: SyncManifest,
    pull: Vec<String>,
    at: usize,
    deletions: Vec<String>,
    deleted: usize,
    pulled: usize,
    errors: Vec<String>,
}

impl Parts {
    spec fn view(&self) -> PullView {
        PullView {
            server: self.server@,
            namespace_id: self.namespace_id@,
            prefix: self.prefix@,
            token: optional_text(self.token),
            entries: server_views(self.entries@),
            manifest: self.manifest@,
            todo: texts(self.pull@).skip(self.at as int),
            deletions: texts(self.deletions@).skip(self.deleted as int),
            step: PullStep::Over,
            pulled: self.pulled as int,
            errors: texts(self.errors@),
        }
    }

    spec fn in_range(self) -> bool {
        &&& self.pulled <= self.at <= self.pull@.len()
        &&& self.deleted <= self.deletions@.len()
    }

    /// The pull that waits for a given step.
    fn into_run(self, step: Step) -> (run: PullRun)
        requires
            self.in_range(),
            step is Over <==> self.at == self.pull@.len() && self.deleted == self.deletions@.len(),
            step is Delete <==> self.at == self.pull@.len() && self.deleted < self.deletions@.len(),
            step is Mark || step is Unmark ==> marker(
                file_path(self.prefix@, self.pull@[self.at as int]@),
            ) is Some,
        ensures
            run@ == (PullView { step: step_view(step), ..self@ }),
            run@.wf(),
    {
        PullRun {
            server: self.server,
            namespace_id: self.namespace_id,
            prefix: self.prefix,
            token: self.token,
            entries: self.entries,
            manifest: self.manifest,
            pull: self.pull,
            at: self.at,
            deletions: self.deletions,
            deleted: self.deleted,
            step,
            pulled: self.pulled,
            errors: self.errors,
        }
    }

    /// The pull when it turns to what comes next.
    fn settle(self) -> (run: PullRun)
        requires
            self.in_range(),
        ensures
            run@ == self@.settle(),
            run@.wf(),
    {
        if self.at < self.pull.len() {
            self.into_run(Step::Get)
        } else if self.deleted < self.deletions.len() {
            self.into_run(Step::Delete)
        } else {
            self.into_run(Step::Over)
        }
    }

    /// The pull when the next file could not be had.
    fn failed(self, what: &str, problem: &str) -> (run: PullRun)
        requires
            self.in_range(),
            self.at < self.pull@.len(),
        ensures
            run@ == self@.failed(about(what@, self@.todo[0], problem@)),
            run@.wf(),
    {
        let mut parts: Parts = self;
        let error: String = message(what, parts.pull[parts.at].as_str(), problem);
        parts.errors.push(error);
        assert(parts.at < parts.pull.len());
        parts.at += 1;
        proof {
            assert(parts@.todo =~= self@.todo.drop_first());
            assert(parts@.errors =~= self@.errors.push(error@));
        }
        parts.settle()
    }

    /// The pull when the content of the next file is known.
    fn fetched(self, bytes: Vec<u8>) -> (run: PullRun)
        requires
            self.in_range(),
            self.at < self.pull@.len(),
        ensures
            run@ == self@.fetched(bytes@),
            run@.wf(),
    {
        let path: String = paths::path_for(self.prefix.as_str(), self.pull[self.at].as_str());
        match marker_for(path.as_str()) {
            Some(_) => self.into_run(Step::Mark(bytes)),
            None => self.into_run(Step::Write(bytes)),
        }
    }

    /// The pull when the next file was written.
    fn written(self, size: u64, now: Option<u64>) -> (run: PullRun)
        requires
            self.in_range(),
            self.at < self.pull@.len(),
        ensures
            run@ == self@.written(size, now),
            run@.wf(),
    {
        let mut parts: Parts = self;
        let key: String = parts.pull[parts.at].clone();
        let hash: String = server_hash(&parts.entries, key.as_str());
        parts.manifest.mark_clean(key.as_str(), hash.as_str(), size, clock_or_zero(now));
        assert(parts.at < parts.pull.len());
        parts.at += 1;
        parts.pulled += 1;
        proof {
            assert(self@.todo[0] == key@);
            assert(parts@.todo =~= self@.todo.drop_first());
        }
        parts.settle()
    }

    /// The pull when the next deletion was answered.
    fn deletion_answered(self, error: Option<String>) -> (run: PullRun)
        requires
            self.in_range(),
            self.at == self.pull@.len(),
            self.deleted < self.deletions@.len(),
        ensures
            run@ == self@.deleted(optional_text(error)),
            run@.wf(),
    {
        let mut parts: Parts = self;
        let key: String = parts.deletions[parts.deleted].clone();
        match error {
            Some(e) => {
                let error: String = message("delete local ", key.as_str(), e.as_str());
                parts.errors.push(error);
                assert(parts@.errors =~= self@.errors.push(error@));
            },
            None => {},
        }
        parts.manifest.forget(key.as_str());
        assert(parts.deleted < parts.deletions.len());
        parts.deleted += 1;
        assert(parts@.deletions =~= self@.deletions.drop_first());
        parts.settle()
    }
}

impl PullRun {
    /// Whether the pull is over.
    pub fn is_over(&self) -> (r: bool)
        ensures
            r == self@.is_over(),
    {
        match &self.step {
            Step::Over => true,
            _ => false,
        }
    }

    /// The marker by which the directory of the next file is made.
    fn next_marker(&self) -> (r: String)
        requires
            self@.step is Mark || self@.step is Unmark,
        ensures
            marker(file_path(self@.prefix, self@.todo[0])) == Some(r@),
    {
        proof {
            use_type_invariant(self);
        }
        let path: String = paths::path_for(self.prefix.as_str(), self.pull[self.at].as_str());
        match marker_for(path.as_str()) {
            Some(marker) => marker,
            None => String::new(),
        }
    }

    /// The call that the pull waits for.
    pub fn call(&self) -> (r: Option<HostCall>)
        ensures
            call_view(r) == self@.call(),
    {
        proof {
            use_type_invariant(self);
        }
        match &self.step {
            Step::Get => {
                let url: String = server_api::object_address(
                    self.server.as_str(),
                    self.namespace_id.as_str(),
                    self.pull[self.at].as_str(),
                );
                Some(HostCall::Send(server_api::new_request("GET", url, &self.token)))
            },
            Step::Mark(_) => Some(HostCall::WriteText(self.next_marker(), "".to_owned())),
            Step::Unmark(_) => Some(HostCall::DeleteFile(self.next_marker())),
            Step::Write(bytes) => {
                let key: &str = self.pull[self.at].as_str();
                let path: String = paths::path_for(self.prefix.as_str(), key);
                if text::ends_with(text::strip_prefix_or_keep(key, "files/"), ".md") {
                    Some(HostCall::WriteText(path, codec::std_from_utf8_lossy(bytes)))
                } else {
                    let mut content: Vec<u8> = Vec::new();
                    content.extend_from_slice(bytes.as_slice());
                    assert(content@ =~= bytes@);
                    Some(HostCall::WriteBinary(path, content))
                }
            },
            Step::Stamp(_) => Some(HostCall::Now),
            Step::Delete => {
                let key: &str = self.deletions[self.deleted].as_str();
                Some(HostCall::DeleteFile(paths::path_for(self.prefix.as_str(), key)))
            },
            Step::Over => None,
        }
    }

    /// The pull after a reply.
    pub fn step(self, reply: HostReply) -> (next: PullRun)
        ensures
            next@ == self@.after(reply@),
            next@.wf(),
    {
        proof {
            use_type_invariant(&self);
        }
        let PullRun {
            server,
            namespace_id,
            prefix,
            token,
            entries,
            manifest,
            pull,
            at,
            deletions,
            deleted,
            step,
            pulled,
            errors,
        } = self;
        let parts = Parts {
            server,
            namespace_id,
            prefix,
            token,
            entries,
            manifest,
            pull,
            at,
            deletions,
            deleted,
            pulled,
            errors,
        };
        match (step, reply) {
            (Step::Get, HostReply::Response(Ok(response))) => if response.status != 200 {
                parts.failed("pull ", status_message(response.status).as_str())
            } else {
                match http::parse_http_body_bytes(&response.to_json()) {
                    Ok(bytes) => parts.fetched(bytes),
                    Err(e) => parts.failed("pull ", e.as_str()),
                }
            },
            (Step::Get, HostReply::Response(Err(e))) => parts.failed("pull ", e.as_str()),
            (Step::Mark(bytes), HostReply::Done(_)) => parts.into_run(Step::Unmark(bytes)),
            (Step::Unmark(bytes), HostReply::Done(_)) => parts.into_run(Step::Write(bytes)),
            (Step::Write(bytes), HostReply::Done(Ok(_))) => parts.into_run(
                Step::Stamp(bytes.len() as u64),
            ),
            (Step::Write(_), HostReply::Done(Err(e))) => parts.failed("write ", e.as_str()),
            (Step::Stamp(size), HostReply::Time(now)) => parts.written(size, now),
            (Step::Delete, HostReply::Done(Ok(_))) => parts.deletion_answered(None),
            (Step::Delete, HostReply::Done(Err(e))) => parts.deletion_answered(Some(e)),
            (step, _) => parts.into_run(step),
        }
    }

    /// How many files were written, what went wrong with the others, and the manifest.
    pub fn into_result(self) -> (r: (usize, Vec<String>, SyncManifest))
        ensures
            r.0 == self@.pulled,
            texts(r.1@) == self@.errors,
            r.2@ == self@.manifest,
    {
        (self.pulled, self.errors, self.manifest)
    }
}

// ---------------------------------------------------------------------------
// Laws
// ---------------------------------------------------------------------------

/// Every reply to what a pull waits for brings it closer to its end.
pub proof fn lemma_pull_progresses(pull: PullView, reply: Reply)
    requires
        pull.wf(),
        pull.call() is Some,
        answers(pull.call()->0, reply),
    ensures
        pull.after(reply).wf(),
        0 <= pull.after(reply).remaining() < pull.remaining(),
{
}

/// Whether the counts of a pull of `files` objects and `deletions` deletions add up: every
/// object that was dealt with was either written or gave an error, and no deletion gave more
/// than one.
pub open spec fn adds_up(pull: PullView, files: int, deletions: int) -> bool {
    let failed = files - pull.todo.len() - pull.pulled;
    &&& 0 <= pull.pulled
    &&& 0 <= failed <= pull.errors.len() <= failed + deletions - pull.deletions.len()
}

/// The counts of a pull add up: every reply keeps it.
pub proof fn lemma_pull_adds_up(pull: PullView, reply: Reply, files: int, deletions: int)
    requires
        pull.wf(),
        adds_up(pull, files, deletions),
    ensures
        adds_up(pull.after(reply), files, deletions),
{
}

/// A pull that is over without an error has written all files.
pub proof fn lemma_pull_without_errors(pull: PullView, files: int, deletions: int)
    requires
        pull.wf(),
        pull.is_over(),
        adds_up(pull, files, deletions),
        pull.errors.len() == 0,
    ensures
        pull.pulled == files,
{
}

/// Whether a path is in sync with what the server has.
pub open spec fn is_written(pull: PullView, key: Seq<char>) -> bool {
    pull.manifest.entry(key) matches Some(entry) && entry.state is Clean && entry.content_hash
        == hash_on_server(pull.entries, key)
}

/// Whether a pull has left everything as it was but for files of `keys` that it wrote and
/// files of `gone` that it follows no more.
pub open spec fn touches_only(
    pull: PullView,
    manifest: ManifestView,
    keys: Seq<Seq<char>>,
    gone: Seq<Seq<char>>,
) -> bool {
    &&& pull.manifest.namespace_id == manifest.namespace_id
    &&& pull.manifest.last_sync_at == manifest.last_sync_at
    &&& pull.manifest.pending_deletes == manifest.pending_deletes
    &&& forall|i: int| 0 <= i < pull.todo.len() ==> keys.contains(#[trigger] pull.todo[i])
    &&& forall|i: int| 0 <= i < pull.deletions.len() ==> gone.contains(#[trigger] pull.deletions[i])
    &&& forall|key: Seq<char>|
        (#[trigger] pull.manifest.entry(key)) == manifest.entry(key) || (keys.contains(key)
            && is_written(pull, key)) || (gone.contains(key) && pull.manifest.entry(key) is None)
}

/// A pull changes the manifest only at the files that it writes or deletes, and leaves the
/// pending removals: every reply keeps it.
pub proof fn lemma_pull_touches_only(
    pull: PullView,
    reply: Reply,
    manifest: ManifestView,
    keys: Seq<Seq<char>>,
    gone: Seq<Seq<char>>,
)
    requires
        pull.wf(),
        touches_only(pull, manifest, keys, gone),
    ensures
        touches_only(pull.after(reply), manifest, keys, gone),
{
    let next = pull.after(reply);
    assert forall|i: int| 0 <= i < next.todo.len() implies keys.contains(#[trigger] next.todo[i]) by {
        if next.todo.len() == pull.todo.len() {
            assert(next.todo[i] == pull.todo[i]);
        } else {
            assert(next.todo[i] == pull.todo[i + 1]);
        }
    }
    assert forall|i: int| 0 <= i < next.deletions.len() implies gone.contains(
        #[trigger] next.deletions[i],
    ) by {
        if next.deletions.len() == pull.deletions.len() {
            assert(next.deletions[i] == pull.deletions[i]);
        } else {
            assert(next.deletions[i] == pull.deletions[i + 1]);
        }
    }
    assert forall|key: Seq<char>|
        (#[trigger] next.manifest.entry(key)) == manifest.entry(key) || (keys.contains(key)
            && is_written(next, key)) || (gone.contains(key) && next.manifest.entry(key) is None) by {
        assert(pull.manifest.entry(key) == manifest.entry(key) || (keys.contains(key)
            && is_written(pull, key)) || (gone.contains(key) && pull.manifest.entry(key) is None));
        if pull.todo.len() > 0 {
            assert(keys.contains(pull.todo[0]));
        }
        if pull.deletions.len() > 0 {
            assert(gone.contains(pull.deletions[0]));
        }
    }
}

/// What a pull is at its start, if there is a server to pull from.
pub proof fn lemma_pull_starts(
    server: Seq<char>,
    token: Option<Seq<char>>,
    namespace_id: Seq<char>,
    workspace_root: Seq<char>,
    plan: PlanView,
    entries: Seq<ServerView>,
    manifest: ManifestView,
)
    ensures
        ({
            let pull = PullView::start(
                Some(server),
                token,
                namespace_id,
                workspace_root,
                plan,
                entries,
                manifest,
            );
            &&& adds_up(pull, plan.pull.len() as int, plan.delete_local.len() as int)
            &&& touches_only(pull, manifest, plan.pull, plan.delete_local)
        }),
{
    assert forall|i: int| 0 <= i < plan.pull.len() implies plan.pull.contains(
        #[trigger] plan.pull[i],
    ) by {}
    assert forall|i: int| 0 <= i < plan.delete_local.len() implies plan.delete_local.contains(
        #[trigger] plan.delete_local[i],
    ) by {}
}

/// The directory of a pulled file is always made first: the path of a file below a root names
/// one.
pub proof fn lemma_pull_makes_directories(root: Seq<char>, key: Seq<char>)
    ensures
        marker(file_path(root_prefix(root), key)) is Some,
{
    reveal_strlit("/");
    let prefix = root_prefix(root);
    let path = file_path(prefix, key);
    assert(prefix.last() == '/') by {
        let p = crate::text::with_slashes(root);
        if "/"@.is_suffix_of(p) {
            assert(p.subrange(p.len() - 1, p.len() as int)[0] == "/"@[0]);
        }
    }
    assert(path[prefix.len() - 1] == '/');
    lemma_last_position(path, '/', prefix.len() - 1);
}

proof fn lemma_last_position(s: Seq<char>, c: char, i: int)
    requires
        0 <= i < s.len(),
        s[i] == c,
    ensures
        last_position(s, c) is Some,
    decreases s.len(),
{
    if s.last() != c {
        assert(s.drop_last()[i] == c);
        lemma_last_position(s.drop_last(), c, i);
    }
}

} // verus!
