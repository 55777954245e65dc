//! Commands of the host.
//!
//! A command is a run: it names the next call that it wants of the host, and is taken one step
//! further by the reply to it, until it has a result.

use vstd::prelude::*;
use vstd::string::*;

use crate::codec;
use crate::codec::base64_decoded;
use crate::config;
use crate::config::{
    is_for_us, resolve_auth_token, resolve_server_url, ConfigView, Settings, SettingsView,
    SyncExtismConfig,
};
use crate::host::{answers, call_view, Call, HostCall, HostReply, Reply};
use crate::http;
use crate::http::{body_of, document_of, error_message, status_of, HttpRequest, RequestView};
use crate::json;
use crate::json::{is_plain, items_view, optional_text, strings_json, Json, JsonValue};
use crate::key_map::precedes;
use crate::protocol::result_view;
use crate::server_api;
use crate::server_api::{
    bare_request, json_request, namespace_body, object_url, objects_url, outcome, request_view,
    upload_request, with_server, ApiCall,
};
use crate::state;
use crate::state::{PluginState, StateView};
use crate::status;
use crate::status::{lacking, readiness_json, status_json};
use crate::sync_engine::cycle::{
    count_json, start_cycle, JobView, ResultView, StageView, SyncMode, SyncResult, SyncRun,
    SyncView,
};
use crate::sync_manifest::ManifestView;
use crate::text;
use crate::text::is_blank;
use vstd::utf8::encode_utf8;

verus! {

/// The commands.
#[derive(Debug, Clone, Copy, PartialEq, Eq, Structural)]
pub enum Command {
    GetComponentHtml,
    GetConfig,
    SetConfig,
    SyncStatus,
    GetProviderStatus,
    ListRemoteWorkspaces,
    LinkWorkspace,
    UnlinkWorkspace,
    SyncPush,
    SyncPull,
    Sync,
    NsCreateNamespace,
    NsListNamespaces,
    NsPutObject,
    NsGetObject,
    NsDeleteObject,
    NsListObjects,
}

/// The pages that the plugin shows.
#[derive(Debug)]
pub struct Pages {
    pub snapshots: String,
    pub history: String,
}

/// What a cycle is run for.
#[derive(Debug)]
enum Purpose {
    Push,
    Pull,
    Full,
    /// To link the workspace to a namespace, which may have been created for it.
    Link(String, bool),
}

/// What is done once the configuration is stored.
#[derive(Debug)]
enum Saved {
    Report,
    Unlink,
    Link(String, bool),
}

/// How far a command has come.
#[derive(Debug)]
enum Stage {
    /// The configuration is stored.
    SaveConfig(SyncExtismConfig, Saved),
    /// A call of the server is made.
    Api(ApiCall, HttpRequest),
    /// The workspaces on the server are asked for.
    ListRemote(HttpRequest),
    /// A namespace to link to is created.
    CreateForLink(HttpRequest),
    /// The manifest of the namespace that is linked to is asked for.
    LoadManifest(String, bool),
    /// The configuration is read again.
    LoadSettings(String, bool),
    /// A cycle is run.
    Cycle(SyncRun, Purpose),
    Over(Result<JsonValue, String>),
}

/// A command that is carried out.
#[derive(Debug)]
pub struct CommandRun {
    state: PluginState,
    settings: Settings,
    params: JsonValue,
    stage: Stage,
}

// ---------------------------------------------------------------------------
// Models
// ---------------------------------------------------------------------------

/// The model of [`Pages`].
pub struct PagesView {
    pub snapshots: Seq<char>,
    pub history: Seq<char>,
}

impl View for Pages {
    type V = PagesView;

    open spec fn view(&self) -> PagesView {
        PagesView { snapshots: self.snapshots@, history: self.history@ }
    }
}

/// What a cycle is run for.
pub enum PurposeView {
    Push,
    Pull,
    Full,
    Link(Seq<char>, bool),
}

/// What is done once the configuration is stored.
pub enum SavedView {
    Report,
    Unlink,
    Link(Seq<char>, bool),
}

/// How far a command has come.
pub enum CommandStage {
    SaveConfig(ConfigView, SavedView),
    Api(ApiCall, RequestView),
    ListRemote(RequestView),
    CreateForLink(RequestView),
    LoadManifest(Seq<char>, bool),
    LoadSettings(Seq<char>, bool),
    Cycle(SyncView, PurposeView),
    Over(Result<Json, Seq<char>>),
}

/// The model of a [`CommandRun`].
pub struct CommandView {
    pub state: StateView,
    pub settings: SettingsView,
    pub params: Json,
    pub stage: CommandStage,
}

/// The command of a given name.
pub open spec fn command_named(name: Seq<char>) -> Option<Command> {
    if name == "get_component_html"@ {
        Some(Command::GetComponentHtml)
    } else if name == "get_config"@ {
        Some(Command::GetConfig)
    } else if name == "set_config"@ {
        Some(Command::SetConfig)
    } else if name == "GetSyncStatus"@ || name == "SyncStatus"@ || name == "sync_status"@ {
        Some(Command::SyncStatus)
    } else if name == "GetProviderStatus"@ {
        Some(Command::GetProviderStatus)
    } else if name == "ListRemoteWorkspaces"@ {
        Some(Command::ListRemoteWorkspaces)
    } else if name == "LinkWorkspace"@ {
        Some(Command::LinkWorkspace)
    } else if name == "UnlinkWorkspace"@ {
        Some(Command::UnlinkWorkspace)
    } else if name == "SyncPush"@ || name == "sync_push"@ {
        Some(Command::SyncPush)
    } else if name == "SyncPull"@ || name == "sync_pull"@ {
        Some(Command::SyncPull)
    } else if name == "Sync"@ || name == "sync"@ {
        Some(Command::Sync)
    } else if name == "NsCreateNamespace"@ {
        Some(Command::NsCreateNamespace)
    } else if name == "NsListNamespaces"@ {
        Some(Command::NsListNamespaces)
    } else if name == "NsPutObject"@ {
        Some(Command::NsPutObject)
    } else if name == "NsGetObject"@ {
        Some(Command::NsGetObject)
    } else if name == "NsDeleteObject"@ {
        Some(Command::NsDeleteObject)
    } else if name == "NsListObjects"@ {
        Some(Command::NsListObjects)
    } else {
        None
    }
}

/// The page of a component.
pub open spec fn page_of(component_id: Seq<char>, pages: PagesView) -> Option<Seq<char>> {
    if component_id == "sync.snapshots"@ {
        Some(pages.snapshots)
    } else if component_id == "sync.history"@ {
        Some(pages.history)
    } else {
        None
    }
}

/// The answer to the request for a page.
pub open spec fn page_answer(params: Json, pages: PagesView) -> Result<Json, Seq<char>> {
    let id = match params.text("component_id"@) {
        Some(id) => id,
        None => Seq::empty(),
    };
    match page_of(id, pages) {
        Some(page) => Ok(Json::Str(page)),
        None => Err("Unknown sync component: "@ + id),
    }
}

/// The bytes that a command wants to store, or what is wrong with them.
pub open spec fn given_bytes(params: Json) -> Result<Seq<u8>, Seq<char>> {
    match params.text("body_base64"@) {
        Some(encoded) => match base64_decoded(encoded) {
            Ok(bytes) => Ok(bytes),
            Err(e) => Err("Invalid base64: "@ + e),
        },
        None => match params.text("body"@) {
            Some(text) => Ok(encode_utf8(text)),
            None => Err("Missing body or body_base64"@),
        },
    }
}

/// What a command does with the namespace that it names.
pub open spec fn in_namespace(
    params: Json,
    f: spec_fn(Seq<char>) -> Result<RequestView, Seq<char>>,
) -> Result<RequestView, Seq<char>> {
    match params.text("namespace_id"@) {
        Some(namespace) => f(namespace),
        None => Err("Missing namespace_id"@),
    }
}

/// What a command does with the object that it names.
pub open spec fn on_object(
    params: Json,
    f: spec_fn(Seq<char>, Seq<char>) -> Result<RequestView, Seq<char>>,
) -> Result<RequestView, Seq<char>> {
    in_namespace(
        params,
        |namespace: Seq<char>|
            match params.text("key"@) {
                Some(key) => f(namespace, key),
                None => Err("Missing key"@),
            },
    )
}

/// The request that creates a namespace.
pub open spec fn create_namespace_request(
    params: Json,
    settings: SettingsView,
    namespace: Seq<char>,
) -> Result<RequestView, Seq<char>> {
    with_server(
        settings,
        params,
        |server: Seq<char>, token: Option<Seq<char>>|
            json_request("POST"@, server + "/namespaces"@, token, namespace_body(namespace)),
    )
}

/// The request that lists the namespaces.
pub open spec fn list_namespaces_request(params: Json, settings: SettingsView) -> Result<
    RequestView,
    Seq<char>,
> {
    with_server(
        settings,
        params,
        |server: Seq<char>, token: Option<Seq<char>>|
            bare_request("GET"@, server + "/namespaces"@, token),
    )
}

/// The request that lists the objects of a namespace.
pub open spec fn list_objects_request(params: Json, settings: SettingsView) -> Result<
    RequestView,
    Seq<char>,
> {
    in_namespace(
        params,
        |namespace: Seq<char>|
            with_server(
                settings,
                params,
                |server: Seq<char>, token: Option<Seq<char>>|
                    bare_request("GET"@, objects_url(server, namespace), token),
            ),
    )
}

/// The request that stores an object: bytes of no particular type, unless the type is given.
pub open spec fn put_object_request(params: Json, settings: SettingsView) -> Result<
    RequestView,
    Seq<char>,
> {
    let content_type = match params.text("content_type"@) {
        Some(t) => t,
        None => "application/octet-stream"@,
    };
    on_object(
        params,
        |namespace: Seq<char>, key: Seq<char>|
            match given_bytes(params) {
                Ok(bytes) => with_server(
                    settings,
                    params,
                    |server: Seq<char>, token: Option<Seq<char>>|
                        upload_request(
                            object_url(server, namespace, key),
                            content_type,
                            token,
                            bytes,
                        ),
                ),
                Err(e) => Err(e),
            },
    )
}

/// The request for an object, or for its removal.
pub open spec fn object_request(
    method: Seq<char>,
    params: Json,
    settings: SettingsView,
) -> Result<RequestView, Seq<char>> {
    on_object(
        params,
        |namespace: Seq<char>, key: Seq<char>|
            with_server(
                settings,
                params,
                |server: Seq<char>, token: Option<Seq<char>>|
                    bare_request(method, object_url(server, namespace, key), token),
            ),
    )
}

/// The workspaces of the server, as they are listed.
pub open spec fn workspaces_json(workspaces: Seq<Json>) -> Json {
    Json::Object(seq![("workspaces"@, Json::Array(workspaces))])
}

/// A workspace of the server, as it is listed.
pub open spec fn workspace_json(id: Seq<char>, name: Seq<char>) -> Json {
    Json::Object(seq![("id"@, Json::Str(id)), ("name"@, Json::Str(name))])
}

/// The workspaces among the items of a list: those that have an id and a name.
pub open spec fn listed_workspaces(items: Seq<Json>) -> Seq<Json>
    decreases items.len(),
{
    if items.len() == 0 {
        Seq::empty()
    } else {
        let rest = listed_workspaces(items.drop_last());
        match (items.last().text("id"@), items.last().text("name"@)) {
            (Some(id), Some(name)) => rest.push(workspace_json(id, name)),
            _ => rest,
        }
    }
}

/// The answer to the request for the workspaces of the server.
pub open spec fn workspaces_answer(response: Json) -> Result<Json, Seq<char>> {
    if status_of(response) != 200 {
        Err(error_message(status_of(response), body_of(response)))
    } else {
        Ok(
            workspaces_json(
                listed_workspaces(
                    match document_of(response) {
                        Some(body) => match body.items() {
                            Some(items) => items,
                            None => Seq::empty(),
                        },
                        None => Seq::empty(),
                    },
                ),
            ),
        )
    }
}

/// What a cycle that was run for a purpose answers.
pub open spec fn cycle_json(purpose: PurposeView, result: ResultView) -> Json {
    match purpose {
        PurposeView::Push => Json::Object(
            seq![
                ("errors"@, strings_json(result.errors)),
                ("pushed"@, count_json(result.pushed)),
            ],
        ),
        PurposeView::Pull => Json::Object(
            seq![
                ("errors"@, strings_json(result.errors)),
                ("pulled"@, count_json(result.pulled)),
            ],
        ),
        PurposeView::Full => result.json(),
        PurposeView::Link(namespace_id, created) => Json::Object(
            seq![
                ("created"@, Json::Bool(created)),
                ("namespace_id"@, Json::Str(namespace_id)),
                ("sync"@, result.json()),
            ],
        ),
    }
}

/// The way in which a cycle goes that is run for a purpose.
pub open spec fn mode_of(purpose: PurposeView) -> SyncMode {
    match purpose {
        PurposeView::Push => SyncMode::Push,
        PurposeView::Pull => SyncMode::Pull,
        _ => SyncMode::Full,
    }
}

/// The answer to the request to unlink.
pub open spec fn ok_json() -> Json {
    Json::Object(seq![("ok"@, Json::Bool(true))])
}

impl CommandView {
    /// The command with a result.
    pub open spec fn over(self, result: Result<Json, Seq<char>>) -> CommandView {
        CommandView { stage: CommandStage::Over(result), ..self }
    }

    /// The command at a given stage.
    pub open spec fn at(self, stage: CommandStage) -> CommandView {
        CommandView { stage, ..self }
    }

    /// The command when it makes a call of the server.
    pub open spec fn calling(
        self,
        call: ApiCall,
        request: Result<RequestView, Seq<char>>,
    ) -> CommandView {
        match request {
            Ok(request) => self.at(CommandStage::Api(call, request)),
            Err(e) => self.over(Err(e)),
        }
    }

    /// The command when it runs a cycle. It needs a namespace, a root and a manifest, in this
    /// order. The cycle holds the manifest as long as it runs.
    pub open spec fn cycling(self, purpose: PurposeView) -> CommandView {
        match self.settings.namespace(self.params, self.state.namespace_id) {
            Some(namespace_id) => match self.state.workspace_root {
                Some(root) => if is_blank(root) {
                    self.over(Err("Missing workspace_root"@))
                } else {
                    match self.state.manifest {
                        Some(manifest) => CommandView {
                            state: StateView { manifest: None, ..self.state },
                            stage: CommandStage::Cycle(
                                SyncView::start(
                                    JobView::new(
                                        mode_of(purpose),
                                        self.params,
                                        namespace_id,
                                        root,
                                    ),
                                    manifest,
                                ),
                                purpose,
                            ),
                            ..self
                        },
                        None => self.over(Err("Plugin state not initialized"@)),
                    }
                },
                None => self.over(Err("Missing workspace_root"@)),
            },
            None => self.over(Err("No namespace linked. Use `sync link` first."@)),
        }
    }

    /// The command when it links the workspace to a namespace: first the configuration is
    /// stored.
    pub open spec fn linking(self, namespace_id: Option<Seq<char>>, created: bool) -> CommandView {
        match namespace_id {
            Some(id) => self.at(
                CommandStage::SaveConfig(
                    self.settings.config.linked(Some(id)),
                    SavedView::Link(id, created),
                ),
            ),
            None => self.over(Err("Missing namespace_id"@)),
        }
    }

    /// The command when it is asked to link: to the namespace that it names, else to one that
    /// is created under the name that it gives.
    pub open spec fn link(self) -> CommandView {
        if !is_for_us(self.params) {
            self.over(Err("Unsupported provider"@))
        } else {
            match config::first_of(
                self.params.text("namespace_id"@),
                self.params.text("remote_id"@),
            ) {
                Some(id) => self.linking(Some(id), false),
                None => match self.params.text("name"@) {
                    Some(name) => match create_namespace_request(
                        self.params,
                        self.settings,
                        name,
                    ) {
                        Ok(request) => self.at(CommandStage::CreateForLink(request)),
                        Err(e) => self.over(Err(e)),
                    },
                    None => self.over(Err("Missing name or namespace_id"@)),
                },
            }
        }
    }

    /// The command when it is asked for the workspaces of the server.
    pub open spec fn list_remote(self) -> CommandView {
        if !is_for_us(self.params) {
            self.over(Ok(workspaces_json(Seq::empty())))
        } else {
            match with_server(
                self.settings,
                self.params,
                |server: Seq<char>, token: Option<Seq<char>>|
                    bare_request("GET"@, server + "/api/workspaces"@, token),
            ) {
                Ok(request) => self.at(CommandStage::ListRemote(request)),
                Err(e) => self.over(Err(e)),
            }
        }
    }

    /// The command when it begins.
    pub open spec fn begin(self, name: Seq<char>, pages: PagesView) -> CommandView {
        match command_named(name) {
            Some(Command::GetComponentHtml) => self.over(page_answer(self.params, pages)),
            Some(Command::GetConfig) => self.over(Ok(self.settings.config.json())),
            Some(Command::SetConfig) => self.at(
                CommandStage::SaveConfig(
                    self.settings.config.after_patch(self.params),
                    SavedView::Report,
                ),
            ),
            Some(Command::SyncStatus) => self.over(
                Ok(status_json(self.settings.config, self.state.manifest)),
            ),
            Some(Command::GetProviderStatus) => self.over(
                Ok(readiness_json(lacking(self.params, self.settings))),
            ),
            Some(Command::ListRemoteWorkspaces) => self.list_remote(),
            Some(Command::LinkWorkspace) => self.link(),
            Some(Command::UnlinkWorkspace) => self.at(
                CommandStage::SaveConfig(self.settings.config.linked(None), SavedView::Unlink),
            ),
            Some(Command::SyncPush) => self.cycling(PurposeView::Push),
            Some(Command::SyncPull) => self.cycling(PurposeView::Pull),
            Some(Command::Sync) => self.cycling(PurposeView::Full),
            Some(Command::NsCreateNamespace) => self.calling(
                ApiCall::CreateNamespace,
                in_namespace(
                    self.params,
                    |namespace: Seq<char>|
                        create_namespace_request(self.params, self.settings, namespace),
                ),
            ),
            Some(Command::NsListNamespaces) => self.calling(
                ApiCall::ListNamespaces,
                list_namespaces_request(self.params, self.settings),
            ),
            Some(Command::NsPutObject) => self.calling(
                ApiCall::PutObject,
                put_object_request(self.params, self.settings),
            ),
            Some(Command::NsGetObject) => self.calling(
                ApiCall::GetObject,
                object_request("GET"@, self.params, self.settings),
            ),
            Some(Command::NsDeleteObject) => self.calling(
                ApiCall::DeleteObject,
                object_request("DELETE"@, self.params, self.settings),
            ),
            Some(Command::NsListObjects) => self.calling(
                ApiCall::ListObjects,
                list_objects_request(self.params, self.settings),
            ),
            None => self.over(Err("Unknown command: "@ + name)),
        }
    }

    /// Whether the command has its result.
    pub open spec fn is_over(self) -> bool {
        self.stage is Over
    }

    /// The call that the command waits for.
    pub open spec fn call(self) -> Option<Call> {
        match self.stage {
            CommandStage::SaveConfig(config, _) => Some(Call::SaveConfig(config)),
            CommandStage::Api(_, request) => Some(Call::Send(request)),
            CommandStage::ListRemote(request) => Some(Call::Send(request)),
            CommandStage::CreateForLink(request) => Some(Call::Send(request)),
            CommandStage::LoadManifest(_, _) => Some(Call::LoadManifest),
            CommandStage::LoadSettings(_, _) => Some(Call::LoadSettings),
            CommandStage::Cycle(run, _) => run.call(),
            CommandStage::Over(_) => None,
        }
    }

    /// The command once the configuration is stored.
    pub open spec fn saved(self, next: SavedView) -> CommandView {
        match next {
            SavedView::Report => self.over(Ok(Json::Null)),
            SavedView::Unlink => CommandView {
                state: self.state.with_namespace(None, None),
                ..self
            }.over(Ok(ok_json())),
            SavedView::Link(id, created) => self.at(CommandStage::LoadManifest(id, created)),
        }
    }

    /// The command when its cycle has come to a given point. A cycle that is over gives the
    /// manifest back.
    pub open spec fn cycled(self, run: SyncView, purpose: PurposeView) -> CommandView {
        match run.stage {
            StageView::Over(manifest, result) => CommandView {
                state: StateView { manifest: Some(manifest), ..self.state },
                ..self
            }.over(
                match result {
                    Ok(r) => Ok(cycle_json(purpose, r)),
                    Err(e) => Err(e),
                },
            ),
            _ => self.at(CommandStage::Cycle(run, purpose)),
        }
    }

    /// The command after a reply; a reply to another call changes nothing.
    pub open spec fn after(self, reply: Reply) -> CommandView {
        match (self.stage, reply) {
            (CommandStage::SaveConfig(_, next), Reply::Saved) => self.saved(next),
            (CommandStage::Api(call, _), Reply::Response(response)) => self.over(
                outcome(call, response),
            ),
            (CommandStage::ListRemote(_), Reply::Response(Ok(response))) => self.over(
                workspaces_answer(response.json()),
            ),
            (CommandStage::ListRemote(_), Reply::Response(Err(e))) => self.over(Err(e)),
            (CommandStage::CreateForLink(_), Reply::Response(response)) => match outcome(
                ApiCall::CreateNamespace,
                response,
            ) {
                Ok(namespace) => self.linking(namespace.text("id"@), true),
                Err(e) => self.over(Err(e)),
            },
            (CommandStage::LoadManifest(id, created), Reply::Manifest(stored)) => CommandView {
                state: self.state.with_namespace(Some(id), stored),
                ..self
            }.at(CommandStage::LoadSettings(id, created)),
            (CommandStage::LoadSettings(id, created), Reply::Settings(settings)) => CommandView {
                settings,
                ..self
            }.cycling(PurposeView::Link(id, created)),
            (CommandStage::Cycle(run, purpose), _) => self.cycled(run.after(reply), purpose),
            _ => self,
        }
    }
}

spec fn purpose_view(purpose: Purpose) -> PurposeView {
    match purpose {
        Purpose::Push => PurposeView::Push,
        Purpose::Pull => PurposeView::Pull,
        Purpose::Full => PurposeView::Full,
        Purpose::Link(id, created) => PurposeView::Link(id@, created),
    }
}

spec fn saved_view(saved: Saved) -> SavedView {
    match saved {
        Saved::Report => SavedView::Report,
        Saved::Unlink => SavedView::Unlink,
        Saved::Link(id, created) => SavedView::Link(id@, created),
    }
}

impl Stage {
    spec fn view(&self) -> CommandStage {
        match self {
            Stage::SaveConfig(config, next) => CommandStage::SaveConfig(config@, saved_view(*next)),
            Stage::Api(call, request) => CommandStage::Api(*call, request@),
            Stage::ListRemote(request) => CommandStage::ListRemote(request@),
            Stage::CreateForLink(request) => CommandStage::CreateForLink(request@),
            Stage::LoadManifest(id, created) => CommandStage::LoadManifest(id@, *created),
            Stage::LoadSettings(id, created) => CommandStage::LoadSettings(id@, *created),
            Stage::Cycle(run, purpose) => CommandStage::Cycle(run@, purpose_view(*purpose)),
            Stage::Over(result) => CommandStage::Over(result_view(*result)),
        }
    }

    spec fn in_range(self) -> bool {
        match self {
            Stage::Over(Ok(value)) => is_plain(value@),
            _ => true,
        }
    }
}

impl CommandRun {
    #[verifier::type_invariant]
    spec fn in_range(self) -> bool {
        self.stage.in_range()
    }

    /// The model of the command.
    pub closed spec fn view(&self) -> CommandView {
        CommandView {
            state: self.state@,
            settings: self.settings@,
            params: self.params@,
            stage: self.stage@,
        }
    }
}

// ---------------------------------------------------------------------------
// Parts of commands
// ---------------------------------------------------------------------------

/// The command of a given name.
pub fn find_command(name: &str) -> (r: Option<Command>)
    ensures
        r == command_named(name@),
{
    if text::same(name, "get_component_html") {
        Some(Command::GetComponentHtml)
    } else if text::same(name, "get_config") {
        Some(Command::GetConfig)
    } else if text::same(name, "set_config") {
        Some(Command::SetConfig)
    } else if text::same(name, "GetSyncStatus") || text::same(name, "SyncStatus") || text::same(
        name,
        "sync_status",
    ) {
        Some(Command::SyncStatus)
    } else if text::same(name, "GetProviderStatus") {
        Some(Command::GetProviderStatus)
    } else if text::same(name, "ListRemoteWorkspaces") {
        Some(Command::ListRemoteWorkspaces)
    } else if text::same(name, "LinkWorkspace") {
        Some(Command::LinkWorkspace)
    } else if text::same(name, "UnlinkWorkspace") {
        Some(Command::UnlinkWorkspace)
    } else if text::same(name, "SyncPush") || text::same(name, "sync_push") {
        Some(Command::SyncPush)
    } else if text::same(name, "SyncPull") || text::same(name, "sync_pull") {
        Some(Command::SyncPull)
    } else if text::same(name, "Sync") || text::same(name, "sync") {
        Some(Command::Sync)
    } else if text::same(name, "NsCreateNamespace") {
        Some(Command::NsCreateNamespace)
    } else if text::same(name, "NsListNamespaces") {
        Some(Command::NsListNamespaces)
    } else if text::same(name, "NsPutObject") {
        Some(Command::NsPutObject)
    } else if text::same(name, "NsGetObject") {
        Some(Command::NsGetObject)
    } else if text::same(name, "NsDeleteObject") {
        Some(Command::NsDeleteObject)
    } else if text::same(name, "NsListObjects") {
        Some(Command::NsListObjects)
    } else {
        None
    }
}

/// The page of a component.
pub fn get_component_html_by_id<'a>(component_id: &str, pages: &'a Pages) -> (r: Option<&'a str>)
    ensures
        match r {
            Some(page) => page_of(component_id@, pages@) == Some(page@),
            None => page_of(component_id@, pages@) is None,
        },
{
    if text::same(component_id, "sync.snapshots") {
        Some(pages.snapshots.as_str())
    } else if text::same(component_id, "sync.history") {
        Some(pages.history.as_str())
    } else {
        None
    }
}

/// The answer to the request for a page.
fn component_html(params: &JsonValue, pages: &Pages) -> (r: Result<JsonValue, String>)
    ensures
        result_view(r) == page_answer(params@, pages@),
        r matches Ok(value) ==> is_plain(value@),
{
    let id: String = match params.text("component_id") {
        Some(id) => id,
        None => String::new(),
    };
    assert(params@.text("component_id"@) is None ==> id@ =~= Seq::empty());
    match get_component_html_by_id(id.as_str(), pages) {
        Some(page) => {
            proof {
                json::lemma_plain_leaf(Json::Str(page@));
            }
            Ok(json::string(page))
        },
        None => Err(text::join("Unknown sync component: ", id.as_str())),
    }
}

/// The bytes that a command wants to store.
pub fn object_body(params: &JsonValue) -> (r: Result<Vec<u8>, String>)
    ensures
        match r {
            Ok(bytes) => given_bytes(params@) == Ok::<Seq<u8>, Seq<char>>(bytes@),
            Err(e) => given_bytes(params@) == Err::<Seq<u8>, Seq<char>>(e@),
        },
{
    match params.text("body_base64") {
        Some(encoded) => match codec::base64_decode(encoded.as_str()) {
            Ok(bytes) => Ok(bytes),
            Err(e) => Err(text::join("Invalid base64: ", e.as_str())),
        },
        None => match params.text("body") {
            Some(text) => Ok(codec::to_utf8(text.as_str())),
            None => Err("Missing body or body_base64".to_owned()),
        },
    }
}

/// The request that creates the namespace that a command names.
pub fn handle_ns_create_namespace(params: &JsonValue, settings: &Settings) -> (r: Result<
    HttpRequest,
    String,
>)
    ensures
        request_view(r) == in_namespace(
            params@,
            |namespace: Seq<char>| create_namespace_request(params@, settings@, namespace),
        ),
{
    match params.text("namespace_id") {
        Some(ns) => server_api::create_namespace(params, settings, ns.as_str()),
        None => Err("Missing namespace_id".to_owned()),
    }
}

/// The request that lists the namespaces.
pub fn handle_ns_list_namespaces(params: &JsonValue, settings: &Settings) -> (r: Result<
    HttpRequest,
    String,
>)
    ensures
        request_view(r) == list_namespaces_request(params@, settings@),
{
    server_api::list_namespaces(params, settings)
}

/// The request that stores the object that a command names.
pub fn handle_ns_put_object(params: &JsonValue, settings: &Settings) -> (r: Result<
    HttpRequest,
    String,
>)
    ensures
        request_view(r) == put_object_request(params@, settings@),
{
    let ns: String = match params.text("namespace_id") {
        Some(ns) => ns,
        None => {
            return Err("Missing namespace_id".to_owned());
        },
    };
    let key: String = match params.text("key") {
        Some(key) => key,
        None => {
            return Err("Missing key".to_owned());
        },
    };
    let content_type: String = match params.text("content_type") {
        Some(t) => t,
        None => "application/octet-stream".to_owned(),
    };
    match object_body(params) {
        Ok(bytes) => server_api::put_object(
            params,
            settings,
            ns.as_str(),
            key.as_str(),
            bytes,
            content_type.as_str(),
        ),
        Err(e) => Err(e),
    }
}

/// The request for the object that a command names. The answer to the command is the raw bytes of
/// the object, as an array of numbers.
pub fn handle_ns_get_object(params: &JsonValue, settings: &Settings) -> (r: Result<
    HttpRequest,
    String,
>)
    ensures
        request_view(r) == object_request("GET"@, params@, settings@),
{
    match params.text("namespace_id") {
        Some(ns) => match params.text("key") {
            Some(key) => server_api::get_object(params, settings, ns.as_str(), key.as_str()),
            None => Err("Missing key".to_owned()),
        },
        None => Err("Missing namespace_id".to_owned()),
    }
}

/// The request that removes the object that a command names.
pub fn handle_ns_delete_object(params: &JsonValue, settings: &Settings) -> (r: Result<
    HttpRequest,
    String,
>)
    ensures
        request_view(r) == object_request("DELETE"@, params@, settings@),
{
    match params.text("namespace_id") {
        Some(ns) => match params.text("key") {
            Some(key) => server_api::delete_object(params, settings, ns.as_str(), key.as_str()),
            None => Err("Missing key".to_owned()),
        },
        None => Err("Missing namespace_id".to_owned()),
    }
}

/// The request that lists the objects of the namespace that a command names.
pub fn handle_ns_list_objects(params: &JsonValue, settings: &Settings) -> (r: Result<
    HttpRequest,
    String,
>)
    ensures
        request_view(r) == list_objects_request(params@, settings@),
{
    match params.text("namespace_id") {
        Some(ns) => server_api::list_objects(params, settings, ns.as_str()),
        None => Err("Missing namespace_id".to_owned()),
    }
}

/// A workspace of the server, as it is listed.
fn workspace_entry(id: &str, name: &str) -> (r: JsonValue)
    ensures
        r@ == workspace_json(id@, name@),
        is_plain(r@),
{
    let r = json::object(
        vec![json::member("id", json::string(id)), json::member("name", json::string(name))],
    );
    proof {
        let members = r@->Object_0;
        assert(members =~= workspace_json(id@, name@)->Object_0);
        reveal_strlit("id");
        reveal_strlit("name");
        assert(precedes("id"@, "name"@));
        json::lemma_plain_leaf(Json::Str(id@));
        json::lemma_plain_leaf(Json::Str(name@));
        json::lemma_plain_object(members);
    }
    r
}

/// The workspaces of the server, as they are listed.
fn workspaces_list(workspaces: Vec<JsonValue>) -> (r: JsonValue)
    requires
        forall|i: int| 0 <= i < workspaces@.len() ==> is_plain((#[trigger] workspaces@[i])@),
    ensures
        r@ == workspaces_json(items_view(workspaces@)),
        is_plain(r@),
{
    let ghost items = items_view(workspaces@);
    let r = json::object(vec![json::member("workspaces", json::array(workspaces))]);
    proof {
        let members = r@->Object_0;
        assert(members =~= workspaces_json(items)->Object_0);
        json::lemma_plain_array(items);
        json::lemma_plain_object(members);
    }
    r
}

/// The answer to the request for the workspaces of the server.
pub fn remote_workspaces(response: &JsonValue) -> (r: Result<JsonValue, String>)
    ensures
        result_view(r) == workspaces_answer(response@),
        r matches Ok(value) ==> is_plain(value@),
{
    let status: u64 = http::parse_http_status(response);
    if status != 200 {
        let body: String = http::parse_http_body(response);
        return Err(http::http_error(status, body.as_str()));
    }
    let mut workspaces: Vec<JsonValue> = Vec::new();
    let body: Option<JsonValue> = http::parse_http_body_json(response);
    match &body {
        Some(document) => match document.as_array() {
            Some(list) => {
                let ghost items = items_view(list@);
                assert(items.take(0) =~= Seq::empty());
                for i in 0..list.len()
                    invariant
                        items == items_view(list@),
                        items_view(workspaces@) =~= listed_workspaces(items.take(i as int)),
                        forall|j: int| 0 <= j < workspaces@.len() ==> is_plain(
                            (#[trigger] workspaces@[j])@,
                        ),
                {
                    let ghost prior = workspaces@;
                    proof {
                        assert(items.take(i + 1).drop_last() =~= items.take(i as int));
                        assert(items.take(i + 1).last() == list@[i as int]@);
                    }
                    match (list[i].text("id"), list[i].text("name")) {
                        (Some(id), Some(name)) => {
                            let entry: JsonValue = workspace_entry(id.as_str(), name.as_str());
                            workspaces.push(entry);
                            assert(items_view(workspaces@) =~= items_view(prior).push(entry@));
                        },
                        _ => {},
                    }
                }
                assert(items.take(items.len() as int) =~= items);
            },
            None => {
                assert(items_view(workspaces@) =~= Seq::empty());
            },
        },
        None => {
            assert(items_view(workspaces@) =~= Seq::empty());
        },
    }
    Ok(workspaces_list(workspaces))
}

/// What a cycle that was run for a purpose answers.
fn cycle_answer(purpose: &Purpose, result: &SyncResult) -> (r: JsonValue)
    ensures
        r@ == cycle_json(purpose_view(*purpose), result@),
        is_plain(r@),
{
    let members: Vec<(String, JsonValue)> = match purpose {
        Purpose::Push => vec![
            json::member("errors", json::strings(&result.errors)),
            json::member("pushed", json::unsigned(result.pushed as u64)),
        ],
        Purpose::Pull => vec![
            json::member("errors", json::strings(&result.errors)),
            json::member("pulled", json::unsigned(result.pulled as u64)),
        ],
        Purpose::Full => {
            return result.to_json();
        },
        Purpose::Link(id, created) => vec![
            json::member("created", JsonValue::Bool(*created)),
            json::member("namespace_id", json::string(id.as_str())),
            json::member("sync", result.to_json()),
        ],
    };
    let r = json::object(members);
    proof {
        let members = r@->Object_0;
        assert(members =~= cycle_json(purpose_view(*purpose), result@)->Object_0);
        lemma_cycle_answer_is_plain(purpose_view(*purpose), result@);
    }
    r
}

/// The answer to the request to unlink.
fn ok_answer() -> (r: JsonValue)
    ensures
        r@ == ok_json(),
        is_plain(r@),
{
    let r = json::object(vec![json::member("ok", JsonValue::Bool(true))]);
    proof {
        let members = r@->Object_0;
        assert(members =~= ok_json()->Object_0);
        json::lemma_plain_leaf(Json::Bool(true));
        json::lemma_plain_object(members);
    }
    r
}

/// The answer of a cycle is written down as `serde_json` holds it.
proof fn lemma_cycle_answer_is_plain(purpose: PurposeView, result: ResultView)
    ensures
        is_plain(cycle_json(purpose, result)),
{
    reveal_strlit("errors");
    reveal_strlit("pushed");
    reveal_strlit("pulled");
    reveal_strlit("created");
    reveal_strlit("namespace_id");
    reveal_strlit("sync");
    json::lemma_plain_strings(result.errors);
    crate::sync_engine::cycle::lemma_result_is_plain(result);
    match purpose {
        PurposeView::Full => {},
        PurposeView::Link(id, created) => {
            let members = cycle_json(purpose, result)->Object_0;
            assert(precedes("created"@, "namespace_id"@));
            assert(precedes("created"@, "sync"@));
            assert(precedes("namespace_id"@, "sync"@));
            json::lemma_plain_leaf(Json::Bool(created));
            json::lemma_plain_leaf(Json::Str(id));
            json::lemma_plain_object(members);
        },
        _ => {
            let members = cycle_json(purpose, result)->Object_0;
            assert(precedes("errors"@, "pushed"@));
            assert(precedes("errors"@, "pulled"@));
            json::lemma_plain_leaf(members[1].1);
            json::lemma_plain_object(members);
        },
    }
}

// ---------------------------------------------------------------------------
// Runs
// ---------------------------------------------------------------------------

/// Begins a command, with what is configured, the state of the plugin, and the pages that it
/// shows.
pub fn execute_command(
    command: &str,
    params: JsonValue,
    settings: Settings,
    state: PluginState,
    pages: &Pages,
) -> (run: CommandRun)
    ensures
        run@ == (CommandView {
            state: state@,
            settings: settings@,
            params: params@,
            stage: CommandStage::Over(Ok(Json::Null)),
        }).begin(command@, pages@),
{
    proof {
        json::lemma_plain_leaf(Json::Null);
    }
    let run = CommandRun { state, settings, params, stage: Stage::Over(Ok(JsonValue::Null)) };
    match find_command(command) {
        Some(Command::GetComponentHtml) => {
            let answer: Result<JsonValue, String> = component_html(&run.params, pages);
            run.at(Stage::Over(answer))
        },
        Some(Command::GetConfig) => {
            let answer: JsonValue = run.settings.config.to_json();
            run.at(Stage::Over(Ok(answer)))
        },
        Some(Command::SetConfig) => {
            let mut config: SyncExtismConfig = run.settings.config.copied();
            config::apply_config_patch(&mut config, &run.params);
            run.at(Stage::SaveConfig(config, Saved::Report))
        },
        Some(Command::SyncStatus) => {
            let answer: JsonValue = status::sync_status_from_state(
                &run.settings.config,
                &run.state,
            );
            run.at(Stage::Over(Ok(answer)))
        },
        Some(Command::GetProviderStatus) => {
            let answer: JsonValue = status::handle_get_provider_status(
                &run.params,
                &run.settings,
            );
            run.at(Stage::Over(Ok(answer)))
        },
        Some(Command::ListRemoteWorkspaces) => run.handle_list_remote_workspaces(),
        Some(Command::LinkWorkspace) => run.handle_link_workspace(),
        Some(Command::UnlinkWorkspace) => run.handle_unlink_workspace(),
        Some(Command::SyncPush) => run.cycling(Purpose::Push),
        Some(Command::SyncPull) => run.cycling(Purpose::Pull),
        Some(Command::Sync) => run.cycling(Purpose::Full),
        Some(Command::NsCreateNamespace) => {
            let request = handle_ns_create_namespace(&run.params, &run.settings);
            run.calling(ApiCall::CreateNamespace, request)
        },
        Some(Command::NsListNamespaces) => {
            let request = handle_ns_list_namespaces(&run.params, &run.settings);
            run.calling(ApiCall::ListNamespaces, request)
        },
        Some(Command::NsPutObject) => {
            let request = handle_ns_put_object(&run.params, &run.settings);
            run.calling(ApiCall::PutObject, request)
        },
        Some(Command::NsGetObject) => {
            let request = handle_ns_get_object(&run.params, &run.settings);
            run.calling(ApiCall::GetObject, request)
        },
        Some(Command::NsDeleteObject) => {
            let request = handle_ns_delete_object(&run.params, &run.settings);
            run.calling(ApiCall::DeleteObject, request)
        },
        Some(Command::NsListObjects) => {
            let request = handle_ns_list_objects(&run.params, &run.settings);
            run.calling(ApiCall::ListObjects, request)
        },
        None => run.at(Stage::Over(Err(text::join("Unknown command: ", command)))),
    }
}

impl CommandRun {
    /// The command at a given stage.
    fn at(self, stage: Stage) -> (run: CommandRun)
        requires
            stage.in_range(),
        ensures
            run@ == self@.at(stage@),
    {
        CommandRun {
            state: self.state,
            settings: self.settings,
            params: self.params,
            stage,
        }
    }

    /// The command when it makes a call of the server.
    fn calling(self, call: ApiCall, request: Result<HttpRequest, String>) -> (run: CommandRun)
        ensures
            run@ == self@.calling(call, request_view(request)),
    {
        match request {
            Ok(request) => self.at(Stage::Api(call, request)),
            Err(e) => self.at(Stage::Over(Err(e))),
        }
    }

    /// The command when it runs a cycle.
    fn cycling(self, purpose: Purpose) -> (run: CommandRun)
        ensures
            run@ == self@.cycling(purpose_view(purpose)),
    {
        let namespace_id: String = match config::resolve_namespace_id(
            &self.params,
            &self.settings,
            &self.state.namespace_id,
        ) {
            Ok(id) => id,
            Err(e) => {
                return self.at(Stage::Over(Err(e)));
            },
        };
        let root: String = match config::resolve_workspace_root(&self.state.workspace_root) {
            Ok(root) => root,
            Err(e) => {
                return self.at(Stage::Over(Err(e)));
            },
        };
        let CommandRun { state, settings, params, stage: _ } = self;
        let PluginState { manifest, workspace_root, namespace_id: held } = state;
        match manifest {
            Some(manifest) => {
                let mode: SyncMode = match &purpose {
                    Purpose::Push => SyncMode::Push,
                    Purpose::Pull => SyncMode::Pull,
                    _ => SyncMode::Full,
                };
                let cycle: SyncRun = start_cycle(
                    mode,
                    &params,
                    namespace_id.as_str(),
                    root.as_str(),
                    manifest,
                );
                CommandRun {
                    state: PluginState { manifest: None, workspace_root, namespace_id: held },
                    settings,
                    params,
                    stage: Stage::Cycle(cycle, purpose),
                }
            },
            None => CommandRun {
                state: PluginState { manifest: None, workspace_root, namespace_id: held },
                settings,
                params,
                stage: Stage::Over(Err("Plugin state not initialized".to_owned())),
            },
        }
    }

    /// The command when it links the workspace to a namespace.
    fn linking(self, namespace_id: Option<String>, created: bool) -> (run: CommandRun)
        ensures
            run@ == self@.linking(optional_text(namespace_id), created),
    {
        match namespace_id {
            Some(id) => {
                let mut updated: SyncExtismConfig = self.settings.config.copied();
                updated.workspace_id = Some(id.clone());
                self.at(Stage::SaveConfig(updated, Saved::Link(id, created)))
            },
            None => self.at(Stage::Over(Err("Missing namespace_id".to_owned()))),
        }
    }

    /// The command when it is asked to link.
    fn handle_link_workspace(self) -> (run: CommandRun)
        ensures
            run@ == self@.link(),
    {
        if !config::provider_supported(&self.params) {
            return self.at(Stage::Over(Err("Unsupported provider".to_owned())));
        }
        let named: Option<String> = match self.params.text("namespace_id") {
            Some(id) => Some(id),
            None => self.params.text("remote_id"),
        };
        match named {
            Some(id) => self.linking(Some(id), false),
            None => match self.params.text("name") {
                Some(name) => match server_api::create_namespace(
                    &self.params,
                    &self.settings,
                    name.as_str(),
                ) {
                    Ok(request) => self.at(Stage::CreateForLink(request)),
                    Err(e) => self.at(Stage::Over(Err(e))),
                },
                None => self.at(Stage::Over(Err("Missing name or namespace_id".to_owned()))),
            },
        }
    }

    /// The command when it is asked to unlink.
    fn handle_unlink_workspace(self) -> (run: CommandRun)
        ensures
            run@ == self@.at(
                CommandStage::SaveConfig(self@.settings.config.linked(None), SavedView::Unlink),
            ),
    {
        let mut config: SyncExtismConfig = self.settings.config.copied();
        config.workspace_id = None;
        self.at(Stage::SaveConfig(config, Saved::Unlink))
    }

    /// The command when it is asked for the workspaces of the server.
    fn handle_list_remote_workspaces(self) -> (run: CommandRun)
        ensures
            run@ == self@.list_remote(),
    {
        if !config::provider_supported(&self.params) {
            let none: Vec<JsonValue> = Vec::new();
            assert(items_view(none@) =~= Seq::empty());
            return self.at(Stage::Over(Ok(workspaces_list(none))));
        }
        match resolve_server_url(&self.params, &self.settings) {
            Some(server) => {
                let token: Option<String> = resolve_auth_token(&self.params, &self.settings);
                let url: String = text::join(server.as_str(), "/api/workspaces");
                self.at(Stage::ListRemote(server_api::new_request("GET", url, &token)))
            },
            None => self.at(Stage::Over(Err("Missing server_url".to_owned()))),
        }
    }

    /// Whether the command has its result.
    pub fn is_over(&self) -> (r: bool)
        ensures
            r == self@.is_over(),
    {
        match &self.stage {
            Stage::Over(_) => true,
            _ => false,
        }
    }

    /// The call that the command waits for.
    pub fn call(&self) -> (r: Option<HostCall>)
        ensures
            call_view(r) == self@.call(),
    {
        match &self.stage {
            Stage::SaveConfig(config, _) => Some(HostCall::SaveConfig(config.copied())),
            Stage::Api(_, request) => Some(HostCall::Send(request.copied())),
            Stage::ListRemote(request) => Some(HostCall::Send(request.copied())),
            Stage::CreateForLink(request) => Some(HostCall::Send(request.copied())),
            Stage::LoadManifest(_, _) => Some(HostCall::LoadManifest),
            Stage::LoadSettings(_, _) => Some(HostCall::LoadSettings),
            Stage::Cycle(run, _) => run.call(),
            Stage::Over(_) => None,
        }
    }

    /// The command once the configuration is stored.
    fn saved(self, next: Saved) -> (run: CommandRun)
        ensures
            run@ == self@.saved(saved_view(next)),
    {
        match next {
            Saved::Report => {
                proof {
                    json::lemma_plain_leaf(Json::Null);
                }
                self.at(Stage::Over(Ok(JsonValue::Null)))
            },
            Saved::Unlink => {
                let CommandRun { mut state, settings, params, stage: _ } = self;
                state::set_namespace_id(&mut state, None, None);
                CommandRun { state, settings, params, stage: Stage::Over(Ok(ok_answer())) }
            },
            Saved::Link(id, created) => self.at(Stage::LoadManifest(id, created)),
        }
    }

    /// The command when its cycle has come to a given point.
    fn cycled(self, cycle: SyncRun, purpose: Purpose) -> (run: CommandRun)
        ensures
            run@ == self@.cycled(cycle@, purpose_view(purpose)),
    {
        if !cycle.is_over() {
            return self.at(Stage::Cycle(cycle, purpose));
        }
        let CommandRun { state, settings, params, stage: _ } = self;
        let PluginState { manifest: _, workspace_root, namespace_id } = state;
        match cycle.into_result() {
            Some((outcome, manifest)) => {
                let answer: Result<JsonValue, String> = match outcome {
                    Ok(result) => Ok(cycle_answer(&purpose, &result)),
                    Err(e) => Err(e),
                };
                CommandRun {
                    state: PluginState {
                        manifest: Some(manifest),
                        workspace_root,
                        namespace_id,
                    },
                    settings,
                    params,
                    stage: Stage::Over(answer),
                }
            },
            None => CommandRun {
                state: PluginState { manifest: None, workspace_root, namespace_id },
                settings,
                params,
                stage: Stage::Over(Err(String::new())),
            },
        }
    }

    /// The command after a reply.
    pub fn step(self, reply: HostReply) -> (next: CommandRun)
        ensures
            next@ == self@.after(reply@),
    {
        proof {
            use_type_invariant(&self);
            json::lemma_plain_leaf(Json::Null);
        }
        let CommandRun { state, settings, params, stage } = self;
        let rest = CommandRun {
            state,
            settings,
            params,
            stage: Stage::Over(Ok(JsonValue::Null)),
        };
        match (stage, reply) {
            (Stage::SaveConfig(_, next), HostReply::Saved) => rest.saved(next),
            (Stage::Api(call, _), HostReply::Response(response)) => rest.at(
                Stage::Over(server_api::conclude(call, response)),
            ),
            (Stage::ListRemote(_), HostReply::Response(Ok(response))) => rest.at(
                Stage::Over(remote_workspaces(&response.to_json())),
            ),
            (Stage::ListRemote(_), HostReply::Response(Err(e))) => rest.at(Stage::Over(Err(e))),
            (Stage::CreateForLink(_), HostReply::Response(response)) => match server_api::conclude(
                ApiCall::CreateNamespace,
                response,
            ) {
                Ok(namespace) => rest.linking(namespace.text("id"), true),
                Err(e) => rest.at(Stage::Over(Err(e))),
            },
            (Stage::LoadManifest(id, created), HostReply::Manifest(stored)) => {
                let CommandRun { mut state, settings, params, stage: _ } = rest;
                state::set_namespace_id(&mut state, Some(id.clone()), stored);
                CommandRun { state, settings, params, stage: Stage::LoadSettings(id, created) }
            },
            (Stage::LoadSettings(id, created), HostReply::Settings(settings)) => {
                let CommandRun { state, settings: _, params, stage } = rest;
                let run = CommandRun { state, settings, params, stage };
                run.cycling(Purpose::Link(id, created))
            },
            (Stage::Cycle(cycle, purpose), reply) => rest.cycled(cycle.step(reply), purpose),
            (stage, _) => rest.at(stage),
        }
    }

    /// The result of the command and the state of the plugin; no result as long as the command
    /// is not over.
    pub fn into_result(self) -> (r: (Option<Result<JsonValue, String>>, PluginState))
        ensures
            r.1@ == self@.state,
            match r.0 {
                Some(result) => self@.stage == CommandStage::Over(result_view(result)),
                None => !self@.is_over(),
            },
            r.0 matches Some(Ok(value)) ==> is_plain(value@),
    {
        proof {
            use_type_invariant(&self);
        }
        match self.stage {
            Stage::Over(result) => (Some(result), self.state),
            _ => (None, self.state),
        }
    }
}

// ---------------------------------------------------------------------------
// Laws
// ---------------------------------------------------------------------------

impl CommandView {
    /// Whether what the command waits for is there to be waited for.
    pub open spec fn wf(self) -> bool {
        match self.stage {
            CommandStage::Cycle(run, _) => run.wf() && !run.is_over(),
            _ => true,
        }
    }

    /// Whether the manifest of the plugin is where it belongs: with the plugin, or with the
    /// cycle that the command runs.
    pub open spec fn has_manifest(self) -> bool {
        self.state.manifest is Some || self.stage is Cycle
    }
}

/// A command that is not over waits for a call: it does at its beginning, and after every reply.
pub proof fn lemma_command_never_stalls(
    command: CommandView,
    reply: Reply,
    name: Seq<char>,
    pages: PagesView,
)
    requires
        command.wf(),
    ensures
        command.begin(name, pages).wf(),
        command.after(reply).wf(),
        command.call() is Some <==> !command.is_over(),
{
    match command.stage {
        CommandStage::Cycle(run, _) => {
            crate::sync_engine::cycle::lemma_cycle_never_stalls(
                run,
                reply,
                run.job,
                ManifestView::fresh(Seq::empty()),
            );
        },
        _ => {},
    }
}

/// No command loses the manifest of the plugin: what has it at the beginning has it after every
/// reply, and so at the end.
pub proof fn lemma_command_keeps_manifest(
    command: CommandView,
    reply: Reply,
    name: Seq<char>,
    pages: PagesView,
)
    requires
        command.has_manifest(),
    ensures
        !(command.stage is Cycle) ==> command.begin(name, pages).has_manifest(),
        command.after(reply).has_manifest(),
        command.after(reply).is_over() ==> command.after(reply).state.manifest is Some,
{
}

impl CommandView {
    /// Whether the manifest of the plugin is of the namespace that the plugin holds, be it with
    /// the plugin or with the cycle that the command runs.
    pub open spec fn is_coherent(self) -> bool {
        match self.stage {
            CommandStage::Cycle(run, _) => run.manifest().namespace_id == self.state.namespace(),
            _ => self.state.is_coherent(),
        }
    }
}

/// Whatever a command does, the manifest of the plugin is of the namespace that the plugin
/// holds: it is at the beginning, after every reply, and so at the end.
pub proof fn lemma_command_keeps_namespace(
    command: CommandView,
    reply: Reply,
    name: Seq<char>,
    pages: PagesView,
)
    requires
        command.is_coherent(),
    ensures
        !(command.stage is Cycle) ==> command.begin(name, pages).is_coherent(),
        command.after(reply).is_coherent(),
        command.after(reply).is_over() ==> command.after(reply).state.is_coherent(),
{
    match command.stage {
        CommandStage::Cycle(run, _) => {
            crate::sync_engine::cycle::lemma_cycle_keeps_namespace(
                run,
                reply,
                run.job,
                run.manifest(),
            );
        },
        _ => {},
    }
}

/// A command that does not run a cycle or link the workspace leaves the state of the plugin as
/// it is.
pub proof fn lemma_calls_leave_the_state(command: CommandView, reply: Reply)
    requires
        command.stage is Api || command.stage is ListRemote || command.stage is CreateForLink
            || command.stage matches CommandStage::SaveConfig(_, SavedView::Report),
    ensures
        command.after(reply).state == command.state,
{
}

proof fn lemma_config_commands()
    ensures
        command_named("get_config"@) == Some(Command::GetConfig),
        command_named("set_config"@) == Some(Command::SetConfig),
{
    reveal_strlit("get_component_html");
    reveal_strlit("get_config");
    reveal_strlit("set_config");
    assert("get_config"@.len() != "get_component_html"@.len());
    assert("set_config"@[0] != "get_component_html"@[0]);
    assert("set_config"@[0] != "get_config"@[0]);
}

/// What `set_config` sets, `get_config` gives back: the configuration that is handed to storage
/// is the one that is answered when it is read, and each of its settings is what was set,
/// without the white space around it, or nothing, if it was cleared.
pub proof fn lemma_set_config_is_read_back(
    setting: CommandView,
    getting: CommandView,
    pages: PagesView,
    key: Seq<char>,
)
    requires
        setting.begin("set_config"@, pages).call() == Some(
            Call::SaveConfig(getting.settings.config),
        ),
        key == "server_url"@ || key == "auth_token"@ || key == "workspace_id"@,
    ensures
        setting.begin("set_config"@, pages).after(Reply::Saved).stage == CommandStage::Over(
            Ok(Json::Null),
        ),
        getting.begin("get_config"@, pages).stage == CommandStage::Over(
            Ok(getting.settings.config.json()),
        ),
        setting.params.member(key) matches Some(Json::Str(value)) ==> getting.settings.config.json().text(
            key,
        ) == if is_blank(value) {
            None
        } else {
            Some(text::trimmed(value))
        },
        setting.params.member(key) == Some(Json::Null) ==> getting.settings.config.json().member(key)
            == Some(Json::Null),
{
    lemma_config_commands();
    config::lemma_patch_is_read_back(setting.settings.config, setting.params);
    let after = setting.settings.config.after_patch(setting.params);
    assert(getting.settings.config == after);
}

/// A typed command that there is not is answered with nothing.
pub proof fn lemma_unknown_commands(command: CommandView, name: Seq<char>, pages: PagesView)
    requires
        command_named(name) is None,
    ensures
        command.begin(name, pages).stage matches CommandStage::Over(result)
            && crate::protocol::typed_answer(result) == Ok::<Seq<char>, Seq<char>>(Seq::empty()),
{
    reveal_strlit("Unknown command:");
    reveal_strlit("Unknown command: ");
    let e = "Unknown command: "@ + name;
    assert("Unknown command:"@ =~= e.subrange(0, "Unknown command:"@.len() as int));
}

/// When the workspace is linked, the plugin holds the namespace that was linked to, with a
/// manifest of it, and the configuration that was stored names it.
pub proof fn lemma_link(
    command: CommandView,
    namespace_id: Seq<char>,
    created: bool,
    stored: Option<ManifestView>,
)
    ensures
        ({
            let saving = command.linking(Some(namespace_id), created);
            let loaded = saving.after(Reply::Saved).after(Reply::Manifest(stored));
            &&& saving.call() matches Some(Call::SaveConfig(config)) && config.workspace_id == Some(
                namespace_id,
            )
            &&& loaded.state.namespace_id == Some(namespace_id)
            &&& loaded.state.manifest matches Some(m) && m.namespace_id == namespace_id
            &&& loaded.call() == Some(Call::LoadSettings)
        }),
{
}

/// When the workspace is unlinked, the plugin holds no namespace, and follows nothing.
pub proof fn lemma_unlink(command: CommandView)
    requires
        command.stage matches CommandStage::SaveConfig(_, SavedView::Unlink),
    ensures
        ({
            let after = command.after(Reply::Saved);
            &&& after.stage == CommandStage::Over(Ok(ok_json()))
            &&& after.state.namespace_id is None
            &&& after.state.manifest == Some(ManifestView::fresh(Seq::empty()))
            &&& after.state.workspace_root == command.state.workspace_root
        }),
{
}

} // verus!
