//! Commands: what each of them asks of the host, with what it was given, and what it answers.

use vstd::prelude::*;
use vstd::string::*;
use vstd::utf8::*;

use crate::codec::base64_decoded;
use crate::commands::{
    command_named, listed_workspaces, Command, CommandStage, CommandView, PagesView, PurposeView,
    SavedView,
};
use crate::config::{is_for_us, SettingsView};
use crate::host::{Call, Reply};
use crate::http::{BodyView, RequestView, ResponseView};
use crate::json::{json_parse, json_text, Json, JsonNumber};
use crate::laws::listings::lemma_members_are_found;
use crate::laws::transfers::{lemma_bytes_of_a_response, lemma_responses_are_read};
use crate::server_api::ApiCall;
use crate::sync_engine::cycle::{ResultView, StageView, SyncView};
use crate::sync_manifest::{FileEntryView, ManifestView};
use crate::text::{decimal, is_blank};

verus! {

/// The commands by their names.
#[verifier::rlimit(40)]
pub proof fn lemma_names_of_commands()
    ensures
        command_named("get_component_html"@) == Some(Command::GetComponentHtml),
        command_named("get_config"@) == Some(Command::GetConfig),
        command_named("set_config"@) == Some(Command::SetConfig),
        command_named("GetSyncStatus"@) == Some(Command::SyncStatus),
        command_named("SyncStatus"@) == Some(Command::SyncStatus),
        command_named("sync_status"@) == Some(Command::SyncStatus),
        command_named("GetProviderStatus"@) == Some(Command::GetProviderStatus),
        command_named("ListRemoteWorkspaces"@) == Some(Command::ListRemoteWorkspaces),
        command_named("LinkWorkspace"@) == Some(Command::LinkWorkspace),
        command_named("UnlinkWorkspace"@) == Some(Command::UnlinkWorkspace),
        command_named("SyncPush"@) == Some(Command::SyncPush),
        command_named("sync_push"@) == Some(Command::SyncPush),
        command_named("SyncPull"@) == Some(Command::SyncPull),
        command_named("sync_pull"@) == Some(Command::SyncPull),
        command_named("Sync"@) == Some(Command::Sync),
        command_named("sync"@) == Some(Command::Sync),
        command_named("NsCreateNamespace"@) == Some(Command::NsCreateNamespace),
        command_named("NsListNamespaces"@) == Some(Command::NsListNamespaces),
        command_named("NsPutObject"@) == Some(Command::NsPutObject),
        command_named("NsGetObject"@) == Some(Command::NsGetObject),
        command_named("NsDeleteObject"@) == Some(Command::NsDeleteObject),
        command_named("NsListObjects"@) == Some(Command::NsListObjects),
{
    reveal_strlit("get_component_html");
    reveal_strlit("get_config");
    reveal_strlit("set_config");
    reveal_strlit("GetSyncStatus");
    reveal_strlit("SyncStatus");
    reveal_strlit("sync_status");
    reveal_strlit("GetProviderStatus");
    reveal_strlit("ListRemoteWorkspaces");
    reveal_strlit("LinkWorkspace");
    reveal_strlit("UnlinkWorkspace");
    reveal_strlit("SyncPush");
    reveal_strlit("sync_push");
    reveal_strlit("SyncPull");
    reveal_strlit("sync_pull");
    reveal_strlit("Sync");
    reveal_strlit("sync");
    reveal_strlit("NsCreateNamespace");
    reveal_strlit("NsListNamespaces");
    reveal_strlit("NsPutObject");
    reveal_strlit("NsGetObject");
    reveal_strlit("NsDeleteObject");
    reveal_strlit("NsListObjects");
    assert("get_component_html"@.len() == 18);
    assert("get_config"@.len() == 10 && "get_config"@[0] == 'g');
    assert("set_config"@.len() == 10 && "set_config"@[0] == 's');
    assert("GetSyncStatus"@.len() == 13 && "GetSyncStatus"@[0] == 'G');
    assert("SyncStatus"@.len() == 10 && "SyncStatus"@[0] == 'S');
    assert("sync_status"@.len() == 11 && "sync_status"@[0] == 's');
    assert("GetProviderStatus"@.len() == 17 && "GetProviderStatus"@[0] == 'G');
    assert("ListRemoteWorkspaces"@.len() == 20);
    assert("LinkWorkspace"@.len() == 13 && "LinkWorkspace"@[0] == 'L');
    assert("UnlinkWorkspace"@.len() == 15);
    assert("SyncPush"@.len() == 8 && "SyncPush"@[6] == 's');
    assert("sync_push"@.len() == 9 && "sync_push"@[7] == 's');
    assert("SyncPull"@.len() == 8 && "SyncPull"@[6] == 'l');
    assert("sync_pull"@.len() == 9 && "sync_pull"@[7] == 'l');
    assert("Sync"@.len() == 4 && "Sync"@[0] == 'S');
    assert("sync"@.len() == 4 && "sync"@[0] == 's');
    assert("NsCreateNamespace"@.len() == 17 && "NsCreateNamespace"@[0] == 'N');
    assert("NsListNamespaces"@.len() == 16);
    assert("NsPutObject"@.len() == 11 && "NsPutObject"@[2] == 'P' && "NsPutObject"@[0] == 'N');
    assert("NsGetObject"@.len() == 11 && "NsGetObject"@[2] == 'G' && "NsGetObject"@[0] == 'N');
    assert("NsDeleteObject"@.len() == 14);
    assert("NsListObjects"@.len() == 13 && "NsListObjects"@[0] == 'N');
}

// ---------------------------------------------------------------------------
// Linking
// ---------------------------------------------------------------------------

/// A command to link that names a namespace, by `namespace_id` or else by `remote_id`, links to
/// this one. It begins by storing the configuration with exactly this workspace; then it asks for
/// the manifest and for the settings, and runs a full cycle for it; it creates nothing.
pub proof fn lemma_links_to_the_named_namespace(
    command: CommandView,
    pages: PagesView,
    id: Seq<char>,
    stored: Option<ManifestView>,
    settings: SettingsView,
)
    requires
        is_for_us(command.params),
        command.params.member("namespace_id"@) == Some(Json::Str(id)) || (command.params.text(
            "namespace_id"@,
        ) is None && command.params.member("remote_id"@) == Some(Json::Str(id))),
    ensures
        ({
            let begun = command.begin("LinkWorkspace"@, pages);
            let saved = begun.after(Reply::Saved);
            let loaded = saved.after(Reply::Manifest(stored));
            let ready = loaded.after(Reply::Settings(settings));
            &&& (begun.call() matches Some(Call::SaveConfig(config)) && {
                &&& config.workspace_id == Some(id)
                &&& config.server_url == command.settings.config.server_url
                &&& config.auth_token == command.settings.config.auth_token
            })
            &&& begun.state == command.state
            &&& saved.call() == Some(Call::LoadManifest)
            &&& saved.state == command.state
            &&& loaded.call() == Some(Call::LoadSettings)
            &&& loaded.state.namespace_id == Some(id)
            &&& loaded.state.workspace_root == command.state.workspace_root
            &&& (stored matches Some(m) ==> (m.namespace_id == id ==> loaded.state.manifest == Some(
                m,
            )))
            &&& stored is None || stored->0.namespace_id != id
                ==> (loaded.state.manifest matches Some(
                m,
            ) && m.namespace_id == id && m.files == Map::<Seq<char>, FileEntryView>::empty()
                && m.pending_deletes.len() == 0 && m.last_sync_at is None)
            &&& match ready.stage {
                CommandStage::Cycle(sync, purpose) => {
                    &&& purpose == PurposeView::Link(id, false)
                    &&& sync.job.mode is Full
                    &&& sync.stage is Scan
                },
                CommandStage::Over(result) => result is Err,
                _ => false,
            }
        }),
{
    lemma_names_of_commands();
}

/// Only a command to link that names no namespace creates one, under the name that it gives, and
/// then links to the one that the server has created.
pub proof fn lemma_links_to_a_created_namespace(
    command: CommandView,
    pages: PagesView,
    name: Seq<char>,
    server: Seq<char>,
    response: ResponseView,
    document: Json,
    id: Seq<char>,
)
    requires
        is_for_us(command.params),
        command.params.text("namespace_id"@) is None,
        command.params.text("remote_id"@) is None,
        command.params.member("name"@) == Some(Json::Str(name)),
        command.settings.server(command.params) == Some(server),
        response.status == 201 || response.status == 200,
        response.body.len() > 0,
        json_parse(response.body) == Ok::<Json, Seq<char>>(document),
        document.member("id"@) == Some(Json::Str(id)),
    ensures
        ({
            let begun = command.begin("LinkWorkspace"@, pages);
            let created = begun.after(Reply::Response(Ok(response)));
            &&& (begun.call() matches Some(Call::Send(request)) && {
                &&& request.method == "POST"@
                &&& request.url == server + "/namespaces"@
                &&& request.body == BodyView::Text(
                    json_text(Json::Object(seq![("id"@, Json::Str(name))])),
                )
            })
            &&& (created.call() matches Some(Call::SaveConfig(config)) && {
                &&& config.workspace_id == Some(id)
                &&& config.server_url == command.settings.config.server_url
                &&& config.auth_token == command.settings.config.auth_token
            })
            &&& (created.stage matches CommandStage::SaveConfig(_, SavedView::Link(linked, fresh))
                && linked == id && fresh)
            &&& created.state == command.state
        }),
{
    lemma_names_of_commands();
    lemma_responses_are_read(response);
}

/// A command to link that names neither a namespace nor a name, that is for another provider, or
/// that has no server to create a namespace on, fails at once, and changes nothing.
pub proof fn lemma_links_that_fail(command: CommandView, pages: PagesView)
    ensures
        ({
            let begun = command.begin("LinkWorkspace"@, pages);
            let unnamed = command.params.text("namespace_id"@) is None && command.params.text(
                "remote_id"@,
            ) is None;
            &&& !is_for_us(command.params) ==> begun.stage == CommandStage::Over(
                Err("Unsupported provider"@),
            )
            &&& is_for_us(command.params) && unnamed && command.params.text("name"@) is None
                ==> begun.stage == CommandStage::Over(Err("Missing name or namespace_id"@))
            &&& is_for_us(command.params) && unnamed && command.params.text("name"@) is Some
                && command.settings.server(command.params) is None ==> begun.stage
                == CommandStage::Over(Err("Missing server_url"@))
            &&& begun.state == command.state
            &&& begun.settings == command.settings
            &&& begun.params == command.params
        }),
{
    lemma_names_of_commands();
}

/// A namespace that the server does not create, or answers without an id, is not linked to, and
/// nothing changes.
pub proof fn lemma_namespaces_that_are_not_created(
    command: CommandView,
    request: RequestView,
    response: ResponseView,
    document: Json,
    e: Seq<char>,
)
    requires
        command.stage == CommandStage::CreateForLink(request),
    ensures
        ({
            let after = command.after(Reply::Response(Ok(response)));
            let lost = command.after(Reply::Response(Err(e)));
            let good = response.status == 201 || response.status == 200;
            let parsed = response.body.len() > 0 && json_parse(response.body) == Ok::<
                Json,
                Seq<char>,
            >(document);
            &&& command.call() == Some(Call::Send(request))
            &&& lost.stage == CommandStage::Over(Err(e))
            &&& !good ==> after.stage == CommandStage::Over(
                Err(
                    if response.body.len() == 0 {
                        "HTTP "@ + decimal(response.status as nat)
                    } else {
                        "HTTP "@ + decimal(response.status as nat) + ": "@ + response.body
                    },
                ),
            )
            &&& good && (response.body.len() == 0 || json_parse(response.body) is Err)
                ==> after.stage == CommandStage::Over(Err("Invalid namespace response"@))
            &&& good && parsed && document.text("id"@) is None ==> after.stage
                == CommandStage::Over(Err("Missing namespace_id"@))
            &&& after.state == command.state
            &&& lost.state == command.state
        }),
{
    lemma_responses_are_read(response);
}

/// When the settings are there, a link runs a full cycle for the namespace that counts, below the
/// root and from the manifest that was taken up; what is missing is told.
pub proof fn lemma_links_run_their_cycle(
    command: CommandView,
    id: Seq<char>,
    created: bool,
    settings: SettingsView,
)
    requires
        command.stage == CommandStage::LoadSettings(id, created),
    ensures
        ({
            let after = command.after(Reply::Settings(settings));
            let namespace = settings.namespace(command.params, command.state.namespace_id);
            let rooted = command.state.workspace_root is Some && !is_blank(
                command.state.workspace_root->0,
            );
            &&& namespace is None ==> after.stage == CommandStage::Over(
                Err("No namespace linked. Use `sync link` first."@),
            )
            &&& namespace is Some && !rooted ==> after.stage == CommandStage::Over(
                Err("Missing workspace_root"@),
            )
            &&& namespace is Some && rooted && command.state.manifest is None ==> after.stage
                == CommandStage::Over(Err("Plugin state not initialized"@))
            &&& namespace is Some && rooted && command.state.manifest is Some ==> (
            after.stage matches CommandStage::Cycle(sync, purpose) && {
                &&& purpose == PurposeView::Link(id, created)
                &&& sync.job.mode is Full
                &&& sync.job.namespace_id == namespace->0
                &&& sync.job.root == command.state.workspace_root->0
                &&& sync.job.server_url == command.params.text("server_url"@)
                &&& sync.job.auth_token == command.params.text("auth_token"@)
                &&& (sync.stage matches StageView::Scan(_, held) && held
                    == command.state.manifest->0)
            })
            &&& after.state.namespace_id == command.state.namespace_id
            &&& after.state.workspace_root == command.state.workspace_root
        }),
{
}

/// A command waits for the reply to its call: any other reply leaves it where it is.
pub proof fn lemma_commands_wait(command: CommandView, reply: Reply)
    ensures
        command.stage is Over ==> command.after(reply) == command,
        command.stage is SaveConfig && !(reply is Saved) ==> command.after(reply) == command,
        command.stage is Api && !(reply is Response) ==> command.after(reply) == command,
        command.stage is ListRemote && !(reply is Response) ==> command.after(reply) == command,
        command.stage is CreateForLink && !(reply is Response) ==> command.after(reply) == command,
        command.stage is LoadManifest && !(reply is Manifest) ==> command.after(reply) == command,
        command.stage is LoadSettings && !(reply is Settings) ==> command.after(reply) == command,
        command.after(reply).params == command.params,
        !(command.stage is LoadSettings) ==> command.after(reply).settings == command.settings,
{
}

/// What a link answers names the namespace, says whether it was created for it, and gives the
/// result of the cycle.
pub proof fn lemma_links_are_told(
    command: CommandView,
    sync: SyncView,
    id: Seq<char>,
    created: bool,
    reply: Reply,
    manifest: ManifestView,
    result: ResultView,
)
    requires
        command.stage == CommandStage::Cycle(sync, PurposeView::Link(id, created)),
        sync.after(reply).stage == StageView::Over(manifest, Ok(result)),
    ensures
        ({
            let after = command.after(reply);
            &&& (after.stage matches CommandStage::Over(Ok(answer)) && {
                &&& answer.member("created"@) == Some(Json::Bool(created))
                &&& answer.member("namespace_id"@) == Some(Json::Str(id))
                &&& answer.member("sync"@) == Some(result.json())
            })
            &&& after.state.manifest == Some(manifest)
            &&& after.state.namespace_id == command.state.namespace_id
            &&& after.state.workspace_root == command.state.workspace_root
        }),
{
    reveal_strlit("created");
    reveal_strlit("namespace_id");
    reveal_strlit("sync");
    assert("created"@[0] == 'c');
    assert("namespace_id"@[0] == 'n');
    assert("sync"@[0] == 's');
    let all = command.after(reply).stage->Over_0->Ok_0->Object_0;
    lemma_members_are_found(all, "created"@, 0);
    lemma_members_are_found(all, "namespace_id"@, 1);
    lemma_members_are_found(all, "sync"@, 2);
}

/// To unlink stores the configuration without a workspace and otherwise as it is, and then the
/// plugin follows nothing and is of no namespace.
pub proof fn lemma_unlinks(command: CommandView, pages: PagesView)
    ensures
        ({
            let begun = command.begin("UnlinkWorkspace"@, pages);
            let after = begun.after(Reply::Saved);
            &&& (begun.call() matches Some(Call::SaveConfig(config)) && {
                &&& config.workspace_id is None
                &&& config.server_url == command.settings.config.server_url
                &&& config.auth_token == command.settings.config.auth_token
            })
            &&& after.stage == CommandStage::Over(
                Ok(Json::Object(seq![("ok"@, Json::Bool(true))])),
            )
            &&& after.state.namespace_id is None
            &&& after.state.workspace_root == command.state.workspace_root
            &&& (after.state.manifest matches Some(m) && m.namespace_id.len() == 0 && m.files
                == Map::<Seq<char>, FileEntryView>::empty() && m.pending_deletes.len() == 0
                && m.last_sync_at is None)
        }),
{
    lemma_names_of_commands();
}

// ---------------------------------------------------------------------------
// Settings and pages
// ---------------------------------------------------------------------------

/// The commands that tell something do so at once, and change nothing.
pub proof fn lemma_commands_that_tell(command: CommandView, pages: PagesView)
    ensures
        command.begin("get_config"@, pages).stage == CommandStage::Over(
            Ok(command.settings.config.json()),
        ),
        command.begin("GetSyncStatus"@, pages).stage == CommandStage::Over(
            Ok(crate::status::status_json(command.settings.config, command.state.manifest)),
        ),
        command.begin("SyncStatus"@, pages) == command.begin("GetSyncStatus"@, pages),
        command.begin("sync_status"@, pages) == command.begin("GetSyncStatus"@, pages),
        command.begin("GetProviderStatus"@, pages).stage == CommandStage::Over(
            Ok(
                crate::status::readiness_json(
                    crate::status::lacking(command.params, command.settings),
                ),
            ),
        ),
        command.begin("get_config"@, pages).state == command.state,
        command.begin("GetSyncStatus"@, pages).state == command.state,
        command.begin("GetProviderStatus"@, pages).state == command.state,
{
    lemma_names_of_commands();
}

/// To set the configuration stores it with the patch that is given, and answers `null`; the state
/// of the plugin stays.
pub proof fn lemma_configurations_are_stored(command: CommandView, pages: PagesView)
    ensures
        ({
            let begun = command.begin("set_config"@, pages);
            &&& begun.call() == Some(
                Call::SaveConfig(command.settings.config.after_patch(command.params)),
            )
            &&& begun.after(Reply::Saved).stage == CommandStage::Over(Ok(Json::Null))
            &&& begun.after(Reply::Saved).state == command.state
        }),
{
    lemma_names_of_commands();
}

/// Each component has its own page, given as it is, and there are no others.
pub proof fn lemma_pages_are_given(command: CommandView, pages: PagesView, id: Seq<char>)
    requires
        command.params.member("component_id"@) == Some(Json::Str(id)),
    ensures
        ({
            let answer = command.begin("get_component_html"@, pages).stage;
            &&& id == "sync.snapshots"@ ==> answer == CommandStage::Over(
                Ok(Json::Str(pages.snapshots)),
            )
            &&& id == "sync.history"@ ==> answer == CommandStage::Over(Ok(Json::Str(pages.history)))
            &&& id != "sync.snapshots"@ && id != "sync.history"@ ==> answer == CommandStage::Over(
                Err("Unknown sync component: "@ + id),
            )
        }),
{
    lemma_names_of_commands();
    reveal_strlit("sync.snapshots");
    reveal_strlit("sync.history");
    assert("sync.snapshots"@.len() != "sync.history"@.len());
}

/// A command that there is not is refused by its name.
pub proof fn lemma_other_commands(command: CommandView, pages: PagesView, name: Seq<char>)
    requires
        command_named(name) is None,
    ensures
        command.begin(name, pages).stage == CommandStage::Over(Err("Unknown command: "@ + name)),
        command.begin(name, pages).state == command.state,
{
}

// ---------------------------------------------------------------------------
// Cycles
// ---------------------------------------------------------------------------

/// A command that runs a cycle runs it the way that it is named, for the namespace that counts,
/// below the root and from the manifest that the plugin holds, with the server and the token that
/// the command names.
pub proof fn lemma_commands_run_cycles(
    command: CommandView,
    pages: PagesView,
    name: Seq<char>,
    id: Seq<char>,
    root: Seq<char>,
    manifest: ManifestView,
)
    requires
        name == "SyncPush"@ || name == "sync_push"@ || name == "SyncPull"@ || name == "sync_pull"@
            || name == "Sync"@ || name == "sync"@,
        command.settings.namespace(command.params, command.state.namespace_id) == Some(id),
        command.state.workspace_root == Some(root),
        !is_blank(root),
        command.state.manifest == Some(manifest),
    ensures
        ({
            let begun = command.begin(name, pages);
            &&& begun.call() == Some(Call::ListFiles(root))
            &&& (begun.stage matches CommandStage::Cycle(sync, purpose) && {
                &&& sync.job.namespace_id == id
                &&& sync.job.root == root
                &&& sync.job.server_url == command.params.text("server_url"@)
                &&& sync.job.auth_token == command.params.text("auth_token"@)
                &&& (sync.stage matches StageView::Scan(_, held) && held == manifest)
                &&& name == "SyncPush"@ || name == "sync_push"@ ==> sync.job.mode is Push
                    && purpose is Push
                &&& name == "SyncPull"@ || name == "sync_pull"@ ==> sync.job.mode is Pull
                    && purpose is Pull
                &&& name == "Sync"@ || name == "sync"@ ==> sync.job.mode is Full && purpose is Full
            })
            &&& begun.state.namespace_id == command.state.namespace_id
            &&& begun.state.workspace_root == command.state.workspace_root
        }),
{
    lemma_names_of_commands();
    assert(command.begin("SyncPush"@, pages) == command.begin("sync_push"@, pages));
    assert(command.begin("SyncPull"@, pages) == command.begin("sync_pull"@, pages));
    assert(command.begin("Sync"@, pages) == command.begin("sync"@, pages));
}

/// A cycle needs a namespace, a root that is not blank and a manifest; what is missing first is
/// told, and nothing changes.
pub proof fn lemma_cycles_that_cannot_run(
    command: CommandView,
    pages: PagesView,
    name: Seq<char>,
)
    requires
        name == "SyncPush"@ || name == "sync_push"@ || name == "SyncPull"@ || name == "sync_pull"@
            || name == "Sync"@ || name == "sync"@,
    ensures
        ({
            let begun = command.begin(name, pages);
            let linked = command.settings.namespace(
                command.params,
                command.state.namespace_id,
            ) is Some;
            let rooted = command.state.workspace_root is Some && !is_blank(
                command.state.workspace_root->0,
            );
            &&& !linked ==> begun.stage == CommandStage::Over(
                Err("No namespace linked. Use `sync link` first."@),
            )
            &&& linked && !rooted ==> begun.stage == CommandStage::Over(
                Err("Missing workspace_root"@),
            )
            &&& linked && rooted && command.state.manifest is None ==> begun.stage
                == CommandStage::Over(Err("Plugin state not initialized"@))
            &&& !linked || !rooted || command.state.manifest is None ==> begun.state
                == command.state
        }),
{
    lemma_names_of_commands();
}

/// A command that runs a cycle makes the calls of the cycle, and when the cycle is over takes its
/// manifest and answers its result, or its error.
pub proof fn lemma_commands_follow_their_cycle(
    command: CommandView,
    sync: SyncView,
    purpose: PurposeView,
    reply: Reply,
)
    requires
        command.stage == CommandStage::Cycle(sync, purpose),
    ensures
        ({
            let after = command.after(reply);
            let next = sync.after(reply);
            &&& command.call() == sync.call()
            &&& !(next.stage is Over) ==> after.stage == CommandStage::Cycle(next, purpose)
                && after.state == command.state
            &&& (next.stage matches StageView::Over(manifest, result) ==> {
                &&& after.state.manifest == Some(manifest)
                &&& after.state.namespace_id == command.state.namespace_id
                &&& after.state.workspace_root == command.state.workspace_root
                &&& (result matches Err(e) ==> after.stage == CommandStage::Over(Err(e)))
                &&& (result matches Ok(told) ==> (after.stage matches CommandStage::Over(Ok(answer))
                    && (purpose is Full ==> answer == told.json())))
            })
        }),
{
}

/// A push tells how many files were pushed, a pull how many were pulled, and both what failed.
pub proof fn lemma_pushes_and_pulls_are_told(
    command: CommandView,
    sync: SyncView,
    purpose: PurposeView,
    reply: Reply,
    manifest: ManifestView,
    result: ResultView,
    i: int,
)
    requires
        command.stage == CommandStage::Cycle(sync, purpose),
        sync.after(reply).stage == StageView::Over(manifest, Ok(result)),
        purpose is Push || purpose is Pull,
        0 <= result.pushed <= u64::MAX,
        0 <= result.pulled <= u64::MAX,
    ensures
        command.after(reply).stage matches CommandStage::Over(Ok(answer)) && {
            &&& purpose is Push ==> (answer.member("pushed"@) matches Some(
                Json::Number(JsonNumber::PosInt(n)),
            ) && n == result.pushed)
            &&& purpose is Pull ==> (answer.member("pulled"@) matches Some(
                Json::Number(JsonNumber::PosInt(n)),
            ) && n == result.pulled)
            &&& (answer.member("errors"@) matches Some(Json::Array(errors)) && errors.len()
                == result.errors.len() && (0 <= i < errors.len() ==> errors[i] == Json::Str(
                result.errors[i],
            )))
        },
{
    reveal_strlit("errors");
    reveal_strlit("pushed");
    reveal_strlit("pulled");
    assert("errors"@[0] != "pushed"@[0]);
    assert("errors"@[0] != "pulled"@[0]);
    let all = command.after(reply).stage->Over_0->Ok_0->Object_0;
    lemma_members_are_found(all, "errors"@, 0);
    if purpose is Push {
        lemma_members_are_found(all, "pushed"@, 1);
    } else {
        lemma_members_are_found(all, "pulled"@, 1);
    }
}

// ---------------------------------------------------------------------------
// Objects and namespaces
// ---------------------------------------------------------------------------

/// To store an object sends the very bytes that are given, be it as base64 or as text, to the
/// address of the object, with the type that is given.
pub proof fn lemma_objects_are_stored(
    command: CommandView,
    pages: PagesView,
    namespace: Seq<char>,
    key: Seq<char>,
    server: Seq<char>,
    bytes: Seq<u8>,
)
    requires
        command.params.member("namespace_id"@) == Some(Json::Str(namespace)),
        command.params.member("key"@) == Some(Json::Str(key)),
        command.settings.server(command.params) == Some(server),
        match command.params.text("body_base64"@) {
            Some(encoded) => base64_decoded(encoded) == Ok::<Seq<u8>, Seq<char>>(bytes),
            None => command.params.text("body"@) matches Some(body) && bytes == encode_utf8(body),
        },
    ensures
        command.begin("NsPutObject"@, pages).call() matches Some(Call::Send(request)) && {
            let content_type = match command.params.text("content_type"@) {
                Some(t) => t,
                None => "application/octet-stream"@,
            };
            &&& request.method == "PUT"@
            &&& request.url == server + "/namespaces/"@ + namespace + "/objects/"@ + key
            &&& request.body == BodyView::Bytes(bytes)
            &&& request.headers == (match command.settings.token(command.params) {
                Some(token) => seq![
                    ("Content-Type"@, content_type),
                    ("Authorization"@, "Bearer "@ + token),
                ],
                None => seq![("Content-Type"@, content_type)],
            })
        },
{
    lemma_names_of_commands();
}

/// What a command to store an object lacks is told: the namespace, the key, the bytes and the
/// server, in this order.
pub proof fn lemma_objects_that_cannot_be_stored(command: CommandView, pages: PagesView)
    ensures
        ({
            let begun = command.begin("NsPutObject"@, pages);
            let failed = |e: Seq<char>| begun.stage == CommandStage::Over(Err(e));
            let params = command.params;
            let named = params.text("namespace_id"@) is Some && params.text("key"@) is Some;
            &&& params.text("namespace_id"@) is None ==> failed("Missing namespace_id"@)
            &&& params.text("namespace_id"@) is Some && params.text("key"@) is None ==> failed(
                "Missing key"@,
            )
            &&& named && params.text("body_base64"@) is None && params.text("body"@) is None
                ==> failed("Missing body or body_base64"@)
            &&& (params.text("body_base64"@) matches Some(encoded) ==> (base64_decoded(
                encoded,
            ) matches Err(e) ==> (named ==> failed("Invalid base64: "@ + e))))
            &&& named && params.text("body_base64"@) is None && params.text("body"@) is Some
                && command.settings.server(params) is None ==> failed("Missing server_url"@)
            &&& begun.state == command.state
        }),
{
    lemma_names_of_commands();
}

/// To get an object asks for it by its address; to delete it asks for its removal; and to list
/// the objects asks for the address of them all.
pub proof fn lemma_objects_are_named(
    command: CommandView,
    pages: PagesView,
    namespace: Seq<char>,
    key: Seq<char>,
    server: Seq<char>,
)
    requires
        command.params.member("namespace_id"@) == Some(Json::Str(namespace)),
        command.settings.server(command.params) == Some(server),
    ensures
        ({
            let headers = match command.settings.token(command.params) {
                Some(token) => if is_blank(token) {
                    seq![("Content-Type"@, "application/json"@)]
                } else {
                    seq![
                        ("Content-Type"@, "application/json"@),
                        ("Authorization"@, "Bearer "@ + token),
                    ]
                },
                None => seq![("Content-Type"@, "application/json"@)],
            };
            let sends = |name: Seq<char>, method: Seq<char>, url: Seq<char>|
                command.begin(name, pages).call() == Some(
                    Call::Send(RequestView { method, url, headers, body: BodyView::Empty }),
                );
            let objects = server + "/namespaces/"@ + namespace + "/objects"@;
            let object = server + "/namespaces/"@ + namespace + "/objects/"@ + key;
            &&& sends("NsListObjects"@, "GET"@, objects)
            &&& sends("NsListNamespaces"@, "GET"@, server + "/namespaces"@)
            &&& command.params.member("key"@) == Some(Json::Str(key)) ==> sends(
                "NsGetObject"@,
                "GET"@,
                object,
            ) && sends("NsDeleteObject"@, "DELETE"@, object)
            &&& command.begin("NsCreateNamespace"@, pages).call() == Some(
                Call::Send(
                    RequestView {
                        method: "POST"@,
                        url: server + "/namespaces"@,
                        headers,
                        body: BodyView::Text(
                            json_text(Json::Object(seq![("id"@, Json::Str(namespace))])),
                        ),
                    },
                ),
            )
        }),
{
    lemma_names_of_commands();
}

/// What the other commands on objects and namespaces lack is told.
pub proof fn lemma_objects_that_are_not_named(command: CommandView, pages: PagesView)
    ensures
        ({
            let failed = |name: Seq<char>, e: Seq<char>|
                command.begin(name, pages).stage == CommandStage::Over(Err(e));
            let params = command.params;
            let namespace = params.text("namespace_id"@) is Some;
            let key = params.text("key"@) is Some;
            let server = command.settings.server(params) is Some;
            &&& !namespace ==> failed("NsGetObject"@, "Missing namespace_id"@) && failed(
                "NsDeleteObject"@,
                "Missing namespace_id"@,
            ) && failed("NsListObjects"@, "Missing namespace_id"@) && failed(
                "NsCreateNamespace"@,
                "Missing namespace_id"@,
            )
            &&& namespace && !key ==> failed("NsGetObject"@, "Missing key"@) && failed(
                "NsDeleteObject"@,
                "Missing key"@,
            )
            &&& namespace && key && !server ==> failed("NsGetObject"@, "Missing server_url"@)
                && failed("NsDeleteObject"@, "Missing server_url"@)
            &&& namespace && !server ==> failed("NsListObjects"@, "Missing server_url"@) && failed(
                "NsCreateNamespace"@,
                "Missing server_url"@,
            )
            &&& !server ==> failed("NsListNamespaces"@, "Missing server_url"@)
        }),
{
    lemma_names_of_commands();
}

/// An object is answered with its very bytes, as numbers in order; one that is not there with
/// `null`; and a status that is neither with an error.
pub proof fn lemma_objects_are_answered(
    command: CommandView,
    request: RequestView,
    response: ResponseView,
    bytes: Seq<u8>,
    i: int,
)
    requires
        command.stage == CommandStage::Api(ApiCall::GetObject, request),
        response.body_base64 is None ==> bytes == encode_utf8(response.body),
        (response.body_base64 matches Some(encoded) ==> if encoded.len() == 0 {
            bytes.len() == 0
        } else {
            base64_decoded(encoded) == Ok::<Seq<u8>, Seq<char>>(bytes)
        }),
    ensures
        ({
            let after = command.after(Reply::Response(Ok(response)));
            &&& response.status == 404 ==> after.stage == CommandStage::Over(Ok(Json::Null))
            &&& response.status == 200 ==> (after.stage matches CommandStage::Over(
                Ok(Json::Array(numbers)),
            ) && numbers.len() == bytes.len() && (0 <= i < bytes.len()
                ==> (numbers[i] matches Json::Number(
                JsonNumber::PosInt(n),
            ) && n == bytes[i])))
            &&& response.status != 200 && response.status != 404 ==> after.stage
                == CommandStage::Over(
                Err(
                    if response.body.len() == 0 {
                        "HTTP "@ + decimal(response.status as nat)
                    } else {
                        "HTTP "@ + decimal(response.status as nat) + ": "@ + response.body
                    },
                ),
            )
            &&& after.state == command.state
        }),
{
    lemma_responses_are_read(response);
    lemma_bytes_of_a_response(response);
    if response.body_base64 matches Some(encoded) && encoded.len() == 0 {
        assert(bytes =~= Seq::<u8>::empty());
    }
}

/// Every other call answers the document that the server sends, as it is; a removal answers
/// `null`; and a status that does not mean success is answered with an error.
pub proof fn lemma_calls_are_answered(
    command: CommandView,
    call: ApiCall,
    request: RequestView,
    response: ResponseView,
    document: Json,
    e: Seq<char>,
)
    requires
        command.stage == CommandStage::Api(call, request),
    ensures
        ({
            let after = command.after(Reply::Response(Ok(response)));
            let lost = command.after(Reply::Response(Err(e)));
            let parsed = response.body.len() > 0 && json_parse(response.body) == Ok::<
                Json,
                Seq<char>,
            >(document);
            let unparsed = response.body.len() == 0 || json_parse(response.body) is Err;
            let removal = call is DeleteObject || call is DeleteSession;
            let good = response.status == 200 || (response.status == 201
                && call is CreateNamespace) || (response.status == 204 && removal);
            &&& lost.stage == CommandStage::Over(Err(e))
            &&& good && removal ==> after.stage == CommandStage::Over(Ok(Json::Null))
            &&& good && !removal && !(call is GetObject) && parsed ==> after.stage
                == CommandStage::Over(Ok(document))
            &&& good && !removal && !(call is GetObject) && unparsed ==> after.stage
                == CommandStage::Over(
                Err(
                    if call is CreateNamespace {
                        "Invalid namespace response"@
                    } else {
                        "Invalid response"@
                    },
                ),
            )
            &&& response.status == 404 && call is GetSession ==> after.stage == CommandStage::Over(
                Ok(Json::Null),
            )
            &&& !good && !(response.status == 404 && (call is GetSession || call is GetObject))
                ==> after.stage == CommandStage::Over(
                Err(
                    if response.body.len() == 0 {
                        "HTTP "@ + decimal(response.status as nat)
                    } else {
                        "HTTP "@ + decimal(response.status as nat) + ": "@ + response.body
                    },
                ),
            )
            &&& after.state == command.state
            &&& lost.state == command.state
        }),
{
    lemma_responses_are_read(response);
}

// ---------------------------------------------------------------------------
// Remote workspaces
// ---------------------------------------------------------------------------

/// The workspaces of the server are asked for at `/api/workspaces`; for another provider there
/// are none.
pub proof fn lemma_workspaces_are_asked_for(
    command: CommandView,
    pages: PagesView,
    server: Seq<char>,
)
    ensures
        ({
            let begun = command.begin("ListRemoteWorkspaces"@, pages);
            &&& !is_for_us(command.params) ==> begun.stage == CommandStage::Over(
                Ok(Json::Object(seq![("workspaces"@, Json::Array(Seq::empty()))])),
            )
            &&& is_for_us(command.params) && command.settings.server(command.params) is None
                ==> begun.stage == CommandStage::Over(Err("Missing server_url"@))
            &&& is_for_us(command.params) && command.settings.server(command.params) == Some(server)
                ==> (begun.call() matches Some(Call::Send(request)) && {
                &&& begun.stage is ListRemote
                &&& request.method == "GET"@
                &&& request.url == server + "/api/workspaces"@
                &&& request.body is Empty
            })
            &&& begun.state == command.state
        }),
{
    lemma_names_of_commands();
}

/// The list of the server is taken item by item, in order: an item with an id and a name is
/// listed with these two, and any other is left out.
pub proof fn lemma_listed_workspaces(before: Seq<Json>, item: Json, after: Seq<Json>)
    ensures
        listed_workspaces(before + seq![item] + after) == listed_workspaces(before) + (match (
            item.text("id"@),
            item.text("name"@),
        ) {
            (Some(id), Some(name)) => seq![
                Json::Object(seq![("id"@, Json::Str(id)), ("name"@, Json::Str(name))]),
            ],
            _ => Seq::empty(),
        }) + listed_workspaces(after),
        listed_workspaces(Seq::empty()).len() == 0,
    decreases after.len(),
{
    let items = before + seq![item] + after;
    let one = match (item.text("id"@), item.text("name"@)) {
        (Some(id), Some(name)) => seq![
            Json::Object(seq![("id"@, Json::Str(id)), ("name"@, Json::Str(name))]),
        ],
        _ => Seq::empty(),
    };
    if after.len() == 0 {
        assert(items.drop_last() =~= before);
        assert(items.last() == item);
        assert(listed_workspaces(items) =~= listed_workspaces(before) + one + listed_workspaces(
            after,
        ));
    } else {
        lemma_listed_workspaces(before, item, after.drop_last());
        assert(items.drop_last() =~= before + seq![item] + after.drop_last());
        assert(items.last() == after.last());
        assert(listed_workspaces(items) =~= listed_workspaces(before) + one + listed_workspaces(
            after,
        ));
    }
}

/// The workspaces are answered as they are listed; without a list there are none; and a status
/// other than success, or no response, is an error.
pub proof fn lemma_workspaces_are_answered(
    command: CommandView,
    request: RequestView,
    response: ResponseView,
    items: Seq<Json>,
    e: Seq<char>,
)
    requires
        command.stage == CommandStage::ListRemote(request),
    ensures
        ({
            let after = command.after(Reply::Response(Ok(response)));
            let list = response.body.len() > 0 && json_parse(response.body) == Ok::<
                Json,
                Seq<char>,
            >(Json::Array(items));
            let no_list = response.body.len() == 0 || !(json_parse(response.body) matches Ok(
                Json::Array(_),
            ));
            &&& response.status == 200 && list ==> after.stage == CommandStage::Over(
                Ok(Json::Object(seq![("workspaces"@, Json::Array(listed_workspaces(items)))])),
            )
            &&& response.status == 200 && no_list ==> after.stage == CommandStage::Over(
                Ok(Json::Object(seq![("workspaces"@, Json::Array(Seq::empty()))])),
            )
            &&& response.status != 200 ==> after.stage == CommandStage::Over(
                Err(
                    if response.body.len() == 0 {
                        "HTTP "@ + decimal(response.status as nat)
                    } else {
                        "HTTP "@ + decimal(response.status as nat) + ": "@ + response.body
                    },
                ),
            )
            &&& command.after(Reply::Response(Err(e))).stage == CommandStage::Over(Err(e))
        }),
{
    lemma_responses_are_read(response);
}

} // verus!
