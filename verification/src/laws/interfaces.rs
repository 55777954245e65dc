//! Interfaces: what runs show of themselves, and what passes between the plugin and its host.

use vstd::prelude::*;
use vstd::string::*;
use vstd::utf8::*;

use crate::codec::{base64_decoded, base64_encoded};
use crate::commands::{
    execute_command, find_command, get_component_html_by_id, handle_ns_create_namespace,
    handle_ns_delete_object, handle_ns_get_object, handle_ns_list_objects, handle_ns_put_object,
    object_body, Command, CommandRun, CommandStage, CommandView, Pages,
};
use crate::config::{Settings, SyncExtismConfig};
use crate::host::{call_view, HostCall, HostReply};
use crate::host_bridge;
use crate::host_fs::{create_new, list_md_files, move_file, FsOutcome, FsRun};
use crate::http::{HttpBody, HttpRequest};
use crate::json::{json_parse, json_text, optional_text, texts, Json, JsonNumber, JsonValue};
use crate::key_map::KeyMap;
use crate::manifest::{build_manifest, manifest, PluginManifest};
use crate::protocol::{command_response, read_typed_command, typed_response};
use crate::state::PluginState;
use crate::status::{handle_get_provider_status, sync_status_from_state};
use crate::sync_engine::cycle::{start_cycle, sync, StageView, SyncMode, SyncResult, SyncRun};
use crate::sync_engine::fetch::{fetch_server_manifest, FetchRun, FetchStep};
use crate::sync_engine::paths::root_prefix;
use crate::sync_engine::plan::{LocalFileInfo, ServerEntry, SyncPlan};
use crate::sync_engine::pull::{execute_pull, PullRun};
use crate::sync_engine::push::{execute_push, PushRun};
use crate::sync_engine::scan::{scan_local, ScanRun};
use crate::sync_manifest::{SyncManifest, SyncState};
use crate::text::{is_blank, trimmed};

verus! {

// ---------------------------------------------------------------------------
// Runs
// ---------------------------------------------------------------------------

/// A scan of a root asks for its files first, is over exactly if it asks for nothing more, and
/// gives what it found.
pub proof fn lemma_scan_runs(
    root: &str,
    run: ScanRun,
    first: Option<HostCall>,
    other: ScanRun,
    reply: HostReply,
    next: ScanRun,
    call: Option<HostCall>,
    over: bool,
    found: KeyMap<LocalFileInfo>,
)
    requires
        call_ensures(scan_local, (root,), run),
        call_ensures(ScanRun::call, (&run,), first),
        call_ensures(ScanRun::step, (other, reply), next),
        call_ensures(ScanRun::call, (&next,), call),
        call_ensures(ScanRun::is_over, (&next,), over),
        call_ensures(ScanRun::into_found, (next,), found),
    ensures
        first matches Some(HostCall::ListFiles(path)) && path@ == root@,
        next@ == other@.after(reply@),
        call_view(call) == next@.call(),
        over <==> call is None,
        found@ == next@.found,
{
}

/// A fetch asks for the first page of the namespace, of the server that counts, and is over
/// exactly if it asks for nothing more; without a server there is none.
pub proof fn lemma_fetch_runs(
    params: &JsonValue,
    settings: &Settings,
    namespace: &str,
    begun: Result<FetchRun, String>,
    other: FetchRun,
    reply: HostReply,
    next: FetchRun,
    call: Option<HostCall>,
    over: bool,
)
    requires
        call_ensures(fetch_server_manifest, (params, settings, namespace), begun),
        call_ensures(FetchRun::step, (other, reply), next),
        call_ensures(FetchRun::call, (&next,), call),
        call_ensures(FetchRun::is_over, (&next,), over),
    ensures
        match begun {
            Ok(run) => {
                &&& settings@.server(params@) == Some(run@.server)
                &&& run@.token == settings@.token(params@)
                &&& run@.namespace_id == namespace@
                &&& run@.step == FetchStep::Page(0)
                &&& run@.entries.len() == 0
            },
            Err(e) => settings@.server(params@) is None && e@ == "Missing server_url"@,
        },
        next@ == other@.after(reply@),
        call_view(call) == next@.call(),
        over <==> call is None,
{
}

/// A push works off the plan for the namespace below the root, from the manifest and with what the
/// scan found; it is over exactly if it asks for nothing more, and tells what it did.
pub proof fn lemma_push_runs(
    params: &JsonValue,
    settings: &Settings,
    namespace: &str,
    root: &str,
    plan: &SyncPlan,
    local: KeyMap<LocalFileInfo>,
    manifest: SyncManifest,
    run: PushRun,
    other: PushRun,
    reply: HostReply,
    next: PushRun,
    call: Option<HostCall>,
    over: bool,
    result: (usize, Vec<String>, SyncManifest, KeyMap<LocalFileInfo>),
)
    requires
        call_ensures(
            execute_push,
            (params, settings, namespace, root, plan, local, manifest),
            run,
        ),
        call_ensures(PushRun::step, (other, reply), next),
        call_ensures(PushRun::call, (&next,), call),
        call_ensures(PushRun::is_over, (&next,), over),
        call_ensures(PushRun::into_result, (next,), result),
    ensures
        run@.namespace_id == namespace@,
        run@.prefix == root_prefix(root@),
        run@.token == settings@.token(params@),
        run@.local == local@,
        run@.manifest.files == manifest.files@,
        run@.pushed == 0,
        (settings@.server(params@) matches Some(server) ==> run@.server == server && run@.todo
            == texts(plan.push@) && run@.removals == texts(plan.delete_remote@)
            && run@.errors.len() == 0),
        settings@.server(params@) is None ==> run@.call() is None && run@.errors
            == seq!["Missing server_url"@],
        next@ == other@.after(reply@),
        call_view(call) == next@.call(),
        over <==> call is None,
        result.0 == next@.pushed,
        texts(result.1@) == next@.errors,
        result.2@ == next@.manifest,
        result.3@ == next@.local,
{
    crate::laws::transfers::lemma_pushes_set_out(
        settings@.server(params@),
        settings@.token(params@),
        namespace@,
        root@,
        plan@,
        local@,
        manifest@,
    );
}

/// A pull works off the plan for the namespace below the root, from the manifest and with what the
/// server told; it is over exactly if it asks for nothing more, and tells what it did.
pub proof fn lemma_pull_runs(
    params: &JsonValue,
    settings: &Settings,
    namespace: &str,
    root: &str,
    plan: &SyncPlan,
    entries: Vec<ServerEntry>,
    manifest: SyncManifest,
    run: PullRun,
    other: PullRun,
    reply: HostReply,
    next: PullRun,
    call: Option<HostCall>,
    over: bool,
    result: (usize, Vec<String>, SyncManifest),
)
    requires
        call_ensures(
            execute_pull,
            (params, settings, namespace, root, plan, entries, manifest),
            run,
        ),
        call_ensures(PullRun::step, (other, reply), next),
        call_ensures(PullRun::call, (&next,), call),
        call_ensures(PullRun::is_over, (&next,), over),
        call_ensures(PullRun::into_result, (next,), result),
    ensures
        run@.namespace_id == namespace@,
        run@.prefix == root_prefix(root@),
        run@.token == settings@.token(params@),
        run@.entries == crate::sync_engine::plan::server_views(entries@),
        run@.manifest == manifest@,
        run@.pulled == 0,
        (settings@.server(params@) matches Some(server) ==> run@.server == server && run@.todo
            == texts(plan.pull@) && run@.deletions == texts(plan.delete_local@)
            && run@.errors.len() == 0),
        settings@.server(params@) is None ==> run@.call() is None && run@.errors
            == seq!["Missing server_url"@],
        next@ == other@.after(reply@),
        call_view(call) == next@.call(),
        over <==> call is None,
        result.0 == next@.pulled,
        texts(result.1@) == next@.errors,
        result.2@ == next@.manifest,
{
    crate::laws::transfers::lemma_pulls_set_out(
        settings@.server(params@),
        settings@.token(params@),
        namespace@,
        root@,
        plan@,
        crate::sync_engine::plan::server_views(entries@),
        manifest@,
    );
    match next@.step {
        crate::sync_engine::pull::PullStep::Mark(_) => {},
        crate::sync_engine::pull::PullStep::Unmark(_) => {},
        _ => {},
    }
}

/// A cycle lists the files below the root first, goes the way that it is started for, and when it
/// is over gives its manifest with its result.
pub proof fn lemma_cycle_runs(
    mode: SyncMode,
    params: &JsonValue,
    namespace: &str,
    root: &str,
    manifest: SyncManifest,
    run: SyncRun,
    full: SyncRun,
    first: Option<HostCall>,
    other: SyncRun,
    reply: HostReply,
    next: SyncRun,
    call: Option<HostCall>,
    over: bool,
    result: Option<(Result<SyncResult, String>, SyncManifest)>,
)
    requires
        call_ensures(start_cycle, (mode, params, namespace, root, manifest), run),
        call_ensures(sync, (params, namespace, root, manifest), full),
        call_ensures(SyncRun::call, (&run,), first),
        call_ensures(SyncRun::step, (other, reply), next),
        call_ensures(SyncRun::call, (&next,), call),
        call_ensures(SyncRun::is_over, (&next,), over),
        call_ensures(SyncRun::into_result, (next,), result),
    ensures
        first matches Some(HostCall::ListFiles(path)) && path@ == root@,
        run@.job.mode == mode,
        run@.job.namespace_id == namespace@,
        run@.job.root == root@,
        run@.job.server_url == params@.text("server_url"@),
        run@.job.auth_token == params@.text("auth_token"@),
        (run@.stage matches StageView::Scan(_, held) && held == manifest@),
        full@.job.mode is Full,
        full@.job.namespace_id == namespace@,
        full@.job.root == root@,
        next@ == other@.after(reply@),
        call_view(call) == next@.call(),
        over <==> next@.stage is Over,
        result is Some <==> over,
        (next@.stage matches StageView::Over(held, Ok(told)) ==> (result matches Some(
            (Ok(r), m),
        ) && m@ == held && r.pushed == told.pushed && r.pulled == told.pulled && r.deleted_remote
            == told.deleted_remote && r.deleted_local == told.deleted_local && texts(r.errors@)
            == told.errors)),
        (next@.stage matches StageView::Over(held, Err(e)) ==> (result matches Some(
            (Err(message), m),
        ) && m@ == held && message@ == e)),
{
}

/// A command begins with what it is given, is over exactly if it has a result, and gives back the
/// state of the plugin.
pub proof fn lemma_command_runs(
    name: &str,
    params: JsonValue,
    settings: Settings,
    state: PluginState,
    pages: &Pages,
    run: CommandRun,
    other: CommandRun,
    reply: HostReply,
    next: CommandRun,
    call: Option<HostCall>,
    over: bool,
    result: (Option<Result<JsonValue, String>>, PluginState),
)
    requires
        call_ensures(execute_command, (name, params, settings, state, pages), run),
        call_ensures(CommandRun::step, (other, reply), next),
        call_ensures(CommandRun::call, (&next,), call),
        call_ensures(CommandRun::is_over, (&next,), over),
        call_ensures(CommandRun::into_result, (next,), result),
    ensures
        run@.params == params@,
        run@.settings == settings@,
        run@.state.workspace_root == optional_text(state.workspace_root),
        run@.state.namespace_id == optional_text(state.namespace_id),
        next@ == other@.after(reply@),
        call_view(call) == next@.call(),
        over <==> result.0 is Some,
        result.1@ == next@.state,
        (next@.stage matches CommandStage::Over(Ok(answer)) ==> (result.0 matches Some(Ok(value))
            && value@ == answer)),
        (next@.stage matches CommandStage::Over(Err(e)) ==> (result.0 matches Some(Err(message))
            && message@ == e)),
{
    let begun = CommandView {
        state: state@,
        settings: settings@,
        params: params@,
        stage: CommandStage::Over(Ok(Json::Null)),
    };
    assert(run@ == begun.begin(name@, pages@));
}

/// An operation on files asks first whether there is a file, or for the files.
pub proof fn lemma_file_runs(
    path: &str,
    content: &str,
    to: &str,
    created: FsRun,
    moved: FsRun,
    listed: FsRun,
    check: Option<HostCall>,
    source: Option<HostCall>,
    list: Option<HostCall>,
    other: FsRun,
    reply: HostReply,
    next: FsRun,
    call: Option<HostCall>,
    over: bool,
    outcome: Option<FsOutcome>,
)
    requires
        call_ensures(create_new, (path, content), created),
        call_ensures(move_file, (path, to), moved),
        call_ensures(list_md_files, (path,), listed),
        call_ensures(FsRun::call, (&created,), check),
        call_ensures(FsRun::call, (&moved,), source),
        call_ensures(FsRun::call, (&listed,), list),
        call_ensures(FsRun::step, (other, reply), next),
        call_ensures(FsRun::call, (&next,), call),
        call_ensures(FsRun::is_over, (&next,), over),
        call_ensures(FsRun::into_outcome, (next,), outcome),
    ensures
        check matches Some(HostCall::FileExists(p)) && p@ == path@,
        source matches Some(HostCall::FileExists(p)) && p@ == path@,
        list matches Some(HostCall::ListFiles(p)) && p@ == path@,
        next@ == other@.after(reply@),
        call_view(call) == next@.call(),
        over <==> call is None,
        over <==> outcome is Some,
{
}

// ---------------------------------------------------------------------------
// The host
// ---------------------------------------------------------------------------

/// What is written through the host is passed on whole: a text as it is, and bytes as base64 that
/// stands for exactly these bytes.
pub proof fn lemma_written_content(
    path: &str,
    text: &str,
    bytes: &[u8],
    key: &str,
    written: String,
    binary: String,
    stored: String,
)
    requires
        call_ensures(host_bridge::write_file, (path, text), written),
        call_ensures(host_bridge::write_binary, (path, bytes), binary),
        call_ensures(host_bridge::storage_set, (key, bytes), stored),
    ensures
        written@ == json_text(
            Json::Object(seq![("content"@, Json::Str(text@)), ("path"@, Json::Str(path@))]),
        ),
        binary@ == json_text(
            Json::Object(
                seq![
                    ("content"@, Json::Str(base64_encoded(bytes@))),
                    ("path"@, Json::Str(path@)),
                ],
            ),
        ),
        stored@ == json_text(
            Json::Object(
                seq![("data"@, Json::Str(base64_encoded(bytes@))), ("key"@, Json::Str(key@))],
            ),
        ),
        base64_decoded(base64_encoded(bytes@)) == Ok::<Seq<u8>, Seq<char>>(bytes@),
{
}

/// What is asked of the host names the file, the directory or the key that is meant.
pub proof fn lemma_named_files(
    path: &str,
    key: &str,
    level: &str,
    message: &str,
    event: &str,
    read: String,
    listed: String,
    exists_input: String,
    deleted: String,
    got: String,
    logged: String,
    emitted: String,
)
    requires
        call_ensures(host_bridge::read_file, (path,), read),
        call_ensures(host_bridge::list_files, (path,), listed),
        call_ensures(host_bridge::file_exists, (path,), exists_input),
        call_ensures(host_bridge::delete_file, (path,), deleted),
        call_ensures(host_bridge::storage_get, (key,), got),
        call_ensures(host_bridge::log_message, (level, message), logged),
        call_ensures(host_bridge::emit_event, (event,), emitted),
    ensures
        read@ == json_text(Json::Object(seq![("path"@, Json::Str(path@))])),
        listed@ == json_text(Json::Object(seq![("prefix"@, Json::Str(path@))])),
        exists_input@ == json_text(Json::Object(seq![("path"@, Json::Str(path@))])),
        deleted@ == json_text(Json::Object(seq![("path"@, Json::Str(path@))])),
        got@ == json_text(Json::Object(seq![("key"@, Json::Str(key@))])),
        logged@ == json_text(
            Json::Object(seq![("level"@, Json::Str(level@)), ("message"@, Json::Str(message@))]),
        ),
        emitted@ == event@,
{
}

/// What the host gives for a file is taken whole, and what it fails with is told with the name of
/// the function.
pub proof fn lemma_replies_of_the_host(
    text: String,
    e: String,
    read: Result<String, String>,
    unread: Result<String, String>,
    written: Result<(), String>,
    unwritten: Result<(), String>,
    unlisted: Result<Vec<String>, String>,
    unknown: Result<bool, String>,
    undeleted: Result<(), String>,
    lost: Result<(), String>,
)
    requires
        call_ensures(host_bridge::read_file_reply, (Ok(text),), read),
        call_ensures(host_bridge::read_file_reply, (Err(e),), unread),
        call_ensures(host_bridge::write_file_reply, (Ok(text),), written),
        call_ensures(host_bridge::write_file_reply, (Err(e),), unwritten),
        call_ensures(host_bridge::list_files_reply, (Err(e),), unlisted),
        call_ensures(host_bridge::file_exists_reply, (Err(e),), unknown),
        call_ensures(host_bridge::delete_file_reply, (Err(e),), undeleted),
        call_ensures(host_bridge::write_binary_reply, (Err(e),), lost),
    ensures
        read matches Ok(content) && content@ == text@,
        unread matches Err(m) && m@ == "host_read_file"@ + " failed: "@ + e@,
        written is Ok,
        unwritten matches Err(m) && m@ == "host_write_file"@ + " failed: "@ + e@,
        unlisted matches Err(m) && m@ == "host_list_files"@ + " failed: "@ + e@,
        unknown matches Err(m) && m@ == "host_file_exists"@ + " failed: "@ + e@,
        undeleted matches Err(m) && m@ == "host_delete_file"@ + " failed: "@ + e@,
        lost matches Err(m) && m@ == "host_write_binary"@ + " failed: "@ + e@,
{
}

/// A time that the host gives as digits is read as the number that they write, over the whole
/// range.
pub proof fn lemma_times_of_the_host(
    text: String,
    n: u64,
    read: Result<u64, String>,
    e: String,
    unread: Result<u64, String>,
)
    requires
        trimmed(text@) == crate::text::decimal(n as nat),
        call_ensures(host_bridge::get_timestamp, (Ok(text),), read),
        call_ensures(host_bridge::get_timestamp, (Err(e),), unread),
    ensures
        read == Ok::<u64, String>(n),
        unread matches Err(m) && m@ == "host_get_timestamp"@ + " failed: "@ + e@,
{
    crate::host_bridge::lemma_number_roundtrip(n as nat);
}

/// What storage answers in an object is the bytes that its `data` stands for.
pub proof fn lemma_stored_content(
    text: String,
    value: Json,
    data: Seq<char>,
    bytes: Seq<u8>,
    read: Result<Option<Vec<u8>>, String>,
    e: String,
    unread: Result<Option<Vec<u8>>, String>,
)
    requires
        text@.len() > 0,
        json_parse(text@) == Ok::<Json, Seq<char>>(value),
        value.member("data"@) == Some(Json::Str(data)),
        data.len() > 0,
        base64_decoded(data) == Ok::<Seq<u8>, Seq<char>>(bytes),
        call_ensures(host_bridge::storage_get_reply, (Ok(text),), read),
        call_ensures(host_bridge::storage_get_reply, (Err(e),), unread),
    ensures
        read matches Ok(Some(content)) && content@ == bytes,
        unread matches Err(m) && m@ == "host_storage_get"@ + " failed: "@ + e@,
{
}

// ---------------------------------------------------------------------------
// Commands
// ---------------------------------------------------------------------------

/// The bytes that a command stores are those that it is given: what its base64 stands for, or else
/// the UTF-8 of its text.
pub proof fn lemma_given_bodies(params: &JsonValue, r: Result<Vec<u8>, String>)
    requires
        call_ensures(object_body, (params,), r),
    ensures
        (params@.member("body_base64"@) matches Some(Json::Str(encoded)) ==> match base64_decoded(
            encoded,
        ) {
            Ok(bytes) => r matches Ok(b) && b@ == bytes,
            Err(e) => r matches Err(m) && m@ == "Invalid base64: "@ + e,
        }),
        params@.text("body_base64"@) is None ==> (params@.member("body"@) matches Some(
            Json::Str(text),
        ) ==> (r matches Ok(b) && b@ == encode_utf8(text))),
        params@.text("body_base64"@) is None && params@.text("body"@) is None ==> (r matches Err(m)
            && m@ == "Missing body or body_base64"@),
{
}

/// The request that a command makes for an object is the one for the namespace and the key that it
/// names.
pub proof fn lemma_handled_objects(
    params: &JsonValue,
    settings: &Settings,
    namespace: Seq<char>,
    key: Seq<char>,
    server: Seq<char>,
    put: Result<HttpRequest, String>,
    got: Result<HttpRequest, String>,
    deleted: Result<HttpRequest, String>,
    listed: Result<HttpRequest, String>,
    created: Result<HttpRequest, String>,
)
    requires
        params@.member("namespace_id"@) == Some(Json::Str(namespace)),
        params@.member("key"@) == Some(Json::Str(key)),
        settings@.server(params@) == Some(server),
        call_ensures(handle_ns_put_object, (params, settings), put),
        call_ensures(handle_ns_get_object, (params, settings), got),
        call_ensures(handle_ns_delete_object, (params, settings), deleted),
        call_ensures(handle_ns_list_objects, (params, settings), listed),
        call_ensures(handle_ns_create_namespace, (params, settings), created),
    ensures
        ({
            let objects = server + "/namespaces/"@ + namespace + "/objects"@;
            let object = server + "/namespaces/"@ + namespace + "/objects/"@ + key;
            &&& params@.text("body_base64"@) is None ==> (params@.member("body"@) matches Some(
                Json::Str(text),
            ) ==> (put matches Ok(request) && request.method@ == "PUT"@ && request.url@ == object
                && (request.body matches HttpBody::Bytes(b) && b@ == encode_utf8(text))))
            &&& (params@.member("body_base64"@) matches Some(Json::Str(encoded)) ==> (
            base64_decoded(encoded) matches Ok(bytes) ==> (put matches Ok(request)
                && request.method@ == "PUT"@ && request.url@ == object && (
            request.body matches HttpBody::Bytes(b) && b@ == bytes))))
            &&& (got matches Ok(request) && request.method@ == "GET"@ && request.url@ == object
                && request.body is Empty)
            &&& (deleted matches Ok(request) && request.method@ == "DELETE"@ && request.url@
                == object && request.body is Empty)
            &&& (listed matches Ok(request) && request.method@ == "GET"@ && request.url@ == objects
                && request.body is Empty)
            &&& (created matches Ok(request) && request.method@ == "POST"@ && request.url@ == server
                + "/namespaces"@ && (request.body matches HttpBody::Text(body) && body@
                == json_text(Json::Object(seq![("id"@, Json::Str(namespace))]))))
        }),
{
}

/// The page of a component is the one that there is for it, whole.
pub proof fn lemma_pages_by_name(
    id: &str,
    pages: &Pages,
    page: Option<&str>,
    name: &str,
    command: Option<Command>,
)
    requires
        call_ensures(get_component_html_by_id, (id, pages), page),
        call_ensures(find_command, (name,), command),
    ensures
        id@ == "sync.snapshots"@ ==> (page matches Some(p) && p@ == pages.snapshots@),
        id@ == "sync.history"@ ==> (page matches Some(p) && p@ == pages.history@),
        id@ != "sync.snapshots"@ && id@ != "sync.history"@ ==> page is None,
        name@ == "LinkWorkspace"@ ==> command == Some(Command::LinkWorkspace),
        name@ == "UnlinkWorkspace"@ ==> command == Some(Command::UnlinkWorkspace),
        name@ == "Sync"@ || name@ == "sync"@ ==> command == Some(Command::Sync),
        name@ == "SyncPush"@ || name@ == "sync_push"@ ==> command == Some(Command::SyncPush),
        name@ == "SyncPull"@ || name@ == "sync_pull"@ ==> command == Some(Command::SyncPull),
{
    crate::laws::commanding::lemma_names_of_commands();
    reveal_strlit("sync.snapshots");
    reveal_strlit("sync.history");
    assert("sync.snapshots"@.len() != "sync.history"@.len());
}

/// The status tells of every change that is known, and the provider is ready with a server and a
/// token.
pub proof fn lemma_told_status(
    config: &SyncExtismConfig,
    state: &PluginState,
    status: JsonValue,
    params: &JsonValue,
    settings: &Settings,
    readiness: JsonValue,
)
    requires
        call_ensures(sync_status_from_state, (config, state), status),
        call_ensures(handle_get_provider_status, (params, settings), readiness),
        (state.manifest matches Some(m) && m@.in_state(SyncState::Dirty).len() <= u64::MAX
            && m@.in_state(SyncState::Clean).len() <= u64::MAX && m@.pending_deletes.len()
            <= u64::MAX),
    ensures
        ({
            let m = state.manifest->0;
            let dirty = m@.in_state(SyncState::Dirty).len();
            &&& (status@.member("dirty_count"@) matches Some(Json::Number(JsonNumber::PosInt(n)))
                && n == dirty)
            &&& (status@.member("clean_count"@) matches Some(Json::Number(JsonNumber::PosInt(n)))
                && n == m@.in_state(SyncState::Clean).len())
            &&& (status@.member("pending_deletes"@) matches Some(
                Json::Number(JsonNumber::PosInt(n)),
            ) && n == m.pending_deletes@.len())
            &&& (m.last_sync_at matches Some(t) ==> status@.member("last_sync_at"@) == Some(
                Json::Number(JsonNumber::PosInt(t)),
            ))
            &&& (readiness@.member("ready"@) matches Some(Json::Bool(ready)) && (ready
                <==> crate::config::is_for_us(params@) && settings@.server(params@) is Some
                && !is_blank(settings@.server(params@)->0) && settings@.token(params@) is Some
                && !is_blank(settings@.token(params@)->0)))
        }),
{
    crate::laws::settings::lemma_status_tells(config@, state.manifest->0@);
    crate::laws::settings::lemma_readiness(params@, settings@);
}

/// A typed command is read and answered as it is.
pub proof fn lemma_typed_texts(
    input: &str,
    parsed: Json,
    command: Seq<char>,
    params: Json,
    read: Result<(String, JsonValue), String>,
    data: JsonValue,
    answered: Result<String, String>,
    e: String,
    refused: Result<String, String>,
    failed: Result<String, String>,
)
    requires
        json_parse(input@) == Ok::<Json, Seq<char>>(parsed),
        parsed.member("type"@) == Some(Json::Str(command)),
        parsed.member("params"@) == Some(params),
        call_ensures(read_typed_command, (input,), read),
        crate::json::is_plain(data@),
        call_ensures(typed_response, (Ok(data),), answered),
        !"Unknown command:"@.is_prefix_of(e@),
        call_ensures(typed_response, (Err(e),), refused),
        call_ensures(command_response, (Err(e),), failed),
    ensures
        read matches Ok(pair) && pair.0@ == command && pair.1@ == params,
        answered matches Ok(text) && text@ == json_text(
            Json::Object(seq![("data"@, data@), ("type"@, Json::Str("PluginResult"@))]),
        ),
        refused matches Err(message) && message@ == e@,
        failed matches Ok(text) && text@ == "{\"success\":false,\"data\":null,\"error\":"@
            + json_text(Json::Str(e@)) + "}"@,
{
}

/// The plugin tells its version as it is given.
pub proof fn lemma_told_version(
    version: &str,
    built: PluginManifest,
    text: Result<String, String>,
)
    requires
        call_ensures(build_manifest, (version,), built),
        call_ensures(manifest, (version,), text),
    ensures
        built.version@ == version@,
        built.id@ == "diaryx.sync"@,
        (text matches Ok(s) && (json_parse(s@) matches Ok(Json::Object(members))
            && members.contains(("version"@, Json::Str(version@))) && members.contains(
            ("id"@, Json::Str("diaryx.sync"@)),
        ))),
{
    crate::laws::hosting::lemma_manifests_are_written(
        crate::manifest::plugin_manifest(version@),
        0,
    );
    assert(built@.version == built.version@);
    assert(built@.id == built.id@);
}

} // verus!
