//! Small functions: what they build, copy and look up.

use vstd::prelude::*;
use vstd::string::*;

use crate::commands::remote_workspaces;
use crate::config::{
    command_param_str, runtime_context_string, server_base, server_for, set_config, token_for,
    Settings, SyncExtismConfig,
};
use crate::host_bridge;
use crate::host_fs::{is_dir, list_files, FsRun};
use crate::http::{headers_view, HttpBody, HttpRequest, HttpResponse};
use crate::json;
use crate::json::{
    is_plain, json_parse, json_text, optional_text, texts, Json, JsonNumber, JsonValue,
};
use crate::key_map::{comes_before, precedes, KeyMap};
use crate::laws::listings::lemma_members_are_found;
use crate::laws::operations::are_plain_headers;
use crate::protocol::{command_response, event_parse, read_command, read_event, request_parse};
use crate::server_api::{conclude, new_request, new_upload, object_address, ApiCall};
use crate::state::{
    init_state, is_initialized, namespace_id, with_manifest, workspace_root, PluginState,
};
use crate::sync_engine::cycle::SyncResult;
use crate::sync_engine::fetch::{FetchRun, FetchStep};
use crate::sync_engine::plan::{
    index_server, server_views, LocalFileInfo, ServerEntry, SyncPlan,
};
use crate::sync_engine::pull::PullRun;
use crate::sync_engine::push::PushRun;
use crate::sync_manifest::{FileEntry, FileEntryView, SyncManifest};
use crate::text::{decimal, is_blank, trimmed, trimmed_end_of};

verus! {

// ---------------------------------------------------------------------------
// Documents
// ---------------------------------------------------------------------------

/// Documents are built of what they are given.
pub proof fn lemma_built_documents(
    s: &str,
    n: u64,
    value: JsonValue,
    text: JsonValue,
    number: JsonValue,
    member: (String, JsonValue),
    some: &Option<String>,
    nullable: JsonValue,
)
    requires
        call_ensures(json::string, (s,), text),
        call_ensures(json::unsigned, (n,), number),
        call_ensures(json::member, (s, value), member),
        call_ensures(json::string_or_null, (some,), nullable),
    ensures
        text@ == Json::Str(s@),
        number@ == Json::Number(JsonNumber::PosInt(n)),
        member.0@ == s@,
        member.1@ == value@,
        (*some matches Some(t) ==> nullable@ == Json::Str(t@)),
        *some is None ==> nullable@ is Null,
{
}

/// Lists and objects are built item by item, in order.
pub proof fn lemma_built_lists(
    members: Vec<(String, JsonValue)>,
    items: Vec<JsonValue>,
    strings: &Vec<String>,
    bytes: &Vec<u8>,
    object: JsonValue,
    array: JsonValue,
    words: JsonValue,
    numbers: JsonValue,
    i: int,
)
    requires
        call_ensures(json::object, (members,), object),
        call_ensures(json::array, (items,), array),
        call_ensures(json::strings, (strings,), words),
        call_ensures(json::bytes, (bytes,), numbers),
    ensures
        (object@ matches Json::Object(shown) && shown.len() == members@.len() && (0 <= i
            < members@.len() ==> shown[i] == (members@[i].0@, members@[i].1@))),
        (array@ matches Json::Array(shown) && shown.len() == items@.len() && (0 <= i < items@.len()
            ==> shown[i] == items@[i]@)),
        (words@ matches Json::Array(shown) && shown.len() == strings@.len() && (0 <= i
            < strings@.len() ==> shown[i] == Json::Str(strings@[i]@))),
        (numbers@ matches Json::Array(shown) && shown.len() == bytes@.len() && (0 <= i
            < bytes@.len() ==> (shown[i] matches Json::Number(JsonNumber::PosInt(n)) && n
            == bytes@[i]))),
{
}

/// Texts, items and members are looked up as they are.
pub proof fn lemma_looked_up_documents(
    value: &JsonValue,
    owned: JsonValue,
    key: &str,
    text: Option<&str>,
    items: Option<&Vec<JsonValue>>,
    member: Option<JsonValue>,
    parameter: Option<String>,
)
    requires
        call_ensures(JsonValue::as_str, (value,), text),
        call_ensures(JsonValue::as_array, (value,), items),
        call_ensures(JsonValue::into_member, (owned, key), member),
        call_ensures(command_param_str, (value, key), parameter),
    ensures
        (value@ matches Json::Str(s) ==> (text matches Some(t) && t@ == s)),
        !(value@ is Str) ==> text is None,
        (value@ matches Json::Array(shown) ==> (items matches Some(list) && list@.len()
            == shown.len() && forall|i: int|
            0 <= i < shown.len() ==> (#[trigger] list@[i])@ == shown[i])),
        !(value@ is Array) ==> items is None,
        (owned@.member(key@) matches Some(v) ==> (member matches Some(m) && m@ == v)),
        owned@.member(key@) is None ==> member is None,
        (value@.member(key@) matches Some(Json::Str(s)) ==> (parameter matches Some(p) && p@ == s)),
        value@.text(key@) is None ==> parameter is None,
{
    if let Some(list) = items {
        let shown = crate::json::items_view(list@);
        assert forall|i: int| 0 <= i < shown.len() implies (#[trigger] list@[i])@ == shown[i] by {}
    }
}

/// A text is parsed to the document that it is, and a document is written as its text.
pub proof fn lemma_parsed_texts(
    s: &str,
    parsed: Result<JsonValue, String>,
    value: JsonValue,
    written: String,
)
    requires
        call_ensures(json::parse, (s,), parsed),
        is_plain(value@),
        call_ensures(JsonValue::into_text, (value,), written),
    ensures
        (json_parse(s@) matches Ok(document) ==> (parsed matches Ok(v) && v@ == document)),
        (json_parse(s@) matches Err(e) ==> (parsed matches Err(m) && m@ == e)),
        written@ == json_text(value@),
{
}

/// Responses, results and configurations are written down with all that they hold.
pub proof fn lemma_written_documents(
    response: &HttpResponse,
    result: &SyncResult,
    config: &SyncExtismConfig,
    a: JsonValue,
    b: JsonValue,
    c: JsonValue,
)
    requires
        call_ensures(HttpResponse::to_json, (response,), a),
        call_ensures(SyncResult::to_json, (result,), b),
        call_ensures(SyncExtismConfig::to_json, (config,), c),
    ensures
        (a@.member("status"@) matches Some(Json::Number(JsonNumber::PosInt(n))) && n
            == response.status),
        a@.member("body"@) == Some(Json::Str(response.body@)),
        a@.text("body_base64"@) == optional_text(response.body_base64),
        (b@.member("pushed"@) matches Some(Json::Number(JsonNumber::PosInt(n))) && n
            == result.pushed),
        (b@.member("pulled"@) matches Some(Json::Number(JsonNumber::PosInt(n))) && n
            == result.pulled),
        (b@.member("deleted_remote"@) matches Some(Json::Number(JsonNumber::PosInt(n))) && n
            == result.deleted_remote),
        (b@.member("deleted_local"@) matches Some(Json::Number(JsonNumber::PosInt(n))) && n
            == result.deleted_local),
        c@.text("server_url"@) == optional_text(config.server_url),
        c@.text("auth_token"@) == optional_text(config.auth_token),
        c@.text("workspace_id"@) == optional_text(config.workspace_id),
{
    crate::laws::transfers::lemma_responses_are_read(response@);
    crate::laws::cycles::lemma_results_are_told(result@, 0);
    crate::laws::settings::lemma_configurations_are_told(config@);
    let members = a@->Object_0;
    reveal_strlit("body");
    reveal_strlit("body_base64");
    reveal_strlit("status");
    assert("body"@.len() == 4);
    assert("body_base64"@.len() == 11);
    assert("status"@.len() == 6);
    lemma_members_are_found(members, "body"@, 0);
    if response@.body_base64 is Some {
        lemma_members_are_found(members, "status"@, 2);
    } else {
        lemma_members_are_found(members, "status"@, 1);
    }
}

// ---------------------------------------------------------------------------
// Maps
// ---------------------------------------------------------------------------

/// A map gives what it holds under a key, forgets what is removed, and is ordered by its keys.
pub proof fn lemma_maps(
    map: &KeyMap<FileEntry>,
    key: &str,
    found: Option<&FileEntry>,
    holds: bool,
    changed: &mut KeyMap<FileEntry>,
    a: &str,
    b: &str,
    before: bool,
)
    requires
        call_ensures(KeyMap::<FileEntry>::get, (map, key), found),
        call_ensures(KeyMap::<FileEntry>::contains_key, (map, key), holds),
        call_ensures(KeyMap::<FileEntry>::remove, (changed, key), ()),
        call_ensures(comes_before, (a, b), before),
    ensures
        map@.contains_key(key@) ==> (found matches Some(entry) && entry@ == map@[key@]),
        !map@.contains_key(key@) ==> found is None,
        holds <==> map@.contains_key(key@),
        final(changed)@ == old(changed)@.remove(key@),
        before <==> precedes(a@, b@),
{
}

/// The index of a list of objects leads from a key to the last object with it.
pub proof fn lemma_index_of_objects(
    entries: &[ServerEntry],
    index: KeyMap<usize>,
    key: Seq<char>,
    i: int,
)
    requires
        call_ensures(index_server, (entries,), index),
        0 <= i < entries@.len(),
        entries@[i].key@ == key,
        forall|j: int| i < j < entries@.len() ==> (#[trigger] entries@[j]).key@ != key,
    ensures
        index@.contains_key(key),
        index@[key] < entries@.len(),
        entries@[index@[key] as int]@ == entries@[i]@,
{
    let views = server_views(entries@);
    assert(views[i] == entries@[i]@);
    assert forall|j: int| i < j < views.len() implies (#[trigger] views[j]).key != key by {
        assert(views[j] == entries@[j]@);
    }
    crate::laws::planning::lemma_last_entry_counts(views, key, i);
}

// ---------------------------------------------------------------------------
// Settings and state
// ---------------------------------------------------------------------------

/// A named server or token is taken before all others, and the host's context without the white
/// space around it.
pub proof fn lemma_named_settings(
    url: String,
    token: String,
    settings: &Settings,
    server: Option<String>,
    shown: Option<String>,
    key: &str,
    context: Option<String>,
    input: &str,
    config: &SyncExtismConfig,
    after: Result<SyncExtismConfig, String>,
)
    requires
        call_ensures(server_for, (Some(url), settings), server),
        call_ensures(token_for, (Some(token), settings), shown),
        call_ensures(runtime_context_string, (settings, key), context),
        call_ensures(set_config, (config, input), after),
    ensures
        server matches Some(s) && s@ == server_base(url@),
        shown matches Some(s) && s@ == token@,
        (settings.runtime matches Some(runtime) ==> (runtime@.member(key@) matches Some(
            Json::Str(value),
        ) ==> if is_blank(value) {
            context is None
        } else {
            context matches Some(s) && s@ == trimmed(value)
        })),
        settings.runtime is None ==> context is None,
        (json_parse(input@) matches Ok(incoming) ==> (after matches Ok(c) && c@
            == config@.after_patch(incoming))),
        (json_parse(input@) matches Err(e) ==> (after matches Err(m) && m@ == e)),
{
}

/// The state of the plugin is made of what it is given, and shows what it holds.
pub proof fn lemma_shown_state(
    id: Option<String>,
    root: Option<String>,
    stored: Option<SyncManifest>,
    started: PluginState,
    state: &PluginState,
    held: Option<&SyncManifest>,
    held_root: Option<String>,
    held_id: Option<String>,
    ready: bool,
)
    requires
        call_ensures(init_state, (id, root, stored), started),
        call_ensures(with_manifest, (state,), held),
        call_ensures(workspace_root, (state,), held_root),
        call_ensures(namespace_id, (state,), held_id),
        call_ensures(is_initialized, (state,), ready),
    ensures
        optional_text(started.namespace_id) == optional_text(id),
        optional_text(started.workspace_root) == optional_text(root),
        started.manifest is Some,
        (stored matches Some(m) ==> (optional_text(id) == Some(m.namespace_id@)
            ==> started.manifest->0@ == m@)),
        (state.manifest matches Some(m) ==> (held matches Some(h) && h@ == m@)),
        state.manifest is None ==> held is None,
        optional_text(held_root) == optional_text(state.workspace_root),
        optional_text(held_id) == optional_text(state.namespace_id),
        ready <==> state.manifest is Some,
{
    assert(started@.manifest == crate::state::manifest_view(started.manifest));
}

/// A manifest is new without anything in it, and is loaded only for its own namespace.
pub proof fn lemma_loaded_manifests(
    id: String,
    fresh: SyncManifest,
    name: &str,
    stored: Option<SyncManifest>,
    loaded: SyncManifest,
)
    requires
        call_ensures(SyncManifest::new, (id,), fresh),
        call_ensures(SyncManifest::load, (name, stored), loaded),
    ensures
        fresh.namespace_id@ == id@,
        fresh.files@ == Map::<Seq<char>, FileEntryView>::empty(),
        fresh.last_sync_at is None,
        fresh.pending_deletes@.len() == 0,
        loaded.namespace_id@ == name@,
        (stored matches Some(m) ==> (m.namespace_id@ == name@ ==> loaded@ == m@)),
        (stored is None || stored->0.namespace_id@ != name@) ==> loaded.files@ == Map::<
            Seq<char>,
            FileEntryView,
        >::empty() && loaded.pending_deletes@.len() == 0 && loaded.last_sync_at is None,
{
    assert(fresh@.namespace_id == fresh.namespace_id@);
    assert(fresh@.files == fresh.files@);
    assert(fresh@.pending_deletes.len() == fresh.pending_deletes@.len());
    assert(loaded@.namespace_id == loaded.namespace_id@);
    assert(loaded@.files == loaded.files@);
    assert(loaded@.pending_deletes.len() == loaded.pending_deletes@.len());
    if let Some(m) = stored {
        assert(m@.namespace_id == m.namespace_id@);
    }
}

// ---------------------------------------------------------------------------
// Requests and answers
// ---------------------------------------------------------------------------

/// A request is made of what it is given, and a copy of it is the same.
pub proof fn lemma_made_requests(
    method: &str,
    url: String,
    token: &Option<String>,
    kind: &str,
    body: Vec<u8>,
    bare: HttpRequest,
    upload: HttpRequest,
    copy: HttpRequest,
    server: &str,
    namespace: &str,
    key: &str,
    address: String,
)
    requires
        call_ensures(new_request, (method, url, token), bare),
        call_ensures(new_upload, (url, kind, token, body), upload),
        call_ensures(HttpRequest::copied, (&upload,), copy),
        call_ensures(object_address, (server, namespace, key), address),
    ensures
        bare.method@ == method@,
        bare.url@ == url@,
        bare.body is Empty,
        are_plain_headers(bare.headers@, optional_text(*token)),
        upload.method@ == "PUT"@,
        upload.url@ == url@,
        (upload.body matches HttpBody::Bytes(sent) && sent@ == body@),
        upload.headers@[0].0@ == "Content-Type"@,
        upload.headers@[0].1@ == kind@,
        copy.method@ == upload.method@,
        copy.url@ == upload.url@,
        (copy.body matches HttpBody::Bytes(sent) && sent@ == body@),
        headers_view(copy.headers@) == headers_view(upload.headers@),
        address@ == server@ + "/namespaces/"@ + namespace@ + "/objects/"@ + key@,
{
    crate::laws::models::lemma_requests_are_shown(bare);
    crate::laws::models::lemma_requests_are_shown(upload);
    crate::laws::models::lemma_requests_are_shown(copy);
    let shown = bare@.headers;
    assert(shown.len() >= 1);
    assert(shown[0].0 == bare.headers@[0].0@ && shown[0].1 == bare.headers@[0].1@);
    if shown.len() == 2 {
        assert(shown[1].0 == bare.headers@[1].0@ && shown[1].1 == bare.headers@[1].1@);
    }
    assert(upload@.headers.len() >= 1);
    assert(upload@.headers[0].0 == upload.headers@[0].0@);
    assert(upload@.headers[0].1 == upload.headers@[0].1@);
}

/// A call of the server gives the document that the server sends, `null` for a removal, and else
/// the error.
pub proof fn lemma_concluded_calls(
    call: ApiCall,
    response: HttpResponse,
    document: Json,
    concluded: Result<JsonValue, String>,
    e: String,
    lost: Result<JsonValue, String>,
)
    requires
        call_ensures(conclude, (call, Ok(response)), concluded),
        call_ensures(conclude, (call, Err(e)), lost),
        response.body@.len() > 0,
        json_parse(response.body@) == Ok::<Json, Seq<char>>(document),
    ensures
        lost matches Err(m) && m@ == e@,
        response.status == 200 && !(call is GetObject) && !(call is DeleteObject)
            && !(call is DeleteSession) ==> (concluded matches Ok(value) && value@ == document),
        (response.status == 200 || response.status == 204) && (call is DeleteObject
            || call is DeleteSession) ==> (concluded matches Ok(value) && value@ is Null),
        response.status >= 300 && response.status != 404 ==> (concluded matches Err(m) && m@
            == "HTTP "@ + decimal(response.status as nat) + ": "@ + response.body@),
{
    crate::laws::transfers::lemma_responses_are_read(response@);
}

/// The listed workspaces of a response are those of its list.
pub proof fn lemma_remote_workspaces(
    response: &JsonValue,
    status: u64,
    body: Seq<char>,
    items: Seq<Json>,
    r: Result<JsonValue, String>,
)
    requires
        response@.member("status"@) == Some(Json::Number(JsonNumber::PosInt(status))),
        response@.member("body"@) == Some(Json::Str(body)),
        body.len() > 0,
        json_parse(body) == Ok::<Json, Seq<char>>(Json::Array(items)),
        call_ensures(remote_workspaces, (response,), r),
    ensures
        status == 200 ==> (r matches Ok(value) && value@ == Json::Object(
            seq![("workspaces"@, Json::Array(crate::commands::listed_workspaces(items)))],
        )),
        status != 200 ==> (r matches Err(m) && m@ == "HTTP "@ + decimal(status as nat) + ": "@
            + body),
{
}

/// Commands and events are read as the parser reads them, and a result is written whole.
pub proof fn lemma_read_and_written_commands(
    input: &str,
    command: Result<(String, JsonValue), String>,
    event: Result<(String, JsonValue), String>,
    data: JsonValue,
    written: Result<String, String>,
)
    requires
        call_ensures(read_command, (input,), command),
        call_ensures(read_event, (input,), event),
        is_plain(data@),
        call_ensures(command_response, (Ok(data),), written),
    ensures
        (request_parse(input@) matches Ok(pair) ==> (command matches Ok(read) && read.0@ == pair.0
            && read.1@ == pair.1)),
        (request_parse(input@) matches Err(e) ==> (command matches Err(m) && m@ == e)),
        (event_parse(input@) matches Ok(pair) ==> (event matches Ok(read) && read.0@ == pair.0
            && read.1@ == pair.1)),
        (event_parse(input@) matches Err(e) ==> (event matches Err(m) && m@ == e)),
        written matches Ok(text) && text@ == "{\"success\":true,\"data\":"@ + json_text(data@)
            + ",\"error\":null}"@,
{
}

/// What the host answers to a request is the document that its text holds.
pub proof fn lemma_host_answers(
    text: String,
    e: String,
    answered: Result<JsonValue, String>,
    lost: Result<JsonValue, String>,
    socket: Result<String, String>,
    stored: Result<(), String>,
    emitted: Result<(), String>,
)
    requires
        call_ensures(host_bridge::http_request_reply, (Ok(text),), answered),
        call_ensures(host_bridge::http_request_reply, (Err(e),), lost),
        call_ensures(host_bridge::ws_request, (Ok(text),), socket),
        call_ensures(host_bridge::storage_set_reply, (Err(e),), stored),
        call_ensures(host_bridge::emit_event_reply, (Err(e),), emitted),
    ensures
        (json_parse(text@) matches Ok(document) ==> (answered matches Ok(value) && value@
            == document)),
        (json_parse(text@) matches Err(problem) ==> (answered matches Err(m) && m@
            == "Failed to parse host_http_request: "@ + problem)),
        lost matches Err(m) && m@ == "host_http_request"@ + " failed: "@ + e@,
        socket matches Ok(s) && s@ == text@,
        stored matches Err(m) && m@ == "host_storage_set"@ + " failed: "@ + e@,
        emitted matches Err(m) && m@ == "host_emit_event"@ + " failed: "@ + e@,
{
}

// ---------------------------------------------------------------------------
// Runs
// ---------------------------------------------------------------------------

/// A run begins with what it is given.
pub proof fn lemma_begun_runs(
    server: String,
    token: Option<String>,
    namespace: &str,
    name: String,
    root: &str,
    plan: &SyncPlan,
    local: KeyMap<LocalFileInfo>,
    entries: Vec<ServerEntry>,
    manifest: SyncManifest,
    fetch: FetchRun,
    push: PushRun,
    pull: PullRun,
)
    requires
        call_ensures(FetchRun::new, (server, name, token), fetch),
        call_ensures(
            PushRun::begin,
            (Some(server), token, namespace, root, plan, local, manifest),
            push,
        ),
        call_ensures(
            PullRun::begin,
            (Some(server), token, namespace, root, plan, entries, manifest),
            pull,
        ),
    ensures
        fetch@.server == server@,
        fetch@.namespace_id == name@,
        fetch@.token == optional_text(token),
        fetch@.step == FetchStep::Page(0),
        push@.server == server@,
        push@.namespace_id == namespace@,
        push@.token == optional_text(token),
        push@.todo == texts(plan.push@),
        push@.removals == texts(plan.delete_remote@),
        push@.local == local@,
        push@.manifest.files == manifest.files@,
        pull@.server == server@,
        pull@.namespace_id == namespace@,
        pull@.token == optional_text(token),
        pull@.todo == texts(plan.pull@),
        pull@.deletions == texts(plan.delete_local@),
        pull@.entries == server_views(entries@),
        pull@.manifest == manifest@,
{
}

/// Files are listed below the directory that is named, and a directory is asked for by its path
/// without the slashes at its end.
pub proof fn lemma_begun_file_runs(
    dir: &str,
    has_extension: bool,
    listing: FsRun,
    asking: FsRun,
    list: Option<crate::host::HostCall>,
    ask: Option<crate::host::HostCall>,
)
    requires
        call_ensures(list_files, (dir,), listing),
        call_ensures(is_dir, (dir, has_extension), asking),
        call_ensures(FsRun::call, (&listing,), list),
        call_ensures(FsRun::call, (&asking,), ask),
    ensures
        list matches Some(crate::host::HostCall::ListFiles(path)) && path@ == dir@,
        ({
            let name = trimmed_end_of(dir@, '/');
            &&& name.len() == 0 || name == "."@ ==> ask is None
            &&& name.len() > 0 && name != "."@ ==> (ask matches Some(
                crate::host::HostCall::FileExists(path),
            ) && path@ == name)
        }),
{
}

} // verus!
