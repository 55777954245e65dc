//! Operations: what the functions give for what they are given, whatever they are made of.

use vstd::prelude::*;
use vstd::string::*;
use vstd::utf8::*;

use crate::binary_protocol::{
    decode_actions, decoded_views, encode_actions, fits, session_views, DecodedAction,
    SessionAction,
};
use crate::codec::{base64_decoded, utf8_lossy};
use crate::commands::{execute_command, CommandRun, CommandStage, Pages};
use crate::config::{is_for_us, Settings};
use crate::host::{HostCall, HostReply};
use crate::http::{HttpBody, HttpRequest, HttpResponse};
use crate::json::{json_parse, json_text, Json, JsonNumber, JsonValue};
use crate::key_map::KeyMap;
use crate::server_api::{
    create_namespace, create_session, delete_object, delete_session, get_object, get_session,
    list_namespaces, list_objects, object_bytes, put_object,
};
use crate::state::PluginState;
use crate::sync_engine::fetch::FetchRun;
use crate::sync_engine::paths::content_type;
use crate::sync_engine::plan::{compute_diff, LocalFileInfo, ServerEntry, SyncPlan};
use crate::sync_engine::pull::PullRun;
use crate::sync_engine::push::PushRun;
use crate::sync_manifest::{SyncManifest, SyncState};
use crate::text::{decimal, is_blank};

verus! {

// ---------------------------------------------------------------------------
// Planning
// ---------------------------------------------------------------------------

/// `compute_diff` plans a file that was changed here and not on the server to be pushed, and
/// neither pulled nor deleted; and one that was changed on the server and not here to be pulled,
/// and neither pushed nor deleted; whatever the times are.
pub proof fn lemma_compute_diff_keeps_changes(
    manifest: &SyncManifest,
    local: &KeyMap<LocalFileInfo>,
    entries: &[ServerEntry],
    plan: SyncPlan,
    key: Seq<char>,
    i: int,
)
    requires
        call_ensures(compute_diff, (manifest, local, entries), plan),
        local@.contains_key(key),
        manifest.files@.contains_key(key),
        0 <= i < entries@.len(),
        entries@[i].key@ == key,
        forall|j: int| i < j < entries@.len() ==> (#[trigger] entries@[j]).key@ != key,
    ensures
        ({
            let known = manifest.files@[key];
            let here = known.state == SyncState::Dirty || known.content_hash.len() == 0
                || known.content_hash != local@[key].hash;
            let there = entries@[i].content_hash is Some && entries@[i].content_hash->0@
                != known.content_hash;
            let pushed = exists|n: int|
                0 <= n < plan.push@.len() && (#[trigger] plan.push@[n])@ == key;
            let pulled = exists|n: int|
                0 <= n < plan.pull@.len() && (#[trigger] plan.pull@[n])@ == key;
            let deleted = exists|n: int|
                0 <= n < plan.delete_local@.len() && (#[trigger] plan.delete_local@[n])@ == key;
            &&& here && !there ==> pushed && !pulled
            &&& there && !here ==> pulled && !pushed
            &&& !here && !there ==> !pushed && !pulled
            &&& here && there && known.modified_at <= i64::MAX ==> {
                &&& pushed <==> known.modified_at >= entries@[i].updated_at
                &&& pulled <==> known.modified_at < entries@[i].updated_at
            }
            &&& !deleted
        }),
{
    let views = crate::sync_engine::plan::server_views(entries@);
    let keys = crate::key_map::walk(local@);
    assert(views[i] == entries@[i]@);
    assert forall|j: int| i < j < views.len() implies (#[trigger] views[j]).key != key by {
        assert(views[j] == entries@[j]@);
    }
    crate::laws::planning::lemma_last_entry_counts(views, key, i);
    crate::sync_engine::plan::lemma_plan_members(manifest@, keys, local@, views, key);
    lemma_listed(plan.push@, key);
    lemma_listed(plan.pull@, key);
    lemma_listed(plan.delete_local@, key);
}

proof fn lemma_listed(list: Seq<String>, key: Seq<char>)
    ensures
        crate::json::texts(list).contains(key) <==> exists|n: int|
            0 <= n < list.len() && (#[trigger] list[n])@ == key,
{
    let shown = crate::json::texts(list);
    if shown.contains(key) {
        let n = shown.index_of(key);
        assert(list[n]@ == key);
    }
    if exists|n: int| 0 <= n < list.len() && (#[trigger] list[n])@ == key {
        let n = choose|n: int| 0 <= n < list.len() && (#[trigger] list[n])@ == key;
        assert(shown[n] == key);
    }
}

// ---------------------------------------------------------------------------
// Runs
// ---------------------------------------------------------------------------

/// A push that is given the bytes of a file wants next to send exactly these bytes, in a `PUT` to
/// the address of the file's key.
pub proof fn lemma_push_sends_what_it_is_given(
    run: PushRun,
    relative: Seq<char>,
    bytes: Vec<u8>,
    next: PushRun,
    call: Option<HostCall>,
)
    requires
        run@.step is Read,
        run@.todo.len() > 0,
        run@.todo[0] == "files/"@ + relative,
        call_ensures(PushRun::step, (run, HostReply::Bytes(Ok(bytes))), next),
        call_ensures(PushRun::call, (&next,), call),
    ensures
        call matches Some(HostCall::Send(request)) && {
            &&& request.method@ == "PUT"@
            &&& request.url@ == run@.server + "/namespaces/"@ + run@.namespace_id + "/objects/"@
                + run@.todo[0]
            &&& (request.body matches HttpBody::Bytes(body) && body@.len() == bytes@.len()
                && forall|i: int| 0 <= i < bytes@.len() ==> #[trigger] body@[i] == bytes@[i])
            &&& request.headers@[0].0@ == "Content-Type"@
            &&& request.headers@[0].1@ == content_type(relative)
        },
{
    crate::laws::transfers::lemma_pushed_bytes_are_those_of_the_file(run@, relative, bytes@);
    let request = call->0->Send_0;
    assert(request@.headers.len() >= 1);
    assert(request@.headers.len() == request.headers@.len());
    assert(request@.headers[0] == (request.headers@[0].0@, request.headers@[0].1@));
}

/// A pull that is given an object whose path does not end in `.md` wants to write exactly the bytes
/// of the response to the path of the key, once the directory is made.
pub proof fn lemma_pull_writes_what_it_is_given(
    run: PullRun,
    relative: Seq<char>,
    response: HttpResponse,
    bytes: Seq<u8>,
    made: HostReply,
    cleared: HostReply,
    got: PullRun,
    marked: PullRun,
    ready: PullRun,
    call: Option<HostCall>,
)
    requires
        run@.step is Get,
        run@.todo.len() > 0,
        run@.todo[0] == "files/"@ + relative,
        run@.prefix.contains('/'),
        response.status == 200,
        (response.body_base64 matches Some(encoded) && encoded@.len() > 0 && base64_decoded(
            encoded@,
        ) == Ok::<Seq<u8>, Seq<char>>(bytes)) || (response.body_base64 is None && bytes
            == encode_utf8(response.body@)),
        made is Done,
        cleared is Done,
        call_ensures(PullRun::step, (run, HostReply::Response(Ok(response))), got),
        call_ensures(PullRun::step, (got, made), marked),
        call_ensures(PullRun::step, (marked, cleared), ready),
        call_ensures(PullRun::call, (&ready,), call),
    ensures
        !".md"@.is_suffix_of(relative) ==> (call matches Some(HostCall::WriteBinary(path, content))
            && path@ == run@.prefix + relative && content@ == bytes),
        ".md"@.is_suffix_of(relative) ==> (call matches Some(HostCall::WriteText(path, content))
            && path@ == run@.prefix + relative && content@ == utf8_lossy(bytes)),
{
    crate::laws::models::lemma_replies_are_shown(made);
    crate::laws::models::lemma_replies_are_shown(cleared);
    let a = made@->Done_0;
    let b = cleared@->Done_0;
    crate::laws::transfers::lemma_pulled_files_are_those_of_the_server(
        run@,
        relative,
        response@,
        bytes,
        a,
        b,
    );
    let path = run@.prefix + relative;
    let n = run@.prefix.index_of('/');
    assert(path[n] == '/');
    assert(made@ == crate::host::Reply::Done(a));
    assert(cleared@ == crate::host::Reply::Done(b));
}

/// A fetch that is given its last page gives back every object of it as the server wrote it down:
/// with the very key, hash, size and time of the item, over the whole range of each.
pub proof fn lemma_fetch_gives_what_it_is_given(
    run: FetchRun,
    response: HttpResponse,
    items: Seq<Json>,
    next: FetchRun,
    result: Result<Vec<ServerEntry>, String>,
    i: int,
)
    requires
        run@.step is Page,
        response.status == 200,
        response.body@.len() > 0,
        json_parse(response.body@) == Ok::<Json, Seq<char>>(Json::Array(items)),
        items.len() < 500,
        0 <= i < items.len(),
        call_ensures(FetchRun::step, (run, HostReply::Response(Ok(response))), next),
        call_ensures(FetchRun::into_result, (next,), result),
    ensures
        result matches Ok(entries) && {
            let entry = entries@[run@.entries.len() + i];
            &&& entries@.len() == run@.entries.len() + items.len()
            &&& (items[i].member("key"@) matches Some(Json::Str(key)) ==> entry.key@ == key)
            &&& (items[i].member("content_hash"@) matches Some(Json::Str(hash)) ==> (
            entry.content_hash matches Some(h) && h@ == hash))
            &&& items[i].member("content_hash"@) is None ==> entry.content_hash is None
            &&& (items[i].member("size_bytes"@) matches Some(Json::Number(JsonNumber::PosInt(n)))
                ==> entry.size_bytes == n)
            &&& (items[i].member("updated_at"@) matches Some(Json::Number(JsonNumber::PosInt(n)))
                ==> (n <= i64::MAX ==> entry.updated_at == n))
            &&& (items[i].member("updated_at"@) matches Some(Json::Number(JsonNumber::NegInt(n)))
                ==> entry.updated_at == n)
        },
{
    crate::laws::listings::lemma_objects_are_read_back(
        run@,
        run@.step->Page_0,
        response@,
        items,
        i,
    );
    crate::laws::transfers::lemma_responses_are_read(response@);
    let entries = result->Ok_0;
    let shown = crate::sync_engine::plan::server_views(entries@);
    assert(shown[run@.entries.len() + i] == entries@[run@.entries.len() + i]@);
}

/// A command to link that names a namespace wants first to store the configuration with exactly
/// this workspace, and otherwise as it was, and reports in the end that it created none.
pub proof fn lemma_link_stores_what_it_is_given(
    params: JsonValue,
    settings: Settings,
    state: PluginState,
    pages: &Pages,
    id: Seq<char>,
    run: CommandRun,
    call: Option<HostCall>,
    saved: CommandRun,
    manifest: Option<SyncManifest>,
    loaded: CommandRun,
    later: Settings,
    ready: CommandRun,
)
    requires
        is_for_us(params@),
        params@.member("namespace_id"@) == Some(Json::Str(id)) || (params@.text(
            "namespace_id"@,
        ) is None && params@.member("remote_id"@) == Some(Json::Str(id))),
        call_ensures(execute_command, ("LinkWorkspace", params, settings, state, pages), run),
        call_ensures(CommandRun::call, (&run,), call),
        call_ensures(CommandRun::step, (run, HostReply::Saved), saved),
        call_ensures(CommandRun::step, (saved, HostReply::Manifest(manifest)), loaded),
        call_ensures(CommandRun::step, (loaded, HostReply::Settings(later)), ready),
    ensures
        call matches Some(HostCall::SaveConfig(config)) && {
            &&& (config.workspace_id matches Some(s) && s@ == id)
            &&& crate::json::optional_text(config.server_url) == crate::json::optional_text(
                settings.config.server_url,
            )
            &&& crate::json::optional_text(config.auth_token) == crate::json::optional_text(
                settings.config.auth_token,
            )
        },
        loaded@.state.namespace_id == Some(id),
        match ready@.stage {
            CommandStage::Cycle(_, purpose) => purpose == crate::commands::PurposeView::Link(
                id,
                false,
            ),
            CommandStage::Over(result) => result is Err,
            _ => false,
        },
{
    let begun = crate::commands::CommandView {
        state: state@,
        settings: settings@,
        params: params@,
        stage: CommandStage::Over(Ok(Json::Null)),
    };
    crate::laws::models::lemma_replies_are_shown(HostReply::Manifest(manifest));
    let stored = crate::state::manifest_view(manifest);
    crate::laws::commanding::lemma_links_to_the_named_namespace(
        begun,
        pages@,
        id,
        stored,
        later@,
    );
    assert(HostReply::Manifest(manifest)@ == crate::host::Reply::Manifest(stored));
}

/// A command to link that names no namespace wants first to create one under the name that it
/// gives.
pub proof fn lemma_link_creates_what_it_names(
    params: JsonValue,
    settings: Settings,
    state: PluginState,
    pages: &Pages,
    name: Seq<char>,
    server: Seq<char>,
    run: CommandRun,
    call: Option<HostCall>,
)
    requires
        is_for_us(params@),
        params@.text("namespace_id"@) is None,
        params@.text("remote_id"@) is None,
        params@.member("name"@) == Some(Json::Str(name)),
        settings@.server(params@) == Some(server),
        call_ensures(execute_command, ("LinkWorkspace", params, settings, state, pages), run),
        call_ensures(CommandRun::call, (&run,), call),
    ensures
        call matches Some(HostCall::Send(request)) && {
            &&& request.method@ == "POST"@
            &&& request.url@ == server + "/namespaces"@
            &&& (request.body matches HttpBody::Text(body) && body@ == json_text(
                Json::Object(seq![("id"@, Json::Str(name))]),
            ))
        },
{
    crate::laws::commanding::lemma_names_of_commands();
}

// ---------------------------------------------------------------------------
// Requests
// ---------------------------------------------------------------------------

/// Whether headers are those of a request without content of its own: the token is shown unless
/// it is blank.
pub open spec fn are_plain_headers(
    headers: Seq<(String, String)>,
    token: Option<Seq<char>>,
) -> bool {
    &&& headers.len() >= 1
    &&& headers[0].0@ == "Content-Type"@
    &&& headers[0].1@ == "application/json"@
    &&& (token is Some && !is_blank(token->0)) ==> headers.len() == 2 && headers[1].0@
        == "Authorization"@ && headers[1].1@ == "Bearer "@ + token->0
    &&& !(token is Some && !is_blank(token->0)) ==> headers.len() == 1
}

proof fn lemma_plain_headers(headers: Seq<(String, String)>, token: Option<Seq<char>>)
    requires
        crate::http::headers_view(headers) == crate::http::json_headers(token),
    ensures
        are_plain_headers(headers, token),
{
    let shown = crate::http::headers_view(headers);
    assert(shown.len() == headers.len());
    assert(crate::http::json_headers(token).len() >= 1);
    assert(shown[0] == (headers[0].0@, headers[0].1@));
    if headers.len() == 2 {
        assert(shown[1] == (headers[1].0@, headers[1].1@));
    }
}

/// `put_object` sends the very bytes that it is given to the address of the object, with their
/// type.
pub proof fn lemma_put_object_sends_its_bytes(
    params: &JsonValue,
    settings: &Settings,
    namespace: &str,
    key: &str,
    body: Vec<u8>,
    kind: &str,
    r: Result<HttpRequest, String>,
)
    requires
        call_ensures(put_object, (params, settings, namespace, key, body, kind), r),
    ensures
        match r {
            Ok(request) => {
                &&& settings@.server(params@) is Some
                &&& request.method@ == "PUT"@
                &&& request.url@ == settings@.server(params@)->0 + "/namespaces/"@ + namespace@
                    + "/objects/"@ + key@
                &&& (request.body matches HttpBody::Bytes(sent) && sent@ == body@)
                &&& request.headers@[0].0@ == "Content-Type"@
                &&& request.headers@[0].1@ == kind@
                &&& (settings@.token(params@) matches Some(token) ==> request.headers@.len() == 2
                    && request.headers@[1].0@ == "Authorization"@ && request.headers@[1].1@
                    == "Bearer "@ + token)
                &&& settings@.token(params@) is None ==> request.headers@.len() == 1
            },
            Err(e) => settings@.server(params@) is None && e@ == "Missing server_url"@,
        },
{
    if let Ok(request) = r {
        let shown = request@.headers;
        assert(shown.len() == request.headers@.len());
        assert(shown.len() >= 1);
        assert(shown[0] == (request.headers@[0].0@, request.headers@[0].1@));
        if shown.len() == 2 {
            assert(shown[1] == (request.headers@[1].0@, request.headers@[1].1@));
        }
    }
}

/// The requests for an object, for its removal, and for the list of objects go to their addresses
/// with their methods, and carry nothing.
pub proof fn lemma_requests_on_objects(
    params: &JsonValue,
    settings: &Settings,
    namespace: &str,
    key: &str,
    got: Result<HttpRequest, String>,
    deleted: Result<HttpRequest, String>,
    listed: Result<HttpRequest, String>,
)
    requires
        call_ensures(get_object, (params, settings, namespace, key), got),
        call_ensures(delete_object, (params, settings, namespace, key), deleted),
        call_ensures(list_objects, (params, settings, namespace), listed),
    ensures
        ({
            let token = settings@.token(params@);
            match settings@.server(params@) {
                Some(server) => {
                    let objects = server + "/namespaces/"@ + namespace@ + "/objects"@;
                    let object = server + "/namespaces/"@ + namespace@ + "/objects/"@ + key@;
                    &&& (got matches Ok(request) && request.method@ == "GET"@ && request.url@
                        == object && request.body is Empty && are_plain_headers(
                        request.headers@,
                        token,
                    ))
                    &&& (deleted matches Ok(request) && request.method@ == "DELETE"@ && request.url@
                        == object && request.body is Empty && are_plain_headers(
                        request.headers@,
                        token,
                    ))
                    &&& (listed matches Ok(request) && request.method@ == "GET"@ && request.url@
                        == objects && request.body is Empty && are_plain_headers(
                        request.headers@,
                        token,
                    ))
                },
                None => {
                    &&& (got matches Err(e) && e@ == "Missing server_url"@)
                    &&& (deleted matches Err(e) && e@ == "Missing server_url"@)
                    &&& (listed matches Err(e) && e@ == "Missing server_url"@)
                },
            }
        }),
{
    if settings@.server(params@) is Some {
        lemma_plain_headers(got->Ok_0.headers@, settings@.token(params@));
        lemma_plain_headers(deleted->Ok_0.headers@, settings@.token(params@));
        lemma_plain_headers(listed->Ok_0.headers@, settings@.token(params@));
    }
}

/// The requests on namespaces go to their addresses: a new one is named in the body.
pub proof fn lemma_requests_on_namespaces(
    params: &JsonValue,
    settings: &Settings,
    namespace: &str,
    created: Result<HttpRequest, String>,
    listed: Result<HttpRequest, String>,
)
    requires
        call_ensures(create_namespace, (params, settings, namespace), created),
        call_ensures(list_namespaces, (params, settings), listed),
    ensures
        ({
            let token = settings@.token(params@);
            match settings@.server(params@) {
                Some(server) => {
                    &&& (created matches Ok(request) && request.method@ == "POST"@ && request.url@
                        == server + "/namespaces"@ && are_plain_headers(request.headers@, token)
                        && (request.body matches HttpBody::Text(body) && body@ == json_text(
                        Json::Object(seq![("id"@, Json::Str(namespace@))]),
                    )))
                    &&& (listed matches Ok(request) && request.method@ == "GET"@ && request.url@
                        == server + "/namespaces"@ && request.body is Empty && are_plain_headers(
                        request.headers@,
                        token,
                    ))
                },
                None => {
                    &&& (created matches Err(e) && e@ == "Missing server_url"@)
                    &&& (listed matches Err(e) && e@ == "Missing server_url"@)
                },
            }
        }),
{
    if settings@.server(params@) is Some {
        lemma_plain_headers(created->Ok_0.headers@, settings@.token(params@));
        lemma_plain_headers(listed->Ok_0.headers@, settings@.token(params@));
    }
}

/// The requests on sessions go to their addresses: a new one is described in the body, and any
/// other is named in the address.
pub proof fn lemma_requests_on_sessions(
    params: &JsonValue,
    settings: &Settings,
    namespace: &str,
    read_only: bool,
    code: &str,
    created: Result<HttpRequest, String>,
    got: Result<HttpRequest, String>,
    deleted: Result<HttpRequest, String>,
)
    requires
        call_ensures(create_session, (params, settings, namespace, read_only), created),
        call_ensures(get_session, (params, settings, code), got),
        call_ensures(delete_session, (params, settings, code), deleted),
    ensures
        ({
            let token = settings@.token(params@);
            match settings@.server(params@) {
                Some(server) => {
                    &&& (created matches Ok(request) && request.method@ == "POST"@ && request.url@
                        == server + "/sessions"@ && are_plain_headers(request.headers@, token) && (
                    request.body matches HttpBody::Text(body) && body@ == json_text(
                        Json::Object(
                            seq![
                                ("namespace_id"@, Json::Str(namespace@)),
                                ("read_only"@, Json::Bool(read_only)),
                            ],
                        ),
                    )))
                    &&& (got matches Ok(request) && request.method@ == "GET"@ && request.url@
                        == server + "/sessions/"@ + code@ && request.body is Empty
                        && are_plain_headers(request.headers@, token))
                    &&& (deleted matches Ok(request) && request.method@ == "DELETE"@ && request.url@
                        == server + "/sessions/"@ + code@ && request.body is Empty
                        && are_plain_headers(request.headers@, token))
                },
                None => {
                    &&& (created matches Err(e) && e@ == "Missing server_url"@)
                    &&& (got matches Err(e) && e@ == "Missing server_url"@)
                    &&& (deleted matches Err(e) && e@ == "Missing server_url"@)
                },
            }
        }),
{
    if settings@.server(params@) is Some {
        lemma_plain_headers(created->Ok_0.headers@, settings@.token(params@));
        lemma_plain_headers(got->Ok_0.headers@, settings@.token(params@));
        lemma_plain_headers(deleted->Ok_0.headers@, settings@.token(params@));
    }
}

/// `object_bytes` gives the very bytes of the response; nothing for an object that is not there;
/// and else what went wrong.
pub proof fn lemma_object_bytes_are_those_of_the_response(
    response: HttpResponse,
    e: String,
    got: Result<Option<Vec<u8>>, String>,
    lost: Result<Option<Vec<u8>>, String>,
)
    requires
        call_ensures(object_bytes, (Ok(response),), got),
        call_ensures(object_bytes, (Err(e),), lost),
    ensures
        (lost matches Err(message) && message@ == e@),
        response.status == 404 ==> got matches Ok(None),
        response.status == 200 && response.body_base64 is None ==> (got matches Ok(Some(bytes))
            && bytes@ == encode_utf8(response.body@)),
        response.status == 200 ==> (response.body_base64 matches Some(encoded) ==> {
            &&& encoded@.len() == 0 ==> (got matches Ok(Some(bytes)) && bytes@.len() == 0)
            &&& encoded@.len() > 0 ==> match base64_decoded(encoded@) {
                Ok(decoded) => got matches Ok(Some(bytes)) && bytes@ == decoded,
                Err(problem) => got matches Err(message) && message@
                    == "Invalid HTTP response body_base64: "@ + problem,
            }
        }),
        response.status != 200 && response.status != 404 ==> (got matches Err(message) && message@
            == (if response.body@.len() == 0 {
            "HTTP "@ + decimal(response.status as nat)
        } else {
            "HTTP "@ + decimal(response.status as nat) + ": "@ + response.body@
        })),
{
    crate::laws::transfers::lemma_responses_are_read(response@);
    crate::laws::transfers::lemma_bytes_of_a_response(response@);
}

// ---------------------------------------------------------------------------
// Envelopes
// ---------------------------------------------------------------------------

/// What is encoded is decoded again: as many actions, in the same order, each with the content
/// that it had.
pub proof fn lemma_decoding_undoes_encoding(
    actions: &[SessionAction],
    buf: Vec<u8>,
    data: &[u8],
    r: Result<Vec<DecodedAction>, String>,
    i: int,
)
    requires
        fits(session_views(actions@)),
        call_ensures(encode_actions, (actions,), buf),
        data@ == buf@,
        call_ensures(decode_actions, (data,), r),
        0 <= i < actions@.len(),
    ensures
        r matches Ok(read) && read@.len() == actions@.len() && match (actions@[i], read@[i]) {
            (SessionAction::SendBinary(a), DecodedAction::SendBinary(b)) => a@ == b@,
            (SessionAction::SendText(a), DecodedAction::SendText(b)) => a@ == b@,
            (SessionAction::Emit(event), DecodedAction::EmitEvent(b)) => b@
                == crate::binary_protocol::event_json(event),
            (
                SessionAction::DownloadSnapshot { workspace_id },
                DecodedAction::DownloadSnapshot(b),
            ) => workspace_id@ == b@,
            _ => false,
        },
{
    let shown = session_views(actions@);
    crate::binary_protocol::lemma_roundtrip(shown, Seq::empty());
    assert(crate::binary_protocol::envelope(shown) + Seq::<u8>::empty() =~= data@);
    let read = r->Ok_0;
    assert(decoded_views(read@) == shown);
    assert(shown[i] == actions@[i]@);
    assert(decoded_views(read@)[i] == read@[i]@);
}

} // verus!
