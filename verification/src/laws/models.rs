//! Models tell no less and nothing else than what they stand for: what is proved of a model holds
//! of the value.

use vstd::prelude::*;
use vstd::string::*;

use crate::config::{Settings, SyncExtismConfig};
use crate::host::{answers, call_view, Call, HostCall, HostReply, Reply};
use crate::host_bridge::stored_view;
use crate::http::{BodyView, HttpBody, HttpRequest, HttpResponse, RequestView, ResponseView};
use crate::json::{
    is_plain, items_view, keys_of, members_view, optional_text, texts, Json, JsonNumber, JsonValue,
};
use crate::key_map::{ascending, precedes};
use crate::protocol::{pair_view, result_view, text_view};
use crate::server_api::{bytes_view, reply_view, request_view};
use crate::state::PluginState;
use crate::sync_engine::plan::{server_views, LocalFileInfo, ServerEntry, SyncPlan};
use crate::sync_manifest::{FileEntry, SyncManifest};

verus! {

/// A request is shown with its method, its address, its headers in order, and its body.
pub proof fn lemma_requests_are_shown(request: HttpRequest)
    ensures
        request@.method == request.method@,
        request@.url == request.url@,
        request@.headers.len() == request.headers@.len(),
        forall|i: int|
            0 <= i < request.headers@.len() ==> (#[trigger] request@.headers[i]).0
                == request.headers@[i].0@ && request@.headers[i].1 == request.headers@[i].1@,
        match request.body {
            HttpBody::Empty => request@.body is Empty,
            HttpBody::Text(s) => request@.body == BodyView::Text(s@),
            HttpBody::Bytes(b) => request@.body == BodyView::Bytes(b@),
        },
{
}

/// A response is shown with its status and its body in both forms.
pub proof fn lemma_responses_are_shown(response: HttpResponse)
    ensures
        response@.status == response.status,
        response@.body == response.body@,
        response@.body_base64 == (match response.body_base64 {
            Some(s) => Some(s@),
            None => None,
        }),
{
}

/// A call of the host is shown as the call that it is, with all that it carries.
pub proof fn lemma_calls_are_shown(call: HostCall)
    ensures
        match call {
            HostCall::ListFiles(path) => call@ == Call::ListFiles(path@),
            HostCall::FileExists(path) => call@ == Call::FileExists(path@),
            HostCall::ReadText(path) => call@ == Call::ReadText(path@),
            HostCall::HashFile(path) => call@ == Call::HashFile(path@),
            HostCall::ReadBinary(path) => call@ == Call::ReadBinary(path@),
            HostCall::WriteText(path, content) => call@ == Call::WriteText(path@, content@),
            HostCall::WriteBinary(path, content) => call@ == Call::WriteBinary(path@, content@),
            HostCall::DeleteFile(path) => call@ == Call::DeleteFile(path@),
            HostCall::Send(request) => call@ == Call::Send(request@),
            HostCall::Now => call@ == Call::Now,
            HostCall::LoadManifest => call@ == Call::LoadManifest,
            HostCall::SaveManifest(manifest) => call@ == Call::SaveManifest(manifest@),
            HostCall::SaveConfig(config) => call@ == Call::SaveConfig(config@),
            HostCall::LoadSettings => call@ == Call::LoadSettings,
        },
        call_view(Some(call)) == Some(call@),
        call_view(None) is None,
{
}

/// A reply of the host is shown as the reply that it is, with all that it carries.
pub proof fn lemma_replies_are_shown(reply: HostReply)
    ensures
        match reply {
            HostReply::Files(Ok(files)) => reply@ matches Reply::Files(Ok(shown)) && shown.len()
                == files@.len() && forall|i: int|
                0 <= i < shown.len() ==> #[trigger] shown[i] == files@[i]@,
            HostReply::Files(Err(e)) => reply@ == Reply::Files(Err(e@)),
            HostReply::Exists(Ok(exists)) => reply@ == Reply::Exists(Ok(exists)),
            HostReply::Exists(Err(e)) => reply@ == Reply::Exists(Err(e@)),
            HostReply::Text(Ok(text)) => reply@ == Reply::Text(Ok(text@)),
            HostReply::Text(Err(e)) => reply@ == Reply::Text(Err(e@)),
            HostReply::Hash(Some(hash)) => reply@ == Reply::Hash(Some(hash@)),
            HostReply::Hash(None) => reply@ == Reply::Hash(None),
            HostReply::Bytes(Ok(bytes)) => reply@ == Reply::Bytes(Ok(bytes@)),
            HostReply::Bytes(Err(e)) => reply@ == Reply::Bytes(Err(e@)),
            HostReply::Done(Ok(_)) => reply@ == Reply::Done(Ok(())),
            HostReply::Done(Err(e)) => reply@ == Reply::Done(Err(e@)),
            HostReply::Response(Ok(response)) => reply@ == Reply::Response(Ok(response@)),
            HostReply::Response(Err(e)) => reply@ == Reply::Response(Err(e@)),
            HostReply::Time(time) => reply@ == Reply::Time(time),
            HostReply::Manifest(Some(manifest)) => reply@ == Reply::Manifest(Some(manifest@)),
            HostReply::Manifest(None) => reply@ == Reply::Manifest(None),
            HostReply::Saved => reply@ == Reply::Saved,
            HostReply::Settings(settings) => reply@ == Reply::Settings(settings@),
        },
{
}

/// A manifest is shown with its namespace, its files, the time of its last cycle, and its pending
/// removals in order.
pub proof fn lemma_manifests_are_shown(manifest: SyncManifest)
    ensures
        manifest@.namespace_id == manifest.namespace_id@,
        manifest@.files == manifest.files@,
        manifest@.last_sync_at == manifest.last_sync_at,
        manifest@.pending_deletes.len() == manifest.pending_deletes@.len(),
        forall|i: int|
            0 <= i < manifest.pending_deletes@.len() ==> (
            #[trigger] manifest@.pending_deletes[i]).path == manifest.pending_deletes@[i].path@
                && manifest@.pending_deletes[i].deleted_at
                == manifest.pending_deletes@[i].deleted_at,
{
}

/// What is known of a file is shown field by field.
pub proof fn lemma_files_are_shown(entry: FileEntry, found: LocalFileInfo, object: ServerEntry)
    ensures
        entry@.content_hash == entry.content_hash@,
        entry@.size_bytes == entry.size_bytes,
        entry@.modified_at == entry.modified_at,
        entry@.state == entry.state,
        found@.hash == found.hash@,
        found@.size == found.size,
        object@.key == object.key@,
        object@.content_hash == (match object.content_hash {
            Some(hash) => Some(hash@),
            None => None,
        }),
        object@.size_bytes == object.size_bytes,
        object@.updated_at == object.updated_at,
{
}

/// A plan and a list of objects are shown item by item.
pub proof fn lemma_plans_are_shown(plan: SyncPlan, objects: Seq<ServerEntry>)
    ensures
        plan@.push.len() == plan.push@.len(),
        plan@.pull.len() == plan.pull@.len(),
        plan@.delete_remote.len() == plan.delete_remote@.len(),
        plan@.delete_local.len() == plan.delete_local@.len(),
        forall|i: int|
            0 <= i < plan.push@.len() ==> #[trigger] plan@.push[i] == plan.push@[i]@,
        forall|i: int|
            0 <= i < plan.pull@.len() ==> #[trigger] plan@.pull[i] == plan.pull@[i]@,
        forall|i: int|
            0 <= i < plan.delete_remote@.len() ==> #[trigger] plan@.delete_remote[i]
                == plan.delete_remote@[i]@,
        forall|i: int|
            0 <= i < plan.delete_local@.len() ==> #[trigger] plan@.delete_local[i]
                == plan.delete_local@[i]@,
        server_views(objects).len() == objects.len(),
        forall|i: int|
            0 <= i < objects.len() ==> #[trigger] server_views(objects)[i] == objects[i]@,
{
}

/// The configuration, the settings and the state of the plugin are shown field by field.
pub proof fn lemma_settings_are_shown(
    config: SyncExtismConfig,
    settings: Settings,
    state: PluginState,
)
    ensures
        config@.server_url == (match config.server_url {
            Some(s) => Some(s@),
            None => None,
        }),
        config@.auth_token == (match config.auth_token {
            Some(s) => Some(s@),
            None => None,
        }),
        config@.workspace_id == (match config.workspace_id {
            Some(s) => Some(s@),
            None => None,
        }),
        settings@.config == settings.config@,
        settings@.runtime == (match settings.runtime {
            Some(value) => Some(value@),
            None => None,
        }),
        state@.manifest == (match state.manifest {
            Some(m) => Some(m@),
            None => None,
        }),
        state@.workspace_root == (match state.workspace_root {
            Some(s) => Some(s@),
            None => None,
        }),
        state@.namespace_id == (match state.namespace_id {
            Some(s) => Some(s@),
            None => None,
        }),
{
}

/// A reply answers a call if it is of the kind that the call asks for.
pub proof fn lemma_answers(call: Call, reply: Reply)
    ensures
        answers(call, reply) <==> match reply {
            Reply::Files(_) => call is ListFiles,
            Reply::Exists(_) => call is FileExists,
            Reply::Text(_) => call is ReadText,
            Reply::Hash(_) => call is HashFile,
            Reply::Bytes(_) => call is ReadBinary,
            Reply::Done(_) => call is WriteText || call is WriteBinary || call is DeleteFile,
            Reply::Response(_) => call is Send,
            Reply::Time(_) => call is Now,
            Reply::Manifest(_) => call is LoadManifest,
            Reply::Saved => call is SaveManifest || call is SaveConfig,
            Reply::Settings(_) => call is LoadSettings,
        },
{
}

/// Results are shown as what they are: the value, or the error.
pub proof fn lemma_results_are_shown(
    value: JsonValue,
    text: String,
    request: HttpRequest,
    response: HttpResponse,
    bytes: Vec<u8>,
    e: String,
)
    ensures
        result_view(Ok(value)) == Ok::<Json, Seq<char>>(value@),
        result_view(Err(e)) == Err::<Json, Seq<char>>(e@),
        text_view(Ok(text)) == Ok::<Seq<char>, Seq<char>>(text@),
        text_view(Err(e)) == Err::<Seq<char>, Seq<char>>(e@),
        pair_view(Ok((text, value))) == Ok::<(Seq<char>, Json), Seq<char>>((text@, value@)),
        pair_view(Err(e)) == Err::<(Seq<char>, Json), Seq<char>>(e@),
        request_view(Ok(request)) == Ok::<RequestView, Seq<char>>(request@),
        request_view(Err(e)) == Err::<RequestView, Seq<char>>(e@),
        reply_view(Ok(response)) == Ok::<ResponseView, Seq<char>>(response@),
        reply_view(Err(e)) == Err::<ResponseView, Seq<char>>(e@),
        bytes_view(Ok(Some(bytes))) == Ok::<Option<Seq<u8>>, Seq<char>>(Some(bytes@)),
        bytes_view(Ok(None)) == Ok::<Option<Seq<u8>>, Seq<char>>(None),
        bytes_view(Err(e)) == Err::<Option<Seq<u8>>, Seq<char>>(e@),
        stored_view(Ok(Some(bytes))) == Ok::<Option<Seq<u8>>, Seq<char>>(Some(bytes@)),
        stored_view(Ok(None)) == Ok::<Option<Seq<u8>>, Seq<char>>(None),
        stored_view(Err(e)) == Err::<Option<Seq<u8>>, Seq<char>>(e@),
        optional_text(Some(text)) == Some(text@),
        optional_text(None) is None,
{
}

/// Lists are shown item by item, in order.
pub proof fn lemma_lists_are_shown(
    strings: Seq<String>,
    items: Seq<JsonValue>,
    members: Seq<(String, JsonValue)>,
    i: int,
)
    ensures
        texts(strings).len() == strings.len(),
        0 <= i < strings.len() ==> texts(strings)[i] == strings[i]@,
        items_view(items).len() == items.len(),
        0 <= i < items.len() ==> items_view(items)[i] == items[i]@,
        members_view(members).len() == members.len(),
        0 <= i < members.len() ==> members_view(members)[i] == (members[i].0@, members[i].1@),
{
}

/// A document is plain exactly if its numbers are held in the one way in which they are read, and
/// the members of its objects stand in ascending order of their keys.
pub proof fn lemma_plain_documents(value: Json)
    ensures
        is_plain(value) <==> match value {
            Json::Number(JsonNumber::NegInt(n)) => n < 0,
            Json::Number(JsonNumber::Float(n)) => crate::json::number_kind(n)
                == JsonNumber::Float(n),
            Json::Array(items) => forall|i: int|
                0 <= i < items.len() ==> is_plain(#[trigger] items[i]),
            Json::Object(members) => (forall|i: int|
                0 <= i < members.len() ==> is_plain((#[trigger] members[i]).1)) && forall|
                i: int,
                j: int,
            |
                0 <= i < j < members.len() ==> precedes(
                    (#[trigger] members[i]).0,
                    (#[trigger] members[j]).0,
                ),
            _ => true,
        },
{
    if let Json::Object(members) = value {
        let keys = keys_of(members);
        assert(keys.len() == members.len());
        if ascending(keys) {
            assert forall|i: int, j: int| 0 <= i < j < members.len() implies precedes(
                (#[trigger] members[i]).0,
                (#[trigger] members[j]).0,
            ) by {
                assert(precedes(keys[i], keys[j]));
            }
        }
        if forall|i: int, j: int|
            0 <= i < j < members.len() ==> precedes(
                (#[trigger] members[i]).0,
                (#[trigger] members[j]).0,
            ) {
            assert forall|i: int, j: int| 0 <= i < j < keys.len() implies precedes(
                #[trigger] keys[i],
                #[trigger] keys[j],
            ) by {
                assert(precedes(members[i].0, members[j].0));
            }
        }
    }
}

/// A document is shown as the document that it is, with its items and its members in order.
pub proof fn lemma_documents_are_shown(value: JsonValue)
    ensures
        match value {
            JsonValue::Null => value@ is Null,
            JsonValue::Bool(b) => value@ == Json::Bool(b),
            JsonValue::Number(n) => value@ == Json::Number(n),
            JsonValue::String(s) => value@ == Json::Str(s@),
            JsonValue::Array(items) => value@ matches Json::Array(shown) && shown.len()
                == items@.len() && forall|i: int|
                0 <= i < shown.len() ==> #[trigger] shown[i] == items@[i]@,
            JsonValue::Object(members) => value@ matches Json::Object(shown) && shown.len()
                == members@.len() && forall|i: int|
                0 <= i < shown.len() ==> (#[trigger] shown[i]).0 == members@[i].0@ && shown[i].1
                    == members@[i].1@,
        },
{
}

} // verus!
