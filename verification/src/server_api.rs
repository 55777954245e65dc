//! Namespace-based server API.
//!
//! Each call of the `/namespaces/…` and `/sessions/…` endpoints is a request that a function
//! here builds, and an answer that [`answer`] reads.

use vstd::prelude::*;
use vstd::string::*;

use crate::codec::{base64_decoded, base64_encoded};
use crate::config::{resolve_auth_token, resolve_server_url, Settings, SettingsView};
use crate::http;
use crate::http::{
    body_of, bytes_of, document_of, error_message, json_headers, status_of, upload_headers,
    BodyView, HttpBody, HttpRequest, HttpResponse, RequestView, ResponseView,
};
use crate::json;
use crate::json::{bytes_json, is_plain, json_text, Json, JsonValue};
use crate::key_map::precedes;
use crate::text;

verus! {

/// The calls of the server.
#[derive(Debug, Clone, Copy, PartialEq, Eq, Structural)]
pub enum ApiCall {
    CreateNamespace,
    ListNamespaces,
    PutObject,
    GetObject,
    DeleteObject,
    ListObjects,
    CreateSession,
    GetSession,
    DeleteSession,
}

// ---------------------------------------------------------------------------
// Models
// ---------------------------------------------------------------------------

/// A request without a body.
pub open spec fn bare_request(
    method: Seq<char>,
    url: Seq<char>,
    token: Option<Seq<char>>,
) -> RequestView {
    RequestView { method, url, headers: json_headers(token), body: BodyView::Empty }
}

/// A request with a JSON body.
pub open spec fn json_request(
    method: Seq<char>,
    url: Seq<char>,
    token: Option<Seq<char>>,
    body: Json,
) -> RequestView {
    RequestView {
        method,
        url,
        headers: json_headers(token),
        body: BodyView::Text(json_text(body)),
    }
}

/// A request that stores bytes.
pub open spec fn upload_request(
    url: Seq<char>,
    content_type: Seq<char>,
    token: Option<Seq<char>>,
    body: Seq<u8>,
) -> RequestView {
    RequestView {
        method: "PUT"@,
        url,
        headers: upload_headers(content_type, token),
        body: BodyView::Bytes(body),
    }
}

/// The address of an object.
pub open spec fn object_url(server: Seq<char>, namespace: Seq<char>, key: Seq<char>) -> Seq<char> {
    server + "/namespaces/"@ + namespace + "/objects/"@ + key
}

/// The address of the objects of a namespace.
pub open spec fn objects_url(server: Seq<char>, namespace: Seq<char>) -> Seq<char> {
    server + "/namespaces/"@ + namespace + "/objects"@
}

/// What is sent to create a namespace.
pub open spec fn namespace_body(namespace: Seq<char>) -> Json {
    Json::Object(seq![("id"@, Json::Str(namespace))])
}

/// What is sent to create a session.
pub open spec fn session_body(namespace: Seq<char>, read_only: bool) -> Json {
    Json::Object(
        seq![("namespace_id"@, Json::Str(namespace)), ("read_only"@, Json::Bool(read_only))],
    )
}

/// Whether a status says that a call succeeded.
pub open spec fn succeeded(call: ApiCall, status: u64) -> bool {
    match call {
        ApiCall::CreateNamespace => status == 201 || status == 200,
        ApiCall::DeleteObject => status == 204 || status == 200,
        ApiCall::DeleteSession => status == 204 || status == 200,
        _ => status == 200,
    }
}

/// Whether a call takes a status of 404 for `null`.
pub open spec fn may_be_missing(call: ApiCall) -> bool {
    call is GetObject || call is GetSession
}

/// What is said of an answer that holds no document.
pub open spec fn no_document(call: ApiCall) -> Seq<char> {
    if call is CreateNamespace {
        "Invalid namespace response"@
    } else {
        "Invalid response"@
    }
}

/// The bytes of the object that a response to the request for it holds: none, if there is no such
/// object.
pub open spec fn object_in(response: Json) -> Result<Option<Seq<u8>>, Seq<char>> {
    let status = status_of(response);
    if status == 404 {
        Ok(None)
    } else if status != 200 {
        Err(error_message(status, body_of(response)))
    } else {
        match bytes_of(response) {
            Ok(bytes) => Ok(Some(bytes)),
            Err(e) => Err(e),
        }
    }
}

/// The bytes of an object, for what came of the request for it.
pub open spec fn fetched(reply: Result<ResponseView, Seq<char>>) -> Result<
    Option<Seq<u8>>,
    Seq<char>,
> {
    match reply {
        Ok(response) => object_in(response.json()),
        Err(e) => Err(e),
    }
}

/// The bytes of an object as a document: an array of numbers, or `null` if there is no object.
pub open spec fn object_json(object: Option<Seq<u8>>) -> Json {
    match object {
        Some(bytes) => bytes_json(bytes),
        None => Json::Null,
    }
}

/// What a call gives for a response: the bytes of an object, `null` for a removal, and the
/// document in the body for every other call.
pub open spec fn answered(call: ApiCall, response: Json) -> Result<Json, Seq<char>> {
    let status = status_of(response);
    if call is GetObject {
        match object_in(response) {
            Ok(object) => Ok(object_json(object)),
            Err(e) => Err(e),
        }
    } else if may_be_missing(call) && status == 404 {
        Ok(Json::Null)
    } else if !succeeded(call, status) {
        Err(error_message(status, body_of(response)))
    } else {
        match call {
            ApiCall::DeleteObject => Ok(Json::Null),
            ApiCall::DeleteSession => Ok(Json::Null),
            _ => match document_of(response) {
                Some(document) => Ok(document),
                None => Err(no_document(call)),
            },
        }
    }
}

/// What a call gives for what came of its request.
pub open spec fn outcome(
    call: ApiCall,
    reply: Result<ResponseView, Seq<char>>,
) -> Result<Json, Seq<char>> {
    match reply {
        Ok(response) => answered(call, response.json()),
        Err(e) => Err(e),
    }
}

/// The request of a command that talks to a server, or what is missing for it.
pub open spec fn with_server(
    settings: SettingsView,
    params: Json,
    request: spec_fn(Seq<char>, Option<Seq<char>>) -> RequestView,
) -> Result<RequestView, Seq<char>> {
    match settings.server(params) {
        Some(server) => Ok(request(server, settings.token(params))),
        None => Err("Missing server_url"@),
    }
}

/// The model of a request or of what is missing for it.
pub open spec fn request_view(r: Result<HttpRequest, String>) -> Result<RequestView, Seq<char>> {
    match r {
        Ok(request) => Ok(request@),
        Err(e) => Err(e@),
    }
}

// ---------------------------------------------------------------------------
// Requests
// ---------------------------------------------------------------------------

/// A request without a body.
pub fn new_request(method: &str, url: String, token: &Option<String>) -> (r: HttpRequest)
    ensures
        r@ == bare_request(method@, url@, json::optional_text(*token)),
{
    HttpRequest {
        method: method.to_owned(),
        url,
        headers: http::auth_headers(token),
        body: HttpBody::Empty,
    }
}

/// A request with a JSON body.
fn new_json_request(
    method: &str,
    url: String,
    token: &Option<String>,
    body: JsonValue,
) -> (r: HttpRequest)
    requires
        is_plain(body@),
    ensures
        r@ == json_request(method@, url@, json::optional_text(*token), body@),
{
    HttpRequest {
        method: method.to_owned(),
        url,
        headers: http::auth_headers(token),
        body: HttpBody::Text(body.into_text()),
    }
}

/// A request that stores bytes.
pub fn new_upload(
    url: String,
    content_type: &str,
    token: &Option<String>,
    body: Vec<u8>,
) -> (r: HttpRequest)
    ensures
        r@ == upload_request(url@, content_type@, json::optional_text(*token), body@),
{
    HttpRequest {
        method: "PUT".to_owned(),
        url,
        headers: http::content_headers(content_type, token),
        body: HttpBody::Bytes(body),
    }
}

/// The address of an object.
pub fn object_address(server: &str, namespace_id: &str, key: &str) -> (url: String)
    ensures
        url@ == object_url(server@, namespace_id@, key@),
{
    let mut url: String = text::join4(server, "/namespaces/", namespace_id, "/objects/");
    url.append(key);
    url
}

/// POST /namespaces — create a namespace (answers `{ id, owner_user_id, created_at }`).
pub fn create_namespace(
    params: &JsonValue,
    settings: &Settings,
    namespace_id: &str,
) -> (r: Result<HttpRequest, String>)
    ensures
        request_view(r) == with_server(
            settings@,
            params@,
            |server: Seq<char>, token: Option<Seq<char>>|
                json_request(
                    "POST"@,
                    server + "/namespaces"@,
                    token,
                    namespace_body(namespace_id@),
                ),
        ),
{
    match resolve_server_url(params, settings) {
        Some(server) => {
            let body: JsonValue = json::object(
                vec![json::member("id", json::string(namespace_id))],
            );
            proof {
                assert(body@->Object_0 =~= namespace_body(namespace_id@)->Object_0);
                json::lemma_plain_leaf(Json::Str(namespace_id@));
                json::lemma_plain_object(body@->Object_0);
            }
            Ok(
                new_json_request(
                    "POST",
                    text::join(server.as_str(), "/namespaces"),
                    &resolve_auth_token(params, settings),
                    body,
                ),
            )
        },
        None => Err("Missing server_url".to_owned()),
    }
}

/// GET /namespaces — list namespaces owned by the authenticated user.
pub fn list_namespaces(params: &JsonValue, settings: &Settings) -> (r: Result<HttpRequest, String>)
    ensures
        request_view(r) == with_server(
            settings@,
            params@,
            |server: Seq<char>, token: Option<Seq<char>>|
                bare_request("GET"@, server + "/namespaces"@, token),
        ),
{
    match resolve_server_url(params, settings) {
        Some(server) => Ok(
            new_request(
                "GET",
                text::join(server.as_str(), "/namespaces"),
                &resolve_auth_token(params, settings),
            ),
        ),
        None => Err("Missing server_url".to_owned()),
    }
}

/// PUT /namespaces/{ns_id}/objects/{key} — store bytes under the given key.
pub fn put_object(
    params: &JsonValue,
    settings: &Settings,
    namespace_id: &str,
    key: &str,
    body: Vec<u8>,
    content_type: &str,
) -> (r: Result<HttpRequest, String>)
    ensures
        request_view(r) == with_server(
            settings@,
            params@,
            |server: Seq<char>, token: Option<Seq<char>>|
                upload_request(
                    object_url(server, namespace_id@, key@),
                    content_type@,
                    token,
                    body@,
                ),
        ),
{
    match resolve_server_url(params, settings) {
        Some(server) => Ok(
            new_upload(
                object_address(server.as_str(), namespace_id, key),
                content_type,
                &resolve_auth_token(params, settings),
                body,
            ),
        ),
        None => Err("Missing server_url".to_owned()),
    }
}

/// A request about one object.
fn object_request(
    method: &str,
    params: &JsonValue,
    settings: &Settings,
    namespace_id: &str,
    key: &str,
) -> (r: Result<HttpRequest, String>)
    ensures
        request_view(r) == with_server(
            settings@,
            params@,
            |server: Seq<char>, token: Option<Seq<char>>|
                bare_request(method@, object_url(server, namespace_id@, key@), token),
        ),
{
    match resolve_server_url(params, settings) {
        Some(server) => Ok(
            new_request(
                method,
                object_address(server.as_str(), namespace_id, key),
                &resolve_auth_token(params, settings),
            ),
        ),
        None => Err("Missing server_url".to_owned()),
    }
}

/// GET /namespaces/{ns_id}/objects/{key} — retrieve bytes by key.
///
/// The answer is the raw body bytes, as base64-decoded from the response: see [`object_bytes`].
pub fn get_object(
    params: &JsonValue,
    settings: &Settings,
    namespace_id: &str,
    key: &str,
) -> (r: Result<HttpRequest, String>)
    ensures
        request_view(r) == with_server(
            settings@,
            params@,
            |server: Seq<char>, token: Option<Seq<char>>|
                bare_request("GET"@, object_url(server, namespace_id@, key@), token),
        ),
{
    object_request("GET", params, settings, namespace_id, key)
}

/// DELETE /namespaces/{ns_id}/objects/{key} — delete an object.
pub fn delete_object(
    params: &JsonValue,
    settings: &Settings,
    namespace_id: &str,
    key: &str,
) -> (r: Result<HttpRequest, String>)
    ensures
        request_view(r) == with_server(
            settings@,
            params@,
            |server: Seq<char>, token: Option<Seq<char>>|
                bare_request("DELETE"@, object_url(server, namespace_id@, key@), token),
        ),
{
    object_request("DELETE", params, settings, namespace_id, key)
}

/// GET /namespaces/{ns_id}/objects — list object metadata.
pub fn list_objects(
    params: &JsonValue,
    settings: &Settings,
    namespace_id: &str,
) -> (r: Result<HttpRequest, String>)
    ensures
        request_view(r) == with_server(
            settings@,
            params@,
            |server: Seq<char>, token: Option<Seq<char>>|
                bare_request("GET"@, objects_url(server, namespace_id@), token),
        ),
{
    match resolve_server_url(params, settings) {
        Some(server) => Ok(
            new_request(
                "GET",
                text::join4(server.as_str(), "/namespaces/", namespace_id, "/objects"),
                &resolve_auth_token(params, settings),
            ),
        ),
        None => Err("Missing server_url".to_owned()),
    }
}

/// POST /sessions — create a session for a namespace.
pub fn create_session(
    params: &JsonValue,
    settings: &Settings,
    namespace_id: &str,
    read_only: bool,
) -> (r: Result<HttpRequest, String>)
    ensures
        request_view(r) == with_server(
            settings@,
            params@,
            |server: Seq<char>, token: Option<Seq<char>>|
                json_request(
                    "POST"@,
                    server + "/sessions"@,
                    token,
                    session_body(namespace_id@, read_only),
                ),
        ),
{
    match resolve_server_url(params, settings) {
        Some(server) => {
            let body: JsonValue = json::object(
                vec![
                    json::member("namespace_id", json::string(namespace_id)),
                    json::member("read_only", JsonValue::Bool(read_only)),
                ],
            );
            proof {
                assert(body@->Object_0 =~= session_body(namespace_id@, read_only)->Object_0);
                reveal_strlit("namespace_id");
                reveal_strlit("read_only");
                assert(precedes("namespace_id"@, "read_only"@));
                json::lemma_plain_leaf(Json::Str(namespace_id@));
                json::lemma_plain_leaf(Json::Bool(read_only));
                json::lemma_plain_object(body@->Object_0);
            }
            Ok(
                new_json_request(
                    "POST",
                    text::join(server.as_str(), "/sessions"),
                    &resolve_auth_token(params, settings),
                    body,
                ),
            )
        },
        None => Err("Missing server_url".to_owned()),
    }
}

/// A request about one session.
fn session_request(method: &str, params: &JsonValue, settings: &Settings, code: &str) -> (r: Result<
    HttpRequest,
    String,
>)
    ensures
        request_view(r) == with_server(
            settings@,
            params@,
            |server: Seq<char>, token: Option<Seq<char>>|
                bare_request(method@, server + "/sessions/"@ + code@, token),
        ),
{
    match resolve_server_url(params, settings) {
        Some(server) => Ok(
            new_request(
                method,
                text::join3(server.as_str(), "/sessions/", code),
                &resolve_auth_token(params, settings),
            ),
        ),
        None => Err("Missing server_url".to_owned()),
    }
}

/// GET /sessions/{code} — look up a session; the server asks for no token, but is shown one that
/// there is.
pub fn get_session(params: &JsonValue, settings: &Settings, code: &str) -> (r: Result<
    HttpRequest,
    String,
>)
    ensures
        request_view(r) == with_server(
            settings@,
            params@,
            |server: Seq<char>, token: Option<Seq<char>>|
                bare_request("GET"@, server + "/sessions/"@ + code@, token),
        ),
{
    session_request("GET", params, settings, code)
}

/// DELETE /sessions/{code} — end a session (owner only).
pub fn delete_session(params: &JsonValue, settings: &Settings, code: &str) -> (r: Result<
    HttpRequest,
    String,
>)
    ensures
        request_view(r) == with_server(
            settings@,
            params@,
            |server: Seq<char>, token: Option<Seq<char>>|
                bare_request("DELETE"@, server + "/sessions/"@ + code@, token),
        ),
{
    session_request("DELETE", params, settings, code)
}

// ---------------------------------------------------------------------------
// Answers
// ---------------------------------------------------------------------------

/// Whether a status says that a call succeeded.
fn is_success(call: ApiCall, status: u64) -> (r: bool)
    ensures
        r == succeeded(call, status),
{
    match call {
        ApiCall::CreateNamespace => status == 201 || status == 200,
        ApiCall::DeleteObject => status == 204 || status == 200,
        ApiCall::DeleteSession => status == 204 || status == 200,
        _ => status == 200,
    }
}

/// The model of the bytes of an object, if there is one, or of an error.
pub open spec fn bytes_view(r: Result<Option<Vec<u8>>, String>) -> Result<
    Option<Seq<u8>>,
    Seq<char>,
> {
    match r {
        Ok(Some(bytes)) => Ok(Some(bytes@)),
        Ok(None) => Ok(None),
        Err(e) => Err(e@),
    }
}

/// The bytes of the object that a response to the request for it holds.
fn read_object(response: &JsonValue) -> (r: Result<Option<Vec<u8>>, String>)
    ensures
        bytes_view(r) == object_in(response@),
{
    let status: u64 = http::parse_http_status(response);
    if status == 404 {
        return Ok(None);
    }
    if status != 200 {
        let body: String = http::parse_http_body(response);
        return Err(http::http_error(status, body.as_str()));
    }
    match http::parse_http_body_bytes(response) {
        Ok(bytes) => Ok(Some(bytes)),
        Err(e) => Err(e),
    }
}

/// The raw bytes of an object, as base64-decoded from the response to the request for it; none,
/// if there is no such object.
pub fn object_bytes(reply: Result<HttpResponse, String>) -> (r: Result<Option<Vec<u8>>, String>)
    ensures
        bytes_view(r) == fetched(reply_view(reply)),
{
    match reply {
        Ok(response) => read_object(&response.to_json()),
        Err(e) => Err(e),
    }
}

/// What a call gives for a response.
pub fn answer(call: ApiCall, response: JsonValue) -> (r: Result<JsonValue, String>)
    ensures
        match r {
            Ok(value) => answered(call, response@) == Ok::<Json, Seq<char>>(value@) && is_plain(
                value@,
            ),
            Err(e) => answered(call, response@) == Err::<Json, Seq<char>>(e@),
        },
{
    proof {
        json::lemma_plain_leaf(Json::Null);
    }
    if call == ApiCall::GetObject {
        return match read_object(&response) {
            Ok(Some(bytes)) => Ok(json::bytes(&bytes)),
            Ok(None) => Ok(JsonValue::Null),
            Err(e) => Err(e),
        };
    }
    let status: u64 = http::parse_http_status(&response);
    if call == ApiCall::GetSession && status == 404 {
        return Ok(JsonValue::Null);
    }
    if !is_success(call, status) {
        let body: String = http::parse_http_body(&response);
        return Err(http::http_error(status, body.as_str()));
    }
    match call {
        ApiCall::DeleteObject => Ok(JsonValue::Null),
        ApiCall::DeleteSession => Ok(JsonValue::Null),
        _ => match http::parse_http_body_json(&response) {
            Some(document) => Ok(document),
            None => match call {
                ApiCall::CreateNamespace => Err("Invalid namespace response".to_owned()),
                _ => Err("Invalid response".to_owned()),
            },
        },
    }
}

/// What a call gives for what came of its request.
pub fn conclude(call: ApiCall, reply: Result<HttpResponse, String>) -> (r: Result<
    JsonValue,
    String,
>)
    ensures
        match r {
            Ok(value) => outcome(call, reply_view(reply)) == Ok::<Json, Seq<char>>(value@)
                && is_plain(value@),
            Err(e) => outcome(call, reply_view(reply)) == Err::<Json, Seq<char>>(e@),
        },
{
    match reply {
        Ok(response) => answer(call, response.to_json()),
        Err(e) => Err(e),
    }
}

/// The model of what came of a request.
pub open spec fn reply_view(reply: Result<HttpResponse, String>) -> Result<
    ResponseView,
    Seq<char>,
> {
    match reply {
        Ok(response) => Ok(response@),
        Err(e) => Err(e@),
    }
}

// ---------------------------------------------------------------------------
// Laws
// ---------------------------------------------------------------------------

/// What was stored is got: where the server answers the request for an object with the bytes
/// that it was given to store, encoded, those bytes come back. What it needs of the encoding is
/// what encoding gives.
pub proof fn lemma_object_is_got(bytes: Seq<u8>, response: ResponseView)
    requires
        response.status == 200,
        response.body_base64 == Some(base64_encoded(bytes)),
        base64_decoded(base64_encoded(bytes)) == Ok::<Seq<u8>, Seq<char>>(bytes),
        base64_encoded(bytes).len() == 0 <==> bytes.len() == 0,
    ensures
        fetched(Ok(response)) == Ok::<Option<Seq<u8>>, Seq<char>>(Some(bytes)),
        outcome(ApiCall::GetObject, Ok(response)) == Ok::<Json, Seq<char>>(bytes_json(bytes)),
{
    http::lemma_response_is_read_back(response);
    if bytes.len() == 0 {
        assert(bytes =~= Seq::empty());
    }
}

/// The document of an object tells which bytes it holds: different bytes, and no object, are
/// written down differently.
pub proof fn lemma_object_json_is_exact(a: Option<Seq<u8>>, b: Option<Seq<u8>>)
    requires
        object_json(a) == object_json(b),
    ensures
        a == b,
{
    if a is Some && b is Some {
        let x = bytes_json(a->0)->Array_0;
        let y = bytes_json(b->0)->Array_0;
        assert(x == y);
        assert(a->0.len() == x.len() && b->0.len() == y.len());
        assert forall|i: int| 0 <= i < a->0.len() implies a->0[i] == b->0[i] by {
            assert(x[i] == y[i]);
        }
        assert(a->0 =~= b->0);
    }
}

/// A call whose request failed, or whose status is not one of success, fails, and the message
/// names the status and the body; the one exception is what may be missing.
pub proof fn lemma_refusals_are_reported(call: ApiCall, response: ResponseView)
    requires
        !succeeded(call, response.status as u64),
    ensures
        may_be_missing(call) && response.status == 404 ==> outcome(call, Ok(response)) == Ok::<
            Json,
            Seq<char>,
        >(Json::Null),
        !(may_be_missing(call) && response.status == 404) ==> outcome(call, Ok(response)) == Err::<
            Json,
            Seq<char>,
        >(error_message(response.status as u64, response.body)),
{
    http::lemma_response_is_read_back(response);
}

} // verus!
