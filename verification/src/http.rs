//! HTTP requests and responses.

use vstd::prelude::*;
use vstd::string::*;
use vstd::utf8::*;

use crate::codec;
use crate::codec::base64_decoded;
use crate::json;
use crate::json::{is_plain, json_parse, optional_text, Json, JsonNumber, JsonValue};
use crate::key_map::precedes;
use crate::text;
use crate::text::{decimal, is_blank};

verus! {

/// The body of a request.
#[derive(Debug)]
pub enum HttpBody {
    Empty,
    Text(String),
    Bytes(Vec<u8>),
}

/// A request to a server.
#[derive(Debug)]
pub struct HttpRequest {
    pub method: String,
    pub url: String,
    pub headers: Vec<(String, String)>,
    pub body: HttpBody,
}

/// A response of a server.
#[derive(Debug)]
pub struct HttpResponse {
    pub status: u16,
    pub body: String,
    pub body_base64: Option<String>,
}

// ---------------------------------------------------------------------------
// Models
// ---------------------------------------------------------------------------

/// The model of an [`HttpBody`].
pub enum BodyView {
    Empty,
    Text(Seq<char>),
    Bytes(Seq<u8>),
}

/// The model of an [`HttpRequest`].
#[verifier::ext_equal]
pub struct RequestView {
    pub method: Seq<char>,
    pub url: Seq<char>,
    pub headers: Seq<(Seq<char>, Seq<char>)>,
    pub body: BodyView,
}

/// The model of an [`HttpResponse`].
pub struct ResponseView {
    pub status: u16,
    pub body: Seq<char>,
    pub body_base64: Option<Seq<char>>,
}

/// The models of the headers.
pub open spec fn headers_view(headers: Seq<(String, String)>) -> Seq<(Seq<char>, Seq<char>)> {
    headers.map_values(|h: (String, String)| (h.0@, h.1@))
}

impl View for HttpBody {
    type V = BodyView;

    open spec fn view(&self) -> BodyView {
        match self {
            HttpBody::Empty => BodyView::Empty,
            HttpBody::Text(s) => BodyView::Text(s@),
            HttpBody::Bytes(b) => BodyView::Bytes(b@),
        }
    }
}

impl View for HttpRequest {
    type V = RequestView;

    open spec fn view(&self) -> RequestView {
        RequestView {
            method: self.method@,
            url: self.url@,
            headers: headers_view(self.headers@),
            body: self.body@,
        }
    }
}

impl View for HttpResponse {
    type V = ResponseView;

    open spec fn view(&self) -> ResponseView {
        ResponseView {
            status: self.status,
            body: self.body@,
            body_base64: optional_text(self.body_base64),
        }
    }
}

impl ResponseView {
    /// The response as a JSON document.
    pub open spec fn json(self) -> Json {
        let body = ("body"@, Json::Str(self.body));
        let status = ("status"@, Json::Number(JsonNumber::PosInt(self.status as u64)));
        match self.body_base64 {
            Some(b) => Json::Object(seq![body, ("body_base64"@, Json::Str(b)), status]),
            None => Json::Object(seq![body, status]),
        }
    }
}

/// The message for a status that is not the expected one.
pub open spec fn error_message(status: u64, body: Seq<char>) -> Seq<char> {
    if body.len() == 0 {
        "HTTP "@ + decimal(status as nat)
    } else {
        "HTTP "@ + decimal(status as nat) + ": "@ + body
    }
}

/// The status of a response.
pub open spec fn status_of(response: Json) -> u64 {
    match response.member("status"@) {
        Some(status) => match status.as_u64() {
            Some(n) => n,
            None => 0,
        },
        None => 0,
    }
}

/// The body of a response.
pub open spec fn body_of(response: Json) -> Seq<char> {
    match response.text("body"@) {
        Some(body) => body,
        None => Seq::empty(),
    }
}

/// The document in the body of a response, if there is one.
pub open spec fn document_of(response: Json) -> Option<Json> {
    if body_of(response).len() == 0 {
        None
    } else {
        match json_parse(body_of(response)) {
            Ok(value) => Some(value),
            Err(_) => None,
        }
    }
}

/// The bytes in the body of a response, or what is wrong with them.
pub open spec fn bytes_of(response: Json) -> Result<Seq<u8>, Seq<char>> {
    match response.text("body_base64"@) {
        Some(encoded) => if encoded.len() == 0 {
            Ok(Seq::empty())
        } else {
            match base64_decoded(encoded) {
                Ok(bytes) => Ok(bytes),
                Err(e) => Err("Invalid HTTP response body_base64: "@ + e),
            }
        },
        None => Ok(encode_utf8(body_of(response))),
    }
}

/// The header that shows a token.
pub open spec fn bearer(token: Seq<char>) -> (Seq<char>, Seq<char>) {
    ("Authorization"@, "Bearer "@ + token)
}

/// The headers of a request that carries JSON: the token is shown unless it is blank.
pub open spec fn json_headers(token: Option<Seq<char>>) -> Seq<(Seq<char>, Seq<char>)> {
    let content_type = ("Content-Type"@, "application/json"@);
    match token {
        Some(t) => if is_blank(t) {
            seq![content_type]
        } else {
            seq![content_type, bearer(t)]
        },
        None => seq![content_type],
    }
}

/// The headers of a request that carries content of a given type: the token is shown if there
/// is one.
pub open spec fn upload_headers(
    content_type: Seq<char>,
    token: Option<Seq<char>>,
) -> Seq<(Seq<char>, Seq<char>)> {
    let content_type = ("Content-Type"@, content_type);
    match token {
        Some(t) => seq![content_type, bearer(t)],
        None => seq![content_type],
    }
}

// ---------------------------------------------------------------------------
// Functions
// ---------------------------------------------------------------------------

impl HttpResponse {
    /// The response as a JSON document.
    pub fn to_json(&self) -> (r: JsonValue)
        ensures
            r@ == self@.json(),
            is_plain(r@),
    {
        proof {
            lemma_response_is_plain(self@);
        }
        let mut members: Vec<(String, JsonValue)> = Vec::new();
        members.push(json::member("body", json::string(self.body.as_str())));
        match &self.body_base64 {
            Some(b) => members.push(json::member("body_base64", json::string(b.as_str()))),
            None => {},
        }
        members.push(json::member("status", json::unsigned(self.status as u64)));
        let r = json::object(members);
        assert(r@->Object_0 =~= self@.json()->Object_0);
        r
    }
}

/// The message for a status that is not the expected one.
pub fn http_error(status: u64, body: &str) -> (r: String)
    ensures
        r@ == error_message(status, body@),
{
    let number: String = text::number(status);
    if body.is_empty() {
        text::join("HTTP ", number.as_str())
    } else {
        text::join4("HTTP ", number.as_str(), ": ", body)
    }
}

/// The status of a response.
pub fn parse_http_status(response: &JsonValue) -> (status: u64)
    ensures
        status == status_of(response@),
{
    match response.get("status") {
        Some(value) => match value.as_u64() {
            Some(n) => n,
            None => 0,
        },
        None => 0,
    }
}

/// The body of a response.
pub fn parse_http_body(response: &JsonValue) -> (body: String)
    ensures
        body@ == body_of(response@),
{
    match response.text("body") {
        Some(body) => body,
        None => String::new(),
    }
}

/// The document in the body of a response, if there is one.
pub fn parse_http_body_json(response: &JsonValue) -> (r: Option<JsonValue>)
    ensures
        match r {
            Some(value) => document_of(response@) == Some(value@) && is_plain(value@),
            None => document_of(response@) is None,
        },
{
    let body: String = parse_http_body(response);
    if body.as_str().is_empty() {
        return None;
    }
    match json::parse(body.as_str()) {
        Ok(value) => Some(value),
        Err(_) => None,
    }
}

/// The bytes in the body of a response.
pub fn parse_http_body_bytes(response: &JsonValue) -> (r: Result<Vec<u8>, String>)
    ensures
        match r {
            Ok(bytes) => bytes_of(response@) == Ok::<Seq<u8>, Seq<char>>(bytes@),
            Err(e) => bytes_of(response@) == Err::<Seq<u8>, Seq<char>>(e@),
        },
{
    match response.text("body_base64") {
        Some(encoded) => {
            if encoded.as_str().is_empty() {
                let none: Vec<u8> = Vec::new();
                return Ok(none);
            }
            match codec::base64_decode(encoded.as_str()) {
                Ok(bytes) => Ok(bytes),
                Err(e) => Err(text::join("Invalid HTTP response body_base64: ", e.as_str())),
            }
        },
        None => Ok(codec::to_utf8(parse_http_body(response).as_str())),
    }
}

/// A header.
fn header(name: &str, value: &str) -> (h: (String, String))
    ensures
        h.0@ == name@,
        h.1@ == value@,
{
    (name.to_owned(), value.to_owned())
}

/// The headers of a request that carries JSON.
pub fn auth_headers(auth_token: &Option<String>) -> (headers: Vec<(String, String)>)
    ensures
        headers_view(headers@) == json_headers(optional_text(*auth_token)),
{
    let mut headers: Vec<(String, String)> = vec![header("Content-Type", "application/json")];
    match auth_token {
        Some(token) => if !text::blank(token.as_str()) {
            headers.push(header("Authorization", text::join("Bearer ", token.as_str()).as_str()));
        },
        None => {},
    }
    assert(headers_view(headers@) =~= json_headers(optional_text(*auth_token)));
    headers
}

/// The headers of a request that carries content of a given type.
pub fn content_headers(content_type: &str, auth_token: &Option<String>) -> (headers: Vec<
    (String, String),
>)
    ensures
        headers_view(headers@) == upload_headers(content_type@, optional_text(*auth_token)),
{
    let mut headers: Vec<(String, String)> = vec![header("Content-Type", content_type)];
    match auth_token {
        Some(token) => {
            headers.push(header("Authorization", text::join("Bearer ", token.as_str()).as_str()));
        },
        None => {},
    }
    assert(headers_view(headers@) =~= upload_headers(content_type@, optional_text(*auth_token)));
    headers
}

impl HttpRequest {
    /// A copy of the request.
    pub fn copied(&self) -> (r: HttpRequest)
        ensures
            r@ == self@,
    {
        let mut headers: Vec<(String, String)> = Vec::new();
        for i in 0..self.headers.len()
            invariant
                headers@.len() == i,
                forall|j: int| 0 <= j < i ==> (#[trigger] headers@[j]).0@ == self.headers@[j].0@
                    && headers@[j].1@ == self.headers@[j].1@,
        {
            headers.push((self.headers[i].0.clone(), self.headers[i].1.clone()));
        }
        assert(headers_view(headers@) =~= headers_view(self.headers@));
        let body: HttpBody = match &self.body {
            HttpBody::Empty => HttpBody::Empty,
            HttpBody::Text(s) => HttpBody::Text(s.clone()),
            HttpBody::Bytes(b) => {
                let mut bytes: Vec<u8> = Vec::new();
                bytes.extend_from_slice(b.as_slice());
                assert(bytes@ =~= b@);
                HttpBody::Bytes(bytes)
            },
        };
        HttpRequest { method: self.method.clone(), url: self.url.clone(), headers, body }
    }
}

// ---------------------------------------------------------------------------
// Laws
// ---------------------------------------------------------------------------

/// What a response holds is read back from its document.
pub proof fn lemma_response_is_read_back(response: ResponseView)
    ensures
        status_of(response.json()) == response.status,
        body_of(response.json()) == response.body,
        response.json().text("body_base64"@) == response.body_base64,
{
    reveal_strlit("body");
    reveal_strlit("body_base64");
    reveal_strlit("status");
    assert("body"@.len() != "body_base64"@.len());
    assert("body"@.len() != "status"@.len());
    assert("body_base64"@.len() != "status"@.len());
    reveal_with_fuel(json::first_member, 4);
    let all = response.json()->Object_0;
    assert(all.drop_first()[0] == all[1]);
    assert(all.drop_first().drop_first().len() == all.len() - 2);
    if response.body_base64 is Some {
        assert(all.drop_first().drop_first()[0] == all[2]);
    }
}

/// The document of a response is written down as `serde_json` holds it.
pub proof fn lemma_response_is_plain(response: ResponseView)
    ensures
        is_plain(response.json()),
{
    let members = response.json()->Object_0;
    reveal_strlit("body");
    reveal_strlit("body_base64");
    reveal_strlit("status");
    assert(precedes("body"@, "status"@));
    assert(precedes("body_base64"@, "status"@));
    assert(precedes("body"@, "body_base64"@)) by {
        reveal_with_fuel(precedes, 5);
    }
    assert forall|i: int| 0 <= i < members.len() implies is_plain((#[trigger] members[i]).1) by {
        json::lemma_plain_leaf(members[i].1);
    }
    json::lemma_plain_object(members);
}

/// A response without `body_base64` holds the UTF-8 bytes of its body; one with it holds what
/// it encodes.
pub proof fn lemma_response_bytes(response: ResponseView)
    ensures
        match response.body_base64 {
            None => bytes_of(response.json()) == Ok::<Seq<u8>, Seq<char>>(
                encode_utf8(response.body),
            ),
            Some(encoded) => encoded.len() > 0 ==> (base64_decoded(encoded) matches Ok(bytes)
                ==> bytes_of(response.json()) == Ok::<Seq<u8>, Seq<char>>(bytes)),
        },
{
    lemma_response_is_read_back(response);
}

} // verus!
