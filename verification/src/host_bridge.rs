//! The texts that go to the host functions of the guest and come back from them.
//!
//! For each host function, one function here writes the text that is passed to it, and one
//! reads what comes back, be it a text or an error.

use vstd::prelude::*;
use vstd::string::*;

use crate::codec;
use crate::codec::{base64_decoded, base64_encoded};
use crate::http::headers_view;
use crate::json;
use crate::json::{is_plain, json_parse, json_text, keys_of, texts, Json, JsonValue};
use crate::key_map::{precedes, walk, KeyMap};
use crate::protocol::{result_view, text_view};
use crate::text;
use crate::text::trimmed;

verus! {

// ---------------------------------------------------------------------------
// Outside functions
// ---------------------------------------------------------------------------

/// What `serde_json::from_str` makes of a text as a list of strings: the strings, or the message
/// of an error.
pub uninterp spec fn strings_parse(text: Seq<char>) -> Result<Seq<Seq<char>>, Seq<char>>;

/// What `serde_json::from_str` makes of a text as a boolean: its value, or the message of an
/// error.
pub uninterp spec fn bool_parse(text: Seq<char>) -> Result<bool, Seq<char>>;

/// The message of the error that `str::parse` gives for a text that is no `u64`.
pub uninterp spec fn u64_error(text: Seq<char>) -> Seq<char>;

/// `serde_json::from_str` for a `Vec<String>`: the strings or the message of the error, each a
/// function of the text.
#[verifier::external_body]
fn parse_strings(text: &str) -> (r: Result<Vec<String>, String>)
    ensures
        match r {
            Ok(strings) => strings_parse(text@) == Ok::<Seq<Seq<char>>, Seq<char>>(
                texts(strings@),
            ),
            Err(message) => strings_parse(text@) == Err::<Seq<Seq<char>>, Seq<char>>(message@),
        },
{
    serde_json::from_str::<Vec<String>>(text).map_err(|e| e.to_string())
}

/// `serde_json::from_str` for a `bool`: the value or the message of the error, each a function
/// of the text.
#[verifier::external_body]
fn parse_bool(text: &str) -> (r: Result<bool, String>)
    ensures
        match r {
            Ok(value) => bool_parse(text@) == Ok::<bool, Seq<char>>(value),
            Err(message) => bool_parse(text@) == Err::<bool, Seq<char>>(message@),
        },
{
    serde_json::from_str::<bool>(text).map_err(|e| e.to_string())
}

/// `str::parse` for a `u64`: digits, perhaps after a plus sign, are the number that they write,
/// if it fits; anything else is an error.
#[verifier::external_body]
fn parse_u64(text: &str) -> (r: Result<u64, String>)
    ensures
        match r {
            Ok(n) => written_number(text@) == Some(n as nat),
            Err(message) => !fits_u64(written_number(text@)) && message@ == u64_error(text@),
        },
{
    text.parse::<u64>().map_err(|e| e.to_string())
}

// ---------------------------------------------------------------------------
// Models
// ---------------------------------------------------------------------------

/// The value of a decimal digit.
pub open spec fn digit_value(c: char) -> Option<nat> {
    if '0' <= c <= '9' {
        Some((c as int - '0' as int) as nat)
    } else {
        None
    }
}

/// The number that digits write.
pub open spec fn digits_value(s: Seq<char>) -> Option<nat>
    decreases s.len(),
{
    if s.len() == 0 {
        None
    } else if s.len() == 1 {
        digit_value(s[0])
    } else {
        match (digits_value(s.drop_last()), digit_value(s.last())) {
            (Some(n), Some(d)) => Some(10 * n + d),
            _ => None,
        }
    }
}

/// The number that a text writes: digits, perhaps after a plus sign.
pub open spec fn written_number(s: Seq<char>) -> Option<nat> {
    if s.len() > 0 && s[0] == '+' {
        digits_value(s.drop_first())
    } else {
        digits_value(s)
    }
}

/// Whether there is a number, and it fits in `u64`.
pub open spec fn fits_u64(n: Option<nat>) -> bool {
    n is Some && n->0 <= u64::MAX
}

/// The text of an object with one string.
pub open spec fn text_with(key: Seq<char>, value: Seq<char>) -> Seq<char> {
    json_text(Json::Object(seq![(key, Json::Str(value))]))
}

/// The text of an object with two strings.
pub open spec fn text_with_two(
    first: (Seq<char>, Seq<char>),
    second: (Seq<char>, Seq<char>),
) -> Seq<char> {
    json_text(
        Json::Object(seq![(first.0, Json::Str(first.1)), (second.0, Json::Str(second.1))]),
    )
}

/// What is said of a host function that failed.
pub open spec fn host_failure(function: Seq<char>, e: Seq<char>) -> Seq<char> {
    function + " failed: "@ + e
}

/// What a host function gave, where its failure is told of.
pub open spec fn host_result(function: Seq<char>, raw: Result<Seq<char>, Seq<char>>) -> Result<
    Seq<char>,
    Seq<char>,
> {
    match raw {
        Ok(s) => Ok(s),
        Err(e) => Err(host_failure(function, e)),
    }
}

/// What comes back when nothing but success matters.
pub open spec fn host_done(function: Seq<char>, raw: Result<Seq<char>, Seq<char>>) -> Result<
    (),
    Seq<char>,
> {
    match raw {
        Ok(_) => Ok(()),
        Err(e) => Err(host_failure(function, e)),
    }
}

/// What is done with the text that a host function gave.
pub open spec fn host_read<A>(
    function: Seq<char>,
    raw: Result<Seq<char>, Seq<char>>,
    what: Seq<char>,
    parsed: spec_fn(Seq<char>) -> Result<A, Seq<char>>,
) -> Result<A, Seq<char>> {
    match raw {
        Ok(s) => match parsed(s) {
            Ok(value) => Ok(value),
            Err(e) => Err(what + e),
        },
        Err(e) => Err(host_failure(function, e)),
    }
}

/// The bytes that an encoded text holds, or what is wrong with it.
pub open spec fn stored_bytes(encoded: Seq<char>) -> Result<Option<Seq<u8>>, Seq<char>> {
    match base64_decoded(encoded) {
        Ok(bytes) => Ok(Some(bytes)),
        Err(e) => Err("Failed to decode storage data: "@ + e),
    }
}

/// What storage holds: nothing for an empty text, for `null` and for an object with empty
/// `data`; what `data` encodes, if the text is an object with it; and what the text itself
/// encodes for every other text.
pub open spec fn stored(text: Seq<char>) -> Result<Option<Seq<u8>>, Seq<char>> {
    if text.len() == 0 {
        Ok(None)
    } else {
        match json_parse(text) {
            Ok(value) => match value.text("data"@) {
                Some(data) => if data.len() == 0 {
                    Ok(None)
                } else {
                    stored_bytes(data)
                },
                None => if value is Null {
                    Ok(None)
                } else {
                    stored_bytes(text)
                },
            },
            Err(_) => stored_bytes(text),
        }
    }
}

/// The headers by name: of several with the same name, the last.
pub open spec fn header_map(headers: Seq<(Seq<char>, Seq<char>)>) -> Map<Seq<char>, Seq<char>>
    decreases headers.len(),
{
    if headers.len() == 0 {
        Map::empty()
    } else {
        header_map(headers.drop_last()).insert(headers.last().0, headers.last().1)
    }
}

/// An object with the given strings.
pub open spec fn map_json(map: Map<Seq<char>, Seq<char>>) -> Json {
    Json::Object(walk(map).map_values(|k: Seq<char>| (k, Json::Str(map[k]))))
}

/// What is passed to the host to make a request.
pub open spec fn http_json(
    method: Seq<char>,
    url: Seq<char>,
    headers: Seq<(Seq<char>, Seq<char>)>,
    body: Option<Json>,
) -> Json {
    Json::Object(
        seq![
            (
                "body"@,
                match body {
                    Some(b) => Json::Str(json_text(b)),
                    None => Json::Null,
                },
            ),
            ("headers"@, map_json(header_map(headers))),
            ("method"@, Json::Str(method)),
            ("url"@, Json::Str(url)),
        ],
    )
}

// ---------------------------------------------------------------------------
// Helpers
// ---------------------------------------------------------------------------

/// The text of an object with one string.
fn write_one(key: &str, value: &str) -> (input: String)
    ensures
        input@ == text_with(key@, value@),
{
    let object: JsonValue = json::object(vec![json::member(key, json::string(value))]);
    proof {
        let members = object@->Object_0;
        assert(members =~= seq![(key@, Json::Str(value@))]);
        json::lemma_plain_leaf(Json::Str(value@));
        json::lemma_plain_object(members);
    }
    object.into_text()
}

/// The text of an object with two strings.
fn write_two(first: (&str, &str), second: (&str, &str)) -> (input: String)
    requires
        precedes(first.0@, second.0@),
    ensures
        input@ == text_with_two((first.0@, first.1@), (second.0@, second.1@)),
{
    let object: JsonValue = json::object(
        vec![
            json::member(first.0, json::string(first.1)),
            json::member(second.0, json::string(second.1)),
        ],
    );
    proof {
        let members = object@->Object_0;
        assert(members =~= seq![
            (first.0@, Json::Str(first.1@)),
            (second.0@, Json::Str(second.1@)),
        ]);
        json::lemma_plain_leaf(Json::Str(first.1@));
        json::lemma_plain_leaf(Json::Str(second.1@));
        json::lemma_plain_object(members);
    }
    object.into_text()
}

/// What is said of a host function that failed.
fn failure(function: &str, e: &str) -> (r: String)
    ensures
        r@ == host_failure(function@, e@),
{
    text::join3(function, " failed: ", e)
}

/// What a host function gave, where its failure is told of.
fn result_of(function: &str, raw: Result<String, String>) -> (r: Result<String, String>)
    ensures
        text_view(r) == host_result(function@, text_view(raw)),
{
    match raw {
        Ok(s) => Ok(s),
        Err(e) => Err(failure(function, e.as_str())),
    }
}

/// What comes back when nothing but success matters.
fn done(function: &str, raw: Result<String, String>) -> (r: Result<(), String>)
    ensures
        match r {
            Ok(_) => host_done(function@, text_view(raw)) is Ok,
            Err(e) => host_done(function@, text_view(raw)) == Err::<(), Seq<char>>(e@),
        },
{
    match raw {
        Ok(_) => Ok(()),
        Err(e) => Err(failure(function, e.as_str())),
    }
}

// ---------------------------------------------------------------------------
// Host functions
// ---------------------------------------------------------------------------

/// Log a message at the given level: the text for the host.
pub fn log_message(level: &str, message: &str) -> (input: String)
    ensures
        input@ == text_with_two(("level"@, level@), ("message"@, message@)),
{
    proof {
        reveal_strlit("level");
        reveal_strlit("message");
        assert(precedes("level"@, "message"@));
    }
    write_two(("level", level), ("message", message))
}

/// Read a workspace file as a string: the text for the host.
pub fn read_file(path: &str) -> (input: String)
    ensures
        input@ == text_with("path"@, path@),
{
    write_one("path", path)
}

/// The content of a workspace file.
pub fn read_file_reply(raw: Result<String, String>) -> (r: Result<String, String>)
    ensures
        text_view(r) == host_result("host_read_file"@, text_view(raw)),
{
    result_of("host_read_file", raw)
}

/// List files recursively under a prefix: the text for the host.
pub fn list_files(prefix: &str) -> (input: String)
    ensures
        input@ == text_with("prefix"@, prefix@),
{
    write_one("prefix", prefix)
}

/// The files under a prefix.
pub fn list_files_reply(raw: Result<String, String>) -> (r: Result<Vec<String>, String>)
    ensures
        (match r {
            Ok(files) => Ok::<Seq<Seq<char>>, Seq<char>>(texts(files@)),
            Err(e) => Err::<Seq<Seq<char>>, Seq<char>>(e@),
        }) == host_read(
            "host_list_files"@,
            text_view(raw),
            "Failed to parse file list: "@,
            |s: Seq<char>| strings_parse(s),
        ),
{
    match raw {
        Ok(s) => match parse_strings(s.as_str()) {
            Ok(files) => Ok(files),
            Err(e) => Err(text::join("Failed to parse file list: ", e.as_str())),
        },
        Err(e) => Err(failure("host_list_files", e.as_str())),
    }
}

/// Check if a file exists: the text for the host.
pub fn file_exists(path: &str) -> (input: String)
    ensures
        input@ == text_with("path"@, path@),
{
    write_one("path", path)
}

/// Whether a file exists.
pub fn file_exists_reply(raw: Result<String, String>) -> (r: Result<bool, String>)
    ensures
        (match r {
            Ok(exists) => Ok::<bool, Seq<char>>(exists),
            Err(e) => Err::<bool, Seq<char>>(e@),
        }) == host_read(
            "host_file_exists"@,
            text_view(raw),
            "Failed to parse exists result: "@,
            |s: Seq<char>| bool_parse(s),
        ),
{
    match raw {
        Ok(s) => match parse_bool(s.as_str()) {
            Ok(exists) => Ok(exists),
            Err(e) => Err(text::join("Failed to parse exists result: ", e.as_str())),
        },
        Err(e) => Err(failure("host_file_exists", e.as_str())),
    }
}

/// Write a text file to the workspace: the text for the host.
pub fn write_file(path: &str, content: &str) -> (input: String)
    ensures
        input@ == text_with_two(("content"@, content@), ("path"@, path@)),
{
    proof {
        reveal_strlit("content");
        reveal_strlit("path");
        assert(precedes("content"@, "path"@));
    }
    write_two(("content", content), ("path", path))
}

/// Whether a text file was written.
pub fn write_file_reply(raw: Result<String, String>) -> (r: Result<(), String>)
    ensures
        match r {
            Ok(_) => host_done("host_write_file"@, text_view(raw)) is Ok,
            Err(e) => host_done("host_write_file"@, text_view(raw)) == Err::<(), Seq<char>>(e@),
        },
{
    done("host_write_file", raw)
}

/// Delete a workspace file: the text for the host.
pub fn delete_file(path: &str) -> (input: String)
    ensures
        input@ == text_with("path"@, path@),
{
    write_one("path", path)
}

/// Whether a workspace file was deleted.
pub fn delete_file_reply(raw: Result<String, String>) -> (r: Result<(), String>)
    ensures
        match r {
            Ok(_) => host_done("host_delete_file"@, text_view(raw)) is Ok,
            Err(e) => host_done("host_delete_file"@, text_view(raw)) == Err::<(), Seq<char>>(e@),
        },
{
    done("host_delete_file", raw)
}

/// Write binary content to a file: the text for the host. The host can decode from it what was
/// to be written.
pub fn write_binary(path: &str, content: &[u8]) -> (input: String)
    ensures
        input@ == text_with_two(("content"@, base64_encoded(content@)), ("path"@, path@)),
        base64_decoded(base64_encoded(content@)) == Ok::<Seq<u8>, Seq<char>>(content@),
{
    proof {
        reveal_strlit("content");
        reveal_strlit("path");
        assert(precedes("content"@, "path"@));
    }
    let encoded: String = codec::base64_encode(content);
    write_two(("content", encoded.as_str()), ("path", path))
}

/// Whether binary content was written.
pub fn write_binary_reply(raw: Result<String, String>) -> (r: Result<(), String>)
    ensures
        match r {
            Ok(_) => host_done("host_write_binary"@, text_view(raw)) is Ok,
            Err(e) => host_done("host_write_binary"@, text_view(raw)) == Err::<(), Seq<char>>(e@),
        },
{
    done("host_write_binary", raw)
}

/// Emit an event to the host: the text for the host.
pub fn emit_event(event_json: &str) -> (input: String)
    ensures
        input@ == event_json@,
{
    event_json.to_owned()
}

/// Whether an event was emitted.
pub fn emit_event_reply(raw: Result<String, String>) -> (r: Result<(), String>)
    ensures
        match r {
            Ok(_) => host_done("host_emit_event"@, text_view(raw)) is Ok,
            Err(e) => host_done("host_emit_event"@, text_view(raw)) == Err::<(), Seq<char>>(e@),
        },
{
    done("host_emit_event", raw)
}

/// Load persisted data by key: the text for the host.
pub fn storage_get(key: &str) -> (input: String)
    ensures
        input@ == text_with("key"@, key@),
{
    write_one("key", key)
}

/// The bytes that an encoded text holds.
fn decode_stored(encoded: &str) -> (r: Result<Option<Vec<u8>>, String>)
    ensures
        stored_view(r) == stored_bytes(encoded@),
{
    match codec::base64_decode(encoded) {
        Ok(bytes) => Ok(Some(bytes)),
        Err(e) => Err(text::join("Failed to decode storage data: ", e.as_str())),
    }
}

/// The model of what storage holds.
pub open spec fn stored_view(r: Result<Option<Vec<u8>>, String>) -> Result<
    Option<Seq<u8>>,
    Seq<char>,
> {
    match r {
        Ok(Some(bytes)) => Ok(Some(bytes@)),
        Ok(None) => Ok(None),
        Err(e) => Err(e@),
    }
}

/// The persisted data. The host may answer with an object that holds it, or with the encoded
/// data itself.
pub fn storage_get_reply(raw: Result<String, String>) -> (r: Result<Option<Vec<u8>>, String>)
    ensures
        stored_view(r) == (match raw {
            Ok(s) => stored(s@),
            Err(e) => Err(host_failure("host_storage_get"@, e@)),
        }),
{
    let result: String = match raw {
        Ok(s) => s,
        Err(e) => {
            return Err(failure("host_storage_get", e.as_str()));
        },
    };
    if result.as_str().is_empty() {
        return Ok(None);
    }
    match json::parse(result.as_str()) {
        Ok(value) => {
            match value.text("data") {
                Some(data) => {
                    if data.as_str().is_empty() {
                        return Ok(None);
                    }
                    return decode_stored(data.as_str());
                },
                None => {},
            }
            if value.is_null() {
                return Ok(None);
            }
        },
        Err(_) => {},
    }
    decode_stored(result.as_str())
}

/// Persist data by key: the text for the host. The data can be decoded from it.
pub fn storage_set(key: &str, data: &[u8]) -> (input: String)
    ensures
        input@ == text_with_two(("data"@, base64_encoded(data@)), ("key"@, key@)),
        base64_decoded(base64_encoded(data@)) == Ok::<Seq<u8>, Seq<char>>(data@),
        base64_encoded(data@).len() == 0 <==> data@.len() == 0,
{
    proof {
        reveal_strlit("data");
        reveal_strlit("key");
        assert(precedes("data"@, "key"@));
    }
    let encoded: String = codec::base64_encode(data);
    write_two(("data", encoded.as_str()), ("key", key))
}

/// Whether data was persisted.
pub fn storage_set_reply(raw: Result<String, String>) -> (r: Result<(), String>)
    ensures
        match r {
            Ok(_) => host_done("host_storage_set"@, text_view(raw)) is Ok,
            Err(e) => host_done("host_storage_set"@, text_view(raw)) == Err::<(), Seq<char>>(e@),
        },
{
    done("host_storage_set", raw)
}

/// The current timestamp in milliseconds, from what the host gave.
pub fn get_timestamp(raw: Result<String, String>) -> (r: Result<u64, String>)
    ensures
        match raw {
            Ok(s) => match r {
                Ok(n) => written_number(trimmed(s@)) == Some(n as nat),
                Err(e) => !fits_u64(written_number(trimmed(s@))) && e@
                    == "Failed to parse timestamp: "@ + u64_error(trimmed(s@)),
            },
            Err(e) => r matches Err(m) && m@ == host_failure("host_get_timestamp"@, e@),
        },
{
    match raw {
        Ok(s) => match parse_u64(text::trim(s.as_str())) {
            Ok(n) => Ok(n),
            Err(e) => Err(text::join("Failed to parse timestamp: ", e.as_str())),
        },
        Err(e) => Err(failure("host_get_timestamp", e.as_str())),
    }
}

/// What the host gave for a websocket request.
pub fn ws_request(raw: Result<String, String>) -> (r: Result<String, String>)
    ensures
        text_view(r) == host_result("host_ws_request"@, text_view(raw)),
{
    result_of("host_ws_request", raw)
}

/// The headers by name.
fn collect_headers(headers: &[(String, String)]) -> (map: KeyMap<String>)
    ensures
        map@ == header_map(headers_view(headers@)),
{
    let ghost all = headers_view(headers@);
    let mut map: KeyMap<String> = KeyMap::new();
    let len: usize = headers.len();
    assert(all.take(0) =~= Seq::empty());
    for i in 0..len
        invariant
            len == headers@.len(),
            all == headers_view(headers@),
            map@ == header_map(all.take(i as int)),
    {
        proof {
            assert(all.take(i + 1).drop_last() =~= all.take(i as int));
            assert(all.take(i + 1).last() == (headers@[i as int].0@, headers@[i as int].1@));
        }
        map.insert(headers[i].0.as_str(), headers[i].1.clone());
    }
    assert(all.take(len as int) =~= all);
    map
}

/// An object with the given strings.
fn write_map(map: &KeyMap<String>) -> (r: JsonValue)
    ensures
        r@ == map_json(map@),
        is_plain(r@),
{
    let len: usize = map.len();
    let ghost keys = map.keys();
    proof {
        map.lemma_walk();
    }
    let mut members: Vec<(String, JsonValue)> = Vec::new();
    for i in 0..len
        invariant
            len == keys.len(),
            keys == map.keys(),
            members@.len() == i,
            forall|j: int| 0 <= j < i ==> (#[trigger] members@[j]).0@ == keys[j] && members@[j].1@
                == Json::Str(map@[keys[j]]),
    {
        let (key, value) = map.entry(i);
        members.push(json::member(key, json::string(value.as_str())));
    }
    let r = json::object(members);
    proof {
        let all = r@->Object_0;
        assert(all =~= map_json(map@)->Object_0);
        assert(keys_of(all) =~= keys);
        assert forall|i: int| 0 <= i < all.len() implies is_plain((#[trigger] all[i]).1) by {
            json::lemma_plain_leaf(all[i].1);
        }
        json::lemma_plain_object(all);
    }
    r
}

/// The model of an optional document.
pub open spec fn optional_json(value: Option<JsonValue>) -> Option<Json> {
    match value {
        Some(v) => Some(v@),
        None => None,
    }
}

/// Perform an HTTP request via the host runtime: the text for the host.
pub fn http_request(
    method: &str,
    url: &str,
    headers: &[(String, String)],
    body_json: Option<JsonValue>,
) -> (input: String)
    ensures
        (body_json matches Some(body) ==> is_plain(body@)) ==> input@ == json_text(
            http_json(method@, url@, headers_view(headers@), optional_json(body_json)),
        ),
{
    let ghost given = optional_json(body_json);
    let body: JsonValue = match body_json {
        Some(b) => JsonValue::String(b.into_text()),
        None => JsonValue::Null,
    };
    let map: KeyMap<String> = collect_headers(headers);
    let input: JsonValue = json::object(
        vec![
            json::member("body", body),
            json::member("headers", write_map(&map)),
            json::member("method", json::string(method)),
            json::member("url", json::string(url)),
        ],
    );
    proof {
        let members = input@->Object_0;
        if given is Some ==> is_plain(given->0) {
            assert(members =~= http_json(method@, url@, headers_view(headers@), given)->Object_0);
        }
        reveal_strlit("body");
        reveal_strlit("headers");
        reveal_strlit("method");
        reveal_strlit("url");
        json::lemma_plain_leaf(members[0].1);
        json::lemma_plain_leaf(members[2].1);
        json::lemma_plain_leaf(members[3].1);
        let keys = keys_of(members);
        assert forall|i: int, j: int| 0 <= i < j < keys.len() implies precedes(
            #[trigger] keys[i],
            #[trigger] keys[j],
        ) by {
            assert(keys[i] == members[i].0);
            assert(keys[j] == members[j].0);
        }
        json::lemma_plain_object(members);
    }
    input.into_text()
}

/// The response that the host gave.
pub fn http_request_reply(raw: Result<String, String>) -> (r: Result<JsonValue, String>)
    ensures
        result_view(r) == host_read(
            "host_http_request"@,
            text_view(raw),
            "Failed to parse host_http_request: "@,
            |s: Seq<char>| json_parse(s),
        ),
{
    match raw {
        Ok(s) => match json::parse(s.as_str()) {
            Ok(value) => Ok(value),
            Err(e) => Err(text::join("Failed to parse host_http_request: ", e.as_str())),
        },
        Err(e) => Err(failure("host_http_request", e.as_str())),
    }
}

// ---------------------------------------------------------------------------
// Laws
// ---------------------------------------------------------------------------

/// What was stored is loaded: where the host answers with an object that holds the data that
/// was passed to it, the bytes that come back are those that were stored; and if there were none,
/// nothing comes back. What it needs of the encoding is what storing the data gives.
pub proof fn lemma_storage_roundtrip(data: Seq<u8>, answer: Seq<char>, value: Json)
    requires
        answer.len() > 0,
        base64_decoded(base64_encoded(data)) == Ok::<Seq<u8>, Seq<char>>(data),
        base64_encoded(data).len() == 0 <==> data.len() == 0,
        json_parse(answer) == Ok::<Json, Seq<char>>(value),
        value.text("data"@) == Some(base64_encoded(data)),
    ensures
        stored(answer) == Ok::<Option<Seq<u8>>, Seq<char>>(
            if data.len() == 0 {
                None
            } else {
                Some(data)
            },
        ),
{
}

/// A number that is written in decimal notation is read back.
pub proof fn lemma_number_roundtrip(n: nat)
    ensures
        written_number(text::decimal(n)) == Some(n),
{
    lemma_digits_roundtrip(n);
    assert(text::decimal(n)[0] != '+') by {
        lemma_decimal_digits(n);
    }
}

proof fn lemma_digit(d: nat)
    requires
        d < 10,
    ensures
        digit_value(text::digit(d)) == Some(d),
        text::digit(d) != '+',
{
}

proof fn lemma_decimal_digits(n: nat)
    ensures
        text::decimal(n).len() > 0,
        text::decimal(n)[0] != '+',
    decreases n,
{
    if n < 10 {
        lemma_digit(n);
    } else {
        lemma_decimal_digits(n / 10);
    }
}

proof fn lemma_digits_roundtrip(n: nat)
    ensures
        digits_value(text::decimal(n)) == Some(n),
    decreases n,
{
    lemma_decimal_digits(n);
    if n < 10 {
        lemma_digit(n);
    } else {
        lemma_digits_roundtrip(n / 10);
        lemma_decimal_digits(n / 10);
        lemma_digit(n % 10);
        let s = text::decimal(n);
        assert(s.drop_last() =~= text::decimal(n / 10));
    }
}

} // verus!
