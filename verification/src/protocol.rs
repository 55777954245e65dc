//! The JSON protocol between the host and the plugin.

use vstd::prelude::*;
use vstd::string::*;

use crate::json;
use crate::json::{
    is_plain, json_parse, json_text, value_contents, Json, JsonValue,
};
use crate::key_map::precedes;
use crate::text;

verus! {

/// What `serde_json::from_str` makes of a text as a `CommandRequest`: the command and its
/// parameters, or the message of an error.
pub uninterp spec fn request_parse(input: Seq<char>) -> Result<(Seq<char>, Json), Seq<char>>;

/// What `serde_json::from_str` makes of a text as a `GuestEvent`: the type of the event and its
/// payload, or the message of an error.
pub uninterp spec fn event_parse(input: Seq<char>) -> Result<(Seq<char>, Json), Seq<char>>;

/// `serde_json::from_str` for a `CommandRequest` of `diaryx_plugin_sdk`: its two fields or the
/// message of the error, each a function of the text.
#[verifier::external_body]
fn parse_request(input: &str) -> (r: Result<(String, serde_json::Value), String>)
    ensures
        match r {
            Ok(request) => request_parse(input@) == Ok::<(Seq<char>, Json), Seq<char>>(
                (request.0@, value_contents(request.1)),
            ),
            Err(message) => request_parse(input@) == Err::<(Seq<char>, Json), Seq<char>>(message@),
        },
{
    serde_json::from_str::<diaryx_plugin_sdk::protocol::CommandRequest>(input)
        .map(|request| (request.command, request.params))
        .map_err(|e| e.to_string())
}

/// `serde_json::from_str` for a `GuestEvent` of `diaryx_plugin_sdk`: its two fields or the
/// message of the error, each a function of the text.
#[verifier::external_body]
fn parse_event(input: &str) -> (r: Result<(String, serde_json::Value), String>)
    ensures
        match r {
            Ok(event) => event_parse(input@) == Ok::<(Seq<char>, Json), Seq<char>>(
                (event.0@, value_contents(event.1)),
            ),
            Err(message) => event_parse(input@) == Err::<(Seq<char>, Json), Seq<char>>(message@),
        },
{
    serde_json::from_str::<diaryx_plugin_sdk::protocol::GuestEvent>(input)
        .map(|event| (event.event_type, event.payload))
        .map_err(|e| e.to_string())
}

/// `CommandResponse::ok` of `diaryx_plugin_sdk`, written by `serde_json::to_string`: the fields
/// in the order of their declaration, the data as its own text, and no error. Writing it cannot
/// fail.
#[verifier::external_body]
fn ok_response_text(data: serde_json::Value) -> (r: Result<String, String>)
    ensures
        match r {
            Ok(text) => text@ == success_text(value_contents(data)),
            Err(_) => false,
        },
{
    let response = diaryx_plugin_sdk::protocol::CommandResponse::ok(data);
    serde_json::to_string(&response).map_err(|e| e.to_string())
}

/// `CommandResponse::err` of `diaryx_plugin_sdk`, written by `serde_json::to_string`: the fields
/// in the order of their declaration, no data, and the error as the text of a JSON string.
/// Writing it cannot fail.
#[verifier::external_body]
fn err_response_text(error: String) -> (r: Result<String, String>)
    ensures
        match r {
            Ok(text) => text@ == failure_text(error@),
            Err(_) => false,
        },
{
    let response = diaryx_plugin_sdk::protocol::CommandResponse::err(error);
    serde_json::to_string(&response).map_err(|e| e.to_string())
}

// ---------------------------------------------------------------------------
// Models
// ---------------------------------------------------------------------------

/// The text of the response to a command that succeeded.
pub open spec fn success_text(data: Json) -> Seq<char> {
    "{\"success\":true,\"data\":"@ + json_text(data) + ",\"error\":null}"@
}

/// The text of the response to a command that failed.
pub open spec fn failure_text(error: Seq<char>) -> Seq<char> {
    "{\"success\":false,\"data\":null,\"error\":"@ + json_text(Json::Str(error)) + "}"@
}

/// The command that a text asks for, with its parameters, or why it asks for none.
pub open spec fn typed_request(input: Seq<char>) -> Result<(Seq<char>, Json), Seq<char>> {
    match json_parse(input) {
        Ok(parsed) => match parsed.text("type"@) {
            Some(command) => Ok(
                (
                    command,
                    match parsed.member("params"@) {
                        Some(params) => params,
                        None => Json::Null,
                    },
                ),
            ),
            None => Err("Missing 'type' field in command"@),
        },
        Err(e) => Err("Invalid JSON: "@ + e),
    }
}

/// What is answered to a typed command.
pub open spec fn plugin_result(data: Json) -> Json {
    Json::Object(seq![("data"@, data), ("type"@, Json::Str("PluginResult"@))])
}

/// The answer to a typed command: nothing, if there is no such command.
pub open spec fn typed_answer(result: Result<Json, Seq<char>>) -> Result<Seq<char>, Seq<char>> {
    match result {
        Ok(data) => Ok(json_text(plugin_result(data))),
        Err(e) => if "Unknown command:"@.is_prefix_of(e) {
            Ok(Seq::empty())
        } else {
            Err(e)
        },
    }
}

/// The model of a command with its parameters, or of an error.
pub open spec fn pair_view(r: Result<(String, JsonValue), String>) -> Result<
    (Seq<char>, Json),
    Seq<char>,
> {
    match r {
        Ok(pair) => Ok((pair.0@, pair.1@)),
        Err(e) => Err(e@),
    }
}

/// The model of the result of a command.
pub open spec fn result_view(r: Result<JsonValue, String>) -> Result<Json, Seq<char>> {
    match r {
        Ok(value) => Ok(value@),
        Err(e) => Err(e@),
    }
}

/// The model of a text or of an error.
pub open spec fn text_view(r: Result<String, String>) -> Result<Seq<char>, Seq<char>> {
    match r {
        Ok(s) => Ok(s@),
        Err(e) => Err(e@),
    }
}

// ---------------------------------------------------------------------------
// Functions
// ---------------------------------------------------------------------------

/// The command that the host asks for, with its parameters.
pub fn read_command(input: &str) -> (r: Result<(String, JsonValue), String>)
    ensures
        pair_view(r) == request_parse(input@),
        r matches Ok(pair) ==> is_plain(pair.1@),
{
    match parse_request(input) {
        Ok((command, params)) => Ok((command, json::from_value(params))),
        Err(e) => Err(e),
    }
}

/// The event that the host tells of: its type and its payload.
pub fn read_event(input: &str) -> (r: Result<(String, JsonValue), String>)
    ensures
        pair_view(r) == event_parse(input@),
        r matches Ok(pair) ==> is_plain(pair.1@),
{
    match parse_event(input) {
        Ok((event_type, payload)) => Ok((event_type, json::from_value(payload))),
        Err(e) => Err(e),
    }
}

/// The typed command that the host asks for, with its parameters.
pub fn read_typed_command(input: &str) -> (r: Result<(String, JsonValue), String>)
    ensures
        pair_view(r) == typed_request(input@),
        r matches Ok(pair) ==> is_plain(pair.1@),
{
    match json::parse(input) {
        Ok(parsed) => {
            let command: Option<String> = parsed.text("type");
            proof {
                json::lemma_plain_member(parsed@, "params"@);
                json::lemma_plain_leaf(Json::Null);
            }
            match command {
                Some(command) => match parsed.into_member("params") {
                    Some(params) => Ok((command, params)),
                    None => Ok((command, JsonValue::Null)),
                },
                None => Err("Missing 'type' field in command".to_owned()),
            }
        },
        Err(e) => Err(text::join("Invalid JSON: ", e.as_str())),
    }
}

/// The response to a command.
pub fn command_response(result: Result<JsonValue, String>) -> (r: Result<String, String>)
    ensures
        match result {
            Ok(data) => is_plain(data@) ==> text_view(r) == Ok::<Seq<char>, Seq<char>>(
                success_text(data@),
            ),
            Err(e) => text_view(r) == Ok::<Seq<char>, Seq<char>>(failure_text(e@)),
        },
{
    match result {
        Ok(data) => ok_response_text(data.into_value()),
        Err(e) => err_response_text(e),
    }
}

/// The answer to a typed command.
pub fn typed_response(result: Result<JsonValue, String>) -> (r: Result<String, String>)
    ensures
        (result matches Ok(data) ==> is_plain(data@)) ==> text_view(r) == typed_answer(
            result_view(result),
        ),
{
    match result {
        Ok(data) => {
            let ghost given = data@;
            let answer = json::object(
                vec![
                    json::member("data", data),
                    json::member("type", json::string("PluginResult")),
                ],
            );
            proof {
                let members = answer@->Object_0;
                assert(members =~= plugin_result(given)->Object_0);
                reveal_strlit("data");
                reveal_strlit("type");
                assert(precedes("data"@, "type"@));
                json::lemma_plain_leaf(Json::Str("PluginResult"@));
                if is_plain(given) {
                    json::lemma_plain_object(members);
                }
            }
            Ok(answer.into_text())
        },
        Err(e) => if text::starts_with(e.as_str(), "Unknown command:") {
            let none = String::new();
            assert(none@ =~= Seq::empty());
            Ok(none)
        } else {
            Err(e)
        },
    }
}

} // verus!
