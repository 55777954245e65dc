//! What is said to the host and how its answers are read.

use vstd::prelude::*;
use vstd::string::*;

use crate::codec::base64_decoded;
use crate::host::{Call, Reply};
use crate::host_bridge::{
    digits_value, header_map, host_done, host_failure, host_read, host_result, http_json, map_json,
    stored, text_with, text_with_two, written_number,
};
use crate::host_fs::{has_children, md_files, ErrorView, FsErrorKind, FsView, OutcomeView};
use crate::json::{json_parse, json_text, present, strings_json, Json, JsonNumber};
use crate::key_map::walk;
use crate::laws::listings::lemma_members_are_found;
use crate::manifest::{function_json, plugin_manifest, FunctionView, ManifestDoc};
use crate::protocol::{failure_text, success_text, typed_answer, typed_request};
use crate::text::trimmed_end_of;

verus! {

// ---------------------------------------------------------------------------
// Host functions
// ---------------------------------------------------------------------------

/// What is passed to a host function is an object with the given texts, unchanged.
pub proof fn lemma_host_inputs(a: Seq<char>, x: Seq<char>, b: Seq<char>, y: Seq<char>)
    ensures
        text_with(a, x) == json_text(Json::Object(seq![(a, Json::Str(x))])),
        text_with_two((a, x), (b, y)) == json_text(
            Json::Object(seq![(a, Json::Str(x)), (b, Json::Str(y))]),
        ),
{
}

/// What a host function gives is taken as it is; its failure is told with its name; and a text
/// that cannot be read is told with what it should have been.
pub proof fn lemma_host_outputs(
    function: Seq<char>,
    text: Seq<char>,
    e: Seq<char>,
    what: Seq<char>,
    parsed: spec_fn(Seq<char>) -> Result<bool, Seq<char>>,
)
    ensures
        host_result(function, Ok(text)) == Ok::<Seq<char>, Seq<char>>(text),
        host_result(function, Err(e)) == Err::<Seq<char>, Seq<char>>(
            function + " failed: "@ + e,
        ),
        host_done(function, Ok(text)) is Ok,
        host_done(function, Err(e)) == Err::<(), Seq<char>>(function + " failed: "@ + e),
        host_failure(function, e) == function + " failed: "@ + e,
        host_read(function, Err(e), what, parsed) == Err::<bool, Seq<char>>(
            function + " failed: "@ + e,
        ),
        (parsed(text) matches Ok(b) ==> host_read(function, Ok(text), what, parsed) == Ok::<
            bool,
            Seq<char>,
        >(b)),
        (parsed(text) matches Err(problem) ==> host_read(function, Ok(text), what, parsed) == Err::<
            bool,
            Seq<char>,
        >(what + problem)),
{
}

/// A list of files that the host gives is taken as it is read.
pub proof fn lemma_host_lists(
    function: Seq<char>,
    text: Seq<char>,
    e: Seq<char>,
    what: Seq<char>,
    parsed: spec_fn(Seq<char>) -> Result<Seq<Seq<char>>, Seq<char>>,
)
    ensures
        host_read(function, Err(e), what, parsed) == Err::<Seq<Seq<char>>, Seq<char>>(
            function + " failed: "@ + e,
        ),
        (parsed(text) matches Ok(files) ==> host_read(function, Ok(text), what, parsed) == Ok::<
            Seq<Seq<char>>,
            Seq<char>,
        >(files)),
        (parsed(text) matches Err(problem) ==> host_read(function, Ok(text), what, parsed) == Err::<
            Seq<Seq<char>>,
            Seq<char>,
        >(what + problem)),
{
}

/// What storage gives is the bytes that are encoded in `data` of the object that it answers, or
/// in the answer itself; an empty answer, `null` and empty `data` are nothing.
pub proof fn lemma_storage_is_read(text: Seq<char>, value: Json, data: Seq<char>)
    ensures
        text.len() == 0 ==> stored(text) == Ok::<Option<Seq<u8>>, Seq<char>>(None),
        text.len() > 0 && json_parse(text) == Ok::<Json, Seq<char>>(Json::Null) ==> stored(text)
            == Ok::<Option<Seq<u8>>, Seq<char>>(None),
        text.len() > 0 && json_parse(text) == Ok::<Json, Seq<char>>(value) && value.member("data"@)
            == Some(Json::Str(data)) ==> {
            &&& data.len() == 0 ==> stored(text) == Ok::<Option<Seq<u8>>, Seq<char>>(None)
            &&& data.len() > 0 ==> match base64_decoded(data) {
                Ok(bytes) => stored(text) == Ok::<Option<Seq<u8>>, Seq<char>>(Some(bytes)),
                Err(e) => stored(text) == Err::<Option<Seq<u8>>, Seq<char>>(
                    "Failed to decode storage data: "@ + e,
                ),
            }
        },
        text.len() > 0 && (json_parse(text) is Err || (json_parse(text) == Ok::<Json, Seq<char>>(
            value,
        ) && value.text("data"@) is None && !(value is Null))) ==> match base64_decoded(text) {
            Ok(bytes) => stored(text) == Ok::<Option<Seq<u8>>, Seq<char>>(Some(bytes)),
            Err(e) => stored(text) == Err::<Option<Seq<u8>>, Seq<char>>(
                "Failed to decode storage data: "@ + e,
            ),
        },
{
}

/// Digits write a number, the last one last; a plus sign may stand before them; nothing else
/// writes a number.
pub proof fn lemma_written_numbers(s: Seq<char>, c: char)
    ensures
        digits_value(seq![c]) == (if '0' <= c <= '9' {
            Some((c as int - '0' as int) as nat)
        } else {
            None
        }),
        s.len() > 0 ==> digits_value(s.push(c)) == (if digits_value(s) is Some && '0' <= c <= '9' {
            Some((10 * digits_value(s)->0 + (c as int - '0' as int)) as nat)
        } else {
            None
        }),
        digits_value(Seq::empty()) is None,
        written_number(seq!['+'] + s) == digits_value(s),
        s.len() == 0 || s[0] != '+' ==> written_number(s) == digits_value(s),
{
    if s.len() > 0 {
        assert(s.push(c).drop_last() =~= s);
    }
    assert((seq!['+'] + s).drop_first() =~= s);
}

/// Of several headers with the same name the last counts, and there are no others.
pub proof fn lemma_headers_by_name(headers: Seq<(Seq<char>, Seq<char>)>, name: Seq<char>, i: int)
    requires
        0 <= i < headers.len(),
        headers[i].0 == name,
        forall|j: int| i < j < headers.len() ==> (#[trigger] headers[j]).0 != name,
    ensures
        header_map(headers).contains_key(name),
        header_map(headers)[name] == headers[i].1,
    decreases headers.len(),
{
    if i < headers.len() - 1 {
        let rest = headers.drop_last();
        assert(headers[headers.len() - 1].0 != name);
        assert forall|j: int| i < j < rest.len() implies (#[trigger] rest[j]).0 != name by {
            assert(rest[j] == headers[j]);
        }
        lemma_headers_by_name(rest, name, i);
    }
}

/// There is no header under a name that none has.
pub proof fn lemma_no_other_headers(headers: Seq<(Seq<char>, Seq<char>)>, name: Seq<char>)
    requires
        forall|j: int| 0 <= j < headers.len() ==> (#[trigger] headers[j]).0 != name,
    ensures
        !header_map(headers).contains_key(name),
    decreases headers.len(),
{
    if headers.len() > 0 {
        let rest = headers.drop_last();
        assert(headers[headers.len() - 1].0 != name);
        assert forall|j: int| 0 <= j < rest.len() implies (#[trigger] rest[j]).0 != name by {
            assert(rest[j] == headers[j]);
        }
        lemma_no_other_headers(rest, name);
    }
}

/// The document of texts by name has each of them as a member.
pub proof fn lemma_texts_by_name(map: Map<Seq<char>, Seq<char>>, name: Seq<char>)
    requires
        map.contains_key(name),
        crate::key_map::ascending(walk(map)),
        walk(map).contains(name),
    ensures
        map_json(map).member(name) == Some(Json::Str(map[name])),
{
    let keys = walk(map);
    let i = keys.index_of(name);
    let members = map_json(map)->Object_0;
    assert(members[i] == (keys[i], Json::Str(map[keys[i]])));
    assert forall|j: int| 0 <= j < i implies (#[trigger] members[j]).0 != name by {
        assert(members[j].0 == keys[j]);
        assert(crate::key_map::precedes(keys[j], keys[i]));
        crate::key_map::lemma_precedes_irreflexive(name);
    }
    lemma_members_are_found(members, name, i);
}

/// A request is passed to the host with its method, its address, its headers by name, and its
/// body as text, or `null`.
pub proof fn lemma_requests_for_the_host(
    method: Seq<char>,
    url: Seq<char>,
    headers: Seq<(Seq<char>, Seq<char>)>,
    body: Option<Json>,
)
    ensures
        ({
            let request = http_json(method, url, headers, body);
            &&& request.member("method"@) == Some(Json::Str(method))
            &&& request.member("url"@) == Some(Json::Str(url))
            &&& request.member("headers"@) == Some(map_json(header_map(headers)))
            &&& request.member("body"@) == Some(
                match body {
                    Some(document) => Json::Str(json_text(document)),
                    None => Json::Null,
                },
            )
        }),
{
    reveal_strlit("body");
    reveal_strlit("headers");
    reveal_strlit("method");
    reveal_strlit("url");
    assert("body"@[0] == 'b');
    assert("headers"@[0] == 'h');
    assert("method"@[0] == 'm');
    assert("url"@[0] == 'u');
    let all = http_json(method, url, headers, body)->Object_0;
    lemma_members_are_found(all, "body"@, 0);
    lemma_members_are_found(all, "headers"@, 1);
    lemma_members_are_found(all, "method"@, 2);
    lemma_members_are_found(all, "url"@, 3);
}

// ---------------------------------------------------------------------------
// File operations
// ---------------------------------------------------------------------------

/// A file is created with the very content that is given, if there is none at the path; if there
/// is one, it is left alone.
pub proof fn lemma_files_are_created(path: Seq<char>, content: Seq<char>, e: Seq<char>)
    ensures
        ({
            let run = FsView::CreateCheck(path, content);
            let free = run.after(Reply::Exists(Ok(false)));
            let failed = |kind: FsErrorKind, message: Seq<char>|
                FsView::Over(OutcomeView::Done(Err(ErrorView { kind, message })));
            &&& run.call() == Some(Call::FileExists(path))
            &&& free.call() == Some(Call::WriteText(path, content))
            &&& free.after(Reply::Done(Ok(()))) == FsView::Over(OutcomeView::Done(Ok(())))
            &&& free.after(Reply::Done(Err(e))) == failed(FsErrorKind::Other, e)
            &&& run.after(Reply::Exists(Ok(true))) == failed(
                FsErrorKind::AlreadyExists,
                "File already exists"@,
            )
            &&& run.after(Reply::Exists(Err(e))) == failed(FsErrorKind::Other, e)
        }),
{
}

/// A file is moved by writing the very content that was read of it to the destination, if there is
/// none, and then deleting it; whatever fails, it is not deleted.
pub proof fn lemma_files_are_moved(
    from: Seq<char>,
    to: Seq<char>,
    content: Seq<char>,
    e: Seq<char>,
)
    ensures
        ({
            let run = FsView::MoveFrom(from, to);
            let there = run.after(Reply::Exists(Ok(true)));
            let free = there.after(Reply::Exists(Ok(false)));
            let read = free.after(Reply::Text(Ok(content)));
            let written = read.after(Reply::Done(Ok(())));
            let failed = |kind: FsErrorKind, message: Seq<char>|
                FsView::Over(OutcomeView::Done(Err(ErrorView { kind, message })));
            &&& run.call() == Some(Call::FileExists(from))
            &&& there.call() == Some(Call::FileExists(to))
            &&& free.call() == Some(Call::ReadText(from))
            &&& read.call() == Some(Call::WriteText(to, content))
            &&& written.call() == Some(Call::DeleteFile(from))
            &&& written.after(Reply::Done(Ok(()))) == FsView::Over(OutcomeView::Done(Ok(())))
            &&& written.after(Reply::Done(Err(e))) == failed(FsErrorKind::Other, e)
            &&& run.after(Reply::Exists(Ok(false))) == failed(
                FsErrorKind::NotFound,
                "Source file not found: "@ + from,
            )
            &&& there.after(Reply::Exists(Ok(true))) == failed(
                FsErrorKind::AlreadyExists,
                "Destination already exists: "@ + to,
            )
            &&& run.after(Reply::Exists(Err(e))) == failed(FsErrorKind::Other, e)
            &&& there.after(Reply::Exists(Err(e))) == failed(FsErrorKind::Other, e)
            &&& free.after(Reply::Text(Err(e))) == failed(FsErrorKind::Other, e)
            &&& read.after(Reply::Done(Err(e))) == failed(FsErrorKind::Other, e)
        }),
{
}

/// The root is a directory. Any other path is one if it has no extension, or if the host lists
/// something below it.
pub proof fn lemma_directories(
    path: Seq<char>,
    has_extension: bool,
    entries: Seq<Seq<char>>,
    e: Seq<char>,
)
    ensures
        ({
            let run = FsView::is_dir(path, has_extension);
            let name = trimmed_end_of(path, '/');
            let root = name.len() == 0 || name == "."@;
            let there = run.after(Reply::Exists(Ok(true)));
            let below = exists|i: int, rest: Seq<char>|
                0 <= i < entries.len() && #[trigger] entries[i] == #[trigger] (name + "/"@ + rest);
            let answer = |b: bool| FsView::Over(OutcomeView::Answer(b));
            &&& root ==> run == answer(true)
            &&& !root ==> {
                &&& run.call() == Some(Call::FileExists(name))
                &&& there.call() == Some(Call::ListFiles(name))
                &&& there.after(Reply::Files(Ok(entries))) == answer(below || !has_extension)
                &&& there.after(Reply::Files(Err(e))) == answer(!has_extension)
                &&& run.after(Reply::Exists(Ok(false))) == answer(!has_extension)
                &&& run.after(Reply::Exists(Err(e))) == answer(!has_extension)
            }
        }),
{
    reveal_strlit("/");
    let name = trimmed_end_of(path, '/');
    let prefix = name + "/"@;
    if has_children(name, entries) {
        let i = choose|i: int|
            0 <= i < entries.len() && (#[trigger] entries[i]) != name && (name
                + "/"@).is_prefix_of(entries[i]);
        let rest = entries[i].skip(prefix.len() as int);
        assert(entries[i] =~= name + "/"@ + rest);
    }
    if exists|i: int, rest: Seq<char>|
        0 <= i < entries.len() && #[trigger] entries[i] == #[trigger] (name + "/"@ + rest) {
        let (i, rest) = choose|i: int, rest: Seq<char>|
            0 <= i < entries.len() && #[trigger] entries[i] == #[trigger] (name + "/"@ + rest);
        assert(entries[i].subrange(0, prefix.len() as int) =~= prefix);
        assert(entries[i].len() > name.len());
    }
}

/// All files are listed as the host gives them; of the Markdown files only those that end so, in
/// order.
pub proof fn lemma_files_are_listed(
    dir: Seq<char>,
    files: Seq<Seq<char>>,
    more: Seq<Seq<char>>,
    file: Seq<char>,
    e: Seq<char>,
)
    ensures
        FsView::List(dir, false).call() == Some(Call::ListFiles(dir)),
        FsView::List(dir, true).call() == Some(Call::ListFiles(dir)),
        FsView::List(dir, false).after(Reply::Files(Ok(files))) == FsView::Over(
            OutcomeView::Paths(Ok(files)),
        ),
        FsView::List(dir, true).after(Reply::Files(Ok(files))) == FsView::Over(
            OutcomeView::Paths(Ok(md_files(files))),
        ),
        FsView::List(dir, false).after(Reply::Files(Err(e))) == FsView::Over(
            OutcomeView::Paths(Err(ErrorView { kind: FsErrorKind::Other, message: e })),
        ),
        FsView::List(dir, true).after(Reply::Files(Err(e))) == FsView::Over(
            OutcomeView::Paths(Err(ErrorView { kind: FsErrorKind::Other, message: e })),
        ),
        md_files(Seq::empty()).len() == 0,
        md_files(files.push(file)) == (if ".md"@.is_suffix_of(file) {
            md_files(files).push(file)
        } else {
            md_files(files)
        }),
{
    reveal(Seq::filter);
    assert(files.push(file).drop_last() =~= files);
}

// ---------------------------------------------------------------------------
// Commands as texts
// ---------------------------------------------------------------------------

/// The response to a command is written with what it gives, or with its error.
pub proof fn lemma_responses_are_written(data: Json, error: Seq<char>)
    ensures
        success_text(data) == "{\"success\":true,\"data\":"@ + json_text(data)
            + ",\"error\":null}"@,
        failure_text(error) == "{\"success\":false,\"data\":null,\"error\":"@ + json_text(
            Json::Str(error),
        ) + "}"@,
{
}

/// A typed command is the one that its `type` names, with its `params` as they are, or `null`.
pub proof fn lemma_typed_commands(
    input: Seq<char>,
    parsed: Json,
    command: Seq<char>,
    params: Json,
    e: Seq<char>,
)
    ensures
        json_parse(input) == Err::<Json, Seq<char>>(e) ==> typed_request(input) == Err::<
            (Seq<char>, Json),
            Seq<char>,
        >("Invalid JSON: "@ + e),
        json_parse(input) == Ok::<Json, Seq<char>>(parsed) ==> {
            &&& parsed.text("type"@) is None ==> typed_request(input) == Err::<
                (Seq<char>, Json),
                Seq<char>,
            >("Missing 'type' field in command"@)
            &&& parsed.member("type"@) == Some(Json::Str(command)) && parsed.member("params"@)
                == Some(params) ==> typed_request(input) == Ok::<(Seq<char>, Json), Seq<char>>(
                (command, params),
            )
            &&& parsed.member("type"@) == Some(Json::Str(command)) && parsed.member(
                "params"@,
            ) is None ==> typed_request(input) == Ok::<(Seq<char>, Json), Seq<char>>(
                (command, Json::Null),
            )
        },
{
}

/// A typed command is answered with what it gives; with nothing, if there is no such command; and
/// else with its error.
pub proof fn lemma_typed_answers(data: Json, error: Seq<char>, rest: Seq<char>)
    ensures
        typed_answer(Ok(data)) == Ok::<Seq<char>, Seq<char>>(
            json_text(
                Json::Object(seq![("data"@, data), ("type"@, Json::Str("PluginResult"@))]),
            ),
        ),
        error == "Unknown command:"@ + rest ==> typed_answer(Err(error)) == Ok::<
            Seq<char>,
            Seq<char>,
        >(Seq::empty()),
        (forall|tail: Seq<char>| error != #[trigger] ("Unknown command:"@ + tail)) ==> typed_answer(
            Err(error),
        ) == Err::<Seq<char>, Seq<char>>(error),
{
    let start = "Unknown command:"@;
    if error == start + rest {
        assert(error.subrange(0, start.len() as int) =~= start);
    }
    if start.is_prefix_of(error) {
        assert(error =~= start + error.skip(start.len() as int));
    }
}

/// Of members that there may be, those stand in the document that there are, and no others.
pub proof fn lemma_present_members(
    members: Seq<(Seq<char>, Option<Json>)>,
    name: Seq<char>,
    value: Json,
)
    ensures
        present(members).contains((name, value)) <==> members.contains((name, Some(value))),
    decreases members.len(),
{
    if members.len() > 0 {
        let rest = members.drop_last();
        lemma_present_members(rest, name, value);
        if members.contains((name, Some(value))) {
            let i = members.index_of((name, Some(value)));
            if i < rest.len() {
                assert(rest[i] == (name, Some(value)));
                let j = present(rest).index_of((name, value));
                assert(present(members)[j] == (name, value));
            } else {
                assert(present(members).last() == (name, value));
                assert(present(members)[present(members).len() - 1] == (name, value));
            }
        }
        if present(members).contains((name, value)) {
            let j = present(members).index_of((name, value));
            if j < present(rest).len() {
                assert(present(rest)[j] == (name, value));
                let i = rest.index_of((name, Some(value)));
                assert(members[i] == (name, Some(value)));
            } else {
                assert(members[members.len() - 1] == (name, Some(value)));
            }
        }
    } else {
        assert(present(members).len() == 0);
    }
}

/// What the plugin tells of itself is written down with its name, its version and its
/// description as they are, and with its commands one by one.
pub proof fn lemma_manifests_are_written(doc: ManifestDoc, i: int)
    ensures
        ({
            let members = doc.json()->Object_0;
            &&& members.contains(("id"@, Json::Str(doc.id)))
            &&& members.contains(("name"@, Json::Str(doc.name)))
            &&& members.contains(("version"@, Json::Str(doc.version)))
            &&& members.contains(("description"@, Json::Str(doc.description)))
            &&& members.contains(("commands"@, strings_json(doc.commands)))
            &&& members.contains(("capabilities"@, strings_json(doc.capabilities)))
            &&& members.contains(("ui"@, Json::Array(doc.ui)))
            &&& members.contains(("cli"@, Json::Array(doc.cli)))
            &&& strings_json(doc.commands)->Array_0.len() == doc.commands.len()
            &&& 0 <= i < doc.commands.len() ==> strings_json(doc.commands)->Array_0[i] == Json::Str(
                doc.commands[i],
            )
        }),
{
    let all = seq![
        ("capabilities"@, Some(strings_json(doc.capabilities))),
        ("cli"@, Some(Json::Array(doc.cli))),
        ("commands"@, Some(strings_json(doc.commands))),
        ("conversions"@, Some(strings_json(Seq::empty()))),
        ("description"@, Some(Json::Str(doc.description))),
        ("id"@, Some(Json::Str(doc.id))),
        ("name"@, Some(Json::Str(doc.name))),
        ("protocol_version"@, Some(Json::Number(JsonNumber::PosInt(1)))),
        (
            "requested_permissions"@,
            Some(
                Json::Object(
                    seq![
                        ("defaults"@, doc.defaults),
                        ("reasons"@, map_json(header_map(doc.reasons))),
                    ],
                ),
            ),
        ),
        (
            "server_functions"@,
            if doc.server_functions.len() == 0 {
                None
            } else {
                Some(
                    Json::Array(
                        doc.server_functions.map_values(|f: FunctionView| function_json(f)),
                    ),
                )
            },
        ),
        ("ui"@, Some(Json::Array(doc.ui))),
        ("version"@, Some(Json::Str(doc.version))),
    ];
    assert(doc.json() == Json::Object(present(all)));
    assert(all[0] == ("capabilities"@, Some(strings_json(doc.capabilities))));
    assert(all[1] == ("cli"@, Some(Json::Array(doc.cli))));
    assert(all[2] == ("commands"@, Some(strings_json(doc.commands))));
    assert(all[4] == ("description"@, Some(Json::Str(doc.description))));
    assert(all[5] == ("id"@, Some(Json::Str(doc.id))));
    assert(all[6] == ("name"@, Some(Json::Str(doc.name))));
    assert(all[10] == ("ui"@, Some(Json::Array(doc.ui))));
    assert(all[11] == ("version"@, Some(Json::Str(doc.version))));
    lemma_present_members(all, "capabilities"@, strings_json(doc.capabilities));
    lemma_present_members(all, "cli"@, Json::Array(doc.cli));
    lemma_present_members(all, "commands"@, strings_json(doc.commands));
    lemma_present_members(all, "description"@, Json::Str(doc.description));
    lemma_present_members(all, "id"@, Json::Str(doc.id));
    lemma_present_members(all, "name"@, Json::Str(doc.name));
    lemma_present_members(all, "ui"@, Json::Array(doc.ui));
    lemma_present_members(all, "version"@, Json::Str(doc.version));
}

/// What the plugin tells of itself holds the version that it was built as, and nothing else in it
/// depends on this.
pub proof fn lemma_manifests_tell_the_version(version: Seq<char>, other: Seq<char>)
    ensures
        plugin_manifest(version).version == version,
        plugin_manifest(version).id == "diaryx.sync"@,
        plugin_manifest(version) == (ManifestDoc {
            version,
            ..plugin_manifest(other)
        }),
{
}

} // verus!
