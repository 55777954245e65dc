//! What goes over the wire and onto the disk: a push sends the very bytes of a file, a pull
//! writes the very bytes of an object, and a scan and a fetch read back what is there.

use vstd::prelude::*;
use vstd::string::*;
use vstd::utf8::*;

use crate::codec::{base64_decoded, utf8_lossy};
use crate::host::{Call, Reply};
use crate::http::{body_of, bytes_of, status_of, BodyView, ResponseView};
use crate::json::{first_member, Json};
use crate::sync_engine::paths::{content_type, path_of_key, root_prefix};
use crate::sync_engine::plan::{LocalView, PlanView, ServerView};
use crate::sync_engine::pull::{PullStep, PullView};
use crate::sync_engine::push::{PushStep, PushView};
use crate::sync_manifest::{ManifestView, SyncState};
use crate::text::{decimal, is_blank, last_position};

verus! {

// ---------------------------------------------------------------------------
// Keys and responses
// ---------------------------------------------------------------------------

/// The key of an object is `files/` and the relative path of its file; a key that does not begin
/// so is the path itself.
pub proof fn lemma_path_of_a_key(key: Seq<char>, relative: Seq<char>)
    requires
        key == "files/"@ + relative || (key == relative && !"files/"@.is_prefix_of(key)),
    ensures
        path_of_key(key) == relative,
{
    if key == "files/"@ + relative {
        assert("files/"@ =~= key.take("files/"@.len() as int));
        assert(key.skip("files/"@.len() as int) =~= relative);
    }
}

/// The prefix of the workspace is its root with a slash at the end, and with slashes in place of
/// backslashes.
pub proof fn lemma_prefix_of_a_root(root: Seq<char>)
    ensures
        forall|i: int|
            0 <= i < root.len() ==> #[trigger] root_prefix(root)[i] == (if root[i] == '\\' {
                '/'
            } else {
                root[i]
            }),
        root_prefix(root).len() > 0,
        root_prefix(root).last() == '/',
        root.len() > 0 && (root.last() == '/' || root.last() == '\\') ==> root_prefix(root).len()
            == root.len(),
        root.len() == 0 || (root.last() != '/' && root.last() != '\\') ==> root_prefix(root).len()
            == root.len() + 1,
{
    reveal_strlit("/");
    let p = crate::text::with_slashes(root);
    assert(p.len() == root.len());
    assert forall|i: int| 0 <= i < root.len() implies #[trigger] p[i] == (if root[i] == '\\' {
        '/'
    } else {
        root[i]
    }) by {}
    if p.len() > 0 {
        assert(p.last() == p[p.len() - 1]);
        assert(p.skip(p.len() - 1)[0] == p.last());
        assert("/"@.is_suffix_of(p) <==> p.last() == '/') by {
            if p.last() == '/' {
                assert(p.subrange(p.len() - 1, p.len() as int) =~= "/"@);
            } else if "/"@.is_suffix_of(p) {
                assert("/"@[0] == p.subrange(p.len() - 1, p.len() as int)[0]);
            }
        }
    }
}

/// What a response says is read from it: its status and its body.
pub proof fn lemma_responses_are_read(response: ResponseView)
    ensures
        status_of(response.json()) == response.status,
        body_of(response.json()) == response.body,
        response.json().text("body_base64"@) == response.body_base64,
{
    reveal_strlit("body");
    reveal_strlit("body_base64");
    reveal_strlit("status");
    reveal_with_fuel(first_member, 4);
    assert("body"@.len() != "body_base64"@.len());
    assert("body"@.len() != "status"@.len());
    assert("body_base64"@.len() != "status"@.len());
    let members = response.json()->Object_0;
    match response.body_base64 {
        Some(b) => {
            assert(members.drop_first()[0] == ("body_base64"@, Json::Str(b)));
            assert(members.drop_first().drop_first()[0] == members[2]);
        },
        None => {
            assert(members.drop_first()[0] == members[1]);
            assert(members.drop_first().drop_first().len() == 0);
        },
    }
}

/// The bytes of a response are those that its base64 text stands for; without such a text, the
/// UTF-8 bytes of its body.
pub proof fn lemma_bytes_of_a_response(response: ResponseView)
    ensures
        (response.body_base64 is None ==> bytes_of(response.json()) == Ok::<Seq<u8>, Seq<char>>(
            encode_utf8(response.body),
        )),
        (response.body_base64 matches Some(encoded) ==> {
            &&& encoded.len() == 0 ==> bytes_of(response.json()) == Ok::<Seq<u8>, Seq<char>>(
                Seq::empty(),
            )
            &&& encoded.len() > 0 ==> match base64_decoded(encoded) {
                Ok(bytes) => bytes_of(response.json()) == Ok::<Seq<u8>, Seq<char>>(bytes),
                Err(e) => bytes_of(response.json()) == Err::<Seq<u8>, Seq<char>>(
                    "Invalid HTTP response body_base64: "@ + e,
                ),
            }
        }),
{
    lemma_responses_are_read(response);
}

/// The type of content goes by the ending of the path, and there is a type for every path.
pub proof fn lemma_content_types(stem: Seq<char>)
    ensures
        content_type(stem + ".md"@) == "text/markdown"@,
        content_type(stem + ".json"@) == "application/json"@,
        content_type(stem + ".yaml"@) == "application/x-yaml"@,
        content_type(stem + ".yml"@) == "application/x-yaml"@,
        content_type(stem + ".png"@) == "image/png"@,
        content_type(stem + ".jpg"@) == "image/jpeg"@,
        content_type(stem + ".jpeg"@) == "image/jpeg"@,
        content_type(stem + ".gif"@) == "image/gif"@,
        content_type(stem + ".svg"@) == "image/svg+xml"@,
        content_type(stem + ".pdf"@) == "application/pdf"@,
        content_type(stem + ".html"@) == "text/html"@,
        content_type(stem + ".css"@) == "text/css"@,
        content_type(stem + ".txt"@) == "text/plain"@,
{
    reveal_strlit(".md");
    reveal_strlit(".json");
    reveal_strlit(".yaml");
    reveal_strlit(".yml");
    reveal_strlit(".png");
    reveal_strlit(".jpg");
    reveal_strlit(".jpeg");
    reveal_strlit(".gif");
    reveal_strlit(".svg");
    reveal_strlit(".pdf");
    reveal_strlit(".html");
    reveal_strlit(".css");
    reveal_strlit(".txt");
    lemma_ending(stem, ".md"@);
    lemma_ending(stem, ".json"@);
    lemma_ending(stem, ".yaml"@);
    lemma_ending(stem, ".yml"@);
    lemma_ending(stem, ".png"@);
    lemma_ending(stem, ".jpg"@);
    lemma_ending(stem, ".jpeg"@);
    lemma_ending(stem, ".gif"@);
    lemma_ending(stem, ".svg"@);
    lemma_ending(stem, ".pdf"@);
    lemma_ending(stem, ".html"@);
    lemma_ending(stem, ".css"@);
    lemma_ending(stem, ".txt"@);
}

proof fn lemma_ending(stem: Seq<char>, ending: Seq<char>)
    ensures
        ending.is_suffix_of(stem + ending),
        forall|other: Seq<char>| #[trigger]
            other.is_suffix_of(stem + ending) && other.len() > 0 && ending.len() > 0
                ==> other.last() == ending.last(),
        forall|other: Seq<char>| #[trigger]
            other.is_suffix_of(stem + ending) && other.len() > 1 && ending.len() > 1
                ==> other[other.len() - 2] == ending[ending.len() - 2],
        forall|other: Seq<char>| #[trigger]
            other.is_suffix_of(stem + ending) && other.len() > 2 && ending.len() > 2
                ==> other[other.len() - 3] == ending[ending.len() - 3],
{
    let whole = stem + ending;
    assert(whole.subrange(whole.len() - ending.len(), whole.len() as int) =~= ending);
    assert forall|other: Seq<char>, back: int| #![trigger other[other.len() - back]]
        other.is_suffix_of(whole) && 0 < back <= other.len() && back
            <= ending.len() implies other[other.len() - back] == ending[ending.len() - back] by {
        let tail = whole.subrange(whole.len() - other.len(), whole.len() as int);
        assert(other == tail);
        assert(tail[tail.len() - back] == whole[whole.len() - back]);
    }
    assert forall|other: Seq<char>| #[trigger]
        other.is_suffix_of(whole) && other.len() > 0 && ending.len()
            > 0 implies other.last() == ending.last() by {
        assert(other[other.len() - 1] == ending[ending.len() - 1]);
    }
}

/// What has none of the known endings is sent as plain bytes.
pub proof fn lemma_other_content(path: Seq<char>)
    requires
        !".md"@.is_suffix_of(path),
        !".json"@.is_suffix_of(path),
        !".yaml"@.is_suffix_of(path),
        !".yml"@.is_suffix_of(path),
        !".png"@.is_suffix_of(path),
        !".jpg"@.is_suffix_of(path),
        !".jpeg"@.is_suffix_of(path),
        !".gif"@.is_suffix_of(path),
        !".svg"@.is_suffix_of(path),
        !".pdf"@.is_suffix_of(path),
        !".html"@.is_suffix_of(path),
        !".css"@.is_suffix_of(path),
        !".txt"@.is_suffix_of(path),
    ensures
        content_type(path) == "application/octet-stream"@,
{
}

// ---------------------------------------------------------------------------
// Push
// ---------------------------------------------------------------------------

/// A push sends the very bytes that it read, however many they are: the request that follows is a
/// `PUT` to the address of the file's key whose body is what was read.
pub proof fn lemma_pushed_bytes_are_those_of_the_file(
    push: PushView,
    relative: Seq<char>,
    bytes: Seq<u8>,
)
    requires
        push.step is Read,
        push.todo.len() > 0,
        push.todo[0] == "files/"@ + relative || (push.todo[0] == relative
            && !"files/"@.is_prefix_of(relative)),
    ensures
        push.call() == Some(Call::ReadBinary(push.prefix + relative)),
        (push.after(Reply::Bytes(Ok(bytes))).call() matches Some(Call::Send(request)) && {
            &&& request.method == "PUT"@
            &&& request.url == push.server + "/namespaces/"@ + push.namespace_id + "/objects/"@
                + push.todo[0]
            &&& request.body == BodyView::Bytes(bytes)
            &&& request.headers == (match push.token {
                Some(token) => seq![
                    ("Content-Type"@, content_type(relative)),
                    ("Authorization"@, "Bearer "@ + token),
                ],
                None => seq![("Content-Type"@, content_type(relative))],
            })
        }),
{
    lemma_path_of_a_key(push.todo[0], relative);
}

/// A file that the server has taken is recorded as in sync, with the hash that was found for it,
/// the number of its bytes and the time; everything else stays, but for the pending removals when
/// nothing is left to do.
pub proof fn lemma_stored_files_are_recorded(
    push: PushView,
    bytes: Seq<u8>,
    response: ResponseView,
    now: Option<u64>,
)
    requires
        push.step is Read,
        push.todo.len() > 0,
        push.local.contains_key(push.todo[0]),
        bytes.len() <= u64::MAX,
        response.status == 200,
    ensures
        ({
            let sent = push.after(Reply::Bytes(Ok(bytes)));
            let taken = sent.after(Reply::Response(Ok(response)));
            let after = taken.after(Reply::Time(now));
            let key = push.todo[0];
            let last = push.todo.len() == 1 && push.removals.len() == 0;
            &&& taken.call() == Some(Call::Now)
            &&& after.manifest.files.dom() == push.manifest.files.dom().insert(key)
            &&& after.manifest.files[key].content_hash == push.local[key].hash
            &&& after.manifest.files[key].size_bytes == bytes.len()
            &&& after.manifest.files[key].modified_at == (match now {
                Some(t) => t,
                None => 0,
            })
            &&& after.manifest.files[key].state == SyncState::Clean
            &&& forall|other: Seq<char>|
                other != key && push.manifest.files.contains_key(other)
                    ==> #[trigger] after.manifest.files[other] == push.manifest.files[other]
            &&& after.manifest.namespace_id == push.manifest.namespace_id
            &&& after.manifest.last_sync_at == push.manifest.last_sync_at
            &&& !last ==> after.manifest.pending_deletes == push.manifest.pending_deletes
            &&& last ==> after.manifest.pending_deletes.len() == 0
            &&& after.pushed == push.pushed + 1
            &&& after.errors == push.errors
            &&& after.todo == push.todo.skip(1)
            &&& after.removals == push.removals
            &&& after.local == push.local
            &&& after.server == push.server
            &&& after.namespace_id == push.namespace_id
            &&& after.token == push.token
            &&& after.prefix == push.prefix
            &&& after.step == (if push.todo.len() > 1 {
                PushStep::Read
            } else if push.removals.len() > 0 {
                PushStep::Remove
            } else {
                PushStep::Over
            })
        }),
{
    let sent = push.after(Reply::Bytes(Ok(bytes)));
    let taken = sent.after(Reply::Response(Ok(response)));
    let after = taken.after(Reply::Time(now));
    assert(push.todo.drop_first() =~= push.todo.skip(1));
    assert(after.manifest.files.dom() =~= push.manifest.files.dom().insert(push.todo[0]));
}

/// A file that cannot be read, or that the server does not take, is reported with its key and the
/// reason, counts as not pushed, and leaves what is known of the files as it was.
pub proof fn lemma_push_failures_are_reported(
    push: PushView,
    bytes: Seq<u8>,
    response: ResponseView,
    e: Seq<char>,
)
    requires
        push.step is Read,
        push.todo.len() > 0,
        response.status != 200,
    ensures
        ({
            let sent = push.after(Reply::Bytes(Ok(bytes)));
            let unread = push.after(Reply::Bytes(Err(e)));
            let refused = sent.after(Reply::Response(Ok(response)));
            let lost = sent.after(Reply::Response(Err(e)));
            let key = push.todo[0];
            &&& unread.errors == push.errors.push("read "@ + key + ": "@ + e)
            &&& refused.errors == push.errors.push(
                "push "@ + key + ": "@ + ("HTTP "@ + decimal(response.status as nat)),
            )
            &&& lost.errors == push.errors.push("push "@ + key + ": "@ + e)
            &&& unread.pushed == push.pushed
            &&& refused.pushed == push.pushed
            &&& lost.pushed == push.pushed
            &&& unread.manifest.files == push.manifest.files
            &&& refused.manifest.files == push.manifest.files
            &&& lost.manifest.files == push.manifest.files
            &&& unread.todo == push.todo.skip(1)
            &&& refused.todo == push.todo.skip(1)
            &&& lost.todo == push.todo.skip(1)
            &&& unread.removals == push.removals
            &&& refused.removals == push.removals
            &&& lost.removals == push.removals
            &&& refused == (PushView { errors: refused.errors, ..unread })
            &&& lost == (PushView { errors: lost.errors, ..unread })
            &&& unread.local == push.local
            &&& unread.server == push.server
            &&& unread.namespace_id == push.namespace_id
            &&& unread.token == push.token
            &&& unread.prefix == push.prefix
            &&& unread.step == (if push.todo.len() > 1 {
                PushStep::Read
            } else if push.removals.len() > 0 {
                PushStep::Remove
            } else {
                PushStep::Over
            })
        }),
{
    assert(push.todo.drop_first() =~= push.todo.skip(1));
}

/// A removal is a `DELETE` of the object; a failed one is reported, and none touches what is known
/// of the files.
pub proof fn lemma_removals_are_sent(push: PushView, response: ResponseView, e: Seq<char>)
    requires
        push.step is Remove,
        push.todo.len() == 0,
        push.removals.len() > 0,
    ensures
        ({
            let answered = push.after(Reply::Response(Ok(response)));
            let lost = push.after(Reply::Response(Err(e)));
            let key = push.removals[0];
            &&& (push.call() matches Some(Call::Send(request)) && {
                &&& request.method == "DELETE"@
                &&& request.url == push.server + "/namespaces/"@ + push.namespace_id
                    + "/objects/"@ + key
                &&& request.body is Empty
                &&& request.headers == (match push.token {
                    Some(token) => if is_blank(token) {
                        seq![("Content-Type"@, "application/json"@)]
                    } else {
                        seq![
                            ("Content-Type"@, "application/json"@),
                            ("Authorization"@, "Bearer "@ + token),
                        ]
                    },
                    None => seq![("Content-Type"@, "application/json"@)],
                })
            })
            &&& response.status == 204 || response.status == 200 ==> answered.errors == push.errors
            &&& response.status != 204 && response.status != 200 ==> answered.errors
                == push.errors.push(
                "delete remote "@ + key + ": "@ + ("HTTP "@ + decimal(response.status as nat)),
            )
            &&& lost.errors == push.errors.push("delete remote "@ + key + ": "@ + e)
            &&& lost == (PushView { errors: lost.errors, ..answered })
            &&& answered.removals == push.removals.skip(1)
            &&& answered.todo.len() == 0
            &&& answered.pushed == push.pushed
            &&& answered.manifest.files == push.manifest.files
            &&& answered.manifest.namespace_id == push.manifest.namespace_id
            &&& answered.manifest.last_sync_at == push.manifest.last_sync_at
            &&& push.removals.len() > 1 ==> answered.manifest.pending_deletes
                == push.manifest.pending_deletes && answered.step is Remove
            &&& push.removals.len() == 1 ==> answered.manifest.pending_deletes.len() == 0
                && answered.step is Over
            &&& answered.server == push.server
            &&& answered.namespace_id == push.namespace_id
            &&& answered.token == push.token
        }),
{
    assert(push.removals.drop_first() =~= push.removals.skip(1));
}

/// A push sets out to store the planned files, in order, and then to remove the planned objects;
/// without a server it does nothing and says so.
pub proof fn lemma_pushes_set_out(
    server: Option<Seq<char>>,
    token: Option<Seq<char>>,
    namespace_id: Seq<char>,
    root: Seq<char>,
    plan: PlanView,
    local: Map<Seq<char>, LocalView>,
    manifest: ManifestView,
)
    ensures
        ({
            let push = PushView::start(server, token, namespace_id, root, plan, local, manifest);
            &&& push.pushed == 0
            &&& push.manifest.files == manifest.files
            &&& push.manifest.namespace_id == manifest.namespace_id
            &&& push.manifest.last_sync_at == manifest.last_sync_at
            &&& push.token == token
            &&& push.namespace_id == namespace_id
            &&& push.local == local
            &&& push.prefix == root_prefix(root)
            &&& (server matches Some(address) ==> {
                &&& push.server == address
                &&& push.todo == plan.push
                &&& push.removals == plan.delete_remote
                &&& push.errors.len() == 0
                &&& push.step == (if plan.push.len() > 0 {
                    PushStep::Read
                } else if plan.delete_remote.len() > 0 {
                    PushStep::Remove
                } else {
                    PushStep::Over
                })
                &&& plan.push.len() > 0 || plan.delete_remote.len() > 0
                    ==> push.manifest.pending_deletes == manifest.pending_deletes
                &&& plan.push.len() == 0 && plan.delete_remote.len() == 0
                    ==> push.manifest.pending_deletes.len() == 0
            })
            &&& server is None ==> {
                &&& push.call() is None
                &&& push.step is Over
                &&& push.errors == seq!["Missing server_url"@]
                &&& push.manifest == manifest
            }
        }),
{
}

/// A reply to another call, and a reply when nothing is waited for, changes nothing.
pub proof fn lemma_pushes_and_pulls_wait(push: PushView, pull: PullView, reply: Reply)
    ensures
        push.step is Over ==> push.after(reply) == push && push.call() is None,
        push.step is Read && !(reply is Bytes) ==> push.after(reply) == push,
        push.step is Send && !(reply is Response) ==> push.after(reply) == push,
        push.step is Stamp && !(reply is Time) ==> push.after(reply) == push,
        push.step is Remove && !(reply is Response) ==> push.after(reply) == push,
        pull.step is Over ==> pull.after(reply) == pull && pull.call() is None,
        pull.step is Get && !(reply is Response) ==> pull.after(reply) == pull,
        pull.step is Mark && !(reply is Done) ==> pull.after(reply) == pull,
        pull.step is Unmark && !(reply is Done) ==> pull.after(reply) == pull,
        pull.step is Write && !(reply is Done) ==> pull.after(reply) == pull,
        pull.step is Stamp && !(reply is Time) ==> pull.after(reply) == pull,
        pull.step is Delete && !(reply is Done) ==> pull.after(reply) == pull,
{
}

/// A file of which the scan found nothing, and an object that the server does not list, are
/// recorded without a hash.
pub proof fn lemma_files_without_a_hash(
    push: PushView,
    pull: PullView,
    size: u64,
    now: Option<u64>,
)
    ensures
        push.step == PushStep::Stamp(size) && push.todo.len() > 0 && !push.local.contains_key(
            push.todo[0],
        ) ==> {
            let after = push.after(Reply::Time(now));
            &&& after.manifest.files.contains_key(push.todo[0])
            &&& after.manifest.files[push.todo[0]].content_hash.len() == 0
            &&& after.manifest.files[push.todo[0]].size_bytes == size
            &&& after.manifest.files[push.todo[0]].state == SyncState::Clean
            &&& after.pushed == push.pushed + 1
        },
        pull.step == PullStep::Stamp(size) && pull.todo.len() > 0 && (forall|j: int|
            0 <= j < pull.entries.len() ==> (#[trigger] pull.entries[j]).key != pull.todo[0]) ==> {
            let after = pull.after(Reply::Time(now));
            &&& after.manifest.files.contains_key(pull.todo[0])
            &&& after.manifest.files[pull.todo[0]].content_hash.len() == 0
            &&& after.manifest.files[pull.todo[0]].size_bytes == size
            &&& after.manifest.files[pull.todo[0]].state == SyncState::Clean
            &&& after.pulled == pull.pulled + 1
        },
{
    if pull.todo.len() > 0 && forall|j: int|
        0 <= j < pull.entries.len() ==> (#[trigger] pull.entries[j]).key != pull.todo[0] {
        crate::laws::planning::lemma_no_entry(pull.entries, pull.todo[0]);
    }
}

// ---------------------------------------------------------------------------
// Pull
// ---------------------------------------------------------------------------

/// A pull asks for the next object by its key.
pub proof fn lemma_objects_are_asked_for(pull: PullView)
    requires
        pull.step is Get,
        pull.todo.len() > 0,
    ensures
        pull.call() matches Some(Call::Send(request)) && {
            &&& request.method == "GET"@
            &&& request.url == pull.server + "/namespaces/"@ + pull.namespace_id + "/objects/"@
                + pull.todo[0]
            &&& request.body is Empty
            &&& request.headers == (match pull.token {
                Some(token) => if is_blank(token) {
                    seq![("Content-Type"@, "application/json"@)]
                } else {
                    seq![
                        ("Content-Type"@, "application/json"@),
                        ("Authorization"@, "Bearer "@ + token),
                    ]
                },
                None => seq![("Content-Type"@, "application/json"@)],
            })
        },
{
}

/// What a pull writes is what the server sent: a file that is no Markdown is written as bytes, to
/// the path of its key, and with exactly the bytes of the response; a Markdown file is written as
/// the text of these bytes. Between the two its directory is made, by a marker that is written
/// and deleted again, whatever comes of that.
pub proof fn lemma_pulled_files_are_those_of_the_server(
    pull: PullView,
    relative: Seq<char>,
    response: ResponseView,
    bytes: Seq<u8>,
    made: Result<(), Seq<char>>,
    cleared: Result<(), Seq<char>>,
)
    requires
        pull.step is Get,
        pull.todo.len() > 0,
        pull.todo[0] == "files/"@ + relative || (pull.todo[0] == relative
            && !"files/"@.is_prefix_of(relative)),
        response.status == 200,
        response.body_base64 is None ==> bytes == encode_utf8(response.body),
        (response.body_base64 matches Some(encoded) ==> if encoded.len() == 0 {
            bytes.len() == 0
        } else {
            base64_decoded(encoded) == Ok::<Seq<u8>, Seq<char>>(bytes)
        }),
    ensures
        ({
            let got = pull.after(Reply::Response(Ok(response)));
            let path = pull.prefix + relative;
            let ready = if exists|i: int| 0 <= i < path.len() && #[trigger] path[i] == '/' {
                got.after(Reply::Done(made)).after(Reply::Done(cleared))
            } else {
                got
            };
            &&& !".md"@.is_suffix_of(relative) ==> ready.call() == Some(
                Call::WriteBinary(path, bytes),
            )
            &&& ".md"@.is_suffix_of(relative) ==> ready.call() == Some(
                Call::WriteText(path, utf8_lossy(bytes)),
            )
            &&& ready == (PullView { step: ready.step, ..pull })
        }),
{
    lemma_path_of_a_key(pull.todo[0], relative);
    lemma_bytes_of_a_response(response);
    if response.body_base64 matches Some(encoded) && encoded.len() == 0 {
        assert(bytes =~= Seq::<u8>::empty());
    }
    lemma_last_slash(pull.prefix + relative);
}

proof fn lemma_last_slash(path: Seq<char>)
    ensures
        match last_position(path, '/') {
            Some(end) => 0 <= end < path.len() && path[end] == '/' && forall|i: int|
                end < i < path.len() ==> #[trigger] path[i] != '/',
            None => forall|i: int| 0 <= i < path.len() ==> #[trigger] path[i] != '/',
        },
    decreases path.len(),
{
    if path.len() > 0 && path.last() != '/' {
        lemma_last_slash(path.drop_last());
        let rest = path.drop_last();
        match last_position(rest, '/') {
            Some(end) => {
                assert(path[end] == rest[end]);
                assert forall|i: int| end < i < path.len() implies #[trigger] path[i] != '/' by {
                    if i < rest.len() {
                        assert(rest[i] == path[i]);
                    }
                }
            },
            None => {
                assert forall|i: int| 0 <= i < path.len() implies #[trigger] path[i] != '/' by {
                    if i < rest.len() {
                        assert(rest[i] == path[i]);
                    }
                }
            },
        }
    }
}

/// The marker that makes the directory of a file is an empty file in this directory, and the
/// same file is deleted again.
pub proof fn lemma_markers_are_cleared(
    pull: PullView,
    relative: Seq<char>,
    directory: Seq<char>,
    name: Seq<char>,
    response: ResponseView,
    bytes: Seq<u8>,
    made: Result<(), Seq<char>>,
)
    requires
        pull.step is Get,
        pull.todo.len() > 0,
        pull.todo[0] == "files/"@ + relative || (pull.todo[0] == relative
            && !"files/"@.is_prefix_of(relative)),
        pull.prefix + relative == directory + seq!['/'] + name,
        !name.contains('/'),
        response.status == 200,
        bytes_of(response.json()) == Ok::<Seq<u8>, Seq<char>>(bytes),
    ensures
        ({
            let got = pull.after(Reply::Response(Ok(response)));
            &&& got.call() == Some(Call::WriteText(directory + "/.diaryx_sync_tmp"@, Seq::empty()))
            &&& got.after(Reply::Done(made)).call() == Some(
                Call::DeleteFile(directory + "/.diaryx_sync_tmp"@),
            )
        }),
{
    reveal_strlit("");
    lemma_path_of_a_key(pull.todo[0], relative);
    let path = pull.prefix + relative;
    lemma_last_slash(path);
    assert(path[directory.len() as int] == '/');
    assert forall|i: int| directory.len() < i < path.len() implies #[trigger] path[i] != '/' by {
        assert(path[i] == name[i - directory.len() - 1]);
        assert(name.contains(name[i - directory.len() - 1]));
    }
    assert(path.take(directory.len() as int) =~= directory);
    assert(""@ =~= Seq::<char>::empty());
}

/// A file that was written is recorded as in sync, with the hash that the server gave for it, the
/// number of its bytes and the time; everything else stays.
pub proof fn lemma_written_files_are_recorded(
    pull: PullView,
    bytes: Seq<u8>,
    now: Option<u64>,
    i: int,
)
    requires
        pull.step == PullStep::Write(bytes),
        pull.todo.len() > 0,
        bytes.len() <= u64::MAX,
        0 <= i < pull.entries.len(),
        pull.entries[i].key == pull.todo[0],
        forall|j: int| i < j < pull.entries.len() ==> (#[trigger] pull.entries[j]).key
            != pull.todo[0],
    ensures
        ({
            let written = pull.after(Reply::Done(Ok(())));
            let after = written.after(Reply::Time(now));
            let key = pull.todo[0];
            &&& written.call() == Some(Call::Now)
            &&& after.manifest.files.dom() == pull.manifest.files.dom().insert(key)
            &&& after.manifest.files[key].content_hash == (match pull.entries[i].content_hash {
                Some(hash) => hash,
                None => Seq::empty(),
            })
            &&& after.manifest.files[key].size_bytes == bytes.len()
            &&& after.manifest.files[key].modified_at == (match now {
                Some(t) => t,
                None => 0,
            })
            &&& after.manifest.files[key].state == SyncState::Clean
            &&& forall|other: Seq<char>|
                other != key && pull.manifest.files.contains_key(other)
                    ==> #[trigger] after.manifest.files[other] == pull.manifest.files[other]
            &&& after.manifest.pending_deletes == pull.manifest.pending_deletes
            &&& after.manifest.namespace_id == pull.manifest.namespace_id
            &&& after.manifest.last_sync_at == pull.manifest.last_sync_at
            &&& after.pulled == pull.pulled + 1
            &&& after.todo == pull.todo.skip(1)
            &&& after.deletions == pull.deletions
            &&& after.errors == pull.errors
            &&& after.entries == pull.entries
            &&& after.server == pull.server
            &&& after.namespace_id == pull.namespace_id
            &&& after.token == pull.token
            &&& after.prefix == pull.prefix
            &&& after.step == (if pull.todo.len() > 1 {
                PullStep::Get
            } else if pull.deletions.len() > 0 {
                PullStep::Delete
            } else {
                PullStep::Over
            })
        }),
{
    let after = pull.after(Reply::Done(Ok(()))).after(Reply::Time(now));
    crate::laws::planning::lemma_last_entry_counts(pull.entries, pull.todo[0], i);
    assert(pull.todo.drop_first() =~= pull.todo.skip(1));
    assert(after.manifest.files.dom() =~= pull.manifest.files.dom().insert(pull.todo[0]));
}

/// An object that cannot be had, or a file that cannot be written, is reported with its key and the
/// reason, counts as not pulled, and leaves what is known of the files as it was.
pub proof fn lemma_pull_failures_are_reported(
    pull: PullView,
    response: ResponseView,
    e: Seq<char>,
)
    requires
        pull.todo.len() > 0,
    ensures
        ({
            let key = pull.todo[0];
            let refused = pull.after(Reply::Response(Ok(response)));
            let lost = pull.after(Reply::Response(Err(e)));
            let unwritten = pull.after(Reply::Done(Err(e)));
            let failed = |error: Seq<char>|
                PullView {
                    todo: pull.todo.skip(1),
                    errors: pull.errors.push(error),
                    step: if pull.todo.len() > 1 {
                        PullStep::Get
                    } else if pull.deletions.len() > 0 {
                        PullStep::Delete
                    } else {
                        PullStep::Over
                    },
                    ..pull
                };
            &&& pull.step is Get && response.status != 200 ==> refused == failed(
                "pull "@ + key + ": "@ + ("HTTP "@ + decimal(response.status as nat)),
            )
            &&& pull.step is Get ==> lost == failed("pull "@ + key + ": "@ + e)
            &&& pull.step is Write ==> unwritten == failed("write "@ + key + ": "@ + e)
            &&& (pull.step is Get && response.status == 200 ==> (response.body_base64 matches Some(
                encoded,
            ) ==> (base64_decoded(encoded) matches Err(problem) ==> (encoded.len() > 0 ==> refused
                == failed(
                "pull "@ + key + ": "@ + ("Invalid HTTP response body_base64: "@ + problem),
            )))))
        }),
{
    lemma_bytes_of_a_response(response);
    assert(pull.todo.drop_first() =~= pull.todo.skip(1));
}

/// A local deletion deletes the file of the key, and the key alone is not followed any more; a
/// failed one is reported.
pub proof fn lemma_local_deletions(pull: PullView, relative: Seq<char>, e: Seq<char>)
    requires
        pull.step is Delete,
        pull.todo.len() == 0,
        pull.deletions.len() > 0,
        pull.deletions[0] == "files/"@ + relative || (pull.deletions[0] == relative
            && !"files/"@.is_prefix_of(relative)),
    ensures
        ({
            let done = pull.after(Reply::Done(Ok(())));
            let failed = pull.after(Reply::Done(Err(e)));
            let key = pull.deletions[0];
            &&& pull.call() == Some(Call::DeleteFile(pull.prefix + relative))
            &&& !done.manifest.files.contains_key(key)
            &&& forall|other: Seq<char>|
                other != key ==> (#[trigger] done.manifest.files.contains_key(other)
                    <==> pull.manifest.files.contains_key(other))
            &&& forall|other: Seq<char>|
                other != key && pull.manifest.files.contains_key(other)
                    ==> #[trigger] done.manifest.files[other] == pull.manifest.files[other]
            &&& done.manifest.pending_deletes == pull.manifest.pending_deletes
            &&& done.manifest.namespace_id == pull.manifest.namespace_id
            &&& done.manifest.last_sync_at == pull.manifest.last_sync_at
            &&& done.errors == pull.errors
            &&& failed.errors == pull.errors.push("delete local "@ + key + ": "@ + e)
            &&& failed == (PullView { errors: failed.errors, ..done })
            &&& done.pulled == pull.pulled
            &&& done.deletions == pull.deletions.skip(1)
            &&& done.todo.len() == 0
            &&& done.prefix == pull.prefix
            &&& done.step == (if pull.deletions.len() > 1 {
                PullStep::Delete
            } else {
                PullStep::Over
            })
        }),
{
    lemma_path_of_a_key(pull.deletions[0], relative);
    assert(pull.deletions.drop_first() =~= pull.deletions.skip(1));
}

/// A pull sets out to fetch the planned objects, in order, and then to delete the planned files;
/// without a server it does nothing and says so.
pub proof fn lemma_pulls_set_out(
    server: Option<Seq<char>>,
    token: Option<Seq<char>>,
    namespace_id: Seq<char>,
    root: Seq<char>,
    plan: PlanView,
    entries: Seq<ServerView>,
    manifest: ManifestView,
)
    ensures
        ({
            let pull = PullView::start(server, token, namespace_id, root, plan, entries, manifest);
            &&& pull.pulled == 0
            &&& pull.manifest == manifest
            &&& pull.token == token
            &&& pull.namespace_id == namespace_id
            &&& pull.entries == entries
            &&& pull.prefix == root_prefix(root)
            &&& (server matches Some(address) ==> {
                &&& pull.server == address
                &&& pull.todo == plan.pull
                &&& pull.deletions == plan.delete_local
                &&& pull.errors.len() == 0
                &&& pull.step == (if plan.pull.len() > 0 {
                    PullStep::Get
                } else if plan.delete_local.len() > 0 {
                    PullStep::Delete
                } else {
                    PullStep::Over
                })
            })
            &&& server is None ==> {
                &&& pull.call() is None
                &&& pull.step is Over
                &&& pull.errors == seq!["Missing server_url"@]
            }
        }),
{
}

/// What one device pushes for a file, another that pulls it writes: if the server answers the
/// request for the key with the bytes that were stored under it, then these bytes, which the one
/// read from its file, are what the other writes to its own.
pub proof fn lemma_devices_see_the_same_content(
    push: PushView,
    pull: PullView,
    relative: Seq<char>,
    content: Seq<u8>,
    response: ResponseView,
    made: Result<(), Seq<char>>,
    cleared: Result<(), Seq<char>>,
)
    requires
        push.step is Read,
        push.todo.len() > 0,
        push.todo[0] == "files/"@ + relative,
        pull.step is Get,
        pull.todo.len() > 0,
        pull.todo[0] == push.todo[0],
        pull.server == push.server,
        pull.namespace_id == push.namespace_id,
        pull.prefix.contains('/'),
        response.status == 200,
        (push.after(Reply::Bytes(Ok(content))).call() matches Some(Call::Send(request)) && (
        response.body_base64 matches Some(encoded) && base64_decoded(encoded) == Ok::<
            Seq<u8>,
            Seq<char>,
        >(request.body->Bytes_0) && (encoded.len() == 0 ==> request.body->Bytes_0.len() == 0))),
    ensures
        ({
            let ready = pull.after(Reply::Response(Ok(response))).after(Reply::Done(made)).after(
                Reply::Done(cleared),
            );
            &&& (push.after(Reply::Bytes(Ok(content))).call() matches Some(Call::Send(put))
                && (pull.call() matches Some(Call::Send(get)) && put.url == get.url))
            &&& !".md"@.is_suffix_of(relative) ==> ready.call() == Some(
                Call::WriteBinary(pull.prefix + relative, content),
            )
            &&& ".md"@.is_suffix_of(relative) ==> ready.call() == Some(
                Call::WriteText(pull.prefix + relative, utf8_lossy(content)),
            )
        }),
{
    lemma_pushed_bytes_are_those_of_the_file(push, relative, content);
    lemma_objects_are_asked_for(pull);
    lemma_pulled_files_are_those_of_the_server(pull, relative, response, content, made, cleared);
    let path = pull.prefix + relative;
    let n = pull.prefix.index_of('/');
    assert(path[n] == '/');
}

} // verus!
