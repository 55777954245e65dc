//! What is found out before anything is planned: the local files by a scan, and the objects of the
//! server by a fetch.

use vstd::prelude::*;
use vstd::string::*;

use crate::host::{Call, Reply};
use crate::http::ResponseView;
use crate::json::{first_member, json_parse, Json, JsonNumber};
use crate::laws::transfers::lemma_responses_are_read;
use crate::sync_engine::fetch::{FetchStep, FetchView};
use crate::sync_engine::paths::root_prefix;
use crate::sync_engine::plan::{lemma_filter_members, LocalView, ServerView};
use crate::sync_engine::scan::ScanView;
use crate::text::{decimal, is_blank};

verus! {

// ---------------------------------------------------------------------------
// Documents
// ---------------------------------------------------------------------------

/// A member of an object is the first one with its key.
pub proof fn lemma_members_are_found(members: Seq<(Seq<char>, Json)>, key: Seq<char>, i: int)
    requires
        0 <= i < members.len(),
        members[i].0 == key,
        forall|j: int| 0 <= j < i ==> (#[trigger] members[j]).0 != key,
    ensures
        Json::Object(members).member(key) == Some(members[i].1),
    decreases i,
{
    if i > 0 {
        let rest = members.drop_first();
        assert(members[0].0 != key);
        assert forall|j: int| 0 <= j < i - 1 implies (#[trigger] rest[j]).0 != key by {
            assert(rest[j] == members[j + 1]);
        }
        lemma_members_are_found(rest, key, i - 1);
    }
}

/// What an object has no member of, is not read from it; and nothing but an object has members.
pub proof fn lemma_missing_members(document: Json, key: Seq<char>)
    requires
        (document matches Json::Object(members) ==> forall|j: int|
            0 <= j < members.len() ==> (#[trigger] members[j]).0 != key),
    ensures
        document.member(key) is None,
        document.text(key) is None,
    decreases document,
{
    if let Json::Object(members) = document {
        if members.len() > 0 {
            let rest = members.drop_first();
            assert(members[0].0 != key);
            assert forall|j: int| 0 <= j < rest.len() implies (#[trigger] rest[j]).0 != key by {
                assert(rest[j] == members[j + 1]);
            }
            lemma_no_first_member(rest, key);
        }
    }
}

proof fn lemma_no_first_member(members: Seq<(Seq<char>, Json)>, key: Seq<char>)
    requires
        forall|j: int| 0 <= j < members.len() ==> (#[trigger] members[j]).0 != key,
    ensures
        first_member(members, key) is None,
    decreases members.len(),
{
    if members.len() > 0 {
        let rest = members.drop_first();
        assert(members[0].0 != key);
        assert forall|j: int| 0 <= j < rest.len() implies (#[trigger] rest[j]).0 != key by {
            assert(rest[j] == members[j + 1]);
        }
        lemma_no_first_member(rest, key);
    }
}

/// A member is read as a text exactly if it is one, and then as the very same text.
pub proof fn lemma_texts_are_read(document: Json, key: Seq<char>)
    ensures
        forall|s: Seq<char>|
            document.member(key) == Some(Json::Str(s)) ==> #[trigger] document.text(key) == Some(s),
        (document.text(key) matches Some(s) ==> document.member(key) == Some(Json::Str(s))),
{
}

/// Integers are read as they are, over the whole range of the type that they are read as.
pub proof fn lemma_integers_are_read(n: int)
    ensures
        0 <= n <= u64::MAX ==> Json::Number(JsonNumber::PosInt(n as u64)).as_u64() == Some(
            n as u64,
        ),
        0 <= n <= i64::MAX ==> Json::Number(JsonNumber::PosInt(n as u64)).as_i64() == Some(
            n as i64,
        ),
        i64::MAX < n <= u64::MAX ==> Json::Number(JsonNumber::PosInt(n as u64)).as_i64() is None,
        i64::MIN <= n < 0 ==> Json::Number(JsonNumber::NegInt(n as i64)).as_i64() == Some(
            n as i64,
        ),
        i64::MIN <= n < 0 ==> Json::Number(JsonNumber::NegInt(n as i64)).as_u64() is None,
{
}

// ---------------------------------------------------------------------------
// Scan
// ---------------------------------------------------------------------------

/// A scan lists the files below the root.
pub proof fn lemma_scans_list_the_root(root: Seq<char>)
    ensures
        ScanView::start(root).call() == Some(Call::ListFiles(root)),
        ScanView::start(root).found == Map::<Seq<char>, LocalView>::empty(),
{
}

proof fn lemma_starts(s: Seq<char>, p: Seq<char>)
    ensures
        p.is_prefix_of(p + s),
        (p + s).skip(p.len() as int) == s,
{
    assert((p + s).subrange(0, p.len() as int) =~= p);
    assert((p + s).skip(p.len() as int) =~= s);
}

/// Of the listed files, those are looked at that are neither hidden, nor below a hidden directory,
/// nor what an operating system left behind, and no others; and in the order in which they are
/// listed.
pub proof fn lemma_scanned_files(root: Seq<char>, files: Seq<Seq<char>>, relative: Seq<char>)
    ensures
        ({
            let listed = ScanView::start(root).after(Reply::Files(Ok(files)));
            let file = root_prefix(root) + relative;
            let hidden = {
                ||| exists|rest: Seq<char>| relative == #[trigger] ("."@ + rest)
                ||| exists|before: Seq<char>, rest: Seq<char>|
                    relative == #[trigger] (before + "/."@ + rest)
            };
            let left_behind = {
                ||| relative == "__MACOSX"@
                ||| exists|before: Seq<char>, rest: Seq<char>|
                    relative == #[trigger] (before + "/__MACOSX"@ + rest)
                ||| relative == "Thumbs.db"@
                ||| relative == "desktop.ini"@
            };
            &&& listed.todo.contains(file) <==> files.contains(file) && relative.len() > 0
                && !hidden && !left_behind
            &&& listed.root == root
            &&& listed.found == Map::<Seq<char>, LocalView>::empty()
            &&& !(listed.step is List)
            &&& forall|other: Seq<char>| #[trigger]
                listed.todo.contains(other) ==> files.contains(other)
        }),
{
    let listed = ScanView::start(root).after(Reply::Files(Ok(files)));
    let prefix = root_prefix(root);
    let file = prefix + relative;
    let keep = |f: Seq<char>| crate::sync_engine::scan::takes_part(root, f);
    lemma_starts(relative, prefix);
    lemma_filter_members(files, keep, file);
    assert forall|other: Seq<char>| #[trigger] listed.todo.contains(other) implies files.contains(
        other,
    ) by {
        lemma_filter_members(files, keep, other);
    }
    if "."@.is_prefix_of(relative) {
        assert(relative =~= "."@ + relative.skip("."@.len() as int));
    }
    if exists|rest: Seq<char>| relative == #[trigger] ("."@ + rest) {
        let rest = choose|rest: Seq<char>| relative == #[trigger] ("."@ + rest);
        lemma_starts(rest, "."@);
    }
    crate::laws::texts::lemma_parts(relative, "/."@);
    crate::laws::texts::lemma_parts(relative, "/__MACOSX"@);
}

/// The files are looked at in the order in which they are listed: one more file comes behind the
/// others, if it takes part, and changes nothing else.
pub proof fn lemma_files_are_scanned_in_order(
    root: Seq<char>,
    files: Seq<Seq<char>>,
    file: Seq<char>,
)
    ensures
        ({
            let before = ScanView::start(root).after(Reply::Files(Ok(files))).todo;
            let after = ScanView::start(root).after(Reply::Files(Ok(files.push(file)))).todo;
            let alone = ScanView::start(root).after(Reply::Files(Ok(seq![file]))).todo;
            &&& after == before + alone
            &&& alone.len() == 0 || alone == seq![file]
        }),
{
    reveal(Seq::filter);
    assert(files.push(file).drop_last() =~= files);
    assert(seq![file].drop_last() =~= Seq::<Seq<char>>::empty());
    let keep = |f: Seq<char>| crate::sync_engine::scan::takes_part(root, f);
    assert(Seq::<Seq<char>>::empty().filter(keep).len() == 0);
    assert(seq![file].filter(keep) =~= if keep(file) {
        seq![file]
    } else {
        Seq::empty()
    });
    assert(files.push(file).filter(keep) =~= files.filter(keep) + seq![file].filter(keep));
}

/// A file is found with its hash and the number of its bytes, under `files/` and its relative
/// path; what was found before stays.
pub proof fn lemma_files_are_found(
    scan: ScanView,
    relative: Seq<char>,
    hash: Seq<char>,
    bytes: Seq<u8>,
    e: Seq<char>,
)
    requires
        scan.step is Hash,
        scan.todo.len() > 0,
        scan.todo[0] == root_prefix(scan.root) + relative,
        bytes.len() <= u64::MAX,
    ensures
        ({
            let hashed = scan.after(Reply::Hash(Some(hash)));
            let after = hashed.after(Reply::Bytes(Ok(bytes)));
            let unread = hashed.after(Reply::Bytes(Err(e)));
            let unhashed = scan.after(Reply::Hash(None));
            let key = "files/"@ + relative;
            &&& scan.call() == Some(Call::HashFile(scan.todo[0]))
            &&& hashed.call() == Some(Call::ReadBinary(scan.todo[0]))
            &&& after.found.dom() == scan.found.dom().insert(key)
            &&& after.found[key].hash == hash
            &&& after.found[key].size == bytes.len()
            &&& forall|other: Seq<char>|
                other != key && scan.found.contains_key(other) ==> #[trigger] after.found[other]
                    == scan.found[other]
            &&& after.todo == scan.todo.skip(1)
            &&& after.root == scan.root
            &&& after.step is Hash
            &&& unread.found.contains_key(key)
            &&& unread.found[key].hash == hash
            &&& unread.found[key].size == 0
            &&& unread.todo == after.todo
            &&& unhashed.found == scan.found
            &&& unhashed.todo == after.todo
        }),
{
    lemma_starts(relative, root_prefix(scan.root));
    let after = scan.after(Reply::Hash(Some(hash))).after(Reply::Bytes(Ok(bytes)));
    assert(scan.todo.drop_first() =~= scan.todo.skip(1));
    assert(after.found.dom() =~= scan.found.dom().insert("files/"@ + relative));
}

/// What cannot be listed holds no files.
pub proof fn lemma_unlisted_roots(root: Seq<char>, e: Seq<char>)
    ensures
        ({
            let scan = ScanView::start(root).after(Reply::Files(Err(e)));
            &&& scan.is_over()
            &&& scan.call() is None
            &&& scan.found == Map::<Seq<char>, LocalView>::empty()
        }),
{
}

/// A scan is over once there is a list and every file of it is dealt with.
pub proof fn lemma_scans_end(scan: ScanView)
    ensures
        scan.is_over() <==> scan.call() is None,
        scan.is_over() <==> !(scan.step is List) && scan.todo.len() == 0,
{
}

/// A reply to another call, and a reply when nothing is waited for, changes nothing.
pub proof fn lemma_scans_and_fetches_wait(scan: ScanView, fetch: FetchView, reply: Reply)
    ensures
        scan.call() is None ==> scan.after(reply) == scan,
        fetch.call() is None ==> fetch.after(reply) == fetch,
        scan.step is List && !(reply is Files) ==> scan.after(reply) == scan,
        scan.step is Hash && !(reply is Hash) ==> scan.after(reply) == scan,
        scan.step is Size && !(reply is Bytes) ==> scan.after(reply) == scan,
        !(reply is Response) ==> fetch.after(reply) == fetch,
{
}

// ---------------------------------------------------------------------------
// Fetch
// ---------------------------------------------------------------------------

/// What the server writes down of its objects is read back unchanged: for a page of items, as many
/// objects are added to those of the pages before, in the same order, each with the key, the
/// hash, the size and the time that the item gives, over the whole range of each. What the item
/// does not give, or gives as something else, is empty or zero.
pub proof fn lemma_objects_are_read_back(
    fetch: FetchView,
    offset: u32,
    response: ResponseView,
    items: Seq<Json>,
    i: int,
)
    requires
        fetch.step == FetchStep::Page(offset),
        response.status == 200,
        response.body.len() > 0,
        json_parse(response.body) == Ok::<Json, Seq<char>>(Json::Array(items)),
        0 <= i < items.len(),
    ensures
        ({
            let after = fetch.after(Reply::Response(Ok(response)));
            let entry = after.entries[fetch.entries.len() + i];
            &&& after.entries.len() == fetch.entries.len() + items.len()
            &&& after.entries.take(fetch.entries.len() as int) == fetch.entries
            &&& (items[i].member("key"@) matches Some(Json::Str(key)) ==> entry.key == key)
            &&& (items[i].member("content_hash"@) matches Some(Json::Str(hash))
                ==> entry.content_hash == Some(hash))
            &&& (items[i].member("content_hash"@) == Some(Json::Null)
                || items[i].member("content_hash"@) is None) ==> entry.content_hash is None
            &&& (items[i].member("size_bytes"@) matches Some(Json::Number(JsonNumber::PosInt(n)))
                ==> entry.size_bytes == n)
            &&& (items[i].member("updated_at"@) matches Some(Json::Number(JsonNumber::PosInt(n)))
                ==> (n <= i64::MAX ==> entry.updated_at == n))
            &&& (items[i].member("updated_at"@) matches Some(Json::Number(JsonNumber::NegInt(n)))
                ==> entry.updated_at == n)
            &&& !(items[i].member("key"@) matches Some(Json::Str(_))) ==> entry.key.len() == 0
            &&& !(items[i].member("content_hash"@) matches Some(Json::Str(_)))
                ==> entry.content_hash is None
            &&& !(items[i].member("size_bytes"@) matches Some(
                Json::Number(JsonNumber::PosInt(_)),
            )) ==> entry.size_bytes == 0
            &&& (items[i].member("updated_at"@) matches Some(Json::Number(JsonNumber::PosInt(n)))
                ==> (n > i64::MAX ==> entry.updated_at == 0))
            &&& !(items[i].member("updated_at"@) matches Some(
                Json::Number(JsonNumber::PosInt(_)),
            )) && !(items[i].member("updated_at"@) matches Some(
                Json::Number(JsonNumber::NegInt(_)),
            )) ==> entry.updated_at == 0
        }),
{
    lemma_responses_are_read(response);
    let after = fetch.after(Reply::Response(Ok(response)));
    assert(after.entries.take(fetch.entries.len() as int) =~= fetch.entries);
}

/// A page is asked for by the objects before it, five hundred at a time.
pub proof fn lemma_pages_are_asked_for(fetch: FetchView, offset: u32)
    requires
        fetch.step == FetchStep::Page(offset),
    ensures
        fetch.call() matches Some(Call::Send(request)) && {
            &&& request.method == "GET"@
            &&& request.url == fetch.server + "/namespaces/"@ + fetch.namespace_id
                + "/objects?prefix=files/&limit="@ + seq!['5', '0', '0'] + "&offset="@ + decimal(
                offset as nat,
            )
            &&& request.body is Empty
            &&& request.headers == (match fetch.token {
                Some(token) => if is_blank(token) {
                    seq![("Content-Type"@, "application/json"@)]
                } else {
                    seq![
                        ("Content-Type"@, "application/json"@),
                        ("Authorization"@, "Bearer "@ + token),
                    ]
                },
                None => seq![("Content-Type"@, "application/json"@)],
            })
        },
{
    reveal_with_fuel(decimal, 3);
    assert(decimal(500) =~= seq!['5', '0', '0']);
}

/// A fetch begins with the first object. A full page is followed by the next, and any other ends
/// the fetch with all that was read.
pub proof fn lemma_all_pages_are_fetched(
    fetch: FetchView,
    offset: u32,
    response: ResponseView,
    items: Seq<Json>,
)
    requires
        fetch.step == FetchStep::Page(offset),
        response.status == 200,
        response.body.len() > 0,
        json_parse(response.body) == Ok::<Json, Seq<char>>(Json::Array(items)),
    ensures
        ({
            let after = fetch.after(Reply::Response(Ok(response)));
            &&& items.len() >= 500 && offset + 500 <= u32::MAX ==> after.step == FetchStep::Page(
                (offset + 500) as u32,
            )
            &&& items.len() >= 500 && offset + 500 > u32::MAX ==> after.step == FetchStep::Page(
                (offset + 500 - u32::MAX - 1) as u32,
            )
            &&& items.len() < 500 ==> {
                &&& after.call() is None
                &&& after.is_over()
                &&& after.result() == Ok::<Seq<ServerView>, Seq<char>>(after.entries)
            }
            &&& after.server == fetch.server
            &&& after.namespace_id == fetch.namespace_id
            &&& after.token == fetch.token
        }),
{
    lemma_responses_are_read(response);
}

/// A fetch begins with the first object and with none read.
pub proof fn lemma_fetches_begin(
    server: Seq<char>,
    namespace_id: Seq<char>,
    token: Option<Seq<char>>,
)
    ensures
        ({
            let fetch = FetchView::start(server, namespace_id, token);
            &&& fetch.step == FetchStep::Page(0)
            &&& fetch.entries.len() == 0
            &&& fetch.server == server
            &&& fetch.namespace_id == namespace_id
            &&& fetch.token == token
        }),
{
}

/// A page that is no list holds no objects and is the last.
pub proof fn lemma_empty_pages(fetch: FetchView, offset: u32, response: ResponseView)
    requires
        fetch.step == FetchStep::Page(offset),
        response.status == 200,
        response.body.len() == 0 || !(json_parse(response.body) matches Ok(Json::Array(_))),
    ensures
        ({
            let after = fetch.after(Reply::Response(Ok(response)));
            &&& after.entries == fetch.entries
            &&& after.is_over()
            &&& after.result() == Ok::<Seq<ServerView>, Seq<char>>(fetch.entries)
        }),
{
    lemma_responses_are_read(response);
    assert(fetch.after(Reply::Response(Ok(response))).entries =~= fetch.entries);
}

/// A page that cannot be had ends the fetch with the reason: the status and the body of the
/// response, or what came in its place.
pub proof fn lemma_fetch_failures_are_reported(
    fetch: FetchView,
    offset: u32,
    response: ResponseView,
    e: Seq<char>,
)
    requires
        fetch.step == FetchStep::Page(offset),
        response.status != 200,
    ensures
        ({
            let refused = fetch.after(Reply::Response(Ok(response)));
            let lost = fetch.after(Reply::Response(Err(e)));
            let status = "HTTP "@ + decimal(response.status as nat);
            &&& response.body.len() == 0 ==> refused.result() == Err::<
                Seq<ServerView>,
                Seq<char>,
            >(status)
            &&& response.body.len() > 0 ==> refused.result() == Err::<
                Seq<ServerView>,
                Seq<char>,
            >(status + ": "@ + response.body)
            &&& lost.result() == Err::<Seq<ServerView>, Seq<char>>(e)
            &&& refused.is_over()
            &&& refused.call() is None
            &&& lost.is_over()
            &&& lost.call() is None
        }),
{
    lemma_responses_are_read(response);
}

} // verus!
