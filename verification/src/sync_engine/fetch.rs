//! Fetching the server's list of objects, page by page.

use vstd::prelude::*;
use vstd::string::*;

use crate::config::{resolve_auth_token, resolve_server_url, Settings};
use crate::host::{answers, call_view, Call, HostCall, HostReply, Reply};
use crate::http;
use crate::http::{body_of, document_of, error_message, status_of, HttpResponse};
use crate::json::{items_view, optional_text, Json, JsonValue};
use crate::server_api;
use crate::server_api::bare_request;
use crate::sync_engine::plan::{server_views, ServerEntry, ServerView};
use crate::text;
use crate::text::decimal;

verus! {

/// The number of objects that are asked for at once.
pub const PAGE_SIZE: u32 = 500;

/// What a fetch has come to.
#[derive(Debug)]
enum Progress {
    /// The next page, from the given object on, is waited for.
    Page(u32),
    /// All pages are there.
    Complete,
    /// A page could not be had.
    Failed(String),
}

/// A fetch of the server's list of objects.
#[derive(Debug)]
pub struct FetchRun {
    server: String,
    namespace_id: String,
    token: Option<String>,
    progress: Progress,
    entries: Vec<ServerEntry>,
}

// ---------------------------------------------------------------------------
// Models
// ---------------------------------------------------------------------------

/// What a fetch has come to.
pub enum FetchStep {
    Page(u32),
    Complete,
    Failed(Seq<char>),
}

/// The model of a [`FetchRun`].
#[verifier::ext_equal]
pub struct FetchView {
    pub server: Seq<char>,
    pub namespace_id: Seq<char>,
    pub token: Option<Seq<char>>,
    pub step: FetchStep,
    pub entries: Seq<ServerView>,
}

/// The address of a page of the list of objects.
pub open spec fn page_url(server: Seq<char>, namespace: Seq<char>, offset: u32) -> Seq<char> {
    server + "/namespaces/"@ + namespace + "/objects?prefix=files/&limit="@ + decimal(
        PAGE_SIZE as nat,
    ) + "&offset="@ + decimal(offset as nat)
}

/// The object that an item of a page describes; what it does not say is empty or zero.
pub open spec fn described(item: Json) -> ServerView {
    ServerView {
        key: match item.text("key"@) {
            Some(key) => key,
            None => Seq::empty(),
        },
        content_hash: item.text("content_hash"@),
        size_bytes: match item.member("size_bytes"@) {
            Some(size) => match size.as_u64() {
                Some(n) => n,
                None => 0,
            },
            None => 0,
        },
        updated_at: match item.member("updated_at"@) {
            Some(at) => match at.as_i64() {
                Some(n) => n,
                None => 0,
            },
            None => 0,
        },
    }
}

/// The items of a page: none, if its body is not an array.
pub open spec fn page_items(response: Json) -> Seq<Json> {
    match document_of(response) {
        Some(body) => match body.items() {
            Some(items) => items,
            None => Seq::empty(),
        },
        None => Seq::empty(),
    }
}

/// The objects that a page describes.
pub open spec fn page_entries(response: Json) -> Seq<ServerView> {
    page_items(response).map_values(|item: Json| described(item))
}

impl FetchView {
    /// A fetch that has not begun.
    pub open spec fn start(
        server: Seq<char>,
        namespace_id: Seq<char>,
        token: Option<Seq<char>>,
    ) -> FetchView {
        FetchView {
            server,
            namespace_id,
            token,
            step: FetchStep::Page(0),
            entries: Seq::empty(),
        }
    }

    /// Whether the fetch is over.
    pub open spec fn is_over(self) -> bool {
        !(self.step is Page)
    }

    /// The call that the fetch waits for.
    pub open spec fn call(self) -> Option<Call> {
        match self.step {
            FetchStep::Page(offset) => Some(
                Call::Send(
                    bare_request(
                        "GET"@,
                        page_url(self.server, self.namespace_id, offset),
                        self.token,
                    ),
                ),
            ),
            _ => None,
        }
    }

    /// The fetch after a response: a full page is followed by the next, any other is the last.
    pub open spec fn after_page(self, offset: u32, response: Json) -> FetchView {
        if status_of(response) != 200 {
            FetchView {
                step: FetchStep::Failed(error_message(status_of(response), body_of(response))),
                ..self
            }
        } else {
            FetchView {
                step: if page_items(response).len() < PAGE_SIZE {
                    FetchStep::Complete
                } else {
                    FetchStep::Page(((offset + PAGE_SIZE) % 0x1_0000_0000) as u32)
                },
                entries: self.entries + page_entries(response),
                ..self
            }
        }
    }

    /// The fetch after a reply; a reply to another call changes nothing.
    pub open spec fn after(self, reply: Reply) -> FetchView {
        match (self.step, reply) {
            (FetchStep::Page(offset), Reply::Response(Ok(response))) => self.after_page(
                offset,
                response.json(),
            ),
            (FetchStep::Page(_), Reply::Response(Err(e))) => FetchView {
                step: FetchStep::Failed(e),
                ..self
            },
            _ => self,
        }
    }

    /// What the fetch gives in the end.
    pub open spec fn result(self) -> Result<Seq<ServerView>, Seq<char>> {
        match self.step {
            FetchStep::Failed(e) => Err(e),
            _ => Ok(self.entries),
        }
    }
}

impl View for FetchRun {
    type V = FetchView;

    closed spec fn view(&self) -> FetchView {
        FetchView {
            server: self.server@,
            namespace_id: self.namespace_id@,
            token: optional_text(self.token),
            step: match self.progress {
                Progress::Page(offset) => FetchStep::Page(offset),
                Progress::Complete => FetchStep::Complete,
                Progress::Failed(e) => FetchStep::Failed(e@),
            },
            entries: server_views(self.entries@),
        }
    }
}

// ---------------------------------------------------------------------------
// Functions
// ---------------------------------------------------------------------------

/// Fetch object metadata from the server for the given namespace.
pub fn fetch_server_manifest(
    params: &JsonValue,
    settings: &Settings,
    namespace_id: &str,
) -> (r: Result<FetchRun, String>)
    ensures
        match r {
            Ok(run) => settings@.server(params@) matches Some(server) && run@ == FetchView::start(
                server,
                namespace_id@,
                settings@.token(params@),
            ),
            Err(e) => settings@.server(params@) is None && e@ == "Missing server_url"@,
        },
{
    match resolve_server_url(params, settings) {
        Some(server) => Ok(
            FetchRun::new(server, namespace_id.to_owned(), resolve_auth_token(params, settings)),
        ),
        None => Err("Missing server_url".to_owned()),
    }
}

/// The object that an item of a page describes.
fn read_entry(item: &JsonValue) -> (entry: ServerEntry)
    ensures
        entry@ == described(item@),
{
    let key: String = match item.text("key") {
        Some(key) => key,
        None => String::new(),
    };
    let size_bytes: u64 = match item.get("size_bytes") {
        Some(size) => match size.as_u64() {
            Some(n) => n,
            None => 0,
        },
        None => 0,
    };
    let updated_at: i64 = match item.get("updated_at") {
        Some(at) => match at.as_i64() {
            Some(n) => n,
            None => 0,
        },
        None => 0,
    };
    ServerEntry { key, content_hash: item.text("content_hash"), size_bytes, updated_at }
}

impl FetchRun {
    /// A fetch from a given server.
    pub fn new(server: String, namespace_id: String, token: Option<String>) -> (run: FetchRun)
        ensures
            run@ == FetchView::start(server@, namespace_id@, optional_text(token)),
    {
        let run = FetchRun {
            server,
            namespace_id,
            token,
            progress: Progress::Page(0),
            entries: Vec::new(),
        };
        assert(run@ =~= FetchView::start(server@, namespace_id@, optional_text(token)));
        run
    }

    /// Whether the fetch is over.
    pub fn is_over(&self) -> (r: bool)
        ensures
            r == self@.is_over(),
    {
        match &self.progress {
            Progress::Page(_) => false,
            _ => true,
        }
    }

    /// The call that the fetch waits for.
    pub fn call(&self) -> (r: Option<HostCall>)
        ensures
            call_view(r) == self@.call(),
    {
        match &self.progress {
            Progress::Page(offset) => {
                let mut url: String = text::join4(
                    self.server.as_str(),
                    "/namespaces/",
                    self.namespace_id.as_str(),
                    "/objects?prefix=files/&limit=",
                );
                url.append(text::number(PAGE_SIZE as u64).as_str());
                url.append("&offset=");
                url.append(text::number(*offset as u64).as_str());
                Some(HostCall::Send(server_api::new_request("GET", url, &self.token)))
            },
            _ => None,
        }
    }

    /// The fetch after a response.
    fn take_page(self, offset: u32, response: HttpResponse) -> (next: FetchRun)
        ensures
            next@ == self@.after_page(offset, response@.json()),
    {
        let ghost before = self@;
        let mut next: FetchRun = self;
        let response: JsonValue = response.to_json();
        let status: u64 = http::parse_http_status(&response);
        if status != 200 {
            let body: String = http::parse_http_body(&response);
            next.progress = Progress::Failed(http::http_error(status, body.as_str()));
            return next;
        }
        let body: Option<JsonValue> = http::parse_http_body_json(&response);
        let ghost items = page_items(response@);
        let mut count: usize = 0;
        match &body {
            Some(document) => match document.as_array() {
                Some(list) => {
                    count = list.len();
                    assert(items == items_view(list@));
                    for i in 0..count
                        invariant
                            count == list@.len(),
                            items == items_view(list@),
                            next@ =~= (FetchView {
                                entries: before.entries + items.take(i as int).map_values(
                                    |item: Json| described(item),
                                ),
                                ..before
                            }),
                    {
                        let entry: ServerEntry = read_entry(&list[i]);
                        let ghost prior = next.entries@;
                        next.entries.push(entry);
                        proof {
                            assert(server_views(next.entries@) =~= server_views(prior).push(
                                entry@,
                            ));
                            let f = |item: Json| described(item);
                            assert(items[i as int] == list@[i as int]@);
                            assert(items.take(i + 1).map_values(f) =~= items.take(
                                i as int,
                            ).map_values(f).push(entry@));
                            assert(next@.entries =~= before.entries + items.take(
                                i + 1,
                            ).map_values(f));
                        }
                    }
                    assert(items.take(count as int) =~= items);
                },
                None => {
                    assert(before.entries + page_entries(response@) =~= before.entries);
                },
            },
            None => {
                assert(before.entries + page_entries(response@) =~= before.entries);
            },
        }
        assert(next@.entries =~= before.entries + page_entries(response@));
        if count < PAGE_SIZE as usize {
            next.progress = Progress::Complete;
        } else {
            next.progress = Progress::Page(offset.wrapping_add(PAGE_SIZE));
        }
        assert(next@ =~= before.after_page(offset, response@));
        next
    }

    /// The fetch after a reply.
    pub fn step(self, reply: HostReply) -> (next: FetchRun)
        ensures
            next@ == self@.after(reply@),
    {
        let mut next: FetchRun = self;
        let offset: Option<u32> = match &next.progress {
            Progress::Page(offset) => Some(*offset),
            _ => None,
        };
        match (offset, reply) {
            (Some(offset), HostReply::Response(Ok(response))) => next.take_page(offset, response),
            (Some(_), HostReply::Response(Err(e))) => {
                next.progress = Progress::Failed(e);
                next
            },
            _ => next,
        }
    }

    /// What the fetch gives in the end.
    pub fn into_result(self) -> (r: Result<Vec<ServerEntry>, String>)
        ensures
            match r {
                Ok(entries) => self@.result() == Ok::<Seq<ServerView>, Seq<char>>(
                    server_views(entries@),
                ),
                Err(e) => self@.result() == Err::<Seq<ServerView>, Seq<char>>(e@),
            },
    {
        match self.progress {
            Progress::Failed(e) => Err(e),
            _ => Ok(self.entries),
        }
    }
}

// ---------------------------------------------------------------------------
// Laws
// ---------------------------------------------------------------------------

/// Whether a fetch has asked for what it has: the next page begins where the objects that are
/// there end.
pub open spec fn pages_are_gapless(fetch: FetchView) -> bool {
    fetch.step matches FetchStep::Page(offset) ==> offset == fetch.entries.len()
}

/// Pages are asked for without a gap, as long as the server fills every page but the last with
/// as many objects as were asked for and their number takes 32 bits: it holds at the start, and
/// every reply keeps it.
pub proof fn lemma_fetch_is_gapless(fetch: FetchView, reply: Reply)
    requires
        pages_are_gapless(fetch),
        reply matches Reply::Response(Ok(response)) ==> page_items(response.json()).len()
            <= PAGE_SIZE,
        fetch.entries.len() + PAGE_SIZE < 0x1_0000_0000,
    ensures
        pages_are_gapless(FetchView::start(fetch.server, fetch.namespace_id, fetch.token)),
        pages_are_gapless(fetch.after(reply)),
{
}

/// A fetch never loses what it has: what was fetched before a reply stands first after it.
pub proof fn lemma_fetch_only_adds(fetch: FetchView, reply: Reply)
    ensures
        fetch.entries.is_prefix_of(fetch.after(reply).entries),
{
    assert(fetch.entries =~= fetch.after(reply).entries.take(fetch.entries.len() as int));
}

/// A reply that is no full page ends the fetch.
pub proof fn lemma_fetch_ends(fetch: FetchView, reply: Reply)
    requires
        fetch.call() is Some,
        answers(fetch.call()->0, reply),
        reply matches Reply::Response(Ok(response)) ==> status_of(response.json()) != 200
            || page_items(response.json()).len() < PAGE_SIZE,
    ensures
        fetch.after(reply).is_over(),
{
}

} // verus!
