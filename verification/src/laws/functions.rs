//! Functions: what each of them gives, in terms of what it is given.

use vstd::prelude::*;
use vstd::string::*;
use vstd::utf8::*;

use crate::codec::{base64_decoded, from_utf8, to_utf8, utf8_error};
use crate::config::{
    apply_config_patch, initial_config, normalize_server_base, provider_supported,
    resolve_auth_token, resolve_namespace_id, resolve_server_url, resolve_workspace_root,
    server_base, workspace_relative_path, InitParams, Settings, SyncExtismConfig,
};
use crate::events::on_event;
use crate::http::{
    auth_headers, content_headers, http_error, parse_http_body, parse_http_body_bytes,
    parse_http_body_json, parse_http_status,
};
use crate::json::{json_parse, optional_text, texts, Json, JsonNumber, JsonValue};
use crate::key_map::KeyMap;
use crate::state::{init, set_namespace_id, shutdown_state, PluginState};
use crate::sync_engine::paths::{
    guess_content_type, normalize_root_prefix, path_for, should_skip_file, strip_root_prefix,
};
use crate::sync_manifest::{FileEntry, FileEntryView, SyncManifest, SyncState};
use crate::text::{
    before_last, blank, contains, decimal, ends_with, is_blank, is_space, is_whitespace, join,
    join3, join4, number, same, starts_with, strip_prefix, strip_prefix_or_keep, strip_suffix,
    to_slashes, trim, trim_end_of, trimmed, with_slashes,
};

verus! {

// ---------------------------------------------------------------------------
// Texts
// ---------------------------------------------------------------------------

/// Texts are joined end to end, and are the same if their characters are.
pub proof fn lemma_joined_texts(
    a: &str,
    b: &str,
    c: &str,
    d: &str,
    two: String,
    three: String,
    four: String,
    alike: bool,
)
    requires
        call_ensures(join, (a, b), two),
        call_ensures(join3, (a, b, c), three),
        call_ensures(join4, (a, b, c, d), four),
        call_ensures(same, (a, b), alike),
    ensures
        two@ == a@ + b@,
        three@ == a@ + b@ + c@,
        four@ == a@ + b@ + c@ + d@,
        alike <==> a@ == b@,
{
}

/// A text starts with, ends with and contains what it is made of.
pub proof fn lemma_found_texts(
    s: &str,
    part: &str,
    starts: bool,
    ends: bool,
    holds: bool,
)
    requires
        call_ensures(starts_with, (s, part), starts),
        call_ensures(ends_with, (s, part), ends),
        call_ensures(contains, (s, part), holds),
    ensures
        starts <==> exists|rest: Seq<char>| s@ == #[trigger] (part@ + rest),
        ends <==> exists|rest: Seq<char>| s@ == #[trigger] (rest + part@),
        holds <==> exists|before: Seq<char>, rest: Seq<char>|
            s@ == #[trigger] (before + part@ + rest),
{
    crate::laws::texts::lemma_prefixes(s@, part@);
    crate::laws::texts::lemma_suffixes(s@, part@);
    crate::laws::texts::lemma_parts(s@, part@);
    if part@.is_prefix_of(s@) {
        assert(s@ =~= part@ + s@.skip(part@.len() as int));
    }
    if part@.is_suffix_of(s@) {
        assert(s@ =~= s@.take(s@.len() - part@.len()) + part@);
    }
    assert forall|rest: Seq<char>| s@ == #[trigger] (part@ + rest) implies part@.is_prefix_of(
        s@,
    ) by {
        assert(s@.subrange(0, part@.len() as int) =~= part@);
    }
    assert forall|rest: Seq<char>| s@ == #[trigger] (rest + part@) implies part@.is_suffix_of(
        s@,
    ) by {
        assert(s@.subrange(rest.len() as int, s@.len() as int) =~= part@);
    }
}

/// What is cut off a text is what was asked for, and the rest is left.
pub proof fn lemma_cut_texts(
    s: &str,
    part: &str,
    rest: Seq<char>,
    front: Option<&str>,
    kept: &str,
    back: Option<&str>,
)
    requires
        call_ensures(strip_prefix, (s, part), front),
        call_ensures(strip_prefix_or_keep, (s, part), kept),
        call_ensures(strip_suffix, (s, part), back),
    ensures
        s@ == part@ + rest ==> (front matches Some(t) && t@ == rest) && kept@ == rest,
        (forall|r: Seq<char>| s@ != #[trigger] (part@ + r)) ==> front is None && kept@ == s@,
        s@ == rest + part@ ==> (back matches Some(t) && t@ == rest),
        (forall|r: Seq<char>| s@ != #[trigger] (r + part@)) ==> back is None,
{
    crate::laws::texts::lemma_prefixes(s@, part@);
    crate::laws::texts::lemma_suffixes(s@, part@);
    assert(part@ + rest == part@ + rest);
    assert(rest + part@ == rest + part@);
}

/// A text is trimmed of white space on both sides, or of one character at its end, and of nothing
/// else; it is blank if it is all white space.
pub proof fn lemma_trims(
    s: &str,
    c: char,
    t: &str,
    u: &str,
    empty: bool,
    space: bool,
)
    requires
        call_ensures(trim, (s,), t),
        call_ensures(trim_end_of, (s, c), u),
        call_ensures(blank, (s,), empty),
        call_ensures(is_whitespace, (c,), space),
    ensures
        exists|i: int, j: int| #![trigger s@.subrange(i, j)]
            {
                &&& 0 <= i <= j <= s@.len()
                &&& t@ == s@.subrange(i, j)
                &&& forall|k: int| 0 <= k < i || j <= k < s@.len() ==> is_space(#[trigger] s@[k])
                &&& i < j ==> !is_space(s@[i]) && !is_space(s@[j - 1])
            },
        u@ == s@.take(u@.len() as int),
        u@.len() <= s@.len(),
        forall|i: int| u@.len() <= i < s@.len() ==> #[trigger] s@[i] == c,
        u@.len() > 0 ==> u@.last() != c,
        empty <==> forall|i: int| 0 <= i < s@.len() ==> is_space(#[trigger] s@[i]),
        space <==> is_space(c),
{
    crate::laws::texts::lemma_trimmed_texts(s@);
    crate::laws::texts::lemma_trimmed_ends(s@, c);
    crate::laws::texts::lemma_blank_texts(s@);
}

/// Backslashes become slashes; what stands before the last occurrence of a character is found; and
/// numbers are written with their digits.
pub proof fn lemma_rewritten_texts(
    s: &str,
    c: char,
    slashes: String,
    before: Option<&str>,
    n: u64,
    written: String,
)
    requires
        call_ensures(to_slashes, (s,), slashes),
        call_ensures(before_last, (s, c), before),
        call_ensures(number, (n,), written),
    ensures
        slashes@.len() == s@.len(),
        forall|i: int|
            0 <= i < s@.len() ==> #[trigger] slashes@[i] == (if s@[i] == '\\' {
                '/'
            } else {
                s@[i]
            }),
        match before {
            Some(t) => t@.len() < s@.len() && t@ == s@.take(t@.len() as int) && s@[t@.len() as int]
                == c && forall|i: int| t@.len() < i < s@.len() ==> #[trigger] s@[i] != c,
            None => forall|i: int| 0 <= i < s@.len() ==> #[trigger] s@[i] != c,
        },
        written@ == decimal(n as nat),
{
    crate::laws::texts::lemma_slashes(s@);
    crate::laws::texts::lemma_last_positions(s@, c);
}

/// UTF-8 is written and read without loss, and bytes that are no UTF-8 are refused.
pub proof fn lemma_utf8(
    s: &str,
    bytes: Vec<u8>,
    data: Vec<u8>,
    read: Result<String, String>,
)
    requires
        call_ensures(to_utf8, (s,), bytes),
        call_ensures(from_utf8, (data,), read),
    ensures
        bytes@ == encode_utf8(s@),
        valid_utf8(data@) ==> (read matches Ok(text) && text@ == decode_utf8(data@)),
        !valid_utf8(data@) ==> (read matches Err(e) && e@ == utf8_error(data@)),
{
}

// ---------------------------------------------------------------------------
// Paths
// ---------------------------------------------------------------------------

/// The path of a key's file is the prefix and what follows `files/`; the path of a listed file is
/// what follows the prefix.
pub proof fn lemma_paths_and_keys(
    prefix: &str,
    relative: Seq<char>,
    key: &str,
    path: String,
    full: &str,
    stripped: &str,
)
    requires
        key@ == "files/"@ + relative,
        full@ == prefix@ + relative,
        call_ensures(path_for, (prefix, key), path),
        call_ensures(strip_root_prefix, (full, prefix), stripped),
    ensures
        path@ == prefix@ + relative,
        stripped@ == relative,
{
    crate::laws::transfers::lemma_path_of_a_key(key@, relative);
    crate::laws::texts::lemma_prefixes(full@, prefix@);
    assert(prefix@ + relative == prefix@ + relative);
}

/// The prefix of a root ends in a slash and holds no backslash.
pub proof fn lemma_prefixes_of_roots(root: &str, prefix: String)
    requires
        call_ensures(normalize_root_prefix, (root,), prefix),
    ensures
        prefix@.len() > 0,
        prefix@.last() == '/',
        root@.len() <= prefix@.len() <= root@.len() + 1,
        forall|i: int|
            0 <= i < root@.len() ==> #[trigger] prefix@[i] == (if root@[i] == '\\' {
                '/'
            } else {
                root@[i]
            }),
{
    crate::laws::transfers::lemma_prefix_of_a_root(root@);
}

/// A file is skipped exactly if it is hidden, lies below something hidden, or was left behind by
/// an operating system.
pub proof fn lemma_skipped_files(relative: &str, skipped: bool)
    requires
        call_ensures(should_skip_file, (relative,), skipped),
    ensures
        skipped <==> {
            ||| exists|rest: Seq<char>| relative@ == #[trigger] ("."@ + rest)
            ||| exists|before: Seq<char>, rest: Seq<char>|
                relative@ == #[trigger] (before + "/."@ + rest)
            ||| relative@ == "__MACOSX"@
            ||| exists|before: Seq<char>, rest: Seq<char>|
                relative@ == #[trigger] (before + "/__MACOSX"@ + rest)
            ||| relative@ == "Thumbs.db"@
            ||| relative@ == "desktop.ini"@
        },
{
    crate::laws::texts::lemma_parts(relative@, "/."@);
    crate::laws::texts::lemma_parts(relative@, "/__MACOSX"@);
    if "."@.is_prefix_of(relative@) {
        assert(relative@ =~= "."@ + relative@.skip("."@.len() as int));
    }
    assert forall|rest: Seq<char>| relative@ == #[trigger] ("."@ + rest) implies "."@.is_prefix_of(
        relative@,
    ) by {
        assert(relative@.subrange(0, "."@.len() as int) =~= "."@);
    }
}

/// The type of a file's content goes by its ending.
pub proof fn lemma_guessed_types(path: &str, kind: &'static str)
    requires
        call_ensures(guess_content_type, (path,), kind),
    ensures
        kind@ == crate::sync_engine::paths::content_type(path@),
        ".md"@.is_suffix_of(path@) ==> kind@ == "text/markdown"@,
{
}

// ---------------------------------------------------------------------------
// Settings
// ---------------------------------------------------------------------------

/// The server, the token and the namespace that are named come first, and the namespace may not be
/// blank.
pub proof fn lemma_resolved_settings(
    params: &JsonValue,
    settings: &Settings,
    held: &Option<String>,
    server: Option<String>,
    token: Option<String>,
    namespace: Result<String, String>,
    root: Result<String, String>,
)
    requires
        call_ensures(resolve_server_url, (params, settings), server),
        call_ensures(resolve_auth_token, (params, settings), token),
        call_ensures(resolve_namespace_id, (params, settings, held), namespace),
        call_ensures(resolve_workspace_root, (held,), root),
    ensures
        (params@.member("server_url"@) matches Some(Json::Str(url)) ==> (server matches Some(s)
            && s@ == server_base(url))),
        (params@.text("server_url"@) is None ==> (settings.config.server_url matches Some(url) ==> (
        server matches Some(s) && s@ == server_base(url@)))),
        params@.text("server_url"@) is None && settings.config.server_url is None
            && settings.runtime is None ==> server is None,
        (params@.member("auth_token"@) matches Some(Json::Str(t)) ==> (token matches Some(s) && s@
            == t)),
        (params@.text("auth_token"@) is None ==> (settings.config.auth_token matches Some(t) ==> (
        token matches Some(s) && s@ == t@))),
        params@.text("auth_token"@) is None && settings.config.auth_token is None
            && settings.runtime is None ==> token is None,
        (params@.member("namespace_id"@) matches Some(Json::Str(id)) ==> (!is_blank(id) ==> (
        namespace matches Ok(s) && s@ == id))),
        (params@.text("namespace_id"@) is None ==> (settings.config.workspace_id matches Some(id)
            ==> (!is_blank(id@) ==> (namespace matches Ok(s) && s@ == id@)))),
        (params@.text("namespace_id"@) is None && settings.config.workspace_id is None ==> (
        *held matches Some(id) ==> (!is_blank(id@) ==> (namespace matches Ok(s) && s@ == id@)))),
        params@.text("namespace_id"@) is None && settings.config.workspace_id is None
            && *held is None ==> (namespace matches Err(e) && e@
            == "No namespace linked. Use `sync link` first."@),
        (*held matches Some(r) ==> (!is_blank(r@) ==> (root matches Ok(s) && s@ == r@))),
        (*held matches Some(r) ==> (is_blank(r@) ==> (root matches Err(e) && e@
            == "Missing workspace_root"@))),
        *held is None ==> (root matches Err(e) && e@ == "Missing workspace_root"@),
{
}

/// A patch sets what it gives, clears what it nulls, and leaves the rest.
pub proof fn lemma_applied_patches(config: &mut SyncExtismConfig, incoming: &JsonValue)
    requires
        call_ensures(apply_config_patch, (config, incoming), ()),
    ensures
        (incoming@.member("server_url"@) matches Some(Json::Str(value)) ==> (!is_blank(value) ==> (
        final(config).server_url matches Some(s) && s@ == trimmed(value)))),
        (incoming@.member("auth_token"@) matches Some(Json::Str(value)) ==> (!is_blank(value) ==> (
        final(config).auth_token matches Some(s) && s@ == trimmed(value)))),
        (incoming@.member("workspace_id"@) matches Some(Json::Str(value)) ==> (!is_blank(value)
            ==> (final(config).workspace_id matches Some(s) && s@ == trimmed(value)))),
        incoming@.member("server_url"@) == Some(Json::Null) ==> final(config).server_url is None,
        incoming@.member("auth_token"@) == Some(Json::Null) ==> final(config).auth_token is None,
        incoming@.member("workspace_id"@) == Some(Json::Null)
            ==> final(config).workspace_id is None,
        incoming@.member("server_url"@) is None ==> optional_text(final(config).server_url)
            == optional_text(old(config).server_url),
        incoming@.member("auth_token"@) is None ==> optional_text(final(config).auth_token)
            == optional_text(old(config).auth_token),
        incoming@.member("workspace_id"@) is None ==> optional_text(final(config).workspace_id)
            == optional_text(old(config).workspace_id),
{
    crate::laws::models::lemma_settings_are_shown(
        *final(config),
        Settings { config: *final(config), runtime: None },
        PluginState { manifest: None, workspace_root: None, namespace_id: None },
    );
    let after = final(config)@;
    assert(after == old(config)@.after_patch(incoming@));
    assert(after.server_url == optional_text(final(config).server_url));
    assert(after.auth_token == optional_text(final(config).auth_token));
    assert(after.workspace_id == optional_text(final(config).workspace_id));
}

/// Other settings of small kind: the base of an address, whom a command is for, the path below the
/// root, and the configuration at the start.
pub proof fn lemma_other_settings(
    url: &str,
    base: String,
    params: &JsonValue,
    ours: bool,
    root: &Option<String>,
    path: &str,
    relative: String,
    start: &InitParams,
    stored: &SyncExtismConfig,
    config: SyncExtismConfig,
)
    requires
        call_ensures(normalize_server_base, (url,), base),
        call_ensures(provider_supported, (params,), ours),
        call_ensures(workspace_relative_path, (root, path), relative),
        call_ensures(initial_config, (start, stored), config),
    ensures
        base@.is_prefix_of(trimmed(url@)),
        base@.len() > 0 ==> base@.last() != '/',
        !"/sync"@.is_suffix_of(base@),
        !"/sync2"@.is_suffix_of(base@),
        trimmed(url@) == url@ && (url@.len() > 0 ==> url@.last() != '/')
            && !"/sync"@.is_suffix_of(url@) && !"/sync2"@.is_suffix_of(url@) ==> base@ == url@,
        params@.text("provider_id"@) is None ==> ours,
        (params@.member("provider_id"@) matches Some(Json::Str(id)) ==> (ours <==> id == "sync"@
            || id == "diaryx.sync"@)),
        *root is None ==> relative@ == with_slashes(path@),
        (start.server_url matches Some(s) ==> optional_text(config.server_url) == Some(s@)),
        (start.auth_token matches Some(s) ==> optional_text(config.auth_token) == Some(s@)),
        (start.workspace_id matches Some(s) ==> optional_text(config.workspace_id) == Some(s@)),
        start.server_url is None ==> optional_text(config.server_url) == optional_text(
            stored.server_url,
        ),
        start.auth_token is None ==> optional_text(config.auth_token) == optional_text(
            stored.auth_token,
        ),
        start.workspace_id is None ==> optional_text(config.workspace_id) == optional_text(
            stored.workspace_id,
        ),
{
    crate::config::lemma_server_base_is_bare(url@);
    crate::config::lemma_server_base_cuts_only_sync(url@);
    crate::laws::settings::lemma_paths_that_are_relative(optional_text(*root), path@);
}

// ---------------------------------------------------------------------------
// Manifests and state
// ---------------------------------------------------------------------------

/// A file that is marked as changed is marked so and keeps what is known of it, and all others
/// stay.
pub proof fn lemma_mark_dirty(manifest: &mut SyncManifest, path: &str, now: Option<u64>)
    requires
        call_ensures(SyncManifest::mark_dirty, (manifest, path, now), ()),
    ensures
        final(manifest).files@.contains_key(path@),
        final(manifest).files@[path@].state == SyncState::Dirty,
        old(manifest).files@.contains_key(path@) ==> final(manifest).files@[path@] == (
        FileEntryView { state: SyncState::Dirty, ..old(manifest).files@[path@] }),
        !old(manifest).files@.contains_key(path@) ==> final(manifest).files@[path@].modified_at == (
        match now {
            Some(t) => t,
            None => 0,
        }),
        forall|other: Seq<char>|
            other != path@ ==> (#[trigger] final(manifest).files@.contains_key(other)
                <==> old(manifest).files@.contains_key(other)),
        forall|other: Seq<char>|
            other != path@ && old(manifest).files@.contains_key(other)
                ==> #[trigger] final(manifest).files@[other] == old(manifest).files@[other],
        final(manifest)@.pending_deletes == old(manifest)@.pending_deletes,
        final(manifest).namespace_id@ == old(manifest).namespace_id@,
        final(manifest).last_sync_at == old(manifest).last_sync_at,
{
    assert(final(manifest)@.files == final(manifest).files@);
    assert(final(manifest)@.namespace_id == final(manifest).namespace_id@);
    assert(final(manifest)@.last_sync_at == final(manifest).last_sync_at);
}

/// A file that is marked as in sync has exactly the hash, the size and the time that are given,
/// and all others stay.
pub proof fn lemma_mark_clean(
    manifest: &mut SyncManifest,
    path: &str,
    hash: &str,
    size: u64,
    at: u64,
)
    requires
        call_ensures(SyncManifest::mark_clean, (manifest, path, hash, size, at), ()),
    ensures
        final(manifest).files@.contains_key(path@),
        final(manifest).files@[path@] == (FileEntryView {
            content_hash: hash@,
            size_bytes: size,
            modified_at: at,
            state: SyncState::Clean,
        }),
        forall|other: Seq<char>|
            other != path@ ==> (#[trigger] final(manifest).files@.contains_key(other)
                <==> old(manifest).files@.contains_key(other)),
        forall|other: Seq<char>|
            other != path@ && old(manifest).files@.contains_key(other)
                ==> #[trigger] final(manifest).files@[other] == old(manifest).files@[other],
        final(manifest)@.pending_deletes == old(manifest)@.pending_deletes,
        final(manifest).namespace_id@ == old(manifest).namespace_id@,
        final(manifest).last_sync_at == old(manifest).last_sync_at,
{
    assert(final(manifest)@.files == final(manifest).files@);
    assert(final(manifest)@.namespace_id == final(manifest).namespace_id@);
    assert(final(manifest)@.last_sync_at == final(manifest).last_sync_at);
}

/// A deletion is recorded once: the file is not followed any more, its removal is pending, and all
/// else stays.
pub proof fn lemma_record_delete(manifest: &mut SyncManifest, path: &str, now: Option<u64>)
    requires
        call_ensures(SyncManifest::record_delete, (manifest, path, now), ()),
    ensures
        ({
            let before = old(manifest)@.pending_deletes;
            let after = final(manifest)@.pending_deletes;
            let known = exists|i: int|
                0 <= i < before.len() && (#[trigger] before[i]).path == path@;
            &&& !final(manifest).files@.contains_key(path@)
            &&& forall|other: Seq<char>|
                other != path@ ==> (#[trigger] final(manifest).files@.contains_key(other)
                    <==> old(manifest).files@.contains_key(other))
            &&& forall|other: Seq<char>|
                other != path@ && old(manifest).files@.contains_key(other)
                    ==> #[trigger] final(manifest).files@[other] == old(manifest).files@[other]
            &&& known ==> after == before
            &&& !known ==> after.len() == before.len() + 1 && after.take(before.len() as int)
                == before && after.last().path == path@ && after.last().deleted_at == (match now {
                Some(t) => t,
                None => 0,
            })
            &&& final(manifest).namespace_id@ == old(manifest).namespace_id@
            &&& final(manifest).last_sync_at == old(manifest).last_sync_at
        }),
{
    crate::laws::changes::lemma_recorded_deletions(old(manifest)@, path@, now);
    assert(final(manifest)@.files == final(manifest).files@);
    assert(final(manifest)@.namespace_id == final(manifest).namespace_id@);
    assert(final(manifest)@.last_sync_at == final(manifest).last_sync_at);
}

/// To clear the removals leaves the files; to forget a file leaves the removals and the other
/// files.
pub proof fn lemma_clear_deletes(manifest: &mut SyncManifest)
    requires
        call_ensures(SyncManifest::clear_deletes, (manifest,), ()),
    ensures
        final(manifest).pending_deletes@.len() == 0,
        final(manifest).files@ == old(manifest).files@,
        final(manifest).namespace_id@ == old(manifest).namespace_id@,
        final(manifest).last_sync_at == old(manifest).last_sync_at,
{
    assert(final(manifest)@.pending_deletes.len() == final(manifest).pending_deletes@.len());
    assert(final(manifest)@.files == final(manifest).files@);
    assert(final(manifest)@.namespace_id == final(manifest).namespace_id@);
    assert(final(manifest)@.last_sync_at == final(manifest).last_sync_at);
}

/// To forget a file leaves the removals and the other files.
pub proof fn lemma_forget(manifest: &mut SyncManifest, path: &str)
    requires
        call_ensures(SyncManifest::forget, (manifest, path), ()),
    ensures
        final(manifest).files@ == old(manifest).files@.remove(path@),
        final(manifest)@.pending_deletes == old(manifest)@.pending_deletes,
        final(manifest).namespace_id@ == old(manifest).namespace_id@,
        final(manifest).last_sync_at == old(manifest).last_sync_at,
{
    assert(final(manifest)@.files == final(manifest).files@);
    assert(final(manifest)@.namespace_id == final(manifest).namespace_id@);
    assert(final(manifest)@.last_sync_at == final(manifest).last_sync_at);
}

/// The counts are those of the files in each state, and a copy holds the same.
pub proof fn lemma_counts_and_copies(
    manifest: &SyncManifest,
    dirty: usize,
    clean: usize,
    copy: SyncManifest,
    path: Seq<char>,
)
    requires
        call_ensures(SyncManifest::dirty_count, (manifest,), dirty),
        call_ensures(SyncManifest::clean_count, (manifest,), clean),
        call_ensures(SyncManifest::copied, (manifest,), copy),
    ensures
        copy.files@ == manifest.files@,
        copy.namespace_id@ == manifest.namespace_id@,
        copy.last_sync_at == manifest.last_sync_at,
        copy@.pending_deletes == manifest@.pending_deletes,
        manifest.files@.contains_key(path) && manifest.files@[path].state == SyncState::Dirty
            ==> dirty > 0,
        manifest.files@.contains_key(path) && manifest.files@[path].state == SyncState::Clean
            ==> clean > 0,
        (forall|p: Seq<char>| #[trigger]
            manifest.files@.contains_key(p) ==> manifest.files@[p].state != SyncState::Dirty)
            ==> dirty == 0,
        (forall|p: Seq<char>| #[trigger]
            manifest.files@.contains_key(p) ==> manifest.files@[p].state != SyncState::Clean)
            ==> clean == 0,
{
    assert(copy@ == manifest@);
    assert(copy@.files == copy.files@);
    assert(copy@.namespace_id == copy.namespace_id@);
    assert(copy@.last_sync_at == copy.last_sync_at);
    lemma_count(manifest@.in_state(SyncState::Dirty), path);
    lemma_count(manifest@.in_state(SyncState::Clean), path);
    if dirty > 0 {
        let p = manifest@.in_state(SyncState::Dirty).choose();
        lemma_some(manifest@.in_state(SyncState::Dirty));
        assert(manifest.files@.contains_key(p));
    }
    if clean > 0 {
        let p = manifest@.in_state(SyncState::Clean).choose();
        lemma_some(manifest@.in_state(SyncState::Clean));
        assert(manifest.files@.contains_key(p));
    }
}

proof fn lemma_count(paths: Set<Seq<char>>, path: Seq<char>)
    requires
        paths.finite(),
    ensures
        paths.contains(path) ==> paths.len() > 0,
{
    if paths.contains(path) && paths.len() == 0 {
        paths.lemma_len0_is_empty();
        assert(!paths.contains(path));
    }
}

proof fn lemma_some(paths: Set<Seq<char>>)
    requires
        paths.finite(),
        paths.len() > 0,
    ensures
        paths.contains(paths.choose()),
{
    if forall|p: Seq<char>| !(#[trigger] paths.contains(p)) {
        assert(paths =~= Set::empty());
    }
}

/// A map gives back what was put into it last, and nothing of what was removed.
pub proof fn lemma_maps_hold_what_is_put_in(
    map: &mut KeyMap<FileEntry>,
    key: &str,
    entry: FileEntry,
)
    requires
        call_ensures(KeyMap::<FileEntry>::insert, (map, key, entry), ()),
    ensures
        final(map)@.contains_key(key@),
        final(map)@[key@] == entry@,
        forall|other: Seq<char>|
            other != key@ ==> (#[trigger] final(map)@.contains_key(other)
                <==> old(map)@.contains_key(other)),
        forall|other: Seq<char>|
            other != key@ && old(map)@.contains_key(other)
                ==> #[trigger] final(map)@[other] == old(map)@[other],
{
}

/// An event changes the state as the laws of changes say.
pub proof fn lemma_saved_events(
    state: &mut PluginState,
    event: &str,
    payload: &JsonValue,
    path: Seq<char>,
    deleted_at: Option<u64>,
    modified_at: Option<u64>,
)
    requires
        call_ensures(on_event, (state, event, payload, deleted_at, modified_at), ()),
        event@ == "file_saved"@ || event@ == "file_created"@,
        payload@.member("path"@) == Some(Json::Str(path)),
        old(state).manifest is Some,
    ensures
        ({
            let key = "files/"@ + crate::config::relative_path(
                optional_text(old(state).workspace_root),
                path,
            );
            let before = old(state).manifest->0;
            &&& (final(state).manifest matches Some(after) && {
                &&& after.files@.contains_key(key)
                &&& after.files@[key].state == SyncState::Dirty
                &&& before.files@.contains_key(key) ==> after.files@[key].content_hash
                    == before.files@[key].content_hash
                &&& forall|other: Seq<char>|
                    other != key ==> (#[trigger] after.files@.contains_key(other)
                        <==> before.files@.contains_key(other))
                &&& after@.pending_deletes == before@.pending_deletes
            })
            &&& optional_text(final(state).workspace_root) == optional_text(
                old(state).workspace_root,
            )
            &&& optional_text(final(state).namespace_id) == optional_text(old(state).namespace_id)
        }),
{
    crate::laws::changes::lemma_saved_files(
        old(state)@,
        old(state).manifest->0@,
        event@,
        payload@,
        path,
        deleted_at,
        modified_at,
    );
    assert(final(state)@.manifest is Some);
    assert(final(state)@.workspace_root == optional_text(final(state).workspace_root));
    assert(final(state)@.namespace_id == optional_text(final(state).namespace_id));
}

/// A deletion that the host tells of is recorded as the laws of changes say.
pub proof fn lemma_deleted_events(
    state: &mut PluginState,
    event: &str,
    payload: &JsonValue,
    path: Seq<char>,
    deleted_at: Option<u64>,
    modified_at: Option<u64>,
)
    requires
        call_ensures(on_event, (state, event, payload, deleted_at, modified_at), ()),
        event@ == "file_deleted"@,
        payload@.member("path"@) == Some(Json::Str(path)),
        old(state).manifest is Some,
    ensures
        ({
            let key = "files/"@ + crate::config::relative_path(
                optional_text(old(state).workspace_root),
                path,
            );
            let before = old(state).manifest->0;
            final(state).manifest matches Some(after) && {
                &&& !after.files@.contains_key(key)
                &&& exists|i: int|
                    0 <= i < after@.pending_deletes.len() && (
                    #[trigger] after@.pending_deletes[i]).path == key
                &&& forall|other: Seq<char>|
                    other != key ==> (#[trigger] after.files@.contains_key(other)
                        <==> before.files@.contains_key(other))
            }
        }),
{
    let key = "files/"@ + crate::config::relative_path(
        optional_text(old(state).workspace_root),
        path,
    );
    let before = old(state).manifest->0;
    crate::laws::changes::lemma_deleted_files(
        old(state)@,
        before@,
        payload@,
        path,
        deleted_at,
        modified_at,
    );
    let after = final(state).manifest->0;
    assert(final(state)@.manifest == Some(after@));
    if !before@.is_pending(key) {
        let n = before@.pending_deletes.len() as int;
        assert(after@.pending_deletes[n].path == key);
    }
}

/// A renamed or moved file is recorded as deleted under its old path and as changed under its new
/// one; an event of another kind changes nothing.
pub proof fn lemma_moved_events(
    state: &mut PluginState,
    event: &str,
    payload: &JsonValue,
    from: Seq<char>,
    to: Seq<char>,
    deleted_at: Option<u64>,
    modified_at: Option<u64>,
)
    requires
        call_ensures(on_event, (state, event, payload, deleted_at, modified_at), ()),
        payload@.member("old_path"@) == Some(Json::Str(from)),
        payload@.member("new_path"@) == Some(Json::Str(to)),
        old(state).manifest is Some,
    ensures
        ({
            let root = optional_text(old(state).workspace_root);
            let old_key = "files/"@ + crate::config::relative_path(root, from);
            let new_key = "files/"@ + crate::config::relative_path(root, to);
            let before = old(state).manifest->0;
            &&& event@ == "file_renamed"@ || event@ == "file_moved"@ ==> (
            final(state).manifest matches Some(after) && {
                &&& after.files@.contains_key(new_key)
                &&& after.files@[new_key].state == SyncState::Dirty
                &&& old_key != new_key ==> !after.files@.contains_key(old_key)
                &&& forall|other: Seq<char>|
                    other != old_key && other != new_key ==> (
                    #[trigger] after.files@.contains_key(other)
                        <==> before.files@.contains_key(other))
            })
            &&& event@ != "file_saved"@ && event@ != "file_created"@ && event@ != "file_deleted"@
                && event@ != "file_renamed"@ && event@ != "file_moved"@ ==> final(state)@
                == old(state)@
        }),
{
    let before = old(state).manifest->0;
    if event@ == "file_renamed"@ || event@ == "file_moved"@ {
        crate::laws::changes::lemma_moved_files(
            old(state)@,
            before@,
            event@,
            payload@,
            from,
            to,
            deleted_at,
            modified_at,
        );
        assert(final(state)@.manifest is Some);
        assert(final(state)@.manifest == crate::state::manifest_view(final(state).manifest));
    }
    crate::laws::changes::lemma_other_events(
        old(state)@,
        event@,
        payload@,
        deleted_at,
        modified_at,
    );
}

/// At the start the plugin takes up what the host gives and what is stored; at the end it holds
/// nothing, and hands its manifest back.
pub proof fn lemma_start_and_end(
    params: &InitParams,
    config: &SyncExtismConfig,
    stored: Option<SyncManifest>,
    started: (SyncExtismConfig, PluginState),
    state: &mut PluginState,
    handed: Option<SyncManifest>,
)
    requires
        call_ensures(init, (params, config, stored), started),
        call_ensures(shutdown_state, (state,), handed),
    ensures
        optional_text(started.1.workspace_root) == optional_text(params.workspace_root),
        optional_text(started.1.namespace_id) == optional_text(started.0.workspace_id),
        (params.workspace_id matches Some(id) ==> optional_text(started.1.namespace_id) == Some(
            id@,
        )),
        params.workspace_id is None ==> optional_text(started.1.namespace_id) == optional_text(
            config.workspace_id,
        ),
        started.1.manifest is Some,
        (stored matches Some(m) ==> (optional_text(started.0.workspace_id) == Some(m.namespace_id@)
            ==> started.1.manifest->0@ == m@)),
        stored is None ==> started.1.manifest->0.files@ == Map::<
            Seq<char>,
            FileEntryView,
        >::empty(),
        final(state).manifest is None,
        final(state).workspace_root is None,
        final(state).namespace_id is None,
        (old(state).manifest matches Some(m) ==> (handed matches Some(h) && h@ == m@)),
        old(state).manifest is None ==> handed is None,
{
    assert(started.1@.manifest == crate::state::manifest_view(started.1.manifest));
    assert(final(state)@.manifest == crate::state::manifest_view(final(state).manifest));
    assert(final(state)@.workspace_root == optional_text(final(state).workspace_root));
    assert(final(state)@.namespace_id == optional_text(final(state).namespace_id));
    if started.1.manifest is Some {
        assert(started.1.manifest->0@.files == started.1.manifest->0.files@);
    }
}

/// With another namespace the plugin holds this one, with the manifest that is stored for it, or
/// with an empty one.
pub proof fn lemma_set_namespace(
    state: &mut PluginState,
    id: Option<String>,
    stored: Option<SyncManifest>,
)
    requires
        call_ensures(set_namespace_id, (state, id, stored), ()),
    ensures
        optional_text(final(state).namespace_id) == optional_text(id),
        optional_text(final(state).workspace_root) == optional_text(old(state).workspace_root),
        final(state).manifest is Some,
        (stored matches Some(m) ==> (optional_text(id) == Some(m.namespace_id@)
            ==> final(state).manifest->0@ == m@)),
        (stored is None || optional_text(id) != Some(stored->0.namespace_id@))
            ==> final(state).manifest->0.files@ == Map::<Seq<char>, FileEntryView>::empty(),
{
    assert(final(state)@.manifest == crate::state::manifest_view(final(state).manifest));
    assert(final(state)@.workspace_root == optional_text(final(state).workspace_root));
    assert(final(state)@.namespace_id == optional_text(final(state).namespace_id));
    if final(state).manifest is Some {
        assert(final(state).manifest->0@.files == final(state).manifest->0.files@);
    }
}

// ---------------------------------------------------------------------------
// Responses and documents
// ---------------------------------------------------------------------------

/// What a response document says is read from it as it is.
pub proof fn lemma_read_responses(
    response: &JsonValue,
    status: u64,
    body: String,
    document: Option<JsonValue>,
    bytes: Result<Vec<u8>, String>,
)
    requires
        call_ensures(parse_http_status, (response,), status),
        call_ensures(parse_http_body, (response,), body),
        call_ensures(parse_http_body_json, (response,), document),
        call_ensures(parse_http_body_bytes, (response,), bytes),
    ensures
        (response@.member("status"@) matches Some(Json::Number(JsonNumber::PosInt(n))) ==> status
            == n),
        response@.member("status"@) is None ==> status == 0,
        (response@.member("body"@) matches Some(Json::Str(s)) ==> body@ == s),
        response@.text("body"@) is None ==> body@.len() == 0,
        (response@.member("body"@) matches Some(Json::Str(s)) ==> (s.len() > 0 ==> match json_parse(
            s,
        ) {
            Ok(value) => document matches Some(d) && d@ == value,
            Err(_) => document is None,
        })),
        body@.len() == 0 ==> document is None,
        (response@.member("body_base64"@) matches Some(Json::Str(encoded)) ==> (encoded.len() > 0
            ==> match base64_decoded(encoded) {
            Ok(decoded) => bytes matches Ok(b) && b@ == decoded,
            Err(e) => bytes matches Err(message) && message@
                == "Invalid HTTP response body_base64: "@ + e,
        })),
        (response@.member("body_base64"@) matches Some(Json::Str(encoded)) ==> (encoded.len() == 0
            ==> (bytes matches Ok(b) && b@.len() == 0))),
        response@.text("body_base64"@) is None ==> (bytes matches Ok(b) && b@ == encode_utf8(
            body@,
        )),
{
}

/// A message for a status gives the status and the body; the headers show the type and the token.
pub proof fn lemma_messages_and_headers(
    status: u64,
    body: &str,
    message: String,
    kind: &str,
    token: &Option<String>,
    plain: Vec<(String, String)>,
    typed: Vec<(String, String)>,
)
    requires
        call_ensures(http_error, (status, body), message),
        call_ensures(auth_headers, (token,), plain),
        call_ensures(content_headers, (kind, token), typed),
    ensures
        message@ == (if body@.len() == 0 {
            "HTTP "@ + decimal(status as nat)
        } else {
            "HTTP "@ + decimal(status as nat) + ": "@ + body@
        }),
        plain@.len() >= 1 && plain@[0].0@ == "Content-Type"@ && plain@[0].1@
            == "application/json"@,
        (*token matches Some(t) ==> if is_blank(t@) {
            plain@.len() == 1
        } else {
            plain@.len() == 2 && plain@[1].0@ == "Authorization"@ && plain@[1].1@ == "Bearer "@ + t@
        }),
        *token is None ==> plain@.len() == 1,
        typed@.len() >= 1 && typed@[0].0@ == "Content-Type"@ && typed@[0].1@ == kind@,
        (*token matches Some(t) ==> typed@.len() == 2 && typed@[1].0@ == "Authorization"@
            && typed@[1].1@ == "Bearer "@ + t@),
        *token is None ==> typed@.len() == 1,
{
    let a = crate::http::headers_view(plain@);
    let b = crate::http::headers_view(typed@);
    assert(a.len() == plain@.len() && a.len() >= 1);
    assert(b.len() == typed@.len() && b.len() >= 1);
    assert(a[0] == (plain@[0].0@, plain@[0].1@));
    assert(b[0] == (typed@[0].0@, typed@[0].1@));
    if a.len() == 2 {
        assert(a[1] == (plain@[1].0@, plain@[1].1@));
    }
    if b.len() == 2 {
        assert(b[1] == (typed@[1].0@, typed@[1].1@));
    }
}

/// A document is read by its members, and its integers over their whole range.
pub proof fn lemma_read_documents(
    value: &JsonValue,
    key: &str,
    member: Option<&JsonValue>,
    text: Option<String>,
    unsigned: Option<u64>,
    signed: Option<i64>,
    null: bool,
    i: int,
)
    requires
        call_ensures(JsonValue::get, (value, key), member),
        call_ensures(JsonValue::text, (value, key), text),
        call_ensures(JsonValue::as_u64, (value,), unsigned),
        call_ensures(JsonValue::as_i64, (value,), signed),
        call_ensures(JsonValue::is_null, (value,), null),
    ensures
        (value matches JsonValue::Object(members) ==> (0 <= i < members@.len() && members@[i].0@
            == key@ && (forall|j: int| 0 <= j < i ==> (#[trigger] members@[j]).0@ != key@) ==> {
            &&& (member matches Some(found) && found@ == members@[i].1@)
            &&& (members@[i].1 matches JsonValue::String(s) ==> (text matches Some(t) && t@ == s@))
            &&& !(members@[i].1 is String) ==> text is None
        })),
        !(value is Object) ==> member is None && text is None,
        (value matches JsonValue::Number(JsonNumber::PosInt(n)) ==> unsigned == Some(*n) && (*n
            <= i64::MAX ==> (signed matches Some(m) && m == *n)) && (*n > i64::MAX
            ==> signed is None)),
        (value matches JsonValue::Number(JsonNumber::NegInt(n)) ==> signed == Some(*n)
            && unsigned is None),
        !(value is Number) ==> unsigned is None && signed is None,
        null <==> value is Null,
{
    crate::laws::models::lemma_documents_are_shown(*value);
    if let JsonValue::Object(members) = *value {
        let shown = value@->Object_0;
        if 0 <= i < members@.len() && members@[i].0@ == key@ && (forall|j: int|
            0 <= j < i ==> (#[trigger] members@[j]).0@ != key@) {
            assert forall|j: int| 0 <= j < i implies (#[trigger] shown[j]).0 != key@ by {
                assert(members@[j].0@ != key@);
            }
            crate::laws::listings::lemma_members_are_found(shown, key@, i);
            crate::laws::models::lemma_documents_are_shown(members@[i].1);
        }
    }
}

} // verus!
