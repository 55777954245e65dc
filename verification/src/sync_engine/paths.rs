//! Paths of workspace files and keys of server objects.

use vstd::prelude::*;
use vstd::string::*;

use crate::text;
use crate::text::{has_part, strip_or_keep, with_slashes};

verus! {

// ---------------------------------------------------------------------------
// Models
// ---------------------------------------------------------------------------

/// The prefix that the paths of the files below `root` have.
pub open spec fn root_prefix(root: Seq<char>) -> Seq<char> {
    let p = with_slashes(root);
    if "/"@.is_suffix_of(p) {
        p
    } else {
        p.push('/')
    }
}

/// Whether a file is left out of the sync: hidden files, and what operating systems leave
/// behind.
pub open spec fn is_skipped(relative: Seq<char>) -> bool {
    ||| "."@.is_prefix_of(relative)
    ||| has_part(relative, "/."@)
    ||| relative == "__MACOSX"@
    ||| has_part(relative, "/__MACOSX"@)
    ||| relative == "Thumbs.db"@
    ||| relative == "desktop.ini"@
}

/// The key of the object for a relative path.
pub open spec fn object_key(relative: Seq<char>) -> Seq<char> {
    "files/"@ + relative
}

/// The relative path of the file for an object.
pub open spec fn path_of_key(key: Seq<char>) -> Seq<char> {
    strip_or_keep(key, "files/"@)
}

/// The path of the file for an object.
pub open spec fn file_path(prefix: Seq<char>, key: Seq<char>) -> Seq<char> {
    prefix + path_of_key(key)
}

/// The content type of a file, by the ending of its path.
pub open spec fn content_type(path: Seq<char>) -> Seq<char> {
    if ".md"@.is_suffix_of(path) {
        "text/markdown"@
    } else if ".json"@.is_suffix_of(path) {
        "application/json"@
    } else if ".yaml"@.is_suffix_of(path) || ".yml"@.is_suffix_of(path) {
        "application/x-yaml"@
    } else if ".png"@.is_suffix_of(path) {
        "image/png"@
    } else if ".jpg"@.is_suffix_of(path) || ".jpeg"@.is_suffix_of(path) {
        "image/jpeg"@
    } else if ".gif"@.is_suffix_of(path) {
        "image/gif"@
    } else if ".svg"@.is_suffix_of(path) {
        "image/svg+xml"@
    } else if ".pdf"@.is_suffix_of(path) {
        "application/pdf"@
    } else if ".html"@.is_suffix_of(path) {
        "text/html"@
    } else if ".css"@.is_suffix_of(path) {
        "text/css"@
    } else if ".txt"@.is_suffix_of(path) {
        "text/plain"@
    } else {
        "application/octet-stream"@
    }
}

// ---------------------------------------------------------------------------
// Functions
// ---------------------------------------------------------------------------

/// The prefix that the paths of the files below `root` have.
pub fn normalize_root_prefix(root: &str) -> (p: String)
    ensures
        p@ == root_prefix(root@),
{
    let mut p: String = text::to_slashes(root);
    if !text::ends_with(p.as_str(), "/") {
        p.push('/');
    }
    p
}

/// The path of a file without the prefix, if it has it.
pub fn strip_root_prefix<'a>(path: &'a str, root_prefix: &str) -> (r: &'a str)
    ensures
        r@ == strip_or_keep(path@, root_prefix@),
{
    text::strip_prefix_or_keep(path, root_prefix)
}

/// Whether a file is left out of the sync.
pub fn should_skip_file(relative: &str) -> (r: bool)
    ensures
        r == is_skipped(relative@),
{
    text::starts_with(relative, ".") || text::contains(relative, "/.") || text::same(
        relative,
        "__MACOSX",
    ) || text::contains(relative, "/__MACOSX") || text::same(relative, "Thumbs.db") || text::same(
        relative,
        "desktop.ini",
    )
}

/// The path of the file for an object.
pub fn path_for(prefix: &str, key: &str) -> (r: String)
    ensures
        r@ == file_path(prefix@, key@),
{
    text::join(prefix, text::strip_prefix_or_keep(key, "files/"))
}

/// The content type of a file, by the ending of its path.
pub fn guess_content_type(path: &str) -> (r: &'static str)
    ensures
        r@ == content_type(path@),
{
    if text::ends_with(path, ".md") {
        "text/markdown"
    } else if text::ends_with(path, ".json") {
        "application/json"
    } else if text::ends_with(path, ".yaml") || text::ends_with(path, ".yml") {
        "application/x-yaml"
    } else if text::ends_with(path, ".png") {
        "image/png"
    } else if text::ends_with(path, ".jpg") || text::ends_with(path, ".jpeg") {
        "image/jpeg"
    } else if text::ends_with(path, ".gif") {
        "image/gif"
    } else if text::ends_with(path, ".svg") {
        "image/svg+xml"
    } else if text::ends_with(path, ".pdf") {
        "application/pdf"
    } else if text::ends_with(path, ".html") {
        "text/html"
    } else if text::ends_with(path, ".css") {
        "text/css"
    } else if text::ends_with(path, ".txt") {
        "text/plain"
    } else {
        "application/octet-stream"
    }
}

// ---------------------------------------------------------------------------
// Laws
// ---------------------------------------------------------------------------

/// The key of a relative path leads back to it.
pub proof fn lemma_key_roundtrip(relative: Seq<char>)
    ensures
        path_of_key(object_key(relative)) == relative,
{
    let key = object_key(relative);
    assert("files/"@ =~= key.take("files/"@.len() as int));
    assert(key.skip("files/"@.len() as int) =~= relative);
}

/// A file below the root, listed by its full path, is found again at the path for its key.
pub proof fn lemma_file_roundtrip(root: Seq<char>, relative: Seq<char>)
    ensures
        strip_or_keep(root_prefix(root) + relative, root_prefix(root)) == relative,
        file_path(root_prefix(root), object_key(relative)) == root_prefix(root) + relative,
{
    lemma_key_roundtrip(relative);
    let prefix = root_prefix(root);
    let full = prefix + relative;
    assert(prefix =~= full.take(prefix.len() as int));
    assert(full.skip(prefix.len() as int) =~= relative);
}

} // verus!
