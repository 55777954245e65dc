//! What has to be pushed and pulled: hash-based diffing with last-writer-wins
//! conflict resolution.

use vstd::prelude::*;
use vstd::string::*;

use crate::json::texts;
use crate::key_map::{ascending, lemma_precedes_irreflexive, walk, KeyMap};
use crate::sync_manifest::{
    DeleteView, FileEntry, FileEntryView, ManifestView, SyncManifest, SyncState,
};
use crate::text;

verus! {

/// A file of the local workspace.
#[derive(Debug)]
pub struct LocalFileInfo {
    pub hash: String,
    pub size: u64,
}

/// An object on the server.
#[derive(Debug)]
pub struct ServerEntry {
    pub key: String,
    pub content_hash: Option<String>,
    pub size_bytes: u64,
    pub updated_at: i64,
}

/// What has to be done to bring the local workspace and the server together.
#[derive(Debug)]
pub struct SyncPlan {
    pub push: Vec<String>,
    pub pull: Vec<String>,
    pub delete_remote: Vec<String>,
    pub delete_local: Vec<String>,
}

// ---------------------------------------------------------------------------
// Models
// ---------------------------------------------------------------------------

/// The model of a [`LocalFileInfo`].
pub struct LocalView {
    pub hash: Seq<char>,
    pub size: u64,
}

/// The model of a [`ServerEntry`].
pub struct ServerView {
    pub key: Seq<char>,
    pub content_hash: Option<Seq<char>>,
    pub size_bytes: u64,
    pub updated_at: i64,
}

/// The model of a [`SyncPlan`].
#[verifier::ext_equal]
pub struct PlanView {
    pub push: Seq<Seq<char>>,
    pub pull: Seq<Seq<char>>,
    pub delete_remote: Seq<Seq<char>>,
    pub delete_local: Seq<Seq<char>>,
}

impl View for LocalFileInfo {
    type V = LocalView;

    open spec fn view(&self) -> LocalView {
        LocalView { hash: self.hash@, size: self.size }
    }
}

impl View for ServerEntry {
    type V = ServerView;

    open spec fn view(&self) -> ServerView {
        ServerView {
            key: self.key@,
            content_hash: match self.content_hash {
                Some(h) => Some(h@),
                None => None,
            },
            size_bytes: self.size_bytes,
            updated_at: self.updated_at,
        }
    }
}

impl View for SyncPlan {
    type V = PlanView;

    open spec fn view(&self) -> PlanView {
        PlanView {
            push: texts(self.push@),
            pull: texts(self.pull@),
            delete_remote: texts(self.delete_remote@),
            delete_local: texts(self.delete_local@),
        }
    }
}

/// The models of the entries.
pub open spec fn server_views(entries: Seq<ServerEntry>) -> Seq<ServerView> {
    entries.map_values(|e: ServerEntry| e@)
}

/// The server's entry for `key`: of several, the last.
pub open spec fn server_entry(entries: Seq<ServerView>, key: Seq<char>) -> Option<ServerView>
    decreases entries.len(),
{
    if entries.len() == 0 {
        None
    } else if entries.last().key == key {
        Some(entries.last())
    } else {
        server_entry(entries.drop_last(), key)
    }
}

/// A number of milliseconds as a signed 64-bit integer holds it.
pub open spec fn signed(t: u64) -> int {
    if t < 0x8000_0000_0000_0000 {
        t as int
    } else {
        t - 0x1_0000_0000_0000_0000
    }
}

/// What is to be done about one local file.
#[derive(Debug, Clone, Copy, PartialEq, Eq, Structural)]
pub enum Action {
    Push,
    Pull,
    DeleteLocal,
    Keep,
}

/// Whether a tracked file was changed here since it was last in sync.
pub open spec fn changed_here(known: FileEntryView, local: LocalView) -> bool {
    ||| known.state is Dirty
    ||| known.content_hash.len() == 0
    ||| known.content_hash != local.hash
}

/// Whether a tracked file was changed on the server since it was last in sync.
pub open spec fn changed_there(known: FileEntryView, remote: ServerView) -> bool {
    match remote.content_hash {
        Some(hash) => hash != known.content_hash,
        None => false,
    }
}

/// What is to be done about a local file, given what is tracked of it and what the server has.
///
/// Where both sides changed a file, the later change wins, and the local one on a tie.
pub open spec fn decision(
    known: Option<FileEntryView>,
    local: LocalView,
    remote: Option<ServerView>,
) -> Action {
    match (known, remote) {
        (Some(t), Some(r)) => match (changed_here(t, local), changed_there(t, r)) {
            (true, true) => if signed(t.modified_at) >= r.updated_at {
                Action::Push
            } else {
                Action::Pull
            },
            (true, false) => Action::Push,
            (false, true) => Action::Pull,
            (false, false) => Action::Keep,
        },
        (Some(t), None) => if t.state is Dirty || t.content_hash.len() == 0 {
            Action::Push
        } else {
            Action::DeleteLocal
        },
        (None, Some(r)) => if r.content_hash == Some(local.hash) {
            Action::Keep
        } else {
            Action::Push
        },
        (None, None) => Action::Push,
    }
}

/// What is to be done about the local file at `key`.
pub open spec fn decided(
    manifest: ManifestView,
    local: Map<Seq<char>, LocalView>,
    server: Seq<ServerView>,
    key: Seq<char>,
) -> Action {
    decision(manifest.entry(key), local[key], server_entry(server, key))
}

/// Whether an object of the server that has no local file is pulled: all are, but for those
/// that were in sync before the local file went away.
pub open spec fn missing_here(
    manifest: ManifestView,
    local: Map<Seq<char>, LocalView>,
    key: Seq<char>,
) -> bool {
    &&& !local.contains_key(key)
    &&& match manifest.entry(key) {
        Some(t) => !(t.state is Clean),
        None => true,
    }
}

/// The key under which the server holds a deleted path.
pub open spec fn remote_key(path: Seq<char>) -> Seq<char> {
    if "files/"@.is_prefix_of(path) {
        path
    } else {
        "files/"@ + path
    }
}

/// The local files about which `action` is to be done, in order.
pub open spec fn keys_with(
    manifest: ManifestView,
    keys: Seq<Seq<char>>,
    local: Map<Seq<char>, LocalView>,
    server: Seq<ServerView>,
    action: Action,
) -> Seq<Seq<char>> {
    keys.filter(|key: Seq<char>| decided(manifest, local, server, key) == action)
}

/// The objects of the server that are to be pulled though there is no local file, in order.
pub open spec fn keys_missing_here(
    manifest: ManifestView,
    local: Map<Seq<char>, LocalView>,
    server: Seq<ServerView>,
) -> Seq<Seq<char>> {
    server.filter(|entry: ServerView| missing_here(manifest, local, entry.key)).map_values(
        |entry: ServerView| entry.key,
    )
}

/// The pending removals of objects that the server still has, in order.
pub open spec fn keys_to_remove(manifest: ManifestView, server: Seq<ServerView>) -> Seq<Seq<char>> {
    manifest.pending_deletes.map_values(|d: DeleteView| remote_key(d.path)).filter(
        |key: Seq<char>| server_entry(server, key) is Some,
    )
}

/// What has to be done, where `keys` are the keys of `local` in ascending order.
pub open spec fn planned(
    manifest: ManifestView,
    keys: Seq<Seq<char>>,
    local: Map<Seq<char>, LocalView>,
    server: Seq<ServerView>,
) -> PlanView {
    PlanView {
        push: keys_with(manifest, keys, local, server, Action::Push),
        pull: keys_with(manifest, keys, local, server, Action::Pull) + keys_missing_here(
            manifest,
            local,
            server,
        ),
        delete_remote: keys_to_remove(manifest, server),
        delete_local: keys_with(manifest, keys, local, server, Action::DeleteLocal),
    }
}

// ---------------------------------------------------------------------------
// Functions
// ---------------------------------------------------------------------------

pub(crate) proof fn lemma_filter_step<A>(s: Seq<A>, i: int, keep: spec_fn(A) -> bool)
    requires
        0 <= i < s.len(),
    ensures
        s.take(i + 1).filter(keep) == if keep(s[i]) {
            s.take(i).filter(keep).push(s[i])
        } else {
            s.take(i).filter(keep)
        },
{
    reveal(Seq::filter);
    assert(s.take(i + 1).drop_last() =~= s.take(i));
    assert(s.take(i + 1).last() == s[i]);
}

proof fn lemma_signed(t: u64)
    ensures
        (t as i64) as int == signed(t),
{
    assert(t < 0x8000_0000_0000_0000u64 ==> (t as i64) == t) by (bit_vector);
    assert(t >= 0x8000_0000_0000_0000u64 ==> (t as i64) == t - 0x1_0000_0000_0000_0000) by (bit_vector);
}

/// An index of the server's entries by key: of several with the same key, the last.
pub fn index_server(entries: &[ServerEntry]) -> (index: KeyMap<usize>)
    ensures
        forall|key: Seq<char>| #[trigger]
            index@.contains_key(key) <==> server_entry(server_views(entries@), key) is Some,
        forall|key: Seq<char>| #[trigger]
            index@.contains_key(key) ==> index@[key] < entries@.len() && server_entry(
                server_views(entries@),
                key,
            ) == Some(entries@[index@[key] as int]@),
{
    let ghost all = server_views(entries@);
    let mut index: KeyMap<usize> = KeyMap::new();
    let len: usize = entries.len();
    for i in 0..len
        invariant
            len == entries@.len(),
            all == server_views(entries@),
            forall|key: Seq<char>| #[trigger]
                index@.contains_key(key) <==> server_entry(all.take(i as int), key) is Some,
            forall|key: Seq<char>| #[trigger]
                index@.contains_key(key) ==> index@[key] < i && server_entry(
                    all.take(i as int),
                    key,
                ) == Some(entries@[index@[key] as int]@),
    {
        assert(all.take(i + 1).drop_last() =~= all.take(i as int));
        assert(all.take(i + 1).last() == entries@[i as int]@);
        index.insert(entries[i].key.as_str(), i);
    }
    assert(all.take(len as int) =~= all);
    index
}

/// The decision about one local file.
fn decide(
    known: Option<&FileEntry>,
    local: &LocalFileInfo,
    remote: Option<&ServerEntry>,
) -> (action: Action)
    ensures
        action == decision(
            match known {
                Some(t) => Some(t@),
                None => None,
            },
            local@,
            match remote {
                Some(r) => Some(r@),
                None => None,
            },
        ),
{
    match (known, remote) {
        (Some(t), Some(r)) => {
            let local_changed: bool = t.state == SyncState::Dirty || t.content_hash.as_str().is_empty()
                || !text::same(t.content_hash.as_str(), local.hash.as_str());
            let server_changed: bool = match &r.content_hash {
                Some(hash) => !text::same(hash.as_str(), t.content_hash.as_str()),
                None => false,
            };
            if local_changed && server_changed {
                proof {
                    lemma_signed(t.modified_at);
                }
                let local_ts: i64 = t.modified_at as i64;
                if local_ts >= r.updated_at {
                    Action::Push
                } else {
                    Action::Pull
                }
            } else if local_changed {
                Action::Push
            } else if server_changed {
                Action::Pull
            } else {
                Action::Keep
            }
        },
        (Some(t), None) => if t.state == SyncState::Dirty || t.content_hash.as_str().is_empty() {
            Action::Push
        } else {
            Action::DeleteLocal
        },
        (None, Some(r)) => match &r.content_hash {
            Some(hash) => if text::same(hash.as_str(), local.hash.as_str()) {
                Action::Keep
            } else {
                Action::Push
            },
            None => Action::Push,
        },
        (None, None) => Action::Push,
    }
}

/// Compute what needs to be pushed and pulled.
pub fn compute_diff(
    manifest: &SyncManifest,
    local_scan: &KeyMap<LocalFileInfo>,
    server_entries: &[ServerEntry],
) -> (plan: SyncPlan)
    ensures
        plan@ == planned(
            manifest@,
            walk(local_scan@),
            local_scan@,
            server_views(server_entries@),
        ),
        are_keys_of(walk(local_scan@), local_scan@),
        ascending(walk(local_scan@)),
{
    let ghost m = manifest@;
    let ghost keys = local_scan.keys();
    let ghost local = local_scan@;
    let ghost server = server_views(server_entries@);
    let mut plan = SyncPlan {
        push: Vec::new(),
        pull: Vec::new(),
        delete_remote: Vec::new(),
        delete_local: Vec::new(),
    };
    let index: KeyMap<usize> = index_server(server_entries);

    // Check local files against server
    let ghost pushes = |key: Seq<char>| decided(m, local, server, key) == Action::Push;
    let ghost pulls = |key: Seq<char>| decided(m, local, server, key) == Action::Pull;
    let ghost drops = |key: Seq<char>| decided(m, local, server, key) == Action::DeleteLocal;
    let count: usize = local_scan.len();
    proof {
        local_scan.lemma_walk();
        reveal(Seq::filter);
        assert(keys.take(0) =~= Seq::empty());
    }
    for i in 0..count
        invariant
            count == keys.len(),
            m == manifest@,
            keys == local_scan.keys(),
            local == local_scan@,
            server == server_views(server_entries@),
            pushes == |key: Seq<char>| decided(m, local, server, key) == Action::Push,
            pulls == |key: Seq<char>| decided(m, local, server, key) == Action::Pull,
            drops == |key: Seq<char>| decided(m, local, server, key) == Action::DeleteLocal,
            forall|key: Seq<char>| #[trigger]
                index@.contains_key(key) <==> server_entry(server, key) is Some,
            forall|key: Seq<char>| #[trigger]
                index@.contains_key(key) ==> index@[key] < server_entries@.len() && server_entry(
                    server,
                    key,
                ) == Some(server_entries@[index@[key] as int]@),
            texts(plan.push@) =~= keys.take(i as int).filter(pushes),
            texts(plan.pull@) =~= keys.take(i as int).filter(pulls),
            texts(plan.delete_local@) =~= keys.take(i as int).filter(drops),
            plan.delete_remote@.len() == 0,
    {
        let (key, info) = local_scan.entry(i);
        proof {
            lemma_filter_step(keys, i as int, pushes);
            lemma_filter_step(keys, i as int, pulls);
            lemma_filter_step(keys, i as int, drops);
        }
        let remote: Option<&ServerEntry> = match index.get(key) {
            Some(at) => Some(&server_entries[*at]),
            None => None,
        };
        match decide(manifest.files.get(key), info, remote) {
            Action::Push => plan.push.push(key.to_owned()),
            Action::Pull => plan.pull.push(key.to_owned()),
            Action::DeleteLocal => plan.delete_local.push(key.to_owned()),
            Action::Keep => {},
        }
    }
    assert(keys.take(count as int) =~= keys);

    // Check server files not present locally
    let ghost from_local = texts(plan.pull@);
    let ghost missing = |entry: ServerView| missing_here(m, local, entry.key);
    let ghost key_of = |entry: ServerView| entry.key;
    let total: usize = server_entries.len();
    proof {
        assert(server.take(0) =~= Seq::empty());
        assert(server.take(0).filter(missing).map_values(key_of) =~= Seq::empty());
    }
    for i in 0..total
        invariant
            total == server_entries@.len(),
            m == manifest@,
            local == local_scan@,
            server == server_views(server_entries@),
            missing == |entry: ServerView| missing_here(m, local, entry.key),
            key_of == |entry: ServerView| entry.key,
            texts(plan.pull@) =~= from_local + server.take(i as int).filter(missing).map_values(
                key_of,
            ),
            texts(plan.push@) == keys.filter(pushes),
            texts(plan.delete_local@) == keys.filter(drops),
            plan.delete_remote@.len() == 0,
    {
        let key: &str = server_entries[i].key.as_str();
        proof {
            lemma_filter_step(server, i as int, missing);
            assert(server[i as int].key == key@);
        }
        let ghost before = texts(plan.pull@);
        if !local_scan.contains_key(key) {
            let pull: bool = match manifest.files.get(key) {
                Some(t) => t.state != SyncState::Clean,
                None => true,
            };
            if pull {
                plan.pull.push(key.to_owned());
                assert(texts(plan.pull@) =~= before.push(key@));
            }
        }
        proof {
            let s = server.take(i as int).filter(missing);
            assert(s.push(server[i as int]).map_values(key_of) =~= s.map_values(key_of).push(key@));
        }
    }
    assert(server.take(total as int) =~= server);

    // Pending deletes → delete from server
    let ghost wanted = m.pending_deletes.map_values(|d: DeleteView| remote_key(d.path));
    let ghost present = |key: Seq<char>| server_entry(server, key) is Some;
    assert(wanted.take(0) =~= Seq::empty());
    for i in 0..manifest.pending_deletes.len()
        invariant
            m == manifest@,
            wanted == m.pending_deletes.map_values(|d: DeleteView| remote_key(d.path)),
            present == |key: Seq<char>| server_entry(server, key) is Some,
            forall|key: Seq<char>| #[trigger]
                index@.contains_key(key) <==> server_entry(server, key) is Some,
            texts(plan.delete_remote@) =~= wanted.take(i as int).filter(present),
            texts(plan.pull@) == from_local + server.filter(missing).map_values(key_of),
            texts(plan.push@) == keys.filter(pushes),
            texts(plan.delete_local@) == keys.filter(drops),
    {
        let path: &str = manifest.pending_deletes[i].path.as_str();
        let key: String = if text::starts_with(path, "files/") {
            path.to_owned()
        } else {
            text::join("files/", path)
        };
        proof {
            assert(m.pending_deletes[i as int].path == path@);
            assert(wanted[i as int] == key@);
            lemma_filter_step(wanted, i as int, present);
        }
        if index.contains_key(key.as_str()) {
            plan.delete_remote.push(key);
        }
    }
    assert(wanted.take(wanted.len() as int) =~= wanted);
    plan
}

// ---------------------------------------------------------------------------
// Laws
// ---------------------------------------------------------------------------

/// What a filtered sequence holds.
pub proof fn lemma_filter_members<A>(s: Seq<A>, keep: spec_fn(A) -> bool, x: A)
    ensures
        s.filter(keep).contains(x) <==> s.contains(x) && keep(x),
    decreases s.len(),
{
    reveal(Seq::filter);
    if s.len() == 0 {
        assert(!s.contains(x));
    } else {
        let rest = s.drop_last();
        lemma_filter_members(rest, keep, x);
        let f = rest.filter(keep);
        if s.contains(x) && x != s.last() {
            let i = s.index_of(x);
            assert(rest[i] == x);
        }
        if rest.contains(x) {
            let i = rest.index_of(x);
            assert(s[i] == x);
        }
        assert(s[s.len() - 1] == s.last());
        if keep(s.last()) {
            let g = f.push(s.last());
            assert(s.filter(keep) == g);
            if f.contains(x) {
                assert(g[f.index_of(x)] == x);
            }
            assert(g[f.len() as int] == s.last());
            if g.contains(x) && x != s.last() {
                assert(f[g.index_of(x)] == x);
            }
        }
    }
}

/// What a mapped sequence holds.
proof fn lemma_map_members<A, B>(s: Seq<A>, f: spec_fn(A) -> B, y: B)
    ensures
        s.map_values(f).contains(y) <==> exists|x: A| #[trigger] s.contains(x) && f(x) == y,
{
    if s.map_values(f).contains(y) {
        let i = s.map_values(f).index_of(y);
        assert(s.contains(s[i]) && f(s[i]) == y);
    }
    if exists|x: A| #[trigger] s.contains(x) && f(x) == y {
        let x = choose|x: A| #[trigger] s.contains(x) && f(x) == y;
        assert(s.map_values(f)[s.index_of(x)] == y);
    }
}

/// The server has an object exactly if one of the entries is of that key, and what it has is
/// one of the entries.
pub proof fn lemma_server_entry(entries: Seq<ServerView>, key: Seq<char>)
    ensures
        server_entry(entries, key) is Some <==> exists|e: ServerView| #[trigger]
            entries.contains(e) && e.key == key,
        server_entry(entries, key) matches Some(e) ==> entries.contains(e) && e.key == key,
    decreases entries.len(),
{
    if entries.len() > 0 {
        let rest = entries.drop_last();
        lemma_server_entry(rest, key);
        assert(entries.contains(entries.last())) by {
            assert(entries[entries.len() - 1] == entries.last());
        }
        assert forall|e: ServerView| rest.contains(e) implies #[trigger] entries.contains(e) by {
            assert(entries[rest.index_of(e)] == e);
        }
        assert forall|e: ServerView| #[trigger] entries.contains(e) && e != entries.last() implies
            rest.contains(e) by {
            assert(rest[entries.index_of(e)] == e);
        }
        if server_entry(rest, key) is Some {
            assert(entries.contains(server_entry(rest, key)->0));
        }
    }
}

/// Whether `keys` are the keys of `local`.
pub open spec fn are_keys_of(keys: Seq<Seq<char>>, local: Map<Seq<char>, LocalView>) -> bool {
    forall|k: Seq<char>| #[trigger] local.contains_key(k) <==> keys.contains(k)
}

/// What stands in each list of a plan.
pub proof fn lemma_plan_members(
    manifest: ManifestView,
    keys: Seq<Seq<char>>,
    local: Map<Seq<char>, LocalView>,
    server: Seq<ServerView>,
    key: Seq<char>,
)
    requires
        are_keys_of(keys, local),
    ensures
        ({
            let plan = planned(manifest, keys, local, server);
            let action = decided(manifest, local, server, key);
            &&& plan.push.contains(key) <==> local.contains_key(key) && action is Push
            &&& plan.delete_local.contains(key) <==> local.contains_key(key) && action is DeleteLocal
            &&& plan.pull.contains(key) <==> (local.contains_key(key) && action is Pull) || (
            server_entry(server, key) is Some && missing_here(manifest, local, key))
            &&& plan.delete_remote.contains(key) <==> server_entry(server, key) is Some && exists|
                d: DeleteView,
            | #[trigger]
                manifest.pending_deletes.contains(d) && remote_key(d.path) == key
        }),
{
    let plan = planned(manifest, keys, local, server);
    assert(local.contains_key(key) <==> keys.contains(key));
    lemma_filter_members(
        keys,
        |k: Seq<char>| decided(manifest, local, server, k) == Action::Push,
        key,
    );
    lemma_filter_members(
        keys,
        |k: Seq<char>| decided(manifest, local, server, k) == Action::Pull,
        key,
    );
    lemma_filter_members(
        keys,
        |k: Seq<char>| decided(manifest, local, server, k) == Action::DeleteLocal,
        key,
    );
    let a = keys_with(manifest, keys, local, server, Action::Pull);
    let b = keys_missing_here(manifest, local, server);
    assert((a + b).contains(key) <==> a.contains(key) || b.contains(key)) by {
        if a.contains(key) {
            assert((a + b)[a.index_of(key)] == key);
        }
        if b.contains(key) {
            assert((a + b)[a.len() + b.index_of(key)] == key);
        }
        if (a + b).contains(key) {
            let i = (a + b).index_of(key);
            if i < a.len() {
                assert(a[i] == key);
            } else {
                assert(b[i - a.len()] == key);
            }
        }
    }
    let missing = |entry: ServerView| missing_here(manifest, local, entry.key);
    lemma_map_members(server.filter(missing), |entry: ServerView| entry.key, key);
    lemma_server_entry(server, key);
    assert forall|e: ServerView| #[trigger]
        server.filter(missing).contains(e) <==> server.contains(e) && missing(e) by {
        lemma_filter_members(server, missing, e);
    }
    if server_entry(server, key) is Some && missing_here(manifest, local, key) {
        let e = server_entry(server, key)->0;
        assert(server.filter(missing).contains(e));
    }
    let wanted = manifest.pending_deletes.map_values(|d: DeleteView| remote_key(d.path));
    lemma_filter_members(wanted, |k: Seq<char>| server_entry(server, k) is Some, key);
    lemma_map_members(manifest.pending_deletes, |d: DeleteView| remote_key(d.path), key);
}

/// No file is in two of the lists of what is pushed, pulled and deleted here.
pub proof fn lemma_plan_disjoint(
    manifest: ManifestView,
    keys: Seq<Seq<char>>,
    local: Map<Seq<char>, LocalView>,
    server: Seq<ServerView>,
    key: Seq<char>,
)
    requires
        are_keys_of(keys, local),
    ensures
        ({
            let plan = planned(manifest, keys, local, server);
            &&& !(plan.push.contains(key) && plan.pull.contains(key))
            &&& !(plan.push.contains(key) && plan.delete_local.contains(key))
            &&& !(plan.pull.contains(key) && plan.delete_local.contains(key))
        }),
{
    lemma_plan_members(manifest, keys, local, server, key);
}

/// What is pushed or deleted here is a local file; what is pulled or removed from the server
/// is an object that the server has.
pub proof fn lemma_plan_possible(
    manifest: ManifestView,
    keys: Seq<Seq<char>>,
    local: Map<Seq<char>, LocalView>,
    server: Seq<ServerView>,
    key: Seq<char>,
)
    requires
        are_keys_of(keys, local),
    ensures
        ({
            let plan = planned(manifest, keys, local, server);
            &&& plan.push.contains(key) ==> local.contains_key(key)
            &&& plan.delete_local.contains(key) ==> local.contains_key(key)
            &&& plan.pull.contains(key) ==> server_entry(server, key) is Some
            &&& plan.delete_remote.contains(key) ==> server_entry(server, key) is Some
        }),
{
    lemma_plan_members(manifest, keys, local, server, key);
}

/// Ascending keys, some of which are left out, hold no key twice.
proof fn lemma_filter_distinct(keys: Seq<Seq<char>>, keep: spec_fn(Seq<char>) -> bool)
    requires
        ascending(keys),
    ensures
        keys.filter(keep).no_duplicates(),
    decreases keys.len(),
{
    reveal(Seq::filter);
    if keys.len() > 0 {
        let rest = keys.drop_last();
        assert(ascending(rest));
        lemma_filter_distinct(rest, keep);
        let f = rest.filter(keep);
        if keep(keys.last()) {
            lemma_filter_members(rest, keep, keys.last());
            if rest.contains(keys.last()) {
                let i = rest.index_of(keys.last());
                lemma_precedes_irreflexive(keys.last());
                assert(crate::key_map::precedes(keys[i], keys[keys.len() - 1]));
            }
            let g = f.push(keys.last());
            assert forall|i: int, j: int| 0 <= i < g.len() && 0 <= j < g.len() && i != j implies g[i]
                != g[j] by {
                if i < f.len() {
                    assert(f.contains(f[i]));
                }
                if j < f.len() {
                    assert(f.contains(f[j]));
                }
            }
        }
    }
}

/// Whether no two of the server's entries are of the same key.
pub open spec fn distinct_entries(entries: Seq<ServerView>) -> bool {
    forall|i: int, j: int|
        0 <= i < j < entries.len() ==> (#[trigger] entries[i]).key != (#[trigger] entries[j]).key
}

proof fn lemma_filter_entries_distinct(entries: Seq<ServerView>, keep: spec_fn(ServerView) -> bool)
    requires
        distinct_entries(entries),
    ensures
        distinct_entries(entries.filter(keep)),
    decreases entries.len(),
{
    reveal(Seq::filter);
    if entries.len() > 0 {
        let rest = entries.drop_last();
        assert(distinct_entries(rest)) by {
            assert forall|i: int, j: int| 0 <= i < j < rest.len() implies (#[trigger] rest[i]).key
                != (#[trigger] rest[j]).key by {
                assert(entries[i].key != entries[j].key);
            }
        }
        lemma_filter_entries_distinct(rest, keep);
        let f = rest.filter(keep);
        if keep(entries.last()) {
            let g = f.push(entries.last());
            assert forall|i: int, j: int| 0 <= i < j < g.len() implies (#[trigger] g[i]).key != (
            #[trigger] g[j]).key by {
                assert(f.contains(f[i]));
                lemma_filter_members(rest, keep, f[i]);
                if j < f.len() {
                    assert(f[i].key != f[j].key);
                } else {
                    let k = rest.index_of(f[i]);
                    assert(entries[k].key != entries[entries.len() - 1].key);
                }
            }
        }
    }
}

/// No file is pushed twice or deleted here twice; and none is pulled twice, if no two of the
/// server's entries are of the same key.
pub proof fn lemma_plan_distinct(
    manifest: ManifestView,
    keys: Seq<Seq<char>>,
    local: Map<Seq<char>, LocalView>,
    server: Seq<ServerView>,
)
    requires
        ascending(keys),
    ensures
        planned(manifest, keys, local, server).push.no_duplicates(),
        planned(manifest, keys, local, server).delete_local.no_duplicates(),
        are_keys_of(keys, local) && distinct_entries(server) ==> planned(
            manifest,
            keys,
            local,
            server,
        ).pull.no_duplicates(),
{
    lemma_filter_distinct(
        keys,
        |k: Seq<char>| decided(manifest, local, server, k) == Action::Push,
    );
    lemma_filter_distinct(
        keys,
        |k: Seq<char>| decided(manifest, local, server, k) == Action::DeleteLocal,
    );
    if are_keys_of(keys, local) && distinct_entries(server) {
        let chosen = |k: Seq<char>| decided(manifest, local, server, k) == Action::Pull;
        let missing = |entry: ServerView| missing_here(manifest, local, entry.key);
        lemma_filter_distinct(keys, chosen);
        lemma_filter_entries_distinct(server, missing);
        let a = keys_with(manifest, keys, local, server, Action::Pull);
        let found = server.filter(missing);
        let b = keys_missing_here(manifest, local, server);
        let pull = a + b;
        assert forall|i: int, j: int| 0 <= i < j < pull.len() implies pull[i] != pull[j] by {
            if i < a.len() {
                assert(a.contains(a[i]));
                lemma_filter_members(keys, chosen, a[i]);
                assert(local.contains_key(a[i]));
            }
            if j >= a.len() {
                let e = found[j - a.len()];
                assert(found.contains(e));
                lemma_filter_members(server, missing, e);
                assert(pull[j] == e.key);
                if i >= a.len() {
                    assert(pull[i] == found[i - a.len()].key);
                }
            }
        }
    }
}

/// The last writer wins: where a file was changed on both sides since it was last in sync, the
/// side that changed it later prevails, and the local one on a tie.
pub proof fn lemma_last_writer_wins(
    manifest: ManifestView,
    keys: Seq<Seq<char>>,
    local: Map<Seq<char>, LocalView>,
    server: Seq<ServerView>,
    key: Seq<char>,
)
    requires
        are_keys_of(keys, local),
        local.contains_key(key),
        manifest.entry(key) is Some,
        server_entry(server, key) is Some,
        changed_here(manifest.entry(key)->0, local[key]),
        changed_there(manifest.entry(key)->0, server_entry(server, key)->0),
        manifest.entry(key)->0.modified_at <= i64::MAX,
    ensures
        ({
            let plan = planned(manifest, keys, local, server);
            let here = manifest.entry(key)->0.modified_at;
            let there = server_entry(server, key)->0.updated_at;
            &&& plan.push.contains(key) <==> here >= there
            &&& plan.pull.contains(key) <==> here < there
            &&& !plan.delete_local.contains(key)
        }),
{
    lemma_plan_members(manifest, keys, local, server, key);
}

/// A file that is in sync on both sides is left alone.
pub proof fn lemma_in_sync_untouched(
    manifest: ManifestView,
    keys: Seq<Seq<char>>,
    local: Map<Seq<char>, LocalView>,
    server: Seq<ServerView>,
    key: Seq<char>,
)
    requires
        are_keys_of(keys, local),
        local.contains_key(key),
        manifest.entry(key) is Some,
        server_entry(server, key) is Some,
        !changed_here(manifest.entry(key)->0, local[key]),
        !changed_there(manifest.entry(key)->0, server_entry(server, key)->0),
    ensures
        ({
            let plan = planned(manifest, keys, local, server);
            &&& !plan.push.contains(key)
            &&& !plan.pull.contains(key)
            &&& !plan.delete_local.contains(key)
        }),
{
    lemma_plan_members(manifest, keys, local, server, key);
}

/// A local file is deleted only if the server has it no more and it is marked as in sync; so a
/// file that is marked as changed is never deleted.
pub proof fn lemma_only_synced_files_are_deleted(
    manifest: ManifestView,
    keys: Seq<Seq<char>>,
    local: Map<Seq<char>, LocalView>,
    server: Seq<ServerView>,
    key: Seq<char>,
)
    requires
        are_keys_of(keys, local),
        planned(manifest, keys, local, server).delete_local.contains(key),
    ensures
        manifest.entry(key) matches Some(t) && t.state is Clean && t.content_hash.len() > 0,
        server_entry(server, key) is None,
{
    lemma_plan_members(manifest, keys, local, server, key);
}

/// A local file of which nothing is known is pushed, unless the server has the same content.
pub proof fn lemma_new_files_are_pushed(
    manifest: ManifestView,
    keys: Seq<Seq<char>>,
    local: Map<Seq<char>, LocalView>,
    server: Seq<ServerView>,
    key: Seq<char>,
)
    requires
        are_keys_of(keys, local),
        local.contains_key(key),
        manifest.entry(key) is None,
    ensures
        planned(manifest, keys, local, server).push.contains(key) <==> !(server_entry(server, key)
            matches Some(r) && r.content_hash == Some(local[key].hash)),
{
    lemma_plan_members(manifest, keys, local, server, key);
}

/// Whether the local files, the manifest and the server agree, and no removal is pending. The
/// server may still have objects of files that were in sync before they went away here.
pub open spec fn in_agreement(
    manifest: ManifestView,
    local: Map<Seq<char>, LocalView>,
    server: Seq<ServerView>,
) -> bool {
    &&& manifest.pending_deletes.len() == 0
    &&& forall|key: Seq<char>| #[trigger]
        local.contains_key(key) ==> {
            &&& manifest.entry(key) matches Some(t) && !changed_here(t, local[key])
            &&& server_entry(server, key) matches Some(r) && !changed_there(
                manifest.entry(key)->0,
                r,
            )
        }
    &&& forall|e: ServerView| #[trigger]
        server.contains(e) ==> !missing_here(manifest, local, e.key)
}

/// Where the two sides agree, there is nothing to do.
pub proof fn lemma_agreement_is_stable(
    manifest: ManifestView,
    keys: Seq<Seq<char>>,
    local: Map<Seq<char>, LocalView>,
    server: Seq<ServerView>,
)
    requires
        are_keys_of(keys, local),
        in_agreement(manifest, local, server),
    ensures
        ({
            let plan = planned(manifest, keys, local, server);
            &&& plan.push.len() == 0
            &&& plan.pull.len() == 0
            &&& plan.delete_remote.len() == 0
            &&& plan.delete_local.len() == 0
        }),
{
    let plan = planned(manifest, keys, local, server);
    if plan.push.len() > 0 {
        assert(plan.push.contains(plan.push[0]));
        lemma_plan_members(manifest, keys, local, server, plan.push[0]);
    }
    if plan.delete_local.len() > 0 {
        assert(plan.delete_local.contains(plan.delete_local[0]));
        lemma_plan_members(manifest, keys, local, server, plan.delete_local[0]);
    }
    if plan.pull.len() > 0 {
        let key = plan.pull[0];
        assert(plan.pull.contains(key));
        lemma_plan_members(manifest, keys, local, server, key);
        lemma_server_entry(server, key);
    }
    if plan.delete_remote.len() > 0 {
        let key = plan.delete_remote[0];
        assert(plan.delete_remote.contains(key));
        lemma_plan_members(manifest, keys, local, server, key);
    }
}

} // verus!
