//! Scanning the local workspace.

use vstd::prelude::*;
use vstd::string::*;

use crate::host::{answers, call_view, Call, HostCall, HostReply, Reply};
use crate::json::texts;
use crate::key_map::KeyMap;
use crate::sync_engine::paths;
use crate::sync_engine::paths::{is_skipped, object_key, root_prefix};
use crate::sync_engine::plan::{lemma_filter_step, LocalFileInfo, LocalView};
use crate::text;
use crate::text::strip_or_keep;

verus! {

/// What a scan waits for.
#[derive(Debug)]
enum Step {
    /// The list of files.
    List,
    /// The hash of the next file.
    Hash,
    /// The size of the next file, whose hash is known.
    Size(String),
}

/// A scan of the local workspace.
#[derive(Debug)]
pub struct ScanRun {
    root: String,
    step: Step,
    files: Vec<String>,
    at: usize,
    found: KeyMap<LocalFileInfo>,
}

// ---------------------------------------------------------------------------
// Models
// ---------------------------------------------------------------------------

/// What a scan waits for.
pub enum ScanStep {
    List,
    Hash,
    Size(Seq<char>),
}

/// The model of a [`ScanRun`]: the files that are still to be looked at, and what was found.
#[verifier::ext_equal]
pub struct ScanView {
    pub root: Seq<char>,
    pub step: ScanStep,
    pub todo: Seq<Seq<char>>,
    pub found: Map<Seq<char>, LocalView>,
}

/// The relative path of a listed file.
pub open spec fn relative_to(root: Seq<char>, file: Seq<char>) -> Seq<char> {
    strip_or_keep(file, root_prefix(root))
}

/// Whether a listed file takes part in the sync.
pub open spec fn takes_part(root: Seq<char>, file: Seq<char>) -> bool {
    relative_to(root, file).len() > 0 && !is_skipped(relative_to(root, file))
}

impl ScanView {
    /// A scan that has not begun.
    pub open spec fn start(root: Seq<char>) -> ScanView {
        ScanView { root, step: ScanStep::List, todo: Seq::empty(), found: Map::empty() }
    }

    /// Whether the scan is over.
    pub open spec fn is_over(self) -> bool {
        self.todo.len() == 0 && !(self.step is List)
    }

    /// The call that the scan waits for.
    pub open spec fn call(self) -> Option<Call> {
        if self.is_over() {
            None
        } else {
            Some(
                match self.step {
                    ScanStep::List => Call::ListFiles(self.root),
                    ScanStep::Hash => Call::HashFile(self.todo[0]),
                    ScanStep::Size(_) => Call::ReadBinary(self.todo[0]),
                },
            )
        }
    }

    /// The scan when the next file is dealt with.
    pub open spec fn next(self, found: Map<Seq<char>, LocalView>) -> ScanView {
        ScanView { step: ScanStep::Hash, todo: self.todo.drop_first(), found, ..self }
    }

    /// The scan after a reply. A file that cannot be hashed is left out, and one that cannot be
    /// read counts as empty; a reply to another call changes nothing.
    pub open spec fn after(self, reply: Reply) -> ScanView {
        if self.is_over() {
            self
        } else {
            match (self.step, reply) {
                (ScanStep::List, Reply::Files(Ok(files))) => ScanView {
                    step: ScanStep::Hash,
                    todo: files.filter(|file: Seq<char>| takes_part(self.root, file)),
                    ..self
                },
                (ScanStep::List, Reply::Files(Err(_))) => ScanView { step: ScanStep::Hash, ..self },
                (ScanStep::Hash, Reply::Hash(Some(hash))) => ScanView {
                    step: ScanStep::Size(hash),
                    ..self
                },
                (ScanStep::Hash, Reply::Hash(None)) => self.next(self.found),
                (ScanStep::Size(hash), Reply::Bytes(bytes)) => self.next(
                    self.found.insert(
                        object_key(relative_to(self.root, self.todo[0])),
                        LocalView {
                            hash,
                            size: match bytes {
                                Ok(b) => b.len() as u64,
                                Err(_) => 0,
                            },
                        },
                    ),
                ),
                _ => self,
            }
        }
    }

    /// How many replies the scan still waits for at most, once it has the list of files.
    pub open spec fn remaining(self) -> int {
        2 * self.todo.len() - (if self.step is Size {
            1int
        } else {
            0
        })
    }
}

impl ScanRun {
    #[verifier::type_invariant]
    spec fn in_range(self) -> bool {
        self.at <= self.files@.len()
    }

    /// The model of the scan.
    pub closed spec fn view(&self) -> ScanView {
        ScanView {
            root: self.root@,
            step: match self.step {
                Step::List => ScanStep::List,
                Step::Hash => ScanStep::Hash,
                Step::Size(hash) => ScanStep::Size(hash@),
            },
            todo: texts(self.files@).skip(self.at as int),
            found: self.found@,
        }
    }
}

// ---------------------------------------------------------------------------
// Functions
// ---------------------------------------------------------------------------

/// Scan local workspace files and compute hashes.
pub fn scan_local(workspace_root: &str) -> (run: ScanRun)
    ensures
        run@ == ScanView::start(workspace_root@),
{
    let run = ScanRun {
        root: workspace_root.to_owned(),
        step: Step::List,
        files: Vec::new(),
        at: 0,
        found: KeyMap::new(),
    };
    assert(run@ =~= ScanView::start(workspace_root@));
    run
}

/// The listed files that take part in the sync.
fn participants(root: &str, files: Vec<String>) -> (r: Vec<String>)
    ensures
        texts(r@) == texts(files@).filter(|file: Seq<char>| takes_part(root@, file)),
{
    let ghost all = texts(files@);
    let ghost keep = |file: Seq<char>| takes_part(root@, file);
    let prefix: String = paths::normalize_root_prefix(root);
    let mut r: Vec<String> = Vec::new();
    proof {
        reveal(Seq::filter);
        assert(all.take(0) =~= Seq::empty());
    }
    for i in 0..files.len()
        invariant
            all == texts(files@),
            prefix@ == root_prefix(root@),
            keep == |file: Seq<char>| takes_part(root@, file),
            texts(r@) =~= all.take(i as int).filter(keep),
    {
        proof {
            lemma_filter_step(all, i as int, keep);
            assert(all[i as int] == files@[i as int]@);
        }
        let file: &str = files[i].as_str();
        let relative: &str = paths::strip_root_prefix(file, prefix.as_str());
        if !relative.is_empty() && !paths::should_skip_file(relative) {
            r.push(file.to_owned());
        }
    }
    assert(all.take(all.len() as int) =~= all);
    r
}

impl ScanRun {
    /// Whether the scan is over.
    pub fn is_over(&self) -> (r: bool)
        ensures
            r == self@.is_over(),
    {
        proof {
            use_type_invariant(self);
        }
        match &self.step {
            Step::List => false,
            _ => self.at == self.files.len(),
        }
    }

    /// The call that the scan waits for.
    pub fn call(&self) -> (r: Option<HostCall>)
        ensures
            call_view(r) == self@.call(),
    {
        proof {
            use_type_invariant(self);
        }
        if self.is_over() {
            return None;
        }
        match &self.step {
            Step::List => Some(HostCall::ListFiles(self.root.clone())),
            Step::Hash => Some(HostCall::HashFile(self.files[self.at].clone())),
            Step::Size(_) => Some(HostCall::ReadBinary(self.files[self.at].clone())),
        }
    }

    /// The scan after a reply.
    pub fn step(self, reply: HostReply) -> (next: ScanRun)
        ensures
            next@ == self@.after(reply@),
    {
        proof {
            use_type_invariant(&self);
        }
        if self.is_over() {
            return self;
        }
        let ghost before = self@;
        let ghost said = reply@;
        let ScanRun { root, step, files, at, found } = self;
        let _count: usize = files.len();
        match (step, reply) {
            (Step::List, HostReply::Files(Ok(listed))) => {
                let files: Vec<String> = participants(root.as_str(), listed);
                let next = ScanRun { root, step: Step::Hash, files, at: 0, found };
                assert(next@ =~= before.after(said));
                next
            },
            (Step::List, HostReply::Files(Err(_))) => ScanRun {
                root,
                step: Step::Hash,
                files,
                at,
                found,
            },
            (Step::Hash, HostReply::Hash(Some(hash))) => ScanRun {
                root,
                step: Step::Size(hash),
                files,
                at,
                found,
            },
            (Step::Hash, HostReply::Hash(None)) => {
                let next = ScanRun { root, step: Step::Hash, files, at: at + 1, found };
                assert(next@.todo =~= before.todo.drop_first());
                next
            },
            (Step::Size(hash), HostReply::Bytes(bytes)) => {
                let size: u64 = match bytes {
                    Ok(b) => b.len() as u64,
                    Err(_) => 0,
                };
                let prefix: String = paths::normalize_root_prefix(root.as_str());
                let relative: &str = paths::strip_root_prefix(files[at].as_str(), prefix.as_str());
                let key: String = text::join("files/", relative);
                let mut found: KeyMap<LocalFileInfo> = found;
                found.insert(key.as_str(), LocalFileInfo { hash, size });
                let next = ScanRun { root, step: Step::Hash, files, at: at + 1, found };
                proof {
                    assert(before.todo[0] == files@[at as int]@);
                    assert(next@.todo =~= before.todo.drop_first());
                    assert(next@ =~= before.after(said));
                }
                next
            },
            (step, _) => ScanRun { root, step, files, at, found },
        }
    }

    /// What the scan found.
    pub fn into_found(self) -> (found: KeyMap<LocalFileInfo>)
        ensures
            found@ == self@.found,
    {
        self.found
    }
}

// ---------------------------------------------------------------------------
// Laws
// ---------------------------------------------------------------------------

/// Once a scan has the list of files, every reply to what it waits for brings it closer to its
/// end.
pub proof fn lemma_scan_progresses(scan: ScanView, reply: Reply)
    requires
        scan.call() is Some,
        answers(scan.call()->0, reply),
        !(scan.step is List),
    ensures
        0 <= scan.after(reply).remaining() < scan.remaining(),
{
}

/// What a scan finds has the keys of objects, and no file that is left out of the sync is
/// among it.
pub open spec fn finds_participants(scan: ScanView) -> bool {
    &&& !(scan.step is List) ==> forall|i: int|
        0 <= i < scan.todo.len() ==> takes_part(scan.root, #[trigger] scan.todo[i])
    &&& forall|key: Seq<char>| #[trigger]
        scan.found.contains_key(key) ==> exists|file: Seq<char>| #[trigger]
            takes_part(scan.root, file) && key == object_key(relative_to(scan.root, file))
}

/// No file that is left out of the sync is ever found: it holds at the start of a scan, and
/// every reply keeps it.
pub proof fn lemma_scan_skips(scan: ScanView, reply: Reply)
    requires
        finds_participants(scan),
        scan.step is List ==> scan.todo.len() == 0,
    ensures
        finds_participants(ScanView::start(scan.root)),
        finds_participants(scan.after(reply)),
        scan.after(reply).step is List ==> scan.after(reply).todo.len() == 0,
{
    let next = scan.after(reply);
    assert forall|key: Seq<char>| #[trigger] next.found.contains_key(key) implies exists|
        file: Seq<char>,
    | #[trigger]
        takes_part(next.root, file) && key == object_key(relative_to(next.root, file)) by {
        if scan.found.contains_key(key) {
            let file = choose|file: Seq<char>| #[trigger]
                takes_part(scan.root, file) && key == object_key(relative_to(scan.root, file));
            assert(takes_part(next.root, file));
        } else {
            assert(takes_part(scan.root, scan.todo[0]));
            assert(takes_part(next.root, scan.todo[0]));
        }
    }
    if !scan.is_over() {
        match (scan.step, reply) {
            (ScanStep::List, Reply::Files(Ok(files))) => {
                let keep = |file: Seq<char>| takes_part(scan.root, file);
                assert forall|i: int| 0 <= i < next.todo.len() implies takes_part(
                    next.root,
                    #[trigger] next.todo[i],
                ) by {
                    assert(files.filter(keep).contains(next.todo[i]));
                    crate::sync_engine::plan::lemma_filter_members(files, keep, next.todo[i]);
                }
            },
            (ScanStep::Hash, Reply::Hash(None)) => {
                assert forall|i: int| 0 <= i < next.todo.len() implies takes_part(
                    next.root,
                    #[trigger] next.todo[i],
                ) by {
                    assert(next.todo[i] == scan.todo[i + 1]);
                }
            },
            (ScanStep::Size(hash), Reply::Bytes(bytes)) => {
                assert forall|i: int| 0 <= i < next.todo.len() implies takes_part(
                    next.root,
                    #[trigger] next.todo[i],
                ) by {
                    assert(next.todo[i] == scan.todo[i + 1]);
                }
            },
            _ => {},
        }
    }
}

} // verus!
