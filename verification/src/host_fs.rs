//! Filesystem operations that take more than one call of the host.
//!
//! Directories are implicit in the host filesystem, and there is no call that creates or moves
//! a file with care; these operations are put together from the calls that there are.

use vstd::prelude::*;
use vstd::string::*;

use crate::host::{answers, call_view, Call, HostCall, HostReply, Reply};
use crate::json::texts;
use crate::sync_engine::plan::{lemma_filter_members, lemma_filter_step};
use crate::text;
use crate::text::trimmed_end_of;

verus! {

/// The kinds of errors.
#[derive(Debug, Clone, Copy, PartialEq, Eq, Structural)]
pub enum FsErrorKind {
    Other,
    AlreadyExists,
    NotFound,
}

/// An error of an operation.
#[derive(Debug)]
pub struct FsError {
    pub kind: FsErrorKind,
    pub message: String,
}

/// How far an operation has come.
#[derive(Debug)]
enum Stage {
    /// Whether the file to create is there already.
    CreateCheck(String, String),
    /// The new file is written.
    CreateWrite(String, String),
    /// Whether the file to move is there.
    MoveFrom(String, String),
    /// Whether the destination is free.
    MoveTo(String, String),
    /// The content of the file to move.
    MoveRead(String, String),
    /// The destination is written.
    MoveWrite(String, String, String),
    /// The file that was moved is deleted.
    MoveDelete(String),
    /// Whether there is anything at the path.
    DirCheck(String, bool),
    /// What is below the path.
    DirList(String, bool),
    /// The files of a directory, perhaps only those in Markdown.
    List(String, bool),
    Over(FsOutcome),
}

/// What comes of an operation.
#[derive(Debug)]
pub enum FsOutcome {
    /// That it was done, or why not.
    Done(Result<(), FsError>),
    /// The answer to a question.
    Answer(bool),
    /// Files, or why they cannot be listed.
    Paths(Result<Vec<String>, FsError>),
}

/// An operation.
#[derive(Debug)]
pub struct FsRun {
    stage: Stage,
}

// ---------------------------------------------------------------------------
// Models
// ---------------------------------------------------------------------------

/// The model of an [`FsError`].
pub struct ErrorView {
    pub kind: FsErrorKind,
    pub message: Seq<char>,
}

impl View for FsError {
    type V = ErrorView;

    open spec fn view(&self) -> ErrorView {
        ErrorView { kind: self.kind, message: self.message@ }
    }
}

/// The model of an [`FsOutcome`].
pub enum OutcomeView {
    Done(Result<(), ErrorView>),
    Answer(bool),
    Paths(Result<Seq<Seq<char>>, ErrorView>),
}

impl View for FsOutcome {
    type V = OutcomeView;

    open spec fn view(&self) -> OutcomeView {
        match self {
            FsOutcome::Done(Ok(_)) => OutcomeView::Done(Ok(())),
            FsOutcome::Done(Err(e)) => OutcomeView::Done(Err(e@)),
            FsOutcome::Answer(b) => OutcomeView::Answer(*b),
            FsOutcome::Paths(Ok(files)) => OutcomeView::Paths(Ok(texts(files@))),
            FsOutcome::Paths(Err(e)) => OutcomeView::Paths(Err(e@)),
        }
    }
}

/// The model of an [`FsRun`].
pub enum FsView {
    CreateCheck(Seq<char>, Seq<char>),
    CreateWrite(Seq<char>, Seq<char>),
    MoveFrom(Seq<char>, Seq<char>),
    MoveTo(Seq<char>, Seq<char>),
    MoveRead(Seq<char>, Seq<char>),
    MoveWrite(Seq<char>, Seq<char>, Seq<char>),
    MoveDelete(Seq<char>),
    DirCheck(Seq<char>, bool),
    DirList(Seq<char>, bool),
    List(Seq<char>, bool),
    Over(OutcomeView),
}

/// An operation that failed.
pub open spec fn fs_failed(kind: FsErrorKind, message: Seq<char>) -> FsView {
    FsView::Over(OutcomeView::Done(Err(ErrorView { kind, message })))
}

/// An operation that was done, or failed for the host's reason.
pub open spec fn fs_done(result: Result<(), Seq<char>>) -> FsView {
    match result {
        Ok(_) => FsView::Over(OutcomeView::Done(Ok(()))),
        Err(e) => fs_failed(FsErrorKind::Other, e),
    }
}

/// Whether something is below a path.
pub open spec fn has_children(path: Seq<char>, entries: Seq<Seq<char>>) -> bool {
    exists|i: int|
        0 <= i < entries.len() && (#[trigger] entries[i]) != path && (path + "/"@).is_prefix_of(
            entries[i],
        )
}

/// The Markdown files among the listed files.
pub open spec fn md_files(files: Seq<Seq<char>>) -> Seq<Seq<char>> {
    files.filter(|file: Seq<char>| ".md"@.is_suffix_of(file))
}

impl FsView {
    /// A question whether a path is a directory: the root is, and of any other path the host is
    /// asked.
    pub open spec fn is_dir(path: Seq<char>, has_extension: bool) -> FsView {
        let normalized = trimmed_end_of(path, '/');
        if normalized.len() == 0 || normalized == "."@ {
            FsView::Over(OutcomeView::Answer(true))
        } else {
            FsView::DirCheck(normalized, has_extension)
        }
    }

    /// Whether the operation is over.
    pub open spec fn is_over(self) -> bool {
        self is Over
    }

    /// The call that the operation waits for.
    pub open spec fn call(self) -> Option<Call> {
        match self {
            FsView::CreateCheck(path, _) => Some(Call::FileExists(path)),
            FsView::CreateWrite(path, content) => Some(Call::WriteText(path, content)),
            FsView::MoveFrom(from, _) => Some(Call::FileExists(from)),
            FsView::MoveTo(_, to) => Some(Call::FileExists(to)),
            FsView::MoveRead(from, _) => Some(Call::ReadText(from)),
            FsView::MoveWrite(_, to, content) => Some(Call::WriteText(to, content)),
            FsView::MoveDelete(from) => Some(Call::DeleteFile(from)),
            FsView::DirCheck(path, _) => Some(Call::FileExists(path)),
            FsView::DirList(path, _) => Some(Call::ListFiles(path)),
            FsView::List(dir, _) => Some(Call::ListFiles(dir)),
            FsView::Over(_) => None,
        }
    }

    /// The operation after a reply; a reply to another call changes nothing.
    pub open spec fn after(self, reply: Reply) -> FsView {
        match (self, reply) {
            (FsView::CreateCheck(path, content), Reply::Exists(Ok(exists))) => if exists {
                fs_failed(FsErrorKind::AlreadyExists, "File already exists"@)
            } else {
                FsView::CreateWrite(path, content)
            },
            (FsView::CreateCheck(_, _), Reply::Exists(Err(e))) => fs_failed(FsErrorKind::Other, e),
            (FsView::CreateWrite(_, _), Reply::Done(result)) => fs_done(result),
            (FsView::MoveFrom(from, to), Reply::Exists(Ok(exists))) => if exists {
                FsView::MoveTo(from, to)
            } else {
                fs_failed(FsErrorKind::NotFound, "Source file not found: "@ + from)
            },
            (FsView::MoveFrom(_, _), Reply::Exists(Err(e))) => fs_failed(FsErrorKind::Other, e),
            (FsView::MoveTo(from, to), Reply::Exists(Ok(exists))) => if exists {
                fs_failed(FsErrorKind::AlreadyExists, "Destination already exists: "@ + to)
            } else {
                FsView::MoveRead(from, to)
            },
            (FsView::MoveTo(_, _), Reply::Exists(Err(e))) => fs_failed(FsErrorKind::Other, e),
            (FsView::MoveRead(from, to), Reply::Text(Ok(content))) => FsView::MoveWrite(
                from,
                to,
                content,
            ),
            (FsView::MoveRead(_, _), Reply::Text(Err(e))) => fs_failed(FsErrorKind::Other, e),
            (FsView::MoveWrite(from, _, _), Reply::Done(Ok(_))) => FsView::MoveDelete(from),
            (FsView::MoveWrite(_, _, _), Reply::Done(Err(e))) => fs_failed(FsErrorKind::Other, e),
            (FsView::MoveDelete(_), Reply::Done(result)) => fs_done(result),
            (FsView::DirCheck(path, has_extension), Reply::Exists(exists)) => if exists == Ok::<
                bool,
                Seq<char>,
            >(true) {
                FsView::DirList(path, has_extension)
            } else {
                FsView::Over(OutcomeView::Answer(!has_extension))
            },
            (FsView::DirList(path, has_extension), Reply::Files(Ok(entries))) => FsView::Over(
                OutcomeView::Answer(has_children(path, entries) || !has_extension),
            ),
            (FsView::DirList(_, has_extension), Reply::Files(Err(_))) => FsView::Over(
                OutcomeView::Answer(!has_extension),
            ),
            (FsView::List(_, markdown_only), Reply::Files(Ok(files))) => FsView::Over(
                OutcomeView::Paths(
                    Ok(
                        if markdown_only {
                            md_files(files)
                        } else {
                            files
                        },
                    ),
                ),
            ),
            (FsView::List(_, _), Reply::Files(Err(e))) => FsView::Over(
                OutcomeView::Paths(Err(ErrorView { kind: FsErrorKind::Other, message: e })),
            ),
            _ => self,
        }
    }

    /// How many replies the operation still waits for at most.
    pub open spec fn remaining(self) -> int {
        match self {
            FsView::CreateCheck(_, _) => 2,
            FsView::CreateWrite(_, _) => 1,
            FsView::MoveFrom(_, _) => 5,
            FsView::MoveTo(_, _) => 4,
            FsView::MoveRead(_, _) => 3,
            FsView::MoveWrite(_, _, _) => 2,
            FsView::MoveDelete(_) => 1,
            FsView::DirCheck(_, _) => 2,
            FsView::DirList(_, _) => 1,
            FsView::List(_, _) => 1,
            FsView::Over(_) => 0,
        }
    }
}

impl FsRun {
    /// The model of the operation.
    pub closed spec fn view(&self) -> FsView {
        match self.stage {
            Stage::CreateCheck(path, content) => FsView::CreateCheck(path@, content@),
            Stage::CreateWrite(path, content) => FsView::CreateWrite(path@, content@),
            Stage::MoveFrom(from, to) => FsView::MoveFrom(from@, to@),
            Stage::MoveTo(from, to) => FsView::MoveTo(from@, to@),
            Stage::MoveRead(from, to) => FsView::MoveRead(from@, to@),
            Stage::MoveWrite(from, to, content) => FsView::MoveWrite(from@, to@, content@),
            Stage::MoveDelete(from) => FsView::MoveDelete(from@),
            Stage::DirCheck(path, has_extension) => FsView::DirCheck(path@, has_extension),
            Stage::DirList(path, has_extension) => FsView::DirList(path@, has_extension),
            Stage::List(dir, markdown_only) => FsView::List(dir@, markdown_only),
            Stage::Over(outcome) => FsView::Over(outcome@),
        }
    }
}

// ---------------------------------------------------------------------------
// Operations
// ---------------------------------------------------------------------------

/// Creates a file, unless it is there already.
pub fn create_new(path: &str, content: &str) -> (run: FsRun)
    ensures
        run@ == FsView::CreateCheck(path@, content@),
{
    FsRun { stage: Stage::CreateCheck(path.to_owned(), content.to_owned()) }
}

/// Moves a text file, unless the destination is there already.
pub fn move_file(from: &str, to: &str) -> (run: FsRun)
    ensures
        run@ == FsView::MoveFrom(from@, to@),
{
    FsRun { stage: Stage::MoveFrom(from.to_owned(), to.to_owned()) }
}

/// Tells whether a path is a directory. Where the host cannot answer, a path without an
/// extension is taken for one.
pub fn is_dir(path: &str, has_extension: bool) -> (run: FsRun)
    ensures
        run@ == FsView::is_dir(path@, has_extension),
{
    let normalized: &str = text::trim_end_of(path, '/');
    if normalized.is_empty() || text::same(normalized, ".") {
        FsRun { stage: Stage::Over(FsOutcome::Answer(true)) }
    } else {
        FsRun { stage: Stage::DirCheck(normalized.to_owned(), has_extension) }
    }
}

/// Lists the files of a directory.
pub fn list_files(dir: &str) -> (run: FsRun)
    ensures
        run@ == FsView::List(dir@, false),
{
    FsRun { stage: Stage::List(dir.to_owned(), false) }
}

/// Lists the Markdown files of a directory.
pub fn list_md_files(dir: &str) -> (run: FsRun)
    ensures
        run@ == FsView::List(dir@, true),
{
    FsRun { stage: Stage::List(dir.to_owned(), true) }
}

/// An operation that failed.
fn failed(kind: FsErrorKind, message: String) -> (stage: Stage)
    ensures
        (FsRun { stage })@ == fs_failed(kind, message@),
{
    Stage::Over(FsOutcome::Done(Err(FsError { kind, message })))
}

/// Whether something is below a path.
fn any_child(path: &str, entries: &Vec<String>) -> (r: bool)
    ensures
        r == has_children(path@, texts(entries@)),
{
    let prefix: String = text::join(path, "/");
    let ghost all = texts(entries@);
    for i in 0..entries.len()
        invariant
            prefix@ == path@ + "/"@,
            all == texts(entries@),
            forall|j: int|
                0 <= j < i ==> !((#[trigger] all[j]) != path@ && (path@ + "/"@).is_prefix_of(
                    all[j],
                )),
    {
        assert(all[i as int] == entries@[i as int]@);
        if !text::same(entries[i].as_str(), path) && text::starts_with(
            entries[i].as_str(),
            prefix.as_str(),
        ) {
            return true;
        }
    }
    false
}

/// The Markdown files among the listed files.
fn only_markdown(files: Vec<String>) -> (r: Vec<String>)
    ensures
        texts(r@) == md_files(texts(files@)),
{
    let ghost all = texts(files@);
    let ghost keep = |file: Seq<char>| ".md"@.is_suffix_of(file);
    let mut r: Vec<String> = Vec::new();
    proof {
        reveal(Seq::filter);
        assert(all.take(0) =~= Seq::empty());
    }
    for i in 0..files.len()
        invariant
            all == texts(files@),
            keep == |file: Seq<char>| ".md"@.is_suffix_of(file),
            texts(r@) =~= all.take(i as int).filter(keep),
    {
        proof {
            lemma_filter_step(all, i as int, keep);
            assert(all[i as int] == files@[i as int]@);
        }
        if text::ends_with(files[i].as_str(), ".md") {
            r.push(files[i].clone());
        }
    }
    assert(all.take(all.len() as int) =~= all);
    r
}

impl FsRun {
    /// Whether the operation is over.
    pub fn is_over(&self) -> (r: bool)
        ensures
            r == self@.is_over(),
    {
        match &self.stage {
            Stage::Over(_) => true,
            _ => false,
        }
    }

    /// The call that the operation waits for.
    pub fn call(&self) -> (r: Option<HostCall>)
        ensures
            call_view(r) == self@.call(),
    {
        match &self.stage {
            Stage::CreateCheck(path, _) => Some(HostCall::FileExists(path.clone())),
            Stage::CreateWrite(path, content) => Some(
                HostCall::WriteText(path.clone(), content.clone()),
            ),
            Stage::MoveFrom(from, _) => Some(HostCall::FileExists(from.clone())),
            Stage::MoveTo(_, to) => Some(HostCall::FileExists(to.clone())),
            Stage::MoveRead(from, _) => Some(HostCall::ReadText(from.clone())),
            Stage::MoveWrite(_, to, content) => Some(
                HostCall::WriteText(to.clone(), content.clone()),
            ),
            Stage::MoveDelete(from) => Some(HostCall::DeleteFile(from.clone())),
            Stage::DirCheck(path, _) => Some(HostCall::FileExists(path.clone())),
            Stage::DirList(path, _) => Some(HostCall::ListFiles(path.clone())),
            Stage::List(dir, _) => Some(HostCall::ListFiles(dir.clone())),
            Stage::Over(_) => None,
        }
    }

    /// The operation after a reply.
    pub fn step(self, reply: HostReply) -> (next: FsRun)
        ensures
            next@ == self@.after(reply@),
    {
        let stage: Stage = match (self.stage, reply) {
            (Stage::CreateCheck(path, content), HostReply::Exists(Ok(exists))) => if exists {
                failed(FsErrorKind::AlreadyExists, "File already exists".to_owned())
            } else {
                Stage::CreateWrite(path, content)
            },
            (Stage::CreateCheck(_, _), HostReply::Exists(Err(e))) => failed(FsErrorKind::Other, e),
            (Stage::CreateWrite(_, _), HostReply::Done(Ok(_))) => Stage::Over(
                FsOutcome::Done(Ok(())),
            ),
            (Stage::CreateWrite(_, _), HostReply::Done(Err(e))) => failed(FsErrorKind::Other, e),
            (Stage::MoveFrom(from, to), HostReply::Exists(Ok(exists))) => if exists {
                Stage::MoveTo(from, to)
            } else {
                failed(
                    FsErrorKind::NotFound,
                    text::join("Source file not found: ", from.as_str()),
                )
            },
            (Stage::MoveFrom(_, _), HostReply::Exists(Err(e))) => failed(FsErrorKind::Other, e),
            (Stage::MoveTo(from, to), HostReply::Exists(Ok(exists))) => if exists {
                failed(
                    FsErrorKind::AlreadyExists,
                    text::join("Destination already exists: ", to.as_str()),
                )
            } else {
                Stage::MoveRead(from, to)
            },
            (Stage::MoveTo(_, _), HostReply::Exists(Err(e))) => failed(FsErrorKind::Other, e),
            (Stage::MoveRead(from, to), HostReply::Text(Ok(content))) => Stage::MoveWrite(
                from,
                to,
                content,
            ),
            (Stage::MoveRead(_, _), HostReply::Text(Err(e))) => failed(FsErrorKind::Other, e),
            (Stage::MoveWrite(from, _, _), HostReply::Done(Ok(_))) => Stage::MoveDelete(from),
            (Stage::MoveWrite(_, _, _), HostReply::Done(Err(e))) => failed(FsErrorKind::Other, e),
            (Stage::MoveDelete(_), HostReply::Done(Ok(_))) => Stage::Over(
                FsOutcome::Done(Ok(())),
            ),
            (Stage::MoveDelete(_), HostReply::Done(Err(e))) => failed(FsErrorKind::Other, e),
            (Stage::DirCheck(path, has_extension), HostReply::Exists(exists)) => {
                let there: bool = match exists {
                    Ok(b) => b,
                    Err(_) => false,
                };
                if there {
                    Stage::DirList(path, has_extension)
                } else {
                    Stage::Over(FsOutcome::Answer(!has_extension))
                }
            },
            (Stage::DirList(path, has_extension), HostReply::Files(Ok(entries))) => {
                let answer: bool = any_child(path.as_str(), &entries) || !has_extension;
                Stage::Over(FsOutcome::Answer(answer))
            },
            (Stage::DirList(_, has_extension), HostReply::Files(Err(_))) => Stage::Over(
                FsOutcome::Answer(!has_extension),
            ),
            (Stage::List(_, markdown_only), HostReply::Files(Ok(files))) => {
                let files: Vec<String> = if markdown_only {
                    only_markdown(files)
                } else {
                    files
                };
                Stage::Over(FsOutcome::Paths(Ok(files)))
            },
            (Stage::List(_, _), HostReply::Files(Err(e))) => Stage::Over(
                FsOutcome::Paths(Err(FsError { kind: FsErrorKind::Other, message: e })),
            ),
            (stage, _) => stage,
        };
        FsRun { stage }
    }

    /// What came of the operation; `None` as long as it is not over.
    pub fn into_outcome(self) -> (r: Option<FsOutcome>)
        ensures
            match r {
                Some(outcome) => self@ == FsView::Over(outcome@),
                None => !self@.is_over(),
            },
    {
        match self.stage {
            Stage::Over(outcome) => Some(outcome),
            _ => None,
        }
    }
}

// ---------------------------------------------------------------------------
// Laws
// ---------------------------------------------------------------------------

/// Every reply to what an operation waits for brings it closer to its end, and an operation
/// that is not over waits for a call.
pub proof fn lemma_operations_progress(run: FsView, reply: Reply)
    ensures
        run.call() is Some <==> !run.is_over(),
        run.call() is Some && answers(run.call()->0, reply) ==> 0 <= run.after(reply).remaining()
            < run.remaining(),
{
}

/// A file that is moved is deleted only after its content was written to the destination: no
/// step before the last one deletes, and the last one comes only after a write that succeeded.
pub proof fn lemma_move_deletes_last(run: FsView, reply: Reply)
    requires
        !(run is MoveDelete),
        run.after(reply) is MoveDelete,
    ensures
        run is MoveWrite,
        reply matches Reply::Done(Ok(_)),
        run.after(reply).call() == Some(Call::DeleteFile(run->MoveWrite_0)),
{
}

/// Nothing is written over: a file is created, and a file is moved, only after the host has
/// said that there is no file at the path.
pub proof fn lemma_nothing_is_overwritten(run: FsView, reply: Reply)
    ensures
        !(run is CreateWrite) && run.after(reply) is CreateWrite ==> reply == Reply::Exists(Ok(false))
            && run.call() == Some(Call::FileExists(run.after(reply)->CreateWrite_0)),
        !(run is MoveRead) && run.after(reply) is MoveRead ==> reply == Reply::Exists(Ok(false))
            && run.call() == Some(Call::FileExists(run.after(reply)->MoveRead_1)),
{
}

/// The Markdown files that are listed are those among all files whose names end so.
pub proof fn lemma_md_files_are_among_all(files: Seq<Seq<char>>, file: Seq<char>)
    ensures
        md_files(files).contains(file) <==> files.contains(file) && ".md"@.is_suffix_of(file),
{
    lemma_filter_members(files, |f: Seq<char>| ".md"@.is_suffix_of(f), file);
}

} // verus!
