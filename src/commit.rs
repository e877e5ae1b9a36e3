//! The commit protocol that promotes a freshly fetched snapshot file to the
//! current one while the previous one is kept under a timestamped name.
//!
//! Three files take part: `current`, `staging` and the archive. The current
//! file is renamed to the archive first; the fetch fills `staging`, which
//! may be left over from an interrupted run and is then reused; last,
//! `staging` is renamed to `current`. Nothing after the first rename touches
//! the archive, so a failed promotion leaves the previous snapshot in place
//! under its archive name.
use vstd::prelude::*;

use crate::bytes::append_bytes;
use crate::codec::parse_spec;

verus! {

/// A file operation that the protocol asks of its caller.
#[derive(Debug, Clone, Copy, PartialEq, Eq)]
pub enum FileOp {
    /// Rename `current` to the archive name.
    ArchiveCurrent,
    /// Create `staging`, failing if it exists.
    CreateStaging,
    /// Open the `staging` left by an interrupted run, emptied.
    ReuseStaging,
    /// Rename `staging` to `current`.
    Promote,
}

/// How a file operation went.
#[derive(Debug, Clone, Copy, PartialEq, Eq)]
pub enum OpResult {
    Done,
    NotFound,
    AlreadyExists,
    Failed,
}

/// Where the protocol stands.
#[derive(Debug, Clone, Copy, PartialEq, Eq)]
pub enum CommitPhase {
    /// The current file is to be archived.
    Archive,
    /// A fresh staging file is to be created.
    CreateStaging,
    /// The staging file of an interrupted run is to be reused.
    ReuseStaging,
    /// The caller fills the staging file and works out the delta.
    Fetch,
    /// The staging file is to become the current one.
    Promote,
    /// The new snapshot is current.
    Committed,
    /// An operation failed; nothing more is done.
    Failed,
}

/// Why an update could not be committed.
#[derive(Debug, Clone, Copy, PartialEq, Eq)]
pub enum CommitError {
    /// There is no current snapshot: the directory is not a collection.
    NotInitialized,
    /// A file operation failed.
    FileError(FileOp),
}

/// What the caller should tell the user about a step that went on.
#[derive(Debug, Clone, Copy, PartialEq, Eq)]
pub enum Advice {
    Proceed,
    /// A staging file of an interrupted run is in the way and will be reused.
    StagingLeftOver,
}

/// The operation that a phase asks for.
pub open spec fn phase_op(p: CommitPhase) -> Option<FileOp> {
    match p {
        CommitPhase::Archive => Some(FileOp::ArchiveCurrent),
        CommitPhase::CreateStaging => Some(FileOp::CreateStaging),
        CommitPhase::ReuseStaging => Some(FileOp::ReuseStaging),
        CommitPhase::Promote => Some(FileOp::Promote),
        _ => None,
    }
}

/// The phase and the answer after the operation of phase `p` went as `res`.
pub open spec fn commit_next(p: CommitPhase, res: OpResult) -> (CommitPhase, Result<Advice, CommitError>) {
    match p {
        CommitPhase::Archive => match res {
            OpResult::Done => (CommitPhase::CreateStaging, Ok(Advice::Proceed)),
            OpResult::NotFound => (CommitPhase::Failed, Err(CommitError::NotInitialized)),
            _ => (CommitPhase::Failed, Err(CommitError::FileError(FileOp::ArchiveCurrent))),
        },
        CommitPhase::CreateStaging => match res {
            OpResult::Done => (CommitPhase::Fetch, Ok(Advice::Proceed)),
            OpResult::AlreadyExists => (CommitPhase::ReuseStaging, Ok(Advice::StagingLeftOver)),
            _ => (CommitPhase::Failed, Err(CommitError::FileError(FileOp::CreateStaging))),
        },
        CommitPhase::ReuseStaging => match res {
            OpResult::Done => (CommitPhase::Fetch, Ok(Advice::Proceed)),
            _ => (CommitPhase::Failed, Err(CommitError::FileError(FileOp::ReuseStaging))),
        },
        CommitPhase::Promote => match res {
            OpResult::Done => (CommitPhase::Committed, Ok(Advice::Proceed)),
            _ => (CommitPhase::Failed, Err(CommitError::FileError(FileOp::Promote))),
        },
        _ => (p, Ok(Advice::Proceed)),
    }
}

/// The commit protocol of one update.
pub struct CommitProtocol {
    pub phase: CommitPhase,
}

impl CommitProtocol {
    pub fn new() -> (r: CommitProtocol)
        ensures
            r.phase == CommitPhase::Archive,
    {
        CommitProtocol { phase: CommitPhase::Archive }
    }

    /// The file operation to perform now, if the phase asks for one.
    pub fn pending(&self) -> (r: Option<FileOp>)
        ensures
            r == phase_op(self.phase),
    {
        match self.phase {
            CommitPhase::Archive => Some(FileOp::ArchiveCurrent),
            CommitPhase::CreateStaging => Some(FileOp::CreateStaging),
            CommitPhase::ReuseStaging => Some(FileOp::ReuseStaging),
            CommitPhase::Promote => Some(FileOp::Promote),
            _ => None,
        }
    }

    /// Takes in how the pending operation went.
    pub fn on_result(&mut self, res: OpResult) -> (r: Result<Advice, CommitError>)
        requires
            phase_op(old(self).phase) is Some,
        ensures
            (final(self).phase, r) == commit_next(old(self).phase, res),
    {
        let (p, r) = match self.phase {
            CommitPhase::Archive => match res {
                OpResult::Done => (CommitPhase::CreateStaging, Ok(Advice::Proceed)),
                OpResult::NotFound => (CommitPhase::Failed, Err(CommitError::NotInitialized)),
                _ => (CommitPhase::Failed, Err(CommitError::FileError(FileOp::ArchiveCurrent))),
            },
            CommitPhase::CreateStaging => match res {
                OpResult::Done => (CommitPhase::Fetch, Ok(Advice::Proceed)),
                OpResult::AlreadyExists => (CommitPhase::ReuseStaging, Ok(Advice::StagingLeftOver)),
                _ => (CommitPhase::Failed, Err(CommitError::FileError(FileOp::CreateStaging))),
            },
            CommitPhase::ReuseStaging => match res {
                OpResult::Done => (CommitPhase::Fetch, Ok(Advice::Proceed)),
                _ => (CommitPhase::Failed, Err(CommitError::FileError(FileOp::ReuseStaging))),
            },
            CommitPhase::Promote => match res {
                OpResult::Done => (CommitPhase::Committed, Ok(Advice::Proceed)),
                _ => (CommitPhase::Failed, Err(CommitError::FileError(FileOp::Promote))),
            },
            p => (p, Ok(Advice::Proceed)),
        };
        self.phase = p;
        r
    }

    /// The staging file is filled and the delta applied: promotion is next.
    pub fn fetched(&mut self)
        requires
            old(self).phase == CommitPhase::Fetch,
        ensures
            final(self).phase == CommitPhase::Promote,
    {
        self.phase = CommitPhase::Promote;
    }
}

/// The contents of the three files, `None` where a file is absent.
pub struct Files {
    pub current: Option<Seq<u8>>,
    pub staging: Option<Seq<u8>>,
    pub archive: Option<Seq<u8>>,
}

/// What an operation does to the files; one that fails changes nothing.
pub open spec fn op_effect(f: Files, op: FileOp, res: OpResult) -> Files {
    if res != OpResult::Done {
        f
    } else {
        match op {
            FileOp::ArchiveCurrent => Files { current: None, staging: f.staging, archive: f.current },
            FileOp::CreateStaging => Files { current: f.current, staging: Some(Seq::empty()), archive: f.archive },
            FileOp::ReuseStaging => Files { current: f.current, staging: Some(Seq::empty()), archive: f.archive },
            FileOp::Promote => Files { current: f.staging, staging: None, archive: f.archive },
        }
    }
}

/// One thing that happens during an update: the pending operation went as
/// `OpOutcome` says, or the fetch wrote `Fetched` into the staging file.
pub enum CommitEvent {
    OpOutcome(OpResult),
    Fetched(Seq<u8>),
}

/// Phase and files after the events `evs`, from phase `p` and files `f`.
/// Events that the phase does not expect change nothing.
pub open spec fn run(p: CommitPhase, f: Files, evs: Seq<CommitEvent>) -> (CommitPhase, Files)
    decreases evs.len(),
{
    if evs.len() == 0 {
        (p, f)
    } else {
        let (next_phase, next_files) = match evs[0] {
            CommitEvent::OpOutcome(res) => match phase_op(p) {
                Some(op) => (commit_next(p, res).0, op_effect(f, op, res)),
                None => (p, f),
            },
            CommitEvent::Fetched(b) => if p == CommitPhase::Fetch {
                (CommitPhase::Promote, Files { current: f.current, staging: Some(b), archive: f.archive })
            } else {
                (p, f)
            },
        };
        run(next_phase, next_files, evs.drop_first())
    }
}

proof fn lemma_archive_stays(p: CommitPhase, f: Files, evs: Seq<CommitEvent>)
    requires
        p != CommitPhase::Archive,
    ensures
        run(p, f, evs).1.archive == f.archive,
    decreases evs.len(),
{
    if evs.len() > 0 {
        let (next_phase, next_files) = match evs[0] {
            CommitEvent::OpOutcome(res) => match phase_op(p) {
                Some(op) => (commit_next(p, res).0, op_effect(f, op, res)),
                None => (p, f),
            },
            CommitEvent::Fetched(b) => if p == CommitPhase::Fetch {
                (CommitPhase::Promote, Files { current: f.current, staging: Some(b), archive: f.archive })
            } else {
                (p, f)
            },
        };
        lemma_archive_stays(next_phase, next_files, evs.drop_first());
    }
}

/// Once the current snapshot has been archived, whatever happens after,
/// a failed promotion included, the archive still holds it, and it still
/// reads as the snapshot it was.
pub proof fn lemma_archive_survives(f: Files, evs: Seq<CommitEvent>)
    requires
        f.current is Some,
        evs.len() > 0,
        evs[0] == CommitEvent::OpOutcome(OpResult::Done),
    ensures
        run(CommitPhase::Archive, f, evs).1.archive == f.current,
        parse_spec(f.current.unwrap()) is Ok ==> parse_spec(
            run(CommitPhase::Archive, f, evs).1.archive.unwrap(),
        ) == parse_spec(f.current.unwrap()),
{
    let archived = op_effect(f, FileOp::ArchiveCurrent, OpResult::Done);
    lemma_archive_stays(CommitPhase::CreateStaging, archived, evs.drop_first());
}

/// `playlist.manifest`: the current snapshot file.
pub fn current_file_name() -> (r: Vec<u8>)
    ensures
        r@ == current_name(),
{
    let r = vec![112u8, 108, 97, 121, 108, 105, 115, 116, 46, 109, 97, 110, 105, 102, 101, 115, 116];
    assert(r@ =~= current_name());
    r
}

/// `playlist.manifest`
pub open spec fn current_name() -> Seq<u8> {
    seq![112u8, 108, 97, 121, 108, 105, 115, 116, 46, 109, 97, 110, 105, 102, 101, 115, 116]
}

/// `playlist-new.manifest`: the staging file.
pub fn staging_file_name() -> (r: Vec<u8>)
    ensures
        r@ == staging_name(),
{
    let r = vec![112u8, 108, 97, 121, 108, 105, 115, 116, 45, 110, 101, 119, 46, 109, 97, 110, 105, 102, 101, 115, 116];
    assert(r@ =~= staging_name());
    r
}

/// `playlist-new.manifest`
pub open spec fn staging_name() -> Seq<u8> {
    seq![112u8, 108, 97, 121, 108, 105, 115, 116, 45, 110, 101, 119, 46, 109, 97, 110, 105, 102, 101, 115, 116]
}

/// `playlist-`
pub open spec fn archive_prefix() -> Seq<u8> {
    seq![112u8, 108, 97, 121, 108, 105, 115, 116, 45]
}

/// `.manifest`
pub open spec fn archive_suffix() -> Seq<u8> {
    seq![46u8, 109, 97, 110, 105, 102, 101, 115, 116]
}

/// The archive name for a timestamp: `playlist-<stamp>.manifest`.
pub fn archive_name_for(stamp: &Vec<u8>) -> (r: Vec<u8>)
    ensures
        r@ == archive_prefix() + stamp@ + archive_suffix(),
{
    let mut r = vec![112u8, 108, 97, 121, 108, 105, 115, 116, 45];
    assert(r@ =~= archive_prefix());
    append_bytes(&mut r, stamp);
    let s = vec![46u8, 109, 97, 110, 105, 102, 101, 115, 116];
    assert(s@ =~= archive_suffix());
    append_bytes(&mut r, &s);
    r
}

/// 9999-12-31T23:59:59 in seconds after the epoch.
pub const LATEST_STAMP: i64 = 253402300799;

/// The local wall-clock time `local_secs` seconds and `nanos` nanoseconds
/// after 1970-01-01T00:00:00, written `%Y-%m-%dT%H%M%S%.f`.
pub uninterp spec fn archive_stamp(local_secs: i64, nanos: u32) -> Seq<u8>;

/// Relies on chrono's `DateTime::from_timestamp`, which gives none only for
/// seconds out of its range (years past 9999 are within it) or an invalid
/// nanosecond, and on its strftime formatting, which depends on the
/// arguments alone.
#[verifier::external_body]
fn format_stamp(local_secs: i64, nanos: u32) -> (r: Option<Vec<u8>>)
    ensures
        r matches Some(b) ==> b@ == archive_stamp(local_secs, nanos),
        0 <= local_secs <= LATEST_STAMP && nanos < 1_000_000_000 ==> r is Some,
{
    match chrono::DateTime::from_timestamp(local_secs, nanos) {
        Some(t) => Some(t.naive_utc().format("%Y-%m-%dT%H%M%S%.f").to_string().into_bytes()),
        None => None,
    }
}

/// The archive name for the local wall-clock time `local_secs` seconds and
/// `nanos` nanoseconds after the epoch, or none for a time out of range.
pub fn archive_file_name(local_secs: i64, nanos: u32) -> (r: Option<Vec<u8>>)
    ensures
        r matches Some(b) ==> b@ == archive_prefix() + archive_stamp(local_secs, nanos) + archive_suffix(),
        0 <= local_secs <= LATEST_STAMP && nanos < 1_000_000_000 ==> r is Some,
{
    match format_stamp(local_secs, nanos) {
        Some(stamp) => Some(archive_name_for(&stamp)),
        None => None,
    }
}

} // verus!
