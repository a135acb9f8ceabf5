//! How a job's file is put into the queue: written under `tmp/`, renamed into
//! `new/`, and made durable before it is acknowledged. A stage names the one
//! file operation that comes next; the function of that stage takes what the
//! operation gave and says what follows.

use vstd::prelude::*;

use crate::fault::{fault_of, Fault, FaultView, Kind};
use crate::fs_security::{fd_acl_fault, reject_grant_acl_fd, AclLookup, SPOOL_FILE_MODE};
use crate::spool::{filename_safe, is_safe_filename};
use crate::text::{debug_text, quoted};
use crate::webhook::Outcome;

verus! {

/// How an enqueue ended.
#[derive(Clone, Copy, Debug, PartialEq, Eq, Structural)]
pub enum EnqueueResult {
    /// The file was written.
    Wrote,
    /// The file was already in the queue.
    Duplicate,
    /// Another writer holds the temporary file, and the queue does not show the
    /// result yet.
    InFlight,
}

/// The file operation that comes next.
pub enum Stage {
    /// Look for the file in `new/`.
    FindNew,
    /// Create the file in `tmp/`, with the mode of [`create_file_mode`], if none is
    /// there.
    CreateTmp,
    /// Look for the file in `new/` again.
    FindNewAgain,
    /// Look up the access-control list of the file just created.
    InspectTmp,
    /// Write the contents to the file in `tmp/`, and make them durable.
    WriteTmp,
    /// Rename the file from `tmp/` into `new/`.
    Rename,
    /// Make the entries of `new/` durable; the enqueue then ends so.
    SyncNew(EnqueueResult),
    /// Remove the file from `tmp/`; the enqueue then fails with this error.
    RemoveTmp(Fault),
    /// Nothing: the enqueue has ended.
    Done(EnqueueResult),
    /// Nothing: the enqueue has failed with this error.
    Failed(Fault),
}

/// The model of a [`Stage`].
pub enum StageView {
    FindNew,
    CreateTmp,
    FindNewAgain,
    InspectTmp,
    WriteTmp,
    Rename,
    SyncNew(EnqueueResult),
    RemoveTmp(FaultView),
    Done(EnqueueResult),
    Failed(FaultView),
}

impl View for Stage {
    type V = StageView;

    open spec fn view(&self) -> StageView {
        match *self {
            Stage::FindNew => StageView::FindNew,
            Stage::CreateTmp => StageView::CreateTmp,
            Stage::FindNewAgain => StageView::FindNewAgain,
            Stage::InspectTmp => StageView::InspectTmp,
            Stage::WriteTmp => StageView::WriteTmp,
            Stage::Rename => StageView::Rename,
            Stage::SyncNew(end) => StageView::SyncNew(end),
            Stage::RemoveTmp(fault) => StageView::RemoveTmp(fault@),
            Stage::Done(end) => StageView::Done(end),
            Stage::Failed(fault) => StageView::Failed(fault@),
        }
    }
}

/// What creating the temporary file gave.
pub enum Creation {
    Created,
    AlreadyThere,
    Error(Fault),
}

/// The model of a [`Creation`].
pub enum CreationView {
    Created,
    AlreadyThere,
    Error(FaultView),
}

impl View for Creation {
    type V = CreationView;

    open spec fn view(&self) -> CreationView {
        match *self {
            Creation::Created => CreationView::Created,
            Creation::AlreadyThere => CreationView::AlreadyThere,
            Creation::Error(fault) => CreationView::Error(fault@),
        }
    }
}

/// The stage that an enqueue of this file name begins with.
pub open spec fn first_stage(filename: Seq<char>) -> StageView {
    if filename_safe(filename) {
        StageView::FindNew
    } else {
        StageView::Failed(
            FaultView {
                kind: Kind::InvalidInput,
                text: "refusing unsafe filename "@ + debug_text(filename),
            },
        )
    }
}

/// Begins an enqueue. A file name that could lead out of the queue is refused
/// before anything is touched.
pub fn begin(filename: &str) -> (r: Stage)
    ensures
        r@ == first_stage(filename@),
{
    if is_safe_filename(filename) {
        Stage::FindNew
    } else {
        let mut text = "refusing unsafe filename ".to_owned();
        text.append(quoted(filename).as_str());
        Stage::Failed(Fault { kind: Kind::InvalidInput, text })
    }
}

/// What follows the first look into `new/`.
pub open spec fn next_after_find_new(exists: bool) -> StageView {
    if exists {
        StageView::SyncNew(EnqueueResult::Duplicate)
    } else {
        StageView::CreateTmp
    }
}

/// After [`Stage::FindNew`]. A file that an earlier request put there may not be
/// durable yet, so it is made so before the duplicate is acknowledged.
pub fn after_find_new(exists: bool) -> (r: Stage)
    ensures
        r@ == next_after_find_new(exists),
{
    if exists {
        Stage::SyncNew(EnqueueResult::Duplicate)
    } else {
        Stage::CreateTmp
    }
}

/// The mode that a job's file is created with: readable and writable by the owner
/// alone. It holds a signed body, which anyone who can read it can replay.
pub fn create_file_mode() -> (r: u32)
    ensures
        r == SPOOL_FILE_MODE,
        r == 0o600,
{
    SPOOL_FILE_MODE
}

/// What follows the creation of the temporary file.
pub open spec fn next_after_create(creation: CreationView) -> StageView {
    match creation {
        CreationView::Created => StageView::InspectTmp,
        CreationView::AlreadyThere => StageView::FindNewAgain,
        CreationView::Error(fault) => StageView::Failed(fault),
    }
}

/// After [`Stage::CreateTmp`].
pub fn after_create(creation: Creation) -> (r: Stage)
    ensures
        r@ == next_after_create(creation@),
{
    match creation {
        Creation::Created => Stage::InspectTmp,
        Creation::AlreadyThere => Stage::FindNewAgain,
        Creation::Error(fault) => Stage::Failed(fault),
    }
}

/// What follows the second look into `new/`.
pub open spec fn next_after_find_new_again(exists: bool) -> StageView {
    if exists {
        StageView::SyncNew(EnqueueResult::Duplicate)
    } else {
        StageView::Done(EnqueueResult::InFlight)
    }
}

/// After [`Stage::FindNewAgain`]: the other writer may have finished meanwhile.
pub fn after_find_new_again(exists: bool) -> (r: Stage)
    ensures
        r@ == next_after_find_new_again(exists),
{
    if exists {
        Stage::SyncNew(EnqueueResult::Duplicate)
    } else {
        Stage::Done(EnqueueResult::InFlight)
    }
}

/// What follows the look at the access-control list.
pub open spec fn next_after_inspect(lookup: AclLookup) -> StageView {
    match fd_acl_fault(lookup, "enqueued spool file"@) {
        Some(text) => StageView::RemoveTmp(FaultView { kind: Kind::Other, text }),
        None => StageView::WriteTmp,
    }
}

/// After [`Stage::InspectTmp`].
pub fn after_inspect(lookup: &AclLookup) -> (r: Stage)
    ensures
        r@ == next_after_inspect(*lookup),
{
    match reject_grant_acl_fd(lookup, "enqueued spool file") {
        Ok(()) => Stage::WriteTmp,
        Err(text) => Stage::RemoveTmp(Fault { kind: Kind::Other, text }),
    }
}

/// What follows the write.
pub open spec fn next_after_write(error: Option<FaultView>) -> StageView {
    match error {
        None => StageView::Rename,
        Some(fault) => StageView::RemoveTmp(fault),
    }
}

/// After [`Stage::WriteTmp`]. The temporary file goes on any error: left there,
/// it would hold up every later delivery of the job.
pub fn after_write(ended: Result<(), Fault>) -> (r: Stage)
    ensures
        r@ == next_after_write(fault_of(ended)),
{
    match ended {
        Ok(()) => Stage::Rename,
        Err(fault) => Stage::RemoveTmp(fault),
    }
}

/// What follows the rename.
pub open spec fn next_after_rename(error: Option<FaultView>) -> StageView {
    match error {
        None => StageView::SyncNew(EnqueueResult::Wrote),
        Some(fault) => StageView::RemoveTmp(fault),
    }
}

/// After [`Stage::Rename`].
pub fn after_rename(ended: Result<(), Fault>) -> (r: Stage)
    ensures
        r@ == next_after_rename(fault_of(ended)),
{
    match ended {
        Ok(()) => Stage::SyncNew(EnqueueResult::Wrote),
        Err(fault) => Stage::RemoveTmp(fault),
    }
}

/// What follows making `new/` durable.
pub open spec fn next_after_sync(end: EnqueueResult, error: Option<FaultView>) -> StageView {
    match error {
        None => StageView::Done(end),
        Some(fault) => StageView::Failed(fault),
    }
}

/// After [`Stage::SyncNew`].
pub fn after_sync(end: EnqueueResult, ended: Result<(), Fault>) -> (r: Stage)
    ensures
        r@ == next_after_sync(end, fault_of(ended)),
{
    match ended {
        Ok(()) => Stage::Done(end),
        Err(fault) => Stage::Failed(fault),
    }
}

/// After [`Stage::RemoveTmp`], whatever the removal gave.
pub fn after_remove(fault: Fault) -> (r: Stage)
    ensures
        r@ == StageView::Failed(fault@),
{
    Stage::Failed(fault)
}

/// The answer to a delivery whose enqueue ended so.
pub open spec fn answer_to(end: Option<EnqueueResult>) -> Outcome {
    match end {
        Some(EnqueueResult::Wrote) => Outcome::Accepted,
        Some(EnqueueResult::Duplicate) => Outcome::Duplicate,
        Some(EnqueueResult::InFlight) => Outcome::InFlight,
        None => Outcome::InternalError,
    }
}

/// The answer to a delivery whose enqueue ended so; `None` where it failed, or
/// where the envelope could not be written as JSON.
pub fn outcome_of(end: Option<EnqueueResult>) -> (r: Outcome)
    ensures
        r == answer_to(end),
{
    match end {
        Some(EnqueueResult::Wrote) => Outcome::Accepted,
        Some(EnqueueResult::Duplicate) => Outcome::Duplicate,
        Some(EnqueueResult::InFlight) => Outcome::InFlight,
        None => Outcome::InternalError,
    }
}

} // verus!
