//! Laws of the stages of an enqueue, of a preparation and of a sweep: which one follows,
//! stated of what the operation before gave.

use vstd::prelude::*;

use crate::enqueue::{
    after_create, after_find_new, after_find_new_again, after_inspect, after_remove, after_rename,
    after_sync, after_write, begin, create_file_mode, Creation, EnqueueResult, Stage, StageView,
};
use crate::fault::{Fault, Kind};
use crate::file_laws::{grants_nothing, lemma_written_so, writes};
use crate::fs_security::AclLookup;
use crate::prepare::{canonicalize_error, PrepareStage};
use crate::prepare_laws::lemma_failed;
use crate::queue_laws::{enqueued, perform, Faults, Queue};
use crate::sweep::{
    begin_sweep, check_sweep, failed, tally, Sweep, SweepStage, SweepTally,
};
use crate::text::debug_text;

verus! {

/// A file name that stays inside its directory.
pub open spec fn stays_inside(name: Seq<char>) -> bool {
    &&& name.len() > 0
    &&& vstd::utf8::encode_utf8(name).len() <= 128
    &&& name[0] as int != 46
    &&& forall|i: int|
        0 <= i < name.len() ==> (#[trigger] name[i]) as int != 47 && name[i] as int != 0
}

/// An enqueue begins with a look into `new/` where the name stays inside, and is refused
/// as invalid input otherwise.
pub proof fn law_enqueue_begins_only_under_an_inside_name(filename: &str, r: Stage)
    requires
        call_ensures(begin, (filename,), r),
    ensures
        if stays_inside(filename@) {
            r is FindNew
        } else {
            r matches Stage::Failed(fault) && fault.kind == Kind::InvalidInput && fault.text@
                == "refusing unsafe filename "@ + debug_text(filename@)
        },
{
}

/// A file that is found leads to a sync before it counts as a duplicate; one that is not
/// found at first is created, and one that is not found again is in flight.
pub proof fn law_found_file_is_synced(exists: bool, first: Stage, again: Stage)
    requires
        call_ensures(after_find_new, (exists,), first),
        call_ensures(after_find_new_again, (exists,), again),
    ensures
        exists ==> (first matches Stage::SyncNew(end) && end == EnqueueResult::Duplicate),
        exists ==> (again matches Stage::SyncNew(end) && end == EnqueueResult::Duplicate),
        !exists ==> first is CreateTmp,
        !exists ==> (again matches Stage::Done(end) && end == EnqueueResult::InFlight),
{
}

/// What creating the temporary file leads to: an error ends the enqueue with that error.
pub proof fn law_creation_leads_on(creation: Creation, r: Stage)
    requires
        call_ensures(after_create, (creation,), r),
    ensures
        match creation {
            Creation::Created => r is InspectTmp,
            Creation::AlreadyThere => r is FindNewAgain,
            Creation::Error(fault) => r matches Stage::Failed(given) && given.kind == fault.kind
                && given.text@ == fault.text@,
        },
{
}

/// The temporary file is written exactly where its list grants nothing, and removed
/// otherwise.
pub proof fn law_granting_file_is_removed(lookup: &AclLookup, r: Stage)
    requires
        call_ensures(after_inspect, (lookup,), r),
    ensures
        if grants_nothing(*lookup) {
            r is WriteTmp
        } else {
            r matches Stage::RemoveTmp(fault) && fault.kind == Kind::Other
        },
{
}

/// An error of writing, renaming or syncing is the one that the enqueue fails with; the
/// first two remove the temporary file before. Without an error, what was written is
/// renamed, what was renamed is synced, and what was synced has ended so.
pub proof fn law_errors_are_kept(
    end: EnqueueResult,
    ended: Result<(), Fault>,
    written: Stage,
    renamed: Stage,
    synced: Stage,
)
    requires
        call_ensures(after_write, (ended,), written),
        call_ensures(after_rename, (ended,), renamed),
        call_ensures(after_sync, (end, ended), synced),
    ensures
        match ended {
            Ok(()) => {
                &&& written is Rename
                &&& renamed matches Stage::SyncNew(next) && next == EnqueueResult::Wrote
                &&& synced matches Stage::Done(next) && next == end
            },
            Err(fault) => {
                &&& written matches Stage::RemoveTmp(given) && given.kind == fault.kind
                    && given.text@ == fault.text@
                &&& renamed matches Stage::RemoveTmp(given) && given.kind == fault.kind
                    && given.text@ == fault.text@
                &&& synced matches Stage::Failed(given) && given.kind == fault.kind && given.text@
                    == fault.text@
            },
        },
{
}

/// A removal ends with the error that led to it.
pub proof fn law_removal_ends_with_its_cause(fault: Fault, r: Stage)
    requires
        call_ensures(after_remove, (fault,), r),
    ensures
        r matches Stage::Failed(given) && given.kind == fault.kind && given.text@ == fault.text@,
{
}

/// A job's file is created readable and writable by its owner, and no more.
pub proof fn law_job_file_is_the_owners(r: u32)
    requires
        call_ensures(create_file_mode, (), r),
    ensures
        r == 0o600,
{
}

/// How an enqueue ends is settled by the first of its operations that decides: the name;
/// the look into `new/`, with its sync; the creation; another writer's file; the list;
/// the write, the rename and the sync, each with its own error.
pub proof fn law_first_decisive_operation_settles_the_end(
    queue: Queue,
    file: Seq<char>,
    contents: Seq<u8>,
    faults: Faults,
)
    ensures
        ({
            let end = enqueued(queue, file, contents, faults).0;
            if !stays_inside(file) {
                end matches StageView::Failed(fault) && fault.kind == Kind::InvalidInput
            } else if queue.new.dom().contains(file) && !faults.find {
                match faults.sync {
                    Some(fault) => end == StageView::Failed(fault),
                    None => end == StageView::Done(EnqueueResult::Duplicate),
                }
            } else if faults.create is Some {
                end == StageView::Failed(faults.create->0)
            } else if queue.tmp.dom().contains(file) {
                end == StageView::Done(EnqueueResult::InFlight)
            } else if !grants_nothing(faults.acl) {
                end matches StageView::Failed(fault) && fault.kind == Kind::Other
            } else if faults.write is Some {
                end == StageView::Failed(faults.write->0)
            } else if faults.rename is Some {
                end == StageView::Failed(faults.rename->0)
            } else if faults.sync is Some {
                end == StageView::Failed(faults.sync->0)
            } else {
                end == StageView::Done(EnqueueResult::Wrote)
            }
        }),
{
    reveal_with_fuel(crate::queue_laws::run, 8);
}

/// A file whose list grants access never reaches `new/`.
pub proof fn law_granting_file_is_never_queued(
    queue: Queue,
    file: Seq<char>,
    contents: Seq<u8>,
    faults: Faults,
)
    requires
        !grants_nothing(faults.acl),
    ensures
        enqueued(queue, file, contents, faults).1.new == queue.new,
{
    reveal_with_fuel(crate::queue_laws::run, 8);
}

/// Only a sync ends an enqueue with success, whatever other writers did meanwhile: the
/// operation that does makes `new/` durable, and it comes only where the file was seen or
/// put there.
pub proof fn law_only_a_sync_succeeds(
    stage: StageView,
    queue: Queue,
    file: Seq<char>,
    contents: Seq<u8>,
    faults: Faults,
)
    requires
        !(stage is Done),
    ensures
        ({
            let (next, after) = perform(stage, queue, file, contents, faults);
            &&& next matches StageView::Done(end) ==> end != EnqueueResult::InFlight ==> {
                &&& stage is SyncNew
                &&& after.durable == after.new
                &&& after.new == queue.new
            }
            &&& next is SyncNew ==> after.new.dom().contains(file)
            &&& next == StageView::SyncNew(EnqueueResult::Wrote) ==> stage is Rename
            &&& next == StageView::Done(EnqueueResult::InFlight) ==> stage is FindNewAgain || stage
                == StageView::SyncNew(EnqueueResult::InFlight)
        }),
{
}

/// The order of a preparation: where a step succeeds the next one of the list follows,
/// and where it fails the preparation ends with its text. The ends stay.
pub proof fn law_preparation_takes_every_step_in_order(
    stage: PrepareStage,
    ended: Result<(), String>,
    r: PrepareStage,
)
    requires
        call_ensures(PrepareStage::next, (stage, ended), r),
    ensures
        stage is Ready ==> r is Ready,
        stage matches PrepareStage::Failed(text) ==> (r matches PrepareStage::Failed(kept) && kept@
            == text@),
        !(stage is Ready) && !(stage is Failed) ==> match ended {
            Err(text) => r matches PrepareStage::Failed(given) && given@ == text@,
            Ok(()) => {
                &&& stage is InspectRootPath ==> r is CreateRoot
                &&& stage is CreateRoot ==> r is Canonicalize
                &&& stage is Canonicalize ==> r is CreateTmp
                &&& stage is CreateTmp ==> r is CreateNew
                &&& stage is CreateNew ==> r is VerifyRoot
                &&& stage is VerifyRoot ==> r is VerifyTmp
                &&& stage is VerifyTmp ==> r is VerifyNew
                &&& stage is VerifyNew ==> r is VerifyAncestors
                &&& stage is VerifyAncestors ==> r is SweepTmp
                &&& stage is SweepTmp ==> r is Ready
            },
        },
{
}

/// A preparation begins with the look at the root's path.
pub proof fn law_preparation_begins_with_the_root(r: PrepareStage)
    requires
        call_ensures(crate::prepare::begin, (), r),
    ensures
        r is InspectRootPath,
{
}

/// A failure to resolve names the root and the error.
pub proof fn law_unresolved_root_is_named(root: &str, error: &str, r: String)
    requires
        call_ensures(canonicalize_error, (root, error), r),
    ensures
        r@ == "SPOOL_DIR "@ + root@ + " cannot be canonicalized: "@ + error@,
{
}

/// The failures of a list are its entries that are false.
proof fn lemma_failures_counted(removed: Seq<bool>)
    ensures
        failed(removed) == removed.filter(|done: bool| !done).len(),
    decreases removed.len(),
{
    reveal(Seq::filter);
    if removed.len() > 0 {
        lemma_failures_counted(removed.drop_last());
    }
}

/// [`tally`] counts the entries that were not removed, and tells whether one was.
pub proof fn law_tally_counts_what_was_left(removed: &Vec<bool>, r: SweepTally)
    requires
        call_ensures(tally, (removed,), r),
    ensures
        r.swept_any <==> exists|i: int| 0 <= i < removed@.len() && #[trigger] removed@[i],
        r.failures == removed@.filter(|done: bool| !done).len(),
{
    lemma_failures_counted(removed@);
    if exists|i: int| 0 <= i < removed@.len() && #[trigger] removed@[i] {
        let i = choose|i: int| 0 <= i < removed@.len() && #[trigger] removed@[i];
        assert(removed@[i] == true);
    }
    if removed@.contains(true) {
        let i = choose|i: int| 0 <= i < removed@.len() && removed@[i] == true;
        assert(removed@[i]);
    }
}

/// A sweep passes exactly where nothing was left. A refusal counts what was.
pub proof fn law_sweep_passes_exactly_where_nothing_was_left(
    failures: usize,
    tmp: &str,
    r: Result<(), Fault>,
    count: Seq<char>,
)
    requires
        call_ensures(check_sweep, (failures, tmp), r),
        writes(count, failures as int, 10),
    ensures
        r is Ok <==> failures == 0,
        r matches Err(fault) ==> {
            &&& fault.kind == Kind::Other
            &&& fault.text@ == count + " stale entr"@ + (if failures == 1 {
                "y"@
            } else {
                "ies"@
            }) + " in "@ + tmp@
                + " could not be removed; clear tmp/ manually before restarting"@
        },
{
    lemma_written_so(count, failures as nat, 10);
}

/// Every entry so far was removed.
pub open spec fn all_removed(removed: Seq<bool>) -> bool {
    forall|i: int| 0 <= i < removed.len() ==> #[trigger] removed[i]
}

/// One entry so far was removed.
pub open spec fn one_removed(removed: Seq<bool>) -> bool {
    exists|i: int| 0 <= i < removed.len() && #[trigger] removed[i]
}

/// A sweep begins with nothing tried.
pub proof fn law_sweep_begins_with_nothing(r: Sweep)
    requires
        call_ensures(begin_sweep, (), r),
    ensures
        r.stage is OpenDir,
        r.removed@.len() == 0,
{
}

/// A directory that is open is listed; an error ends the sweep with that error.
pub proof fn law_open_directory_is_listed(sweep: Sweep, ended: Result<(), Fault>, r: Sweep)
    requires
        call_ensures(Sweep::after_open, (sweep, ended), r),
    ensures
        r.removed@ == sweep.removed@,
        match ended {
            Ok(()) => r.stage is ReadEntry,
            Err(fault) => r.stage matches SweepStage::Failed(given) && given@ == fault@,
        },
{
    assert(r@.stage == r.stage@);
}

/// An entry that is read is removed; at the end of the list what was removed is synced,
/// and where nothing was, the sweep ends, well where nothing was left.
pub proof fn law_read_entry_is_removed(
    sweep: Sweep,
    found: Result<bool, Fault>,
    tmp: &str,
    r: Sweep,
)
    requires
        call_ensures(Sweep::after_read, (sweep, found, tmp), r),
    ensures
        r.removed@ == sweep.removed@,
        match found {
            Err(fault) => r.stage matches SweepStage::Failed(given) && given@ == fault@,
            Ok(true) => r.stage is RemoveEntry,
            Ok(false) => {
                &&& one_removed(sweep.removed@) ==> r.stage is SyncDir
                &&& !one_removed(sweep.removed@) && all_removed(sweep.removed@)
                    ==> r.stage is Swept
                &&& !one_removed(sweep.removed@) && !all_removed(sweep.removed@) ==> (
                r.stage matches SweepStage::Failed(fault) && fault.kind == Kind::Other)
            },
        },
{
    let removed = sweep.removed@;
    assert(r@.stage == r.stage@);
    lemma_failed(removed);
    if one_removed(removed) {
        let i = choose|i: int| 0 <= i < removed.len() && #[trigger] removed[i];
        assert(removed[i] == true);
        assert(removed.contains(true));
    } else if removed.contains(true) {
        let i = choose|i: int| 0 <= i < removed.len() && removed[i] == true;
        assert(removed[i]);
    }
}

/// The next entry is read whether the last was removed or not, and that is kept.
pub proof fn law_sweep_goes_on_to_the_next_entry(sweep: Sweep, removed: bool, r: Sweep)
    requires
        call_ensures(Sweep::after_remove, (sweep, removed), r),
    ensures
        r.stage is ReadEntry,
        r.removed@ == sweep.removed@ + seq![removed],
{
    assert(r@.stage == r.stage@);
    assert(sweep.removed@.push(removed) == sweep.removed@ + seq![removed]);
}

/// A sweep that is synced ends well exactly where nothing was left; an error of the sync
/// is the one that it fails with.
pub proof fn law_synced_sweep_ends_well_exactly_where_nothing_was_left(
    sweep: Sweep,
    ended: Result<(), Fault>,
    tmp: &str,
    r: Sweep,
)
    requires
        call_ensures(Sweep::after_sync, (sweep, ended, tmp), r),
    ensures
        r.removed@ == sweep.removed@,
        match ended {
            Err(fault) => r.stage matches SweepStage::Failed(given) && given@ == fault@,
            Ok(()) => if all_removed(sweep.removed@) {
                r.stage is Swept
            } else {
                r.stage matches SweepStage::Failed(fault) && fault.kind == Kind::Other
            },
        },
{
    assert(r@.stage == r.stage@);
    lemma_failed(sweep.removed@);
}

} // verus!
