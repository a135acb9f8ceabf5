//! What an enqueue does to the queue, stage by stage, and the laws that follow
//! whichever of its file operations fail.

use vstd::prelude::*;

use crate::enqueue::{
    answer_to, first_stage, next_after_create, next_after_find_new, next_after_find_new_again,
    next_after_inspect, next_after_rename, next_after_sync, next_after_write, CreationView,
    EnqueueResult, StageView,
};
use crate::fault::{FaultView, Kind};
use crate::fs_security::{fd_acl_fault, AclLookup};
use crate::spool::filename_safe;

verus! {

/// The queue on disk: the files of `tmp/` and of `new/` with their contents, and
/// the entries of `new/` that outlive a crash.
#[verifier::ext_equal]
pub struct Queue {
    pub tmp: Map<Seq<char>, Seq<u8>>,
    pub new: Map<Seq<char>, Seq<u8>>,
    pub durable: Map<Seq<char>, Seq<u8>>,
}

/// What the file system does with the operations of one enqueue: for each the
/// error that it gives, if any.
pub struct Faults {
    /// Looking for the file in `new/` fails, which counts as not finding it.
    pub find: bool,
    pub create: Option<FaultView>,
    pub acl: AclLookup,
    pub write: Option<FaultView>,
    /// What a failed write leaves in the file.
    pub partial: Seq<u8>,
    pub rename: Option<FaultView>,
    pub sync: Option<FaultView>,
    /// The removal of the temporary file fails.
    pub remove: bool,
}

impl Faults {
    /// No operation fails.
    pub open spec fn none(self) -> bool {
        &&& !self.find
        &&& self.create is None
        &&& fd_acl_fault(self.acl, "enqueued spool file"@) is None
        &&& self.write is None
        &&& self.rename is None
        &&& self.sync is None
        &&& !self.remove
    }
}

/// The operation of a stage is performed on the queue, and the stage after it is
/// entered.
pub open spec fn perform(
    stage: StageView,
    queue: Queue,
    file: Seq<char>,
    contents: Seq<u8>,
    faults: Faults,
) -> (StageView, Queue) {
    match stage {
        StageView::FindNew => (
            next_after_find_new(queue.new.dom().contains(file) && !faults.find),
            queue,
        ),
        StageView::CreateTmp => match faults.create {
            Some(fault) => (next_after_create(CreationView::Error(fault)), queue),
            None => if queue.tmp.dom().contains(file) {
                (next_after_create(CreationView::AlreadyThere), queue)
            } else {
                (
                    next_after_create(CreationView::Created),
                    Queue { tmp: queue.tmp.insert(file, Seq::empty()), ..queue },
                )
            },
        },
        StageView::FindNewAgain => (
            next_after_find_new_again(queue.new.dom().contains(file) && !faults.find),
            queue,
        ),
        StageView::InspectTmp => (next_after_inspect(faults.acl), queue),
        StageView::WriteTmp => match faults.write {
            Some(_) => (
                next_after_write(faults.write),
                Queue { tmp: queue.tmp.insert(file, faults.partial), ..queue },
            ),
            None => (
                next_after_write(faults.write),
                Queue { tmp: queue.tmp.insert(file, contents), ..queue },
            ),
        },
        StageView::Rename => match faults.rename {
            Some(_) => (next_after_rename(faults.rename), queue),
            None => (
                next_after_rename(faults.rename),
                Queue {
                    tmp: queue.tmp.remove(file),
                    new: queue.new.insert(file, queue.tmp[file]),
                    ..queue
                },
            ),
        },
        StageView::SyncNew(end) => match faults.sync {
            Some(_) => (next_after_sync(end, faults.sync), queue),
            None => (next_after_sync(end, faults.sync), Queue { durable: queue.new, ..queue }),
        },
        StageView::RemoveTmp(fault) => (
            StageView::Failed(fault),
            if faults.remove {
                queue
            } else {
                Queue { tmp: queue.tmp.remove(file), ..queue }
            },
        ),
        StageView::Done(_) => (stage, queue),
        StageView::Failed(_) => (stage, queue),
    }
}

/// Operations that an enqueue can still perform from a stage on.
pub open spec fn rank(stage: StageView) -> nat {
    match stage {
        StageView::FindNew => 7,
        StageView::CreateTmp => 6,
        StageView::FindNewAgain => 5,
        StageView::InspectTmp => 5,
        StageView::WriteTmp => 4,
        StageView::Rename => 3,
        StageView::SyncNew(_) => 2,
        StageView::RemoveTmp(_) => 1,
        StageView::Done(_) => 0,
        StageView::Failed(_) => 0,
    }
}

/// An enqueue goes on from a stage until it ends.
pub open spec fn run(
    stage: StageView,
    queue: Queue,
    file: Seq<char>,
    contents: Seq<u8>,
    faults: Faults,
) -> (StageView, Queue)
    decreases rank(stage),
{
    match stage {
        StageView::Done(_) => (stage, queue),
        StageView::Failed(_) => (stage, queue),
        _ => {
            let (next, after) = perform(stage, queue, file, contents, faults);
            run(next, after, file, contents, faults)
        },
    }
}

/// A whole enqueue.
pub open spec fn enqueued(
    queue: Queue,
    file: Seq<char>,
    contents: Seq<u8>,
    faults: Faults,
) -> (StageView, Queue) {
    run(first_stage(file), queue, file, contents, faults)
}

/// Every enqueue ends, after at most seven operations.
pub proof fn law_enqueue_ends(queue: Queue, file: Seq<char>, contents: Seq<u8>, faults: Faults)
    ensures
        rank(first_stage(file)) <= 7,
        enqueued(queue, file, contents, faults).0 is Done || enqueued(
            queue,
            file,
            contents,
            faults,
        ).0 is Failed,
{
    reveal_with_fuel(run, 8);
}

/// A file name that could lead out of the queue is refused as invalid input, and
/// nothing changes.
pub proof fn law_unsafe_name_changes_nothing(
    queue: Queue,
    file: Seq<char>,
    contents: Seq<u8>,
    faults: Faults,
)
    requires
        !filename_safe(file),
    ensures
        enqueued(queue, file, contents, faults).0 matches StageView::Failed(fault) && fault.kind
            == Kind::InvalidInput,
        enqueued(queue, file, contents, faults).1 == queue,
{
}

/// Where nothing fails and no file of that name is there, the file appears in
/// `new/` with its contents, durably, and `tmp/` is as it was.
pub proof fn law_new_job_is_written(
    queue: Queue,
    file: Seq<char>,
    contents: Seq<u8>,
    faults: Faults,
)
    requires
        filename_safe(file),
        faults.none(),
        !queue.tmp.dom().contains(file),
        !queue.new.dom().contains(file),
    ensures
        enqueued(queue, file, contents, faults).0 == StageView::Done(EnqueueResult::Wrote),
        enqueued(queue, file, contents, faults).1 == (Queue {
            tmp: queue.tmp,
            new: queue.new.insert(file, contents),
            durable: queue.new.insert(file, contents),
        }),
{
    reveal_with_fuel(run, 8);
    assert(queue.tmp.insert(file, Seq::empty()).insert(file, contents).remove(file)
        == queue.tmp);
}

/// Where a file of that name is in `new/`, and looking and syncing work, the
/// enqueue reports a duplicate; the files stay as they are.
pub proof fn law_queued_job_is_duplicate(
    queue: Queue,
    file: Seq<char>,
    contents: Seq<u8>,
    faults: Faults,
)
    requires
        filename_safe(file),
        queue.new.dom().contains(file),
        !faults.find,
        faults.sync is None,
    ensures
        enqueued(queue, file, contents, faults).0 == StageView::Done(EnqueueResult::Duplicate),
        enqueued(queue, file, contents, faults).1 == (Queue { durable: queue.new, ..queue }),
{
    reveal_with_fuel(run, 8);
}

/// A job that was written once is written no second time: the next enqueue of
/// that name, whatever its contents, is a duplicate and keeps the first ones.
pub proof fn law_enqueue_is_idempotent(
    queue: Queue,
    file: Seq<char>,
    first: Seq<u8>,
    second: Seq<u8>,
    faults: Faults,
    later: Faults,
)
    requires
        enqueued(queue, file, first, faults).0 == StageView::Done(EnqueueResult::Wrote),
        !later.find,
        later.sync is None,
    ensures
        ({
            let after = enqueued(queue, file, first, faults).1;
            &&& enqueued(after, file, second, later).0 == StageView::Done(EnqueueResult::Duplicate)
            &&& enqueued(after, file, second, later).1 == after
            &&& after.new[file] == first
        }),
{
    reveal_with_fuel(run, 8);
    let after = enqueued(queue, file, first, faults).1;
    assert(filename_safe(file));
    law_queued_job_is_duplicate(after, file, second, later);
}

/// Where another writer holds the temporary file, and `new/` does not show the
/// result, the enqueue reports so; nothing changes.
pub proof fn law_held_job_is_in_flight(
    queue: Queue,
    file: Seq<char>,
    contents: Seq<u8>,
    faults: Faults,
)
    requires
        filename_safe(file),
        queue.tmp.dom().contains(file),
        !queue.new.dom().contains(file),
        faults.create is None,
    ensures
        enqueued(queue, file, contents, faults).0 == StageView::Done(EnqueueResult::InFlight),
        enqueued(queue, file, contents, faults).1 == queue,
{
    reveal_with_fuel(run, 8);
}

/// An enqueue that ends in any way leaves no temporary file behind that was not
/// there before, unless removing it fails too.
pub proof fn law_no_temporary_file_is_left(
    queue: Queue,
    file: Seq<char>,
    contents: Seq<u8>,
    faults: Faults,
)
    requires
        !faults.remove,
    ensures
        enqueued(queue, file, contents, faults).1.tmp == queue.tmp,
{
    reveal_with_fuel(run, 8);
    let end = enqueued(queue, file, contents, faults).1;
    assert(end.tmp =~= queue.tmp);
}

/// How an enqueue ended, where it did not fail.
pub open spec fn ending(stage: StageView) -> Option<EnqueueResult> {
    match stage {
        StageView::Done(end) => Some(end),
        _ => None,
    }
}

/// What is answered with success outlives a crash: where the answer to an enqueue
/// is 200, the job's file in `new/` is durable. A failure is answered with 500,
/// and a job that another writer holds with 503.
pub proof fn law_success_is_durable(
    queue: Queue,
    file: Seq<char>,
    contents: Seq<u8>,
    faults: Faults,
)
    ensures
        ({
            let (end, after) = enqueued(queue, file, contents, faults);
            let code = answer_to(ending(end)).code();
            &&& code == 200 ==> after.durable.dom().contains(file) && after.durable == after.new
            &&& code == 500 <==> end is Failed
            &&& code == 503 <==> end == StageView::Done(EnqueueResult::InFlight)
            &&& code == 200 || code == 500 || code == 503
        }),
{
    reveal_with_fuel(run, 8);
}

/// What is written is the whole of the contents: a file that a failed write left
/// incomplete never reaches `new/`.
pub proof fn law_new_file_is_complete(
    queue: Queue,
    file: Seq<char>,
    contents: Seq<u8>,
    faults: Faults,
)
    ensures
        ({
            let after = enqueued(queue, file, contents, faults).1;
            after.new == queue.new || after.new == queue.new.insert(file, contents)
        }),
{
    reveal_with_fuel(run, 8);
}

/// A file that is in `new/` and can be found there is never overwritten.
pub proof fn law_queued_file_is_kept(
    queue: Queue,
    file: Seq<char>,
    contents: Seq<u8>,
    faults: Faults,
)
    requires
        queue.new.dom().contains(file),
        !faults.find,
    ensures
        enqueued(queue, file, contents, faults).1.new == queue.new,
{
    reveal_with_fuel(run, 8);
}

/// An enqueue touches no file of another name.
pub proof fn law_other_files_are_untouched(
    queue: Queue,
    file: Seq<char>,
    contents: Seq<u8>,
    faults: Faults,
    other: Seq<char>,
)
    requires
        other != file,
    ensures
        ({
            let after = enqueued(queue, file, contents, faults).1;
            &&& after.new.dom().contains(other) == queue.new.dom().contains(other)
            &&& after.new[other] == queue.new[other]
            &&& after.tmp.dom().contains(other) == queue.tmp.dom().contains(other)
            &&& after.tmp[other] == queue.tmp[other]
        }),
{
    reveal_with_fuel(run, 8);
}

/// The writer at this stage has created the temporary file, and not yet renamed
/// or removed it.
pub open spec fn holds(stage: StageView) -> bool {
    match stage {
        StageView::InspectTmp | StageView::WriteTmp | StageView::Rename | StageView::RemoveTmp(
            _,
        ) => true,
        _ => false,
    }
}

/// Two writers of one job, at these stages: not both hold the temporary file; it
/// is there while one does, with that writer's contents once it is to be renamed.
pub open spec fn exclusive(
    one: (StageView, Seq<u8>),
    other: (StageView, Seq<u8>),
    queue: Queue,
    file: Seq<char>,
) -> bool {
    &&& !(holds(one.0) && holds(other.0))
    &&& holds(one.0) || holds(other.0) ==> queue.tmp.dom().contains(file)
    &&& one.0 is Rename ==> queue.tmp[file] == one.1
    &&& other.0 is Rename ==> queue.tmp[file] == other.1
}

/// Two writers of one job exclude each other: no operation of one makes both hold
/// the temporary file, and what it renames into `new/` is all of what it wrote.
/// While the other holds the temporary file, it changes nothing in `new/`, and
/// finds the file taken where it would create it.
pub proof fn law_writers_exclude_each_other(
    one: (StageView, Seq<u8>),
    other: (StageView, Seq<u8>),
    queue: Queue,
    file: Seq<char>,
    faults: Faults,
)
    requires
        exclusive(one, other, queue, file),
    ensures
        ({
            let (next, after) = perform(one.0, queue, file, one.1, faults);
            &&& exclusive((next, one.1), other, after, file)
            &&& exclusive(other, (next, one.1), after, file)
            &&& after.new == queue.new || after.new == queue.new.insert(file, one.1)
            &&& holds(other.0) ==> after.new == queue.new
            &&& holds(other.0) && one.0 is CreateTmp && faults.create is None
                ==> next is FindNewAgain && after == queue
        }),
{
}

/// Two writers of one job take turns: each item of the schedule is one operation,
/// of the first writer where it says so, with what the file system does with it.
pub open spec fn interleaved(
    one: (StageView, Seq<u8>),
    other: (StageView, Seq<u8>),
    queue: Queue,
    file: Seq<char>,
    schedule: Seq<(bool, Faults)>,
) -> (StageView, StageView, Queue)
    decreases schedule.len(),
{
    if schedule.len() == 0 {
        (one.0, other.0, queue)
    } else {
        let (first, faults) = schedule[0];
        let rest = schedule.skip(1);
        if first {
            let (next, after) = perform(one.0, queue, file, one.1, faults);
            interleaved((next, one.1), other, after, file, rest)
        } else {
            let (next, after) = perform(other.0, queue, file, other.1, faults);
            interleaved(one, (next, other.1), after, file, rest)
        }
    }
}

/// In whatever order the operations of two writers of one job fall, and whichever
/// of them fail, the two never both hold the temporary file, and what is in `new/`
/// under the job's name is what was there before, or all of what one of them wrote.
pub proof fn law_concurrent_writers_leave_a_whole_file(
    one: Seq<u8>,
    other: Seq<u8>,
    queue: Queue,
    file: Seq<char>,
    schedule: Seq<(bool, Faults)>,
)
    ensures
        ({
            let start = first_stage(file);
            let (a, b, after) = interleaved((start, one), (start, other), queue, file, schedule);
            &&& !(holds(a) && holds(b))
            &&& {
                ||| after.new == queue.new
                ||| after.new == queue.new.insert(file, one)
                ||| after.new == queue.new.insert(file, other)
            }
        }),
{
    let start = first_stage(file);
    lemma_interleaved((start, one), (start, other), queue, queue, file, schedule);
}

/// What holds between two writers goes on to hold along a schedule that begins
/// somewhere on the way from `origin`.
proof fn lemma_interleaved(
    one: (StageView, Seq<u8>),
    other: (StageView, Seq<u8>),
    origin: Queue,
    queue: Queue,
    file: Seq<char>,
    schedule: Seq<(bool, Faults)>,
)
    requires
        exclusive(one, other, queue, file),
        whole(origin, queue, file, one.1, other.1),
    ensures
        ({
            let (a, b, after) = interleaved(one, other, queue, file, schedule);
            &&& exclusive((a, one.1), (b, other.1), after, file)
            &&& whole(origin, after, file, one.1, other.1)
        }),
    decreases schedule.len(),
{
    if schedule.len() > 0 {
        let (first, faults) = schedule[0];
        let rest = schedule.skip(1);
        if first {
            let (next, after) = perform(one.0, queue, file, one.1, faults);
            law_writers_exclude_each_other(one, other, queue, file, faults);
            lemma_whole_step(origin, queue, after, file, one.1, other.1);
            lemma_interleaved((next, one.1), other, origin, after, file, rest);
        } else {
            let (next, after) = perform(other.0, queue, file, other.1, faults);
            law_writers_exclude_each_other(other, one, queue, file, faults);
            lemma_whole_step(origin, queue, after, file, one.1, other.1);
            lemma_interleaved(one, (next, other.1), origin, after, file, rest);
        }
    }
}

/// `new/` is as it was at `origin`, or has one of these contents under the job's
/// name beside what it had.
pub open spec fn whole(
    origin: Queue,
    queue: Queue,
    file: Seq<char>,
    one: Seq<u8>,
    other: Seq<u8>,
) -> bool {
    ||| queue.new == origin.new
    ||| queue.new == origin.new.insert(file, one)
    ||| queue.new == origin.new.insert(file, other)
}

/// One of the two contents written over the other leaves the one alone.
proof fn lemma_whole_step(
    origin: Queue,
    queue: Queue,
    after: Queue,
    file: Seq<char>,
    one: Seq<u8>,
    other: Seq<u8>,
)
    requires
        whole(origin, queue, file, one, other),
        after.new == queue.new || after.new == queue.new.insert(file, one) || after.new
            == queue.new.insert(file, other),
    ensures
        whole(origin, after, file, one, other),
{
    assert(origin.new.insert(file, one).insert(file, one) == origin.new.insert(file, one));
    assert(origin.new.insert(file, one).insert(file, other) == origin.new.insert(file, other));
    assert(origin.new.insert(file, other).insert(file, one) == origin.new.insert(file, one));
    assert(origin.new.insert(file, other).insert(file, other) == origin.new.insert(file, other));
}

} // verus!
