//! Sweeping `tmp/` at startup of what an earlier run left there. A stage names the one
//! file operation that comes next; an entry that cannot be removed does not end the
//! sweep, but is counted and refused at its end.

use vstd::prelude::*;

use crate::fault::{fails_with, fault_of, Fault, FaultView, Kind};
use crate::text::{decimal, digits};

verus! {

/// The file operation that comes next.
pub enum SweepStage {
    /// Open `tmp/` for listing.
    OpenDir,
    /// Read the next entry.
    ReadEntry,
    /// Remove the entry just read.
    RemoveEntry,
    /// Make the removals durable.
    SyncDir,
    /// Nothing: `tmp/` is empty.
    Swept,
    /// Nothing: the sweep has failed with this error.
    Failed(Fault),
}

/// The model of a [`SweepStage`].
pub enum SweepStageView {
    OpenDir,
    ReadEntry,
    RemoveEntry,
    SyncDir,
    Swept,
    Failed(FaultView),
}

impl View for SweepStage {
    type V = SweepStageView;

    open spec fn view(&self) -> SweepStageView {
        match *self {
            SweepStage::OpenDir => SweepStageView::OpenDir,
            SweepStage::ReadEntry => SweepStageView::ReadEntry,
            SweepStage::RemoveEntry => SweepStageView::RemoveEntry,
            SweepStage::SyncDir => SweepStageView::SyncDir,
            SweepStage::Swept => SweepStageView::Swept,
            SweepStage::Failed(fault) => SweepStageView::Failed(fault@),
        }
    }
}

/// A sweep on its way.
pub struct Sweep {
    pub stage: SweepStage,
    /// For each entry so far, whether it was removed.
    pub removed: Vec<bool>,
}

/// The model of a [`Sweep`].
pub struct SweepView {
    pub stage: SweepStageView,
    pub removed: Seq<bool>,
}

impl View for Sweep {
    type V = SweepView;

    open spec fn view(&self) -> SweepView {
        SweepView { stage: self.stage@, removed: self.removed@ }
    }
}

/// How many removals of a list failed.
pub open spec fn failed(removed: Seq<bool>) -> nat
    decreases removed.len(),
{
    if removed.len() == 0 {
        0
    } else if removed.last() {
        failed(removed.drop_last())
    } else {
        failed(removed.drop_last()) + 1
    }
}

/// What a sweep of `tmp/` found, entry by entry.
pub struct SweepTally {
    /// An entry was removed, so the directory is to be made durable.
    pub swept_any: bool,
    /// How many entries could not be removed.
    pub failures: usize,
}

/// Sums a sweep up, given for each entry whether it was removed.
pub fn tally(removed: &Vec<bool>) -> (r: SweepTally)
    ensures
        r.swept_any == removed@.contains(true),
        r.failures == failed(removed@),
{
    let mut swept_any = false;
    let mut failures: usize = 0;
    let mut i: usize = 0;
    while i < removed.len()
        invariant
            i <= removed@.len(),
            swept_any == removed@.take(i as int).contains(true),
            failures == failed(removed@.take(i as int)),
            failures <= i,
        decreases removed@.len() - i,
    {
        let ghost before = removed@.take(i as int);
        let ghost after = removed@.take(i + 1);
        assert(after == before.push(removed@[i as int]));
        assert(after.drop_last() == before);
        if removed[i] {
            assert(after[i as int]);
            swept_any = true;
        } else {
            failures += 1;
            proof {
                if before.contains(true) {
                    let k = choose|k: int| 0 <= k < before.len() && before[k];
                    assert(after[k]);
                }
                if after.contains(true) {
                    let k = choose|k: int| 0 <= k < after.len() && after[k];
                    assert(before[k]);
                }
            }
        }
        i += 1;
    }
    assert(removed@.take(i as int) == removed@);
    SweepTally { swept_any, failures }
}

/// Why an incomplete sweep is refused.
pub open spec fn sweep_fault(failures: nat, tmp: Seq<char>) -> Option<FaultView> {
    if failures == 0 {
        None
    } else {
        Some(
            FaultView {
                kind: Kind::Other,
                text: digits(failures, 10) + " stale entr"@ + (if failures == 1 {
                    "y"@
                } else {
                    "ies"@
                }) + " in "@ + tmp
                    + " could not be removed; clear tmp/ manually before restarting"@,
            },
        )
    }
}

/// Refuses to go on with entries in `tmp/` that could not be removed: each would
/// hold up every delivery of its job.
pub fn check_sweep(failures: usize, tmp: &str) -> (r: Result<(), Fault>)
    ensures
        fails_with(r, sweep_fault(failures as nat, tmp@)),
{
    if failures == 0 {
        return Ok(());
    }
    let mut text = decimal(failures as u64);
    text.append(" stale entr");
    if failures == 1 {
        text.append("y");
    } else {
        text.append("ies");
    }
    text.append(" in ");
    text.append(tmp);
    text.append(" could not be removed; clear tmp/ manually before restarting");
    Err(Fault { kind: Kind::Other, text })
}

/// What reading an entry gave: whether there was one, or an error.
pub open spec fn found_view(found: Result<bool, Fault>) -> Result<bool, FaultView> {
    match found {
        Ok(more) => Ok(more),
        Err(fault) => Err(fault@),
    }
}

impl SweepView {
    /// The sweep at another stage.
    pub open spec fn at(self, stage: SweepStageView) -> SweepView {
        SweepView { stage, ..self }
    }

    /// How a sweep ends once the removals are durable.
    pub open spec fn ended(self, tmp: Seq<char>) -> SweepView {
        match sweep_fault(failed(self.removed), tmp) {
            Some(fault) => self.at(SweepStageView::Failed(fault)),
            None => self.at(SweepStageView::Swept),
        }
    }

    /// What follows the opening of `tmp/`.
    pub open spec fn after_open(self, error: Option<FaultView>) -> SweepView {
        match error {
            Some(fault) => self.at(SweepStageView::Failed(fault)),
            None => self.at(SweepStageView::ReadEntry),
        }
    }

    /// What follows the reading of an entry. At the end of the list, what was removed
    /// is made durable before anything is refused.
    pub open spec fn after_read(
        self,
        found: Result<bool, FaultView>,
        tmp: Seq<char>,
    ) -> SweepView {
        match found {
            Err(fault) => self.at(SweepStageView::Failed(fault)),
            Ok(true) => self.at(SweepStageView::RemoveEntry),
            Ok(false) => if self.removed.contains(true) {
                self.at(SweepStageView::SyncDir)
            } else {
                self.ended(tmp)
            },
        }
    }

    /// What follows the removal of an entry: the next one, whether this was removed or
    /// not.
    pub open spec fn after_remove(self, removed: bool) -> SweepView {
        SweepView { stage: SweepStageView::ReadEntry, removed: self.removed.push(removed) }
    }

    /// What follows making the removals durable.
    pub open spec fn after_sync(self, error: Option<FaultView>, tmp: Seq<char>) -> SweepView {
        match error {
            Some(fault) => self.at(SweepStageView::Failed(fault)),
            None => self.ended(tmp),
        }
    }
}

/// Begins a sweep.
pub fn begin_sweep() -> (r: Sweep)
    ensures
        r@ == (SweepView { stage: SweepStageView::OpenDir, removed: Seq::empty() }),
{
    Sweep { stage: SweepStage::OpenDir, removed: Vec::new() }
}

impl Sweep {
    /// Ends a sweep whose removals are durable: one that left entries is refused.
    fn end(self, tmp: &str) -> (r: Sweep)
        ensures
            r@ == self@.ended(tmp@),
    {
        match check_sweep(tally(&self.removed).failures, tmp) {
            Ok(()) => Sweep { stage: SweepStage::Swept, removed: self.removed },
            Err(fault) => Sweep { stage: SweepStage::Failed(fault), removed: self.removed },
        }
    }

    /// After [`SweepStage::OpenDir`].
    pub fn after_open(self, ended: Result<(), Fault>) -> (r: Sweep)
        ensures
            r@ == self@.after_open(fault_of(ended)),
    {
        match ended {
            Ok(()) => Sweep { stage: SweepStage::ReadEntry, removed: self.removed },
            Err(fault) => Sweep { stage: SweepStage::Failed(fault), removed: self.removed },
        }
    }

    /// After [`SweepStage::ReadEntry`], given whether there was an entry.
    pub fn after_read(self, found: Result<bool, Fault>, tmp: &str) -> (r: Sweep)
        ensures
            r@ == self@.after_read(found_view(found), tmp@),
    {
        match found {
            Err(fault) => Sweep { stage: SweepStage::Failed(fault), removed: self.removed },
            Ok(true) => Sweep { stage: SweepStage::RemoveEntry, removed: self.removed },
            Ok(false) => {
                if tally(&self.removed).swept_any {
                    Sweep { stage: SweepStage::SyncDir, removed: self.removed }
                } else {
                    self.end(tmp)
                }
            },
        }
    }

    /// After [`SweepStage::RemoveEntry`], given whether the entry was removed.
    pub fn after_remove(self, removed: bool) -> (r: Sweep)
        ensures
            r@ == self@.after_remove(removed),
    {
        let mut all = self.removed;
        all.push(removed);
        Sweep { stage: SweepStage::ReadEntry, removed: all }
    }

    /// After [`SweepStage::SyncDir`].
    pub fn after_sync(self, ended: Result<(), Fault>, tmp: &str) -> (r: Sweep)
        ensures
            r@ == self@.after_sync(fault_of(ended), tmp@),
    {
        match ended {
            Ok(()) => self.end(tmp),
            Err(fault) => Sweep { stage: SweepStage::Failed(fault), removed: self.removed },
        }
    }
}

} // verus!
