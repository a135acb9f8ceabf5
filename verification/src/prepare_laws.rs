//! What a preparation of the queue does to the directory tree, step by step, and the
//! laws that follow, with those of the sweep that is its last step.

use vstd::prelude::*;

use crate::fault::FaultView;
use crate::fs_laws::{
    chain_of, law_dir_passes_exactly_where_locked_down, law_trailing_separators_do_not_count,
};
use crate::fs_security::{chain_fault, dir_fault, trimmed, FileKind, Probe};
use crate::prepare::{new_dir_mode, root_kind_fault, unresolved, PrepareStageView};
use crate::sweep::{failed, sweep_fault, SweepStageView, SweepView};

verus! {

/// What the file system does with the operations of a sweep: for each the error that
/// it gives, if any.
pub struct SweepFaults {
    pub open: Option<FaultView>,
    /// The error that reading the entry of this number gives.
    pub read: spec_fn(nat) -> Option<FaultView>,
    pub sync: Option<FaultView>,
}

impl SweepFaults {
    /// `tmp/` can be listed.
    pub open spec fn listable(self) -> bool {
        &&& self.open is None
        &&& forall|n: nat| (#[trigger] (self.read)(n)) is None
    }
}

/// How far a stage is from the end, but for the entries still to come.
pub open spec fn sweep_rank(stage: SweepStageView) -> nat {
    match stage {
        SweepStageView::OpenDir => 4,
        SweepStageView::ReadEntry => 3,
        SweepStageView::RemoveEntry => 2,
        SweepStageView::SyncDir => 1,
        SweepStageView::Swept => 0,
        SweepStageView::Failed(_) => 0,
    }
}

/// A sweep goes on until it ends, over a `tmp/` of these entries, each of which can be
/// removed or not. Beside the sweep: whether the directory has been made durable.
pub open spec fn sweep_run(
    sweep: SweepView,
    synced: bool,
    entries: Seq<bool>,
    faults: SweepFaults,
    tmp: Seq<char>,
) -> (SweepView, bool)
    decreases
            (if sweep.removed.len() < entries.len() {
                entries.len() - sweep.removed.len()
            } else {
                0
            }),
            sweep_rank(sweep.stage),
{
    let n = sweep.removed.len();
    match sweep.stage {
        SweepStageView::OpenDir => sweep_run(
            sweep.after_open(faults.open),
            synced,
            entries,
            faults,
            tmp,
        ),
        SweepStageView::ReadEntry => {
            let found = match (faults.read)(n) {
                Some(fault) => Err(fault),
                None => Ok(n < entries.len()),
            };
            sweep_run(sweep.after_read(found, tmp), synced, entries, faults, tmp)
        },
        SweepStageView::RemoveEntry => if n < entries.len() {
            sweep_run(sweep.after_remove(entries[n as int]), synced, entries, faults, tmp)
        } else {
            (sweep, synced)
        },
        SweepStageView::SyncDir => sweep_run(
            sweep.after_sync(faults.sync, tmp),
            synced || faults.sync is None,
            entries,
            faults,
            tmp,
        ),
        SweepStageView::Swept => (sweep, synced),
        SweepStageView::Failed(_) => (sweep, synced),
    }
}

/// A whole sweep.
pub open spec fn swept(entries: Seq<bool>, faults: SweepFaults, tmp: Seq<char>) -> (
    SweepView,
    bool,
) {
    sweep_run(
        SweepView { stage: SweepStageView::OpenDir, removed: Seq::empty() },
        false,
        entries,
        faults,
        tmp,
    )
}

/// How a sweep that has tried the first entries goes on.
proof fn lemma_sweep_from(
    sweep: SweepView,
    entries: Seq<bool>,
    faults: SweepFaults,
    tmp: Seq<char>,
)
    requires
        sweep.stage is ReadEntry,
        sweep.removed.len() <= entries.len(),
        sweep.removed == entries.take(sweep.removed.len() as int),
        faults.listable(),
    ensures
        sweep_run(sweep, false, entries, faults, tmp) == {
            let all = SweepView { stage: SweepStageView::ReadEntry, removed: entries };
            if entries.contains(true) {
                (all.after_sync(faults.sync, tmp), faults.sync is None)
            } else {
                (all.ended(tmp), false)
            }
        },
    decreases entries.len() - sweep.removed.len(),
{
    let n = sweep.removed.len();
    reveal_with_fuel(sweep_run, 4);
    assert((faults.read)(n) is None);
    if n < entries.len() {
        let next = sweep.at(SweepStageView::RemoveEntry).after_remove(entries[n as int]);
        assert(next.removed == entries.take((n + 1) as int));
        lemma_sweep_from(next, entries, faults, tmp);
    } else {
        assert(sweep.removed == entries);
    }
}

/// Removals fail exactly where one of them does.
pub(crate) proof fn lemma_failed(removed: Seq<bool>)
    ensures
        failed(removed) == 0 <==> forall|i: int| 0 <= i < removed.len() ==> #[trigger] removed[i],
    decreases removed.len(),
{
    if removed.len() > 0 {
        let rest = removed.drop_last();
        lemma_failed(rest);
        if forall|i: int| 0 <= i < rest.len() ==> #[trigger] rest[i] {
            assert forall|i: int| 0 <= i < removed.len() - 1 implies #[trigger] removed[i] by {
                assert(rest[i]);
            }
        } else {
            let i = choose|i: int| 0 <= i < rest.len() && !(#[trigger] rest[i]);
            assert(!removed[i]);
        }
        assert(removed[removed.len() - 1] == removed.last());
    }
}

/// A sweep goes on after an entry that it cannot remove: where `tmp/` can be listed,
/// every entry is tried. It succeeds exactly where each of them is removed, and making
/// that durable does not fail.
pub proof fn law_sweep_tries_every_entry(
    entries: Seq<bool>,
    faults: SweepFaults,
    tmp: Seq<char>,
)
    requires
        faults.listable(),
    ensures
        ({
            let (end, _) = swept(entries, faults, tmp);
            &&& end.removed == entries
            &&& end.stage is Swept || end.stage is Failed
            &&& end.stage is Swept <==> {
                &&& forall|i: int| 0 <= i < entries.len() ==> #[trigger] entries[i]
                &&& entries.len() > 0 ==> faults.sync is None
            }
        }),
{
    reveal_with_fuel(sweep_run, 2);
    assert(entries.take(0) == Seq::<bool>::empty());
    lemma_sweep_from(
        SweepView { stage: SweepStageView::ReadEntry, removed: Seq::empty() },
        entries,
        faults,
        tmp,
    );
    lemma_failed(entries);
    if entries.len() > 0 {
        if entries[0] {
            assert(entries.contains(true));
        }
    }
    if entries.contains(true) {
        let i = choose|i: int| 0 <= i < entries.len() && entries[i];
        assert(entries[i]);
    }
}

/// What a sweep removed is durable before it ends, also where it is then refused for
/// the entries that it could not remove: it never ends with removals that are not, but
/// for an error of making them so.
pub proof fn law_sweep_is_durable_before_it_is_refused(
    entries: Seq<bool>,
    faults: SweepFaults,
    tmp: Seq<char>,
)
    requires
        faults.listable(),
        faults.sync is None,
    ensures
        ({
            let (end, synced) = swept(entries, faults, tmp);
            &&& synced == entries.contains(true)
            &&& end.stage == match sweep_fault(failed(entries), tmp) {
                Some(fault) => SweepStageView::Failed(fault),
                None => SweepStageView::Swept,
            }
        }),
{
    reveal_with_fuel(sweep_run, 2);
    assert(entries.take(0) == Seq::<bool>::empty());
    lemma_sweep_from(
        SweepView { stage: SweepStageView::ReadEntry, removed: Seq::empty() },
        entries,
        faults,
        tmp,
    );
}

/// A sweep that succeeds has removed every entry, whatever the file system does with its
/// operations; one that does not succeed fails.
pub proof fn law_sweep_that_succeeds_leaves_nothing(
    entries: Seq<bool>,
    faults: SweepFaults,
    tmp: Seq<char>,
)
    ensures
        ({
            let (end, _) = swept(entries, faults, tmp);
            &&& end.stage is Swept || end.stage is Failed
            &&& end.stage is Swept ==> {
                &&& end.removed == entries
                &&& forall|i: int| 0 <= i < entries.len() ==> #[trigger] entries[i]
            }
        }),
{
    reveal_with_fuel(sweep_run, 2);
    assert(entries.take(0) == Seq::<bool>::empty());
    lemma_sweep_ends(
        SweepView { stage: SweepStageView::ReadEntry, removed: Seq::empty() },
        entries,
        faults,
        tmp,
    );
    lemma_failed(entries);
}

/// A sweep that has tried the first entries succeeds only with all of them removed.
proof fn lemma_sweep_ends(
    sweep: SweepView,
    entries: Seq<bool>,
    faults: SweepFaults,
    tmp: Seq<char>,
)
    requires
        sweep.stage is ReadEntry,
        sweep.removed.len() <= entries.len(),
        sweep.removed == entries.take(sweep.removed.len() as int),
    ensures
        ({
            let (end, _) = sweep_run(sweep, false, entries, faults, tmp);
            &&& end.stage is Swept || end.stage is Failed
            &&& end.stage is Swept ==> end.removed == entries && failed(entries) == 0
        }),
    decreases entries.len() - sweep.removed.len(),
{
    let n = sweep.removed.len();
    reveal_with_fuel(sweep_run, 4);
    if n < entries.len() {
        let next = sweep.at(SweepStageView::RemoveEntry).after_remove(entries[n as int]);
        assert(next.removed == entries.take((n + 1) as int));
        lemma_sweep_ends(next, entries, faults, tmp);
    } else {
        assert(sweep.removed == entries);
    }
}

/// The directory tree around the queue.
pub struct Tree {
    /// What looking a path up gives, without following a final symbolic link.
    pub lookup: spec_fn(Seq<u8>) -> Probe,
    /// What a path resolves to, through every symbolic link; `None` where it leads
    /// nowhere.
    pub resolve: spec_fn(Seq<u8>) -> Option<Seq<u8>>,
    /// The entries of `tmp/`: whether each can be removed.
    pub leftovers: Seq<bool>,
    /// The files of `new/` with their contents.
    pub queued: Map<Seq<char>, Seq<u8>>,
}

impl Tree {
    /// What holds of every tree: a resolved path has nothing idle at its end and
    /// resolves to itself, and a real directory can be reached.
    pub open spec fn sound(self) -> bool {
        &&& forall|path: Seq<u8>|
            (#[trigger] (self.resolve)(path)) matches Some(to) ==> {
                &&& (self.resolve)(to) == Some(to)
                &&& trimmed(to) == to
            }
        &&& forall|path: Seq<u8>|
            self.kind_at(path) == Some(FileKind::Dir) ==> (#[trigger] (self.resolve)(path)) is Some
    }

    /// What a path names, without following a final symbolic link.
    pub open spec fn kind_at(self, path: Seq<u8>) -> Option<FileKind> {
        match (self.lookup)(path).stat {
            Ok(stat) => Some(stat.kind),
            Err(_) => None,
        }
    }

    /// The lookups of the ancestors of a path.
    pub open spec fn chain(self, path: Seq<u8>) -> Seq<Probe> {
        chain_of(path, self.lookup)
    }
}

/// What the file system does with the operations of a preparation.
pub struct World {
    /// The tree after a directory is created in it with this mode.
    pub create: spec_fn(Tree, Seq<u8>, u32) -> Tree,
    /// A path as messages show it.
    pub show: spec_fn(Seq<u8>) -> Seq<char>,
    /// The error that creating or resolving at a stage gives.
    pub faults: spec_fn(PrepareStageView) -> Option<Seq<char>>,
    /// The error that resolving a path that leads nowhere gives.
    pub missing: Seq<char>,
    pub sweep: SweepFaults,
}

impl World {
    /// What holds of every file system: a directory that is created leaves what was
    /// reachable where it was, and the queued files alone.
    pub open spec fn valid(self) -> bool {
        forall|tree: Tree, path: Seq<u8>, mode: u32|
            {
                let made = #[trigger] (self.create)(tree, path, mode);
                &&& tree.sound() ==> made.sound()
                &&& made.queued == tree.queued
                &&& forall|p: Seq<u8>|
                    (tree.resolve)(p) is Some ==> #[trigger] (made.resolve)(p) == (tree.resolve)(p)
            }
    }

    /// No operation fails.
    pub open spec fn calm(self) -> bool {
        &&& forall|stage: PrepareStageView| (#[trigger] (self.faults)(stage)) is None
        &&& self.sweep.listable()
        &&& self.sweep.sync is None
    }
}

/// An entry of a directory: the directory's path, a separator, the name.
pub open spec fn child(path: Seq<u8>, name: Seq<u8>) -> Seq<u8> {
    if path.len() > 0 && path.last() == 47u8 {
        path + name
    } else {
        path.push(47u8) + name
    }
}

/// The path of `tmp/` under a root.
pub open spec fn tmp_of(path: Seq<u8>) -> Seq<u8> {
    child(path, seq![116u8, 109u8, 112u8])
}

/// The path of `new/` under a root.
pub open spec fn new_of(path: Seq<u8>) -> Seq<u8> {
    child(path, seq![110u8, 101u8, 119u8])
}

/// A directory is created where it is missing.
pub open spec fn ensured(tree: Tree, path: Seq<u8>, stage: PrepareStageView, world: World) -> (
    Option<Seq<char>>,
    Tree,
) {
    match new_dir_mode((tree.resolve)(path) is Some) {
        None => (None, tree),
        Some(mode) => match (world.faults)(stage) {
            Some(text) => (Some(text), tree),
            None => (None, (world.create)(tree, path, mode)),
        },
    }
}

/// The text of an error that a sweep ended with.
pub open spec fn sweep_error(stage: SweepStageView) -> Option<Seq<char>> {
    match stage {
        SweepStageView::Failed(fault) => Some(fault.text),
        _ => None,
    }
}

/// The entries that are left of a directory after a sweep has tried the first `n`.
pub open spec fn left(entries: Seq<bool>, n: nat) -> Seq<bool> {
    entries.take(n as int).filter(|removable: bool| !removable) + entries.skip(n as int)
}

/// A preparation on its way: the stage, the root's path as far as it is resolved, and
/// the tree.
pub struct Preparation {
    pub stage: PrepareStageView,
    pub path: Seq<u8>,
    pub tree: Tree,
}

/// The step of a stage is performed, and the stage after it is entered.
pub open spec fn prepare_step(
    at: Preparation,
    root: Seq<u8>,
    our_uid: u32,
    world: World,
) -> Preparation {
    let tree = at.tree;
    let shown = (world.show)(root);
    match at.stage {
        PrepareStageView::InspectRootPath => Preparation {
            stage: at.stage.after(root_kind_fault(shown, tree.kind_at(trimmed(root)))),
            ..at
        },
        PrepareStageView::CreateRoot => {
            let (error, made) = ensured(tree, root, at.stage, world);
            Preparation { stage: at.stage.after(error), tree: made, ..at }
        },
        PrepareStageView::Canonicalize => match ((world.faults)(at.stage), (tree.resolve)(root)) {
            (Some(text), _) => Preparation {
                stage: at.stage.after(Some(unresolved(shown, text))),
                ..at
            },
            (None, None) => Preparation {
                stage: at.stage.after(Some(unresolved(shown, world.missing))),
                ..at
            },
            (None, Some(path)) => Preparation { stage: at.stage.after(None), path, ..at },
        },
        PrepareStageView::CreateTmp => {
            let (error, made) = ensured(tree, tmp_of(at.path), at.stage, world);
            Preparation { stage: at.stage.after(error), tree: made, ..at }
        },
        PrepareStageView::CreateNew => {
            let (error, made) = ensured(tree, new_of(at.path), at.stage, world);
            Preparation { stage: at.stage.after(error), tree: made, ..at }
        },
        PrepareStageView::VerifyRoot => Preparation {
            stage: at.stage.after(dir_fault((tree.lookup)(at.path), our_uid)),
            ..at
        },
        PrepareStageView::VerifyTmp => Preparation {
            stage: at.stage.after(dir_fault((tree.lookup)(tmp_of(at.path)), our_uid)),
            ..at
        },
        PrepareStageView::VerifyNew => Preparation {
            stage: at.stage.after(dir_fault((tree.lookup)(new_of(at.path)), our_uid)),
            ..at
        },
        PrepareStageView::VerifyAncestors => Preparation {
            stage: at.stage.after(chain_fault(tree.chain(at.path), our_uid)),
            ..at
        },
        PrepareStageView::SweepTmp => {
            let (end, _) = swept(tree.leftovers, world.sweep, (world.show)(tmp_of(at.path)));
            Preparation {
                stage: at.stage.after(sweep_error(end.stage)),
                tree: Tree { leftovers: left(tree.leftovers, end.removed.len()), ..tree },
                ..at
            }
        },
        PrepareStageView::Ready => at,
        PrepareStageView::Failed(_) => at,
    }
}

/// A preparation goes on for so many steps.
pub open spec fn prepare_run(
    at: Preparation,
    root: Seq<u8>,
    our_uid: u32,
    world: World,
    steps: nat,
) -> Preparation
    decreases steps,
{
    if steps == 0 {
        at
    } else {
        prepare_run(prepare_step(at, root, our_uid, world), root, our_uid, world, (steps - 1) as nat)
    }
}

/// A whole preparation of the queue under `root`.
pub open spec fn preparation(root: Seq<u8>, tree: Tree, our_uid: u32, world: World) -> Preparation {
    prepare_run(
        Preparation { stage: PrepareStageView::InspectRootPath, path: root, tree },
        root,
        our_uid,
        world,
        10,
    )
}

/// A preparation that has failed goes no further.
proof fn lemma_failed_stays(
    at: Preparation,
    root: Seq<u8>,
    our_uid: u32,
    world: World,
    steps: nat,
)
    requires
        at.stage is Failed,
    ensures
        prepare_run(at, root, our_uid, world, steps) == at,
    decreases steps,
{
    if steps > 0 {
        lemma_failed_stays(at, root, our_uid, world, (steps - 1) as nat);
    }
}

/// A root that is a symbolic link is refused at the first step, written with any
/// number of separators at its end or with none: nothing is created, and nothing is
/// swept, through the link.
pub proof fn law_symlinked_root_changes_nothing(
    link: Seq<u8>,
    separators: Seq<u8>,
    tree: Tree,
    our_uid: u32,
    world: World,
)
    requires
        link.len() > 0,
        forall|i: int| 0 <= i < separators.len() ==> #[trigger] separators[i] == 47u8,
        tree.kind_at(trimmed(link)) == Some(FileKind::Symlink),
    ensures
        ({
            let root = link + separators;
            let end = preparation(root, tree, our_uid, world);
            &&& end.stage == PrepareStageView::Failed(
                root_kind_fault((world.show)(root), Some(FileKind::Symlink))->0,
            )
            &&& end.tree == tree
        }),
{
    let root = link + separators;
    law_trailing_separators_do_not_count(link, separators);
    let start = Preparation { stage: PrepareStageView::InspectRootPath, path: root, tree };
    let first = prepare_step(start, root, our_uid, world);
    lemma_failed_stays(first, root, our_uid, world, 9);
    reveal_with_fuel(prepare_run, 2);
}

/// A preparation leaves the queued files as they are, however it ends.
pub proof fn law_preparation_keeps_the_queue(
    root: Seq<u8>,
    tree: Tree,
    our_uid: u32,
    world: World,
)
    requires
        world.valid(),
    ensures
        preparation(root, tree, our_uid, world).tree.queued == tree.queued,
{
    lemma_queue_is_kept(
        Preparation { stage: PrepareStageView::InspectRootPath, path: root, tree },
        root,
        our_uid,
        world,
        10,
    );
}

/// No step of a preparation touches the queued files.
proof fn lemma_queue_is_kept(
    at: Preparation,
    root: Seq<u8>,
    our_uid: u32,
    world: World,
    steps: nat,
)
    requires
        world.valid(),
    ensures
        prepare_run(at, root, our_uid, world, steps).tree.queued == at.tree.queued,
    decreases steps,
{
    if steps > 0 {
        let next = prepare_step(at, root, our_uid, world);
        assert(next.tree.queued == at.tree.queued);
        lemma_queue_is_kept(next, root, our_uid, world, (steps - 1) as nat);
    }
}

/// A queue that is ready: its path is resolved, and every directory passes.
pub open spec fn prepared_at(path: Seq<u8>, tree: Tree, our_uid: u32) -> bool {
    &&& (tree.resolve)(path) == Some(path)
    &&& trimmed(path) == path
    &&& (tree.resolve)(tmp_of(path)) is Some
    &&& (tree.resolve)(new_of(path)) is Some
    &&& dir_fault((tree.lookup)(path), our_uid) is None
    &&& dir_fault((tree.lookup)(tmp_of(path)), our_uid) is None
    &&& dir_fault((tree.lookup)(new_of(path)), our_uid) is None
    &&& chain_fault(tree.chain(path), our_uid) is None
}

/// A preparation that succeeds leaves a queue that is ready, under the path that the
/// root resolves to, and with an empty `tmp/`.
pub proof fn law_preparation_makes_the_queue_ready(
    root: Seq<u8>,
    tree: Tree,
    our_uid: u32,
    world: World,
)
    requires
        tree.sound(),
        world.valid(),
        preparation(root, tree, our_uid, world).stage is Ready,
    ensures
        ({
            let done = preparation(root, tree, our_uid, world);
            &&& prepared_at(done.path, done.tree, our_uid)
            &&& (done.tree.resolve)(root) == Some(done.path)
            &&& done.tree.leftovers == Seq::<bool>::empty()
        }),
{
    let s0 = Preparation { stage: PrepareStageView::InspectRootPath, path: root, tree };
    let s1 = lemma_step_succeeded(s0, root, our_uid, world, 10);
    let s2 = lemma_step_succeeded(s1, root, our_uid, world, 9);
    let s3 = lemma_step_succeeded(s2, root, our_uid, world, 8);
    assert((s2.tree.resolve)(root) == Some(s3.path));
    assert((s3.tree.resolve)(s3.path) == Some(s3.path));
    let s4 = lemma_step_succeeded(s3, root, our_uid, world, 7);
    assert((s4.tree.resolve)(s4.path) == Some(s4.path));
    assert((s4.tree.resolve)(root) == Some(s4.path));
    let s5 = lemma_step_succeeded(s4, root, our_uid, world, 6);
    assert((s5.tree.resolve)(s5.path) == Some(s5.path));
    assert((s5.tree.resolve)(root) == Some(s5.path));
    let s6 = lemma_step_succeeded(s5, root, our_uid, world, 5);
    let s7 = lemma_step_succeeded(s6, root, our_uid, world, 4);
    let s8 = lemma_step_succeeded(s7, root, our_uid, world, 3);
    let s9 = lemma_step_succeeded(s8, root, our_uid, world, 2);
    let s10 = lemma_step_succeeded(s9, root, our_uid, world, 1);
    let path = s5.path;
    law_dir_passes_exactly_where_locked_down((s5.tree.lookup)(tmp_of(path)), our_uid);
    law_dir_passes_exactly_where_locked_down((s5.tree.lookup)(new_of(path)), our_uid);
    assert((s5.tree.resolve)(tmp_of(path)) is Some);
    assert((s5.tree.resolve)(new_of(path)) is Some);
    assert(s10.tree.chain(path) == s5.tree.chain(path));
    law_sweep_that_succeeds_leaves_nothing(
        s9.tree.leftovers,
        world.sweep,
        (world.show)(tmp_of(path)),
    );
    lemma_nothing_left(s9.tree.leftovers);
}

/// A step of a preparation that ends well succeeds.
proof fn lemma_step_succeeded(
    at: Preparation,
    root: Seq<u8>,
    our_uid: u32,
    world: World,
    steps: nat,
) -> (next: Preparation)
    requires
        steps > 0,
        !(at.stage is Failed),
        prepare_run(at, root, our_uid, world, steps).stage is Ready,
        at.tree.sound(),
        world.valid(),
    ensures
        next == prepare_step(at, root, our_uid, world),
        next.stage == at.stage.following(),
        !(next.stage is Failed),
        prepare_run(next, root, our_uid, world, (steps - 1) as nat) == prepare_run(
            at,
            root,
            our_uid,
            world,
            steps,
        ),
        next.tree.sound(),
{
    let next = prepare_step(at, root, our_uid, world);
    if next.stage is Failed {
        lemma_failed_stays(next, root, our_uid, world, (steps - 1) as nat);
    }
    assert(next.tree.sound());
    next
}

/// Preparing a queue that is ready succeeds where no operation fails and what lies in
/// `tmp/` can be removed: the path stays, the queued files stay, and `tmp/` is empty.
pub proof fn law_ready_queue_is_prepared_again(
    path: Seq<u8>,
    tree: Tree,
    our_uid: u32,
    world: World,
)
    requires
        prepared_at(path, tree, our_uid),
        world.calm(),
        forall|i: int| 0 <= i < tree.leftovers.len() ==> #[trigger] tree.leftovers[i],
    ensures
        ({
            let end = preparation(path, tree, our_uid, world);
            &&& end.stage is Ready
            &&& end.path == path
            &&& end.tree == (Tree { leftovers: Seq::empty(), ..tree })
        }),
{
    law_dir_passes_exactly_where_locked_down((tree.lookup)(path), our_uid);
    let s0 = Preparation { stage: PrepareStageView::InspectRootPath, path, tree };
    let s1 = prepare_step(s0, path, our_uid, world);
    assert(s1 == Preparation { stage: PrepareStageView::CreateRoot, ..s0 });
    let s2 = prepare_step(s1, path, our_uid, world);
    assert(s2 == Preparation { stage: PrepareStageView::Canonicalize, ..s0 });
    assert((world.faults)(PrepareStageView::Canonicalize) is None);
    let s3 = prepare_step(s2, path, our_uid, world);
    assert(s3 == Preparation { stage: PrepareStageView::CreateTmp, ..s0 });
    let s4 = prepare_step(s3, path, our_uid, world);
    let s5 = prepare_step(s4, path, our_uid, world);
    let s6 = prepare_step(s5, path, our_uid, world);
    let s7 = prepare_step(s6, path, our_uid, world);
    let s8 = prepare_step(s7, path, our_uid, world);
    let s9 = prepare_step(s8, path, our_uid, world);
    assert(s9 == Preparation { stage: PrepareStageView::SweepTmp, ..s0 });
    law_sweep_tries_every_entry(tree.leftovers, world.sweep, (world.show)(tmp_of(path)));
    lemma_nothing_left(tree.leftovers);
    let s10 = prepare_step(s9, path, our_uid, world);
    reveal_with_fuel(prepare_run, 11);
    assert(preparation(path, tree, our_uid, world) == s10);
}

/// Nothing is left of entries that can all be removed.
proof fn lemma_nothing_left(entries: Seq<bool>)
    requires
        forall|i: int| 0 <= i < entries.len() ==> #[trigger] entries[i],
    ensures
        left(entries, entries.len()) == Seq::<bool>::empty(),
{
    let kept = |removable: bool| !removable;
    let all = entries.take(entries.len() as int);
    assert(all == entries);
    if all.filter(kept).len() > 0 {
        all.lemma_filter_pred(kept, 0);
        all.lemma_filter_contains_rev(kept, all.filter(kept)[0]);
    }
    assert(all.filter(kept) + entries.skip(entries.len() as int) == Seq::<bool>::empty());
}

/// Preparing a queue again, with the path that the first preparation gave, succeeds
/// where its directories have not changed since: it gives the same path, and what is
/// queued by then stays as it is; only `tmp/` is swept.
pub proof fn law_preparation_is_repeatable(
    root: Seq<u8>,
    tree: Tree,
    our_uid: u32,
    world: World,
    later: Tree,
    later_world: World,
)
    requires
        tree.sound(),
        world.valid(),
        preparation(root, tree, our_uid, world).stage is Ready,
        later.lookup == preparation(root, tree, our_uid, world).tree.lookup,
        later.resolve == preparation(root, tree, our_uid, world).tree.resolve,
        later_world.calm(),
        forall|i: int| 0 <= i < later.leftovers.len() ==> #[trigger] later.leftovers[i],
    ensures
        ({
            let path = preparation(root, tree, our_uid, world).path;
            let end = preparation(path, later, our_uid, later_world);
            &&& end.stage is Ready
            &&& end.path == path
            &&& end.tree.queued == later.queued
            &&& end.tree == (Tree { leftovers: Seq::empty(), ..later })
        }),
{
    let done = preparation(root, tree, our_uid, world);
    law_preparation_makes_the_queue_ready(root, tree, our_uid, world);
    assert(later.chain(done.path) == done.tree.chain(done.path));
    law_ready_queue_is_prepared_again(done.path, later, our_uid, later_world);
}

} // verus!
