//! How the queue's directories are prepared at startup. A stage names the one
//! step that comes next; a step that fails ends the preparation.

use vstd::prelude::*;

use crate::fs_security::{trim_path, trimmed, FileKind, SPOOL_DIR_MODE};
use crate::text::{error_of, reports};

verus! {

/// The step that comes next.
pub enum PrepareStage {
    /// Look up what the path of [`lookup_path`] names, without following a final
    /// symbolic link; [`check_root_kind`] is on the result.
    InspectRootPath,
    /// Create the root, if it is missing.
    CreateRoot,
    /// Resolve the root's path.
    Canonicalize,
    /// Create `tmp/`, if it is missing.
    CreateTmp,
    /// Create `new/`, if it is missing.
    CreateNew,
    /// Verify the root.
    VerifyRoot,
    /// Verify `tmp/`.
    VerifyTmp,
    /// Verify `new/`.
    VerifyNew,
    /// Verify the ancestors of the root.
    VerifyAncestors,
    /// Remove what an earlier run left in `tmp/`, as a [`Sweep`](crate::sweep::Sweep)
    /// goes.
    SweepTmp,
    /// Nothing: the queue is ready.
    Ready,
    /// Nothing: the preparation has failed with this text.
    Failed(String),
}

/// The model of a [`PrepareStage`].
pub enum PrepareStageView {
    InspectRootPath,
    CreateRoot,
    Canonicalize,
    CreateTmp,
    CreateNew,
    VerifyRoot,
    VerifyTmp,
    VerifyNew,
    VerifyAncestors,
    SweepTmp,
    Ready,
    Failed(Seq<char>),
}

impl View for PrepareStage {
    type V = PrepareStageView;

    open spec fn view(&self) -> PrepareStageView {
        match *self {
            PrepareStage::InspectRootPath => PrepareStageView::InspectRootPath,
            PrepareStage::CreateRoot => PrepareStageView::CreateRoot,
            PrepareStage::Canonicalize => PrepareStageView::Canonicalize,
            PrepareStage::CreateTmp => PrepareStageView::CreateTmp,
            PrepareStage::CreateNew => PrepareStageView::CreateNew,
            PrepareStage::VerifyRoot => PrepareStageView::VerifyRoot,
            PrepareStage::VerifyTmp => PrepareStageView::VerifyTmp,
            PrepareStage::VerifyNew => PrepareStageView::VerifyNew,
            PrepareStage::VerifyAncestors => PrepareStageView::VerifyAncestors,
            PrepareStage::SweepTmp => PrepareStageView::SweepTmp,
            PrepareStage::Ready => PrepareStageView::Ready,
            PrepareStage::Failed(text) => PrepareStageView::Failed(text@),
        }
    }
}

impl PrepareStageView {
    /// The stage after this one, where its step succeeds.
    pub open spec fn following(self) -> PrepareStageView {
        match self {
            PrepareStageView::InspectRootPath => PrepareStageView::CreateRoot,
            PrepareStageView::CreateRoot => PrepareStageView::Canonicalize,
            PrepareStageView::Canonicalize => PrepareStageView::CreateTmp,
            PrepareStageView::CreateTmp => PrepareStageView::CreateNew,
            PrepareStageView::CreateNew => PrepareStageView::VerifyRoot,
            PrepareStageView::VerifyRoot => PrepareStageView::VerifyTmp,
            PrepareStageView::VerifyTmp => PrepareStageView::VerifyNew,
            PrepareStageView::VerifyNew => PrepareStageView::VerifyAncestors,
            PrepareStageView::VerifyAncestors => PrepareStageView::SweepTmp,
            PrepareStageView::SweepTmp => PrepareStageView::Ready,
            PrepareStageView::Ready => PrepareStageView::Ready,
            PrepareStageView::Failed(text) => PrepareStageView::Failed(text),
        }
    }

    /// The stage after this one, where its step gives this error or none. The two
    /// last stages have no step.
    pub open spec fn after(self, error: Option<Seq<char>>) -> PrepareStageView {
        match (self, error) {
            (PrepareStageView::Ready, _) => self,
            (PrepareStageView::Failed(_), _) => self,
            (_, Some(text)) => PrepareStageView::Failed(text),
            (_, None) => self.following(),
        }
    }
}

/// Begins the preparation.
pub fn begin() -> (r: PrepareStage)
    ensures
        r@ == PrepareStageView::InspectRootPath,
{
    PrepareStage::InspectRootPath
}

impl PrepareStage {
    /// The stage after this one, given how its step ended.
    pub fn next(self, ended: Result<(), String>) -> (r: PrepareStage)
        ensures
            r@ == self@.after(error_of(ended)),
    {
        match self {
            PrepareStage::Ready => return PrepareStage::Ready,
            PrepareStage::Failed(text) => return PrepareStage::Failed(text),
            _ => {},
        }
        match ended {
            Err(text) => return PrepareStage::Failed(text),
            Ok(()) => {},
        }
        match self {
            PrepareStage::InspectRootPath => PrepareStage::CreateRoot,
            PrepareStage::CreateRoot => PrepareStage::Canonicalize,
            PrepareStage::Canonicalize => PrepareStage::CreateTmp,
            PrepareStage::CreateTmp => PrepareStage::CreateNew,
            PrepareStage::CreateNew => PrepareStage::VerifyRoot,
            PrepareStage::VerifyRoot => PrepareStage::VerifyTmp,
            PrepareStage::VerifyTmp => PrepareStage::VerifyNew,
            PrepareStage::VerifyNew => PrepareStage::VerifyAncestors,
            PrepareStage::VerifyAncestors => PrepareStage::SweepTmp,
            PrepareStage::SweepTmp => PrepareStage::Ready,
            PrepareStage::Ready => PrepareStage::Ready,
            PrepareStage::Failed(text) => PrepareStage::Failed(text),
        }
    }
}

/// Why the root is refused for what its path names. A lookup that gave nothing is
/// left to the steps that follow, whose errors are clearer.
pub open spec fn root_kind_fault(root: Seq<char>, found: Option<FileKind>) -> Option<Seq<char>> {
    if found == Some(FileKind::Symlink) {
        Some(
            "SPOOL_DIR "@ + root
                + " is a symlink; spool components must be real directories (no symlinks)"@,
        )
    } else {
        None
    }
}

/// Refuses a root that is a symbolic link, before anything is done through it.
pub fn check_root_kind(root: &str, found: Option<FileKind>) -> (r: Result<(), String>)
    ensures
        reports(r, root_kind_fault(root@, found)),
{
    match found {
        Some(FileKind::Symlink) => {
            let mut text = "SPOOL_DIR ".to_owned();
            text.append(root);
            text.append(" is a symlink; spool components must be real directories (no symlinks)");
            Err(text)
        },
        _ => Ok(()),
    }
}

/// The text of a failure to resolve the root's path.
pub open spec fn unresolved(root: Seq<char>, error: Seq<char>) -> Seq<char> {
    "SPOOL_DIR "@ + root + " cannot be canonicalized: "@ + error
}

/// The text of a failure to resolve the root's path.
pub fn canonicalize_error(root: &str, error: &str) -> (r: String)
    ensures
        r@ == unresolved(root@, error@),
{
    let mut text = "SPOOL_DIR ".to_owned();
    text.append(root);
    text.append(" cannot be canonicalized: ");
    text.append(error);
    text
}

/// The path under which the root is looked up: the root's own, without the separators
/// and the `.` components that it ends with. With them the lookup would follow a
/// symbolic link that the root is.
pub fn lookup_path(root: &Vec<u8>) -> (r: Vec<u8>)
    ensures
        r@ == trimmed(root@),
{
    trim_path(root)
}

/// The mode that a spool directory is created with, if it is to be created at all.
pub open spec fn new_dir_mode(already_existed: bool) -> Option<u32> {
    if already_existed {
        None
    } else {
        Some(SPOOL_DIR_MODE)
    }
}

/// The mode that a spool directory is to be created with: the owner's alone. One
/// that is there already is left as it is, and verified later.
pub fn create_dir_mode(already_existed: bool) -> (r: Option<u32>)
    ensures
        r == new_dir_mode(already_existed),
{
    if already_existed {
        None
    } else {
        Some(SPOOL_DIR_MODE)
    }
}

/// The preparation from a stage on, where the step of each stage gives this error
/// or none.
pub open spec fn prepared(
    stage: PrepareStageView,
    errors: spec_fn(PrepareStageView) -> Option<Seq<char>>,
    steps: nat,
) -> PrepareStageView
    decreases steps,
{
    if steps == 0 {
        stage
    } else {
        prepared(stage.after(errors(stage)), errors, (steps - 1) as nat)
    }
}

/// The queue is ready exactly where none of the ten steps fails.
pub proof fn law_ready_exactly_where_every_step_succeeds(
    errors: spec_fn(PrepareStageView) -> Option<Seq<char>>,
)
    ensures
        prepared(PrepareStageView::InspectRootPath, errors, 10) is Ready <==> {
            &&& errors(PrepareStageView::InspectRootPath) is None
            &&& errors(PrepareStageView::CreateRoot) is None
            &&& errors(PrepareStageView::Canonicalize) is None
            &&& errors(PrepareStageView::CreateTmp) is None
            &&& errors(PrepareStageView::CreateNew) is None
            &&& errors(PrepareStageView::VerifyRoot) is None
            &&& errors(PrepareStageView::VerifyTmp) is None
            &&& errors(PrepareStageView::VerifyNew) is None
            &&& errors(PrepareStageView::VerifyAncestors) is None
            &&& errors(PrepareStageView::SweepTmp) is None
        },
        prepared(PrepareStageView::InspectRootPath, errors, 10) is Ready || prepared(
            PrepareStageView::InspectRootPath,
            errors,
            10,
        ) is Failed,
{
    reveal_with_fuel(prepared, 11);
}

} // verus!
