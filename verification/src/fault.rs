//! Errors that have a kind beside their text.

use vstd::prelude::*;

verus! {

/// What kind of error it is.
#[derive(Clone, Copy, Debug, PartialEq, Eq, Structural)]
pub enum Kind {
    /// An argument is refused.
    InvalidInput,
    /// The operating system gave this error number.
    Os(i32),
    /// Anything else.
    Other,
}

/// An error.
#[derive(Debug, PartialEq, Eq)]
pub struct Fault {
    pub kind: Kind,
    pub text: String,
}

/// The model of a [`Fault`].
pub struct FaultView {
    pub kind: Kind,
    pub text: Seq<char>,
}

impl View for Fault {
    type V = FaultView;

    open spec fn view(&self) -> FaultView {
        FaultView { kind: self.kind, text: self.text@ }
    }
}

/// The error that an operation gave, if any.
pub open spec fn fault_of(ended: Result<(), Fault>) -> Option<FaultView> {
    match ended {
        Ok(()) => None,
        Err(fault) => Some(fault@),
    }
}

/// Whether a `Result` fails exactly with `fault`: with its kind and text where there
/// is one, not at all where there is none.
pub open spec fn fails_with<T>(r: Result<T, Fault>, fault: Option<FaultView>) -> bool {
    match r {
        Ok(_) => fault is None,
        Err(f) => fault == Some(f@),
    }
}

} // verus!
