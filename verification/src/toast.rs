//! Short notices.
use vstd::prelude::*;

verus! {

/// What a notice is about.
#[derive(Debug, Clone, Copy, PartialEq, Eq, Structural)]
pub enum ToastKind {
    Error,
    Success,
    Info,
    Warning,
}

} // verus!
