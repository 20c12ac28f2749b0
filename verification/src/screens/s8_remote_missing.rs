//! The screen that asks what to do where the remote vault is gone.
use vstd::prelude::*;

verus! {

/// The screen has no state of its own.
#[derive(Debug, Clone, Copy, PartialEq, Eq, Structural)]
pub struct State;

/// What may be done.
#[derive(Debug, Clone, Copy, PartialEq, Eq, Structural)]
pub enum Action {
    Reupload,
    ClearState,
}

impl Action {
    pub open spec fn name_of(self) -> Seq<char> {
        match self {
            Action::Reupload => "reupload"@,
            Action::ClearState => "clear_state"@,
        }
    }

    /// The name by which the daemon knows the action.
    pub fn name(self) -> (res: String)
        ensures
            res@ == self.name_of(),
    {
        match self {
            Action::Reupload => "reupload".to_string(),
            Action::ClearState => "clear_state".to_string(),
        }
    }
}

impl State {
    pub fn new() -> (res: Self)
        ensures
            res == State,
    {
        State
    }
}

/// The two actions are told apart by their names.
pub proof fn law_actions_are_told_apart()
    ensures
        Action::Reupload.name_of() == "reupload"@,
        Action::ClearState.name_of() == "clear_state"@,
        Action::Reupload.name_of() != Action::ClearState.name_of(),
{
    reveal_strlit("reupload");
    reveal_strlit("clear_state");
    assert("reupload"@.len() != "clear_state"@.len());
}

} // verus!
