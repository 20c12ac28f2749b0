//! The screen in which a vault is created.
use vstd::prelude::*;

use crate::strings;

verus! {

#[derive(Debug)]
pub struct State {
    pub passphrase: String,
    pub confirm_passphrase: String,
    pub risk_confirmed: bool,
    pub error: Option<String>,
    pub creating: bool,
}

#[verifier::ext_equal]
pub struct StateModel {
    pub passphrase: Seq<char>,
    pub confirm_passphrase: Seq<char>,
    pub risk_confirmed: bool,
    pub error: Option<Seq<char>>,
    pub creating: bool,
}

impl View for State {
    type V = StateModel;

    open spec fn view(&self) -> StateModel {
        StateModel {
            passphrase: self.passphrase@,
            confirm_passphrase: self.confirm_passphrase@,
            risk_confirmed: self.risk_confirmed,
            error: strings::opt_text(self.error),
            creating: self.creating,
        }
    }
}

impl StateModel {
    pub open spec fn blank() -> StateModel {
        StateModel {
            passphrase: Seq::empty(),
            confirm_passphrase: Seq::empty(),
            risk_confirmed: false,
            error: None,
            creating: false,
        }
    }

    /// The second passphrase was typed and is another one.
    pub open spec fn mismatch(self) -> bool {
        self.confirm_passphrase.len() > 0 && self.passphrase != self.confirm_passphrase
    }

    /// The vault can be created: the passphrase was typed twice, the risk
    /// accepted, and nothing is under way.
    pub open spec fn can_create(self) -> bool {
        &&& self.passphrase.len() > 0
        &&& self.passphrase == self.confirm_passphrase
        &&& self.risk_confirmed
        &&& !self.creating
    }
}

/// What the screen shows of its state.
#[derive(Debug, Clone, Copy, PartialEq, Eq, Structural)]
pub struct Shown {
    pub mismatch: bool,
    pub can_create: bool,
    pub creating: bool,
}

impl State {
    pub fn new() -> (res: Self)
        ensures
            res@ == StateModel::blank(),
    {
        let res = State {
            passphrase: String::new(),
            confirm_passphrase: String::new(),
            risk_confirmed: false,
            error: None,
            creating: false,
        };
        proof {
            assert(res@.passphrase =~= Seq::<char>::empty());
            assert(res@.confirm_passphrase =~= Seq::<char>::empty());
        }
        res
    }

    pub fn shown(&self) -> (res: Shown)
        ensures
            res.mismatch == self@.mismatch(),
            res.can_create == self@.can_create(),
            res.creating == self.creating,
    {
        let same = strings::text_eq(self.passphrase.as_str(), self.confirm_passphrase.as_str());
        Shown {
            mismatch: !self.confirm_passphrase.as_str().is_empty() && !same,
            can_create: !self.passphrase.as_str().is_empty() && same && self.risk_confirmed
                && !self.creating,
            creating: self.creating,
        }
    }
}

/// A vault is never created from two different passphrases.
pub proof fn law_no_vault_from_a_mismatch(s: StateModel)
    ensures
        s.mismatch() ==> !s.can_create(),
{
}

} // verus!
