//! The screen shown while there is no connection to the daemon.
use vstd::prelude::*;

use crate::text::Text;

verus! {

#[derive(Debug)]
pub struct State {
    pub error_message: Text,
}

impl State {
    pub fn new(error: Text) -> (res: Self)
        ensures
            res.error_message@ == error@,
    {
        State { error_message: error }
    }
}

} // verus!
