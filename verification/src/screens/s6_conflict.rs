//! The screen that asks which side of a conflict is kept.
use vstd::prelude::*;

use crate::model;
use crate::strings;

verus! {

#[derive(Debug)]
pub struct State {
    pub local_hosts: Vec<String>,
    pub remote_hosts: Vec<String>,
    pub only_local: Vec<String>,
    pub only_remote: Vec<String>,
    pub both: Vec<String>,
}

#[verifier::ext_equal]
pub struct StateModel {
    pub local_hosts: Seq<Seq<char>>,
    pub remote_hosts: Seq<Seq<char>>,
    pub only_local: Seq<Seq<char>>,
    pub only_remote: Seq<Seq<char>>,
    pub both: Seq<Seq<char>>,
}

impl View for State {
    type V = StateModel;

    open spec fn view(&self) -> StateModel {
        StateModel {
            local_hosts: strings::texts(self.local_hosts@),
            remote_hosts: strings::texts(self.remote_hosts@),
            only_local: strings::texts(self.only_local@),
            only_remote: strings::texts(self.only_remote@),
            both: strings::texts(self.both@),
        }
    }
}

impl StateModel {
    /// The two sides and how they differ.
    pub open spec fn compared(local: Seq<Seq<char>>, remote: Seq<Seq<char>>) -> StateModel {
        StateModel {
            local_hosts: local,
            remote_hosts: remote,
            only_local: local.filter(|n: Seq<char>| !remote.contains(n)),
            only_remote: remote.filter(|n: Seq<char>| !local.contains(n)),
            both: local.filter(|n: Seq<char>| remote.contains(n)),
        }
    }
}

/// Whether a list holds a text.
pub fn holds(list: &Vec<String>, name: &str) -> (res: bool)
    ensures
        res == strings::texts(list@).contains(name@),
{
    let mut i: usize = 0;
    while i < list.len()
        invariant
            i <= list@.len(),
            forall|k: int| 0 <= k < i ==> strings::texts(list@)[k] != name@,
        decreases list@.len() - i,
    {
        if strings::text_eq(list[i].as_str(), name) {
            proof {
                assert(strings::texts(list@)[i as int] == name@);
            }
            return true;
        }
        i += 1;
    }
    false
}

/// The texts of one list that another one holds, or does not hold.
fn pick(list: &Vec<String>, other: &Vec<String>, held: bool) -> (res: Vec<String>)
    ensures
        strings::texts(res@) == strings::texts(list@).filter(
            |n: Seq<char>| strings::texts(other@).contains(n) == held,
        ),
{
    let ghost p = |n: Seq<char>| strings::texts(other@).contains(n) == held;
    let ghost all = strings::texts(list@);
    let mut out: Vec<String> = Vec::new();
    let mut i: usize = 0;
    proof {
        reveal(Seq::filter);
        assert(strings::texts(out@) =~= all.take(0).filter(p));
    }
    while i < list.len()
        invariant
            i <= list@.len(),
            all == strings::texts(list@),
            p == (|n: Seq<char>| strings::texts(other@).contains(n) == held),
            strings::texts(out@) == all.take(i as int).filter(p),
        decreases list@.len() - i,
    {
        proof {
            model::lemma_filter_take(all, i as int, p);
        }
        let ghost before = out@;
        if holds(other, list[i].as_str()) == held {
            out.push(list[i].clone());
            proof {
                assert(strings::texts(out@) =~= strings::texts(before).push(all[i as int]));
            }
        }
        i += 1;
    }
    proof {
        assert(all.take(i as int) =~= all);
    }
    out
}

impl State {
    /// The two sides and how they differ.
    pub fn new(local_hosts: Vec<String>, remote_hosts: Vec<String>) -> (res: Self)
        ensures
            res@ == StateModel::compared(
                strings::texts(local_hosts@),
                strings::texts(remote_hosts@),
            ),
    {
        let only_local = pick(&local_hosts, &remote_hosts, false);
        let only_remote = pick(&remote_hosts, &local_hosts, false);
        let both = pick(&local_hosts, &remote_hosts, true);
        proof {
            let local = strings::texts(local_hosts@);
            let remote = strings::texts(remote_hosts@);
            assert((|n: Seq<char>| remote.contains(n) == false) =~= (|n: Seq<char>|
                !remote.contains(n)));
            assert((|n: Seq<char>| local.contains(n) == false) =~= (|n: Seq<char>|
                !local.contains(n)));
            assert((|n: Seq<char>| remote.contains(n) == true) =~= (|n: Seq<char>|
                remote.contains(n)));
        }
        State { local_hosts, remote_hosts, only_local, only_remote, both }
    }
}

/// Each local host stands in exactly one of the two groups of the local side,
/// and no name stands both in the group of one side and in that of the other.
pub proof fn law_conflict_groups(local: Seq<Seq<char>>, remote: Seq<Seq<char>>, name: Seq<char>)
    ensures
        ({
            let s = StateModel::compared(local, remote);
            &&& local.contains(name) ==> (s.only_local.contains(name) != s.both.contains(name))
            &&& remote.contains(name) ==> (s.only_remote.contains(name) != s.both.contains(name))
            &&& !(s.only_local.contains(name) && s.only_remote.contains(name))
        }),
{
    let not_remote = |n: Seq<char>| !remote.contains(n);
    let not_local = |n: Seq<char>| !local.contains(n);
    let in_remote = |n: Seq<char>| remote.contains(n);
    model::lemma_filter_members(local, not_remote);
    model::lemma_filter_members(remote, not_local);
    model::lemma_filter_members(local, in_remote);
    let s = StateModel::compared(local, remote);
    if local.contains(name) {
        let k = choose|k: int| 0 <= k < local.len() && local[k] == name;
        assert(local[k] == name);
    }
    if remote.contains(name) {
        let k = choose|k: int| 0 <= k < remote.len() && remote[k] == name;
        assert(remote[k] == name);
    }
    if s.only_local.contains(name) {
        let k = choose|k: int| 0 <= k < s.only_local.len() && s.only_local[k] == name;
        assert(not_remote(s.only_local[k]) && local.contains(s.only_local[k]));
    }
    if s.only_remote.contains(name) {
        let k = choose|k: int| 0 <= k < s.only_remote.len() && s.only_remote[k] == name;
        assert(not_local(s.only_remote[k]));
    }
    if s.both.contains(name) {
        let k = choose|k: int| 0 <= k < s.both.len() && s.both[k] == name;
        assert(in_remote(s.both[k]) && local.contains(s.both[k]));
    }
}

} // verus!
