//! Sets of names, kept in the order of a dictionary.
use vstd::prelude::*;

use crate::order;
use crate::strings;

verus! {

/// The names stand in the order of a dictionary, each of them once.
pub open spec fn increasing(names: Seq<Seq<char>>) -> bool {
    forall|i: int, j: int|
        0 <= i < j < names.len() ==> order::at_or_before(#[trigger] names[i], #[trigger] names[j])
            && names[i] != names[j]
}

/// A set of names.
#[derive(Debug, PartialEq)]
pub struct NameSet {
    pub names: Vec<String>,
}

impl View for NameSet {
    type V = Set<Seq<char>>;

    open spec fn view(&self) -> Set<Seq<char>> {
        strings::texts(self.names@).to_set()
    }
}

impl NameSet {
    pub open spec fn wf(self) -> bool {
        increasing(strings::texts(self.names@))
    }

    pub fn new() -> (res: NameSet)
        ensures
            res@ == Set::<Seq<char>>::empty(),
            res.wf(),
    {
        let res = NameSet { names: Vec::new() };
        proof {
            assert(res@ =~= Set::<Seq<char>>::empty());
        }
        res
    }

    pub fn len(&self) -> (res: usize)
        requires
            self.wf(),
        ensures
            res == self@.len(),
    {
        proof {
            let names = strings::texts(self.names@);
            assert(names.no_duplicates()) by {
                assert forall|i: int, j: int|
                    0 <= i < names.len() && 0 <= j < names.len() && i != j implies names[i]
                    != names[j] by {
                    if i < j {
                        assert(names[i] != names[j]);
                    } else {
                        assert(names[j] != names[i]);
                    }
                }
            }
            names.unique_seq_to_set();
        }
        self.names.len()
    }

    pub fn contains(&self, name: &str) -> (res: bool)
        ensures
            res == self@.contains(name@),
    {
        let ghost all = strings::texts(self.names@);
        let mut i: usize = 0;
        while i < self.names.len()
            invariant
                i <= self.names@.len(),
                all == strings::texts(self.names@),
                forall|k: int| 0 <= k < i ==> #[trigger] all[k] != name@,
            decreases self.names@.len() - i,
        {
            if strings::text_eq(self.names[i].as_str(), name) {
                proof {
                    assert(all[i as int] == name@);
                    assert(all.contains(name@));
                }
                return true;
            }
            i += 1;
        }
        proof {
            assert(!all.contains(name@));
        }
        false
    }

    /// Adds a name at its place.
    pub fn insert(&mut self, name: String)
        requires
            old(self).wf(),
        ensures
            final(self).wf(),
            final(self)@ == old(self)@.insert(name@),
    {
        let ghost before = strings::texts(self.names@);
        let mut i: usize = 0;
        while i < self.names.len() && order::is_at_or_before(self.names[i].as_str(), name.as_str())
            invariant
                i <= self.names@.len(),
                self.names@ == old(self).names@,
                before == strings::texts(self.names@),
                increasing(before),
                forall|k: int|
                    0 <= k < i ==> order::at_or_before(#[trigger] before[k], name@) && before[k]
                        != name@,
            ensures
                i <= self.names@.len(),
                self.names@ == old(self).names@,
                forall|k: int|
                    0 <= k < i ==> order::at_or_before(#[trigger] before[k], name@) && before[k]
                        != name@,
                i < self.names@.len() ==> !order::at_or_before(before[i as int], name@),
            decreases self.names@.len() - i,
        {
            if strings::text_eq(self.names[i].as_str(), name.as_str()) {
                proof {
                    assert(before[i as int] == name@);
                    assert(before.to_set() =~= before.to_set().insert(name@));
                }
                return ;
            }
            i += 1;
        }
        self.names.insert(i, name);
        proof {
            let after = strings::texts(self.names@);
            assert(after =~= before.insert(i as int, name@));
            lemma_inserted(before, i as int, name@);
        }
    }

    /// The names of two sets.
    pub fn union(&self, other: &NameSet) -> (res: NameSet)
        requires
            self.wf(),
        ensures
            res.wf(),
            res@ == self@.union(other@),
    {
        let mut res = self.clone();
        let ghost more = strings::texts(other.names@);
        let mut i: usize = 0;
        proof {
            assert(more.take(0).to_set() =~= Set::<Seq<char>>::empty());
            assert(res@ =~= self@.union(more.take(0).to_set()));
        }
        while i < other.names.len()
            invariant
                i <= other.names@.len(),
                more == strings::texts(other.names@),
                res.wf(),
                res@ == self@.union(more.take(i as int).to_set()),
            decreases other.names@.len() - i,
        {
            res.insert(other.names[i].clone());
            proof {
                lemma_take_to_set(more, i as int);
                assert(res@ =~= self@.union(more.take(i + 1).to_set()));
            }
            i += 1;
        }
        proof {
            assert(more.take(i as int) =~= more);
        }
        res
    }
}

impl Clone for NameSet {
    fn clone(&self) -> (copy: Self)
        ensures
            copy@ == self@,
            copy.wf() == self.wf(),
    {
        NameSet { names: crate::text::clone_strings(&self.names) }
    }
}

/// The first elements and the next one.
pub proof fn lemma_take_to_set(s: Seq<Seq<char>>, i: int)
    requires
        0 <= i < s.len(),
    ensures
        s.take(i + 1).to_set() == s.take(i).to_set().insert(s[i]),
{
    let longer = s.take(i + 1);
    let shorter = s.take(i);
    let a = longer.to_set();
    let b = shorter.to_set().insert(s[i]);
    assert forall|x: Seq<char>| a.contains(x) implies b.contains(x) by {
        let k = choose|k: int| 0 <= k < longer.len() && longer[k] == x;
        if k < i {
            assert(shorter[k] == x);
        }
    }
    assert forall|x: Seq<char>| b.contains(x) implies a.contains(x) by {
        if x == s[i] {
            assert(longer[i] == x);
        } else {
            let k = choose|k: int| 0 <= k < shorter.len() && shorter[k] == x;
            assert(longer[k] == x);
        }
    }
    assert(a =~= b);
}

proof fn lemma_inserted(before: Seq<Seq<char>>, at: int, name: Seq<char>)
    requires
        increasing(before),
        0 <= at <= before.len(),
        forall|k: int|
            0 <= k < at ==> order::at_or_before(#[trigger] before[k], name) && before[k] != name,
        at < before.len() ==> !order::at_or_before(before[at], name),
    ensures
        increasing(before.insert(at, name)),
        before.insert(at, name).to_set() == before.to_set().insert(name),
{
    let after = before.insert(at, name);
    assert forall|i: int, j: int| 0 <= i < j < after.len() implies order::at_or_before(
        #[trigger] after[i],
        #[trigger] after[j],
    ) && after[i] != after[j] by {
        if j < at {
            assert(after[i] == before[i] && after[j] == before[j]);
        } else if j == at {
            assert(after[i] == before[i]);
        } else if i == at {
            let b = before[j - 1];
            assert(after[j] == b);
            order::lemma_order_total(before[at], name);
            if j - 1 > at {
                assert(order::at_or_before(before[at], b));
                order::lemma_order_transitive(name, before[at], b);
            }
        } else if i < at {
            assert(after[i] == before[i] && after[j] == before[j - 1]);
        } else {
            assert(after[i] == before[i - 1] && after[j] == before[j - 1]);
        }
    }
    let a = after.to_set();
    let b = before.to_set().insert(name);
    assert forall|x: Seq<char>| a.contains(x) implies b.contains(x) by {
        let k = choose|k: int| 0 <= k < after.len() && after[k] == x;
        if k < at {
            assert(before[k] == x);
        } else if k > at {
            assert(before[k - 1] == x);
        }
    }
    assert forall|x: Seq<char>| b.contains(x) implies a.contains(x) by {
        if x == name {
            assert(after[at] == x);
        } else {
            let k = choose|k: int| 0 <= k < before.len() && before[k] == x;
            if k < at {
                assert(after[k] == x);
            } else {
                assert(after[k + 1] == x);
            }
        }
    }
    assert(a =~= b);
}

} // verus!
