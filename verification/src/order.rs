//! The order of texts by their characters, and sorting that keeps the order of
//! what is equal.
use vstd::prelude::*;

use crate::strings;

verus! {

/// `a` comes before `b` in a dictionary, or is the same.
pub open spec fn at_or_before(a: Seq<char>, b: Seq<char>) -> bool
    decreases a.len(),
{
    if a.len() == 0 {
        true
    } else if b.len() == 0 {
        false
    } else if a[0] != b[0] {
        a[0] < b[0]
    } else {
        at_or_before(a.skip(1), b.skip(1))
    }
}

pub proof fn lemma_order_total(a: Seq<char>, b: Seq<char>)
    ensures
        at_or_before(a, b) || at_or_before(b, a),
    decreases a.len(),
{
    if a.len() > 0 && b.len() > 0 && a[0] == b[0] {
        lemma_order_total(a.skip(1), b.skip(1));
    }
}

pub proof fn lemma_order_transitive(a: Seq<char>, b: Seq<char>, c: Seq<char>)
    requires
        at_or_before(a, b),
        at_or_before(b, c),
    ensures
        at_or_before(a, c),
    decreases a.len(),
{
    if a.len() > 0 && b.len() > 0 && c.len() > 0 && a[0] == b[0] && b[0] == c[0] {
        lemma_order_transitive(a.skip(1), b.skip(1), c.skip(1));
    }
}

/// Whether `a` comes before `b` in a dictionary, or is the same.
pub fn is_at_or_before(a: &str, b: &str) -> (res: bool)
    ensures
        res == at_or_before(a@, b@),
{
    let x = strings::chars_of(a);
    let y = strings::chars_of(b);
    let mut i: usize = 0;
    proof {
        assert(a@.skip(0) =~= a@);
        assert(b@.skip(0) =~= b@);
    }
    while i < x.len()
        invariant
            i <= x@.len(),
            i <= y@.len(),
            x@ == a@,
            y@ == b@,
            at_or_before(a@.skip(i as int), b@.skip(i as int)) == at_or_before(a@, b@),
        decreases x@.len() - i,
    {
        if i == y.len() {
            return false;
        }
        if x[i] != y[i] {
            return x[i] < y[i];
        }
        proof {
            assert(a@.skip(i as int).skip(1) =~= a@.skip(i + 1));
            assert(b@.skip(i as int).skip(1) =~= b@.skip(i + 1));
        }
        i += 1;
    }
    true
}

/// A text with the key by which it is sorted.
pub struct Keyed {
    pub key: Seq<char>,
    pub value: Seq<char>,
}

/// The number of elements at the front whose keys come at or before `key`, in
/// a sorted list.
pub open spec fn place_of(list: Seq<Keyed>, key: Seq<char>) -> int
    decreases list.len(),
{
    if list.len() == 0 {
        0
    } else if at_or_before(list.last().key, key) {
        list.len() as int
    } else {
        place_of(list.drop_last(), key)
    }
}

/// The list sorted by key; elements with the same key stay in their order.
pub open spec fn sorted(list: Seq<Keyed>) -> Seq<Keyed>
    decreases list.len(),
{
    if list.len() == 0 {
        Seq::empty()
    } else {
        let before = sorted(list.drop_last());
        before.insert(place_of(before, list.last().key), list.last())
    }
}

/// Each key comes at or before the keys behind it.
pub open spec fn is_sorted(list: Seq<Keyed>) -> bool {
    forall|i: int, j: int|
        0 <= i <= j < list.len() ==> at_or_before(#[trigger] list[i].key, #[trigger] list[j].key)
}

pub proof fn lemma_place_bounds(list: Seq<Keyed>, key: Seq<char>)
    ensures
        0 <= place_of(list, key) <= list.len(),
        forall|i: int|
            place_of(list, key) <= i < list.len() ==> !at_or_before(#[trigger] list[i].key, key),
        place_of(list, key) > 0 ==> at_or_before(list[place_of(list, key) - 1].key, key),
    decreases list.len(),
{
    if list.len() > 0 && !at_or_before(list.last().key, key) {
        lemma_place_bounds(list.drop_last(), key);
        assert forall|i: int| place_of(list, key) <= i < list.len() implies !at_or_before(
            #[trigger] list[i].key,
            key,
        ) by {
            if i < list.len() - 1 {
                assert(list.drop_last()[i] == list[i]);
            }
        }
    }
}

/// The sorted list is sorted, has the length of the list and holds the same
/// elements as often.
pub proof fn law_sorted_is_a_sorted_rearrangement(list: Seq<Keyed>)
    ensures
        is_sorted(sorted(list)),
        sorted(list).len() == list.len(),
        sorted(list).to_multiset() == list.to_multiset(),
    decreases list.len(),
{
    broadcast use vstd::seq_lib::group_to_multiset_ensures;

    if list.len() > 0 {
        let init = list.drop_last();
        law_sorted_is_a_sorted_rearrangement(init);
        let before = sorted(init);
        let x = list.last();
        let at = place_of(before, x.key);
        lemma_place_bounds(before, x.key);
        let after = before.insert(at, x);
        assert forall|i: int, j: int| 0 <= i <= j < after.len() implies at_or_before(
            #[trigger] after[i].key,
            #[trigger] after[j].key,
        ) by {
            if i < at && j == at {
                assert(before[i] == after[i]);
                lemma_order_transitive(before[i].key, before[at - 1].key, x.key);
            } else if i == at && j > at {
                assert(before[j - 1] == after[j]);
                lemma_order_total(before[j - 1].key, x.key);
            } else if i == at && j == at {
                lemma_order_total(x.key, x.key);
            } else if i < at && j > at {
                assert(before[i] == after[i] && before[j - 1] == after[j]);
            } else if i > at {
                assert(before[i - 1] == after[i] && before[j - 1] == after[j]);
            } else {
                assert(before[i] == after[i] && before[j] == after[j]);
            }
        }
        assert(init.push(x) =~= list);
        vstd::seq_lib::to_multiset_insert(before, at, x);
        vstd::seq_lib::to_multiset_build(init, x);
    } else {
        assert(sorted(list) =~= list);
    }
}

/// The texts of two lists, key and value by position.
pub open spec fn keyed(keys: Seq<String>, values: Seq<String>) -> Seq<Keyed> {
    Seq::new(keys.len(), |i: int| Keyed { key: keys[i]@, value: values[i]@ })
}

/// The values of a keyed list.
pub open spec fn values_of(list: Seq<Keyed>) -> Seq<Seq<char>> {
    Seq::new(list.len(), |i: int| list[i].value)
}

/// The values sorted by the keys at their positions; values with the same key
/// stay in their order.
pub fn sort_by_keys(keys: &Vec<String>, values: &Vec<String>) -> (res: Vec<String>)
    requires
        keys@.len() == values@.len(),
    ensures
        strings::texts(res@) == values_of(sorted(keyed(keys@, values@))),
{
    let mut out_keys: Vec<String> = Vec::new();
    let mut out: Vec<String> = Vec::new();
    let mut i: usize = 0;
    let ghost all = keyed(keys@, values@);
    proof {
        assert(keyed(out_keys@, out@) =~= sorted(all.take(0)));
    }
    while i < keys.len()
        invariant
            i <= keys@.len(),
            keys@.len() == values@.len(),
            all == keyed(keys@, values@),
            out@.len() == i,
            out_keys@.len() == i,
            keyed(out_keys@, out@) == sorted(all.take(i as int)),
        decreases keys@.len() - i,
    {
        let ghost before = keyed(out_keys@, out@);
        let ghost key = keys@[i as int]@;
        let mut at: usize = out.len();
        proof {
            assert(before.take(at as int) =~= before);
        }
        while at > 0 && !is_at_or_before(out_keys[at - 1].as_str(), keys[i].as_str())
            invariant
                at <= out@.len(),
                i < keys@.len(),
                out@.len() == out_keys@.len(),
                before == keyed(out_keys@, out@),
                key == keys@[i as int]@,
                place_of(before.take(at as int), key) == place_of(before, key),
            ensures
                at <= out@.len(),
                place_of(before, key) == at,
            decreases at,
        {
            proof {
                assert(before.take(at as int).drop_last() =~= before.take(at - 1));
            }
            at -= 1;
        }
        out_keys.insert(at, keys[i].clone());
        out.insert(at, values[i].clone());
        proof {
            let x = Keyed { key, value: values@[i as int]@ };
            assert(keyed(out_keys@, out@) =~= before.insert(at as int, x));
            assert(all.take(i + 1).drop_last() =~= all.take(i as int));
            assert(all.take(i + 1).last() == x);
        }
        i += 1;
    }
    proof {
        assert(all.take(i as int) =~= all);
        assert(strings::texts(out@) =~= values_of(keyed(out_keys@, out@)));
    }
    out
}

/// Texts stand in the order of a dictionary: a text stands before what goes on
/// after it, and where two texts part, the smaller character comes first.
pub proof fn law_order_of_a_dictionary(
    start: Seq<char>,
    x: char,
    y: char,
    a: Seq<char>,
    b: Seq<char>,
)
    requires
        x < y,
    ensures
        at_or_before(start, start + a),
        a.len() > 0 ==> !at_or_before(start + a, start),
        at_or_before(start + seq![x] + a, start + seq![y] + b),
        !at_or_before(start + seq![y] + b, start + seq![x] + a),
    decreases start.len(),
{
    let p = start + seq![x] + a;
    let q = start + seq![y] + b;
    if start.len() > 0 {
        let rest = start.skip(1);
        law_order_of_a_dictionary(rest, x, y, a, b);
        assert(p.skip(1) =~= rest + seq![x] + a);
        assert(q.skip(1) =~= rest + seq![y] + b);
        assert((start + a).skip(1) =~= rest + a);
    }
}

} // verus!
