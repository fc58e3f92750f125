//! Tables of live handles: ordered maps from handle numbers.
use std::collections::BTreeMap;
use vstd::prelude::*;
use vstd::std_specs::cmp::OrdSpec;
use vstd::std_specs::iter::IteratorSpec;

verus! {

/// The handles of a table, in ascending order.
pub fn keys_of<V>(m: &BTreeMap<u32, V>) -> (r: Vec<u32>)
    ensures
        r@.to_set() == m@.dom(),
        r@.len() == m@.dom().len(),
        forall|i: int, j: int| 0 <= i < j < r@.len() ==> r@[i] < r@[j],
        forall|i: int| 0 <= i < r@.len() ==> m@.contains_key(#[trigger] r@[i]),
        forall|k: u32| #[trigger] m@.contains_key(k) ==> r@.contains(k),
{
    broadcast use vstd::std_specs::btree::group_btree_axioms;

    let mut r: Vec<u32> = Vec::new();
    let entries = m.iter();
    let ghost all = entries.remaining();
    let ghost ks = all.map_values(|kv: (&u32, &V)| *kv.0);
    assert(vstd::std_specs::btree::increasing_seq(ks));
    for kv in it: entries
        invariant
            it.seq() == all,
            ks == all.map_values(|kv: (&u32, &V)| *kv.0),
            r@ == ks.take(it.index()),
    {
        assert(*kv.0 == ks[it.index()]);
        r.push(*kv.0);
    }
    assert(r@ == ks);
    proof {
        assert(vstd::laws_cmp::obeys_cmp::<u32>());
        assert forall|i: int, j: int| 0 <= i < j < r@.len() implies r@[i] < r@[j] by {
            assert(ks[i].cmp_spec(&ks[j]) is Less);
        }
        assert forall|k: u32| #![auto] r@.contains(k) <==> m@.contains_key(k) by {
            if m@.contains_key(k) {
                assert(all.contains((&k, &m@[k])));
                let i = choose|i: int| 0 <= i < all.len() && all[i] == (&k, &m@[k]);
                assert(ks[i] == k);
            }
            if r@.contains(k) {
                let i = choose|i: int| 0 <= i < ks.len() && ks[i] == k;
                assert(m@.contains_key(*all[i].0));
            }
        }
        assert(r@.to_set() =~= m@.dom());
        assert forall|i: int| 0 <= i < r@.len() implies m@.contains_key(#[trigger] r@[i]) by {
            assert(r@.contains(r@[i]));
        }
    }
    r
}

/// Whether a list of handles holds `k`.
pub fn lists(handles: &Vec<u32>, k: u32) -> (r: bool)
    ensures
        r == handles@.contains(k),
{
    let mut i: usize = 0;
    while i < handles.len()
        invariant
            0 <= i <= handles@.len(),
            forall|j: int| 0 <= j < i ==> handles@[j] != k,
        decreases handles@.len() - i,
    {
        if handles[i] == k {
            return true;
        }
        i += 1;
    }
    false
}

/// Drops every listed handle from a table.
pub fn remove_all<V>(m: &mut BTreeMap<u32, V>, handles: &Vec<u32>)
    ensures
        final(m)@ == old(m)@.remove_keys(handles@.to_set()),
{
    broadcast use vstd::std_specs::btree::group_btree_axioms;

    let ghost start = m@;
    let mut i: usize = 0;
    assert(handles@.take(0).to_set() =~= Set::<u32>::empty());
    assert(m@ =~= start.remove_keys(handles@.take(0).to_set()));
    while i < handles.len()
        invariant
            0 <= i <= handles@.len(),
            m@ == start.remove_keys(handles@.take(i as int).to_set()),
        decreases handles@.len() - i,
    {
        let k = handles[i];
        m.remove(&k);
        proof {
            let before = handles@.take(i as int);
            let after = handles@.take(i + 1);
            assert(after =~= before.push(k));
            assert forall|x: u32| after.contains(x) <==> before.contains(x) || x == k by {
                if before.contains(x) {
                    let j = choose|j: int| 0 <= j < before.len() && before[j] == x;
                    assert(after[j] == x);
                }
                assert(after[i as int] == k);
            }
            assert(after.to_set() =~= before.to_set().insert(k));
            assert(m@ =~= start.remove_keys(after.to_set()));
        }
        i += 1;
    }
    assert(handles@.take(i as int) =~= handles@);
}

/// Whether `n` is the first number above every handle of `live`, counting
/// from `first`.
pub open spec fn follows_all(live: Set<u32>, first: u32, n: u32) -> bool {
    &&& forall|h: u32| #[trigger] live.contains(h) ==> h < n
    &&& if exists|h: u32| live.contains(h) {
        n > 0 && live.contains((n - 1) as u32)
    } else {
        n == first
    }
}

/// The first number above every handle of `live`, counting from `first`.
pub open spec fn first_above(live: Set<u32>, first: u32) -> u32 {
    choose|n: u32| follows_all(live, first, n)
}

/// There is only one such number.
pub proof fn lemma_first_above(live: Set<u32>, first: u32, n: u32)
    requires
        follows_all(live, first, n),
    ensures
        n == first_above(live, first),
{
    let m = first_above(live, first);
    assert(follows_all(live, first, m));
    if exists|h: u32| live.contains(h) {
        assert(live.contains((n - 1) as u32));
        assert(live.contains((m - 1) as u32));
    }
}

/// The handles of a table are listed in ascending order, each once; and removing
/// handles leaves every other entry as it was.
pub proof fn law_tables_are_listed_and_cleared<V>(
    m: BTreeMap<u32, V>,
    keys: Vec<u32>,
    cleared: &mut BTreeMap<u32, V>,
    handles: Vec<u32>,
    k: u32,
    listed: bool,
    i: int,
    j: int,
)
    requires
        call_ensures(keys_of::<V>, (&m,), keys),
        call_ensures(remove_all::<V>, (cleared, &handles), ()),
        call_ensures(lists, (&handles, k), listed),
    ensures
        keys@.contains(k) <==> m@.contains_key(k),
        0 <= i < j < keys@.len() ==> keys@[i] < keys@[j],
        listed <==> handles@.contains(k),
        final(cleared)@.contains_key(k) <==> old(cleared)@.contains_key(k) && !handles@.contains(k),
        final(cleared)@.contains_key(k) ==> final(cleared)@[k] == old(cleared)@[k],
{
    assert(keys@.to_set().contains(k) <==> keys@.contains(k));
    assert(handles@.to_set().contains(k) <==> handles@.contains(k));
}

} // verus!
