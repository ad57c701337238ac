use vstd::prelude::*;

use std::collections::HashMap;
use vstd::std_specs::hash::obeys_key_model;

verus! {

broadcast use vstd::std_specs::hash::group_hash_axioms;

/// How many entries of `s` equal `x`.
pub open spec fn occurrences<T>(s: Seq<T>, x: T) -> nat
    decreases s.len(),
{
    if s.len() == 0 {
        0
    } else {
        occurrences(s.drop_last(), x) + if s.last() == x {
            1nat
        } else {
            0nat
        }
    }
}

proof fn lemma_occurrences_bound<T>(s: Seq<T>, x: T)
    ensures
        occurrences(s, x) <= s.len(),
        occurrences(s, x) > 0 <==> s.contains(x),
    decreases s.len(),
{
    if s.len() > 0 {
        lemma_occurrences_bound(s.drop_last(), x);
        if s.drop_last().contains(x) {
            let i = choose|i: int| 0 <= i < s.drop_last().len() && s.drop_last()[i] == x;
            assert(s[i] == x);
        }
        if s.contains(x) && s.last() != x {
            let i = choose|i: int| 0 <= i < s.len() && s[i] == x;
            assert(s.drop_last()[i] == x);
        }
    }
}

/// Counts how often each distinct object occurs.
pub fn count_objects<T: std::hash::Hash + Eq>(objects: Vec<T>) -> (r: HashMap<T, usize>)
    requires
        obeys_key_model::<T>(),
    ensures
        r@.dom() == objects@.to_set(),
        forall|k: T| #[trigger] r@.contains_key(k) ==> r@[k] == occurrences(objects@, k),
{
    let ghost all = objects@;
    let n: usize = objects.len();
    let mut count_map: HashMap<T, usize> = HashMap::new();
    for obj in it: objects
        invariant
            it.seq() == all,
            all.len() == n,
            obeys_key_model::<T>(),
            forall|k: T| #[trigger]
                count_map@.contains_key(k) <==> all.take(it.index()).contains(k),
            forall|k: T| #[trigger]
                count_map@.contains_key(k) ==> count_map@[k] == occurrences(
                    all.take(it.index()),
                    k,
                ),
    {
        let ghost k = it.index();
        let ghost pre = all.take(k);
        proof {
            assert(all.take(k + 1).drop_last() =~= pre);
            assert(all.take(k + 1).last() == obj);
            lemma_occurrences_bound(pre, obj);
        }
        let counter: usize = match count_map.get(&obj) {
            Some(c) => *c,
            None => 0,
        };
        proof {
            if !count_map@.contains_key(obj) {
                lemma_occurrences_bound(pre, obj);
            }
            assert(counter == occurrences(pre, obj));
        }
        count_map.insert(obj, counter + 1);
        let ghost cur = all.take(k + 1);
        proof {
            assert forall|x: T| #[trigger]
                count_map@.contains_key(x) <==> cur.contains(x) by {
                if cur.contains(x) && x != cur.last() {
                    let i = choose|i: int| 0 <= i < cur.len() && cur[i] == x;
                    assert(pre[i] == x);
                }
                if pre.contains(x) {
                    let i = choose|i: int| 0 <= i < pre.len() && pre[i] == x;
                    assert(cur[i] == x);
                }
                if x == cur.last() {
                    assert(cur[k] == x);
                }
            }
        }
    }
    proof {
        assert(all.take(all.len() as int) =~= all);
        assert(count_map@.dom() =~= all.to_set());
    }
    count_map
}

} // verus!
