use vstd::prelude::*;
use crate::subdomain_set::SubdomainSet;

verus! {

/// The per-host entries laid end to end, in order.
pub open spec fn flattened_items(sets: Seq<SubdomainSet>) -> Seq<Seq<char>>
    decreases sets.len(),
{
    if sets.len() == 0 {
        Seq::empty()
    } else {
        flattened_items(sets.drop_last()) + sets.last().seq_view()
    }
}

/// Flattens the per-host sets into one output sequence. Each per-host set is
/// already deduplicated internally; a subdomain found under two different
/// input hosts is kept once per host, deliberately.
pub fn merge(sets: &Vec<SubdomainSet>) -> (r: Vec<String>)
    ensures
        r@.map_values(|t: String| t@) == flattened_items(sets@),
{
    let n = sets.len();
    let mut r: Vec<String> = Vec::new();
    let mut i: usize = 0;
    while i < n
        invariant
            n == sets@.len(),
            i <= n,
            r@.map_values(|t: String| t@) =~= flattened_items(sets@.take(i as int)),
        decreases n - i,
    {
        let m = sets[i].items.len();
        let mut j: usize = 0;
        while j < m
            invariant
                n == sets@.len(),
                i < n,
                m == sets@[i as int].items@.len(),
                j <= m,
                r@.map_values(|t: String| t@) =~= flattened_items(sets@.take(i as int))
                    + sets@[i as int].seq_view().take(j as int),
            decreases m - j,
        {
            let s = sets[i].items[j].clone();
            let ghost prev = r@;
            r.push(s);
            proof {
                assert(r@ == prev.push(s));
                assert(r@.map_values(|t: String| t@) =~= prev.map_values(|t: String| t@).push(s@));
                assert(sets@[i as int].seq_view().take(j + 1) =~= sets@[i as int].seq_view().take(
                    j as int,
                ).push(sets@[i as int].items@[j as int]@));
                assert(r@.map_values(|t: String| t@) =~= flattened_items(sets@.take(i as int))
                    + sets@[i as int].seq_view().take(j + 1));
            }
            j += 1;
        }
        proof {
            assert(sets@[i as int].seq_view().take(m as int) =~= sets@[i as int].seq_view());
            assert(sets@.take(i + 1).drop_last() =~= sets@.take(i as int));
            assert(sets@.take(i + 1).last() == sets@[i as int]);
            assert(flattened_items(sets@.take(i + 1)) =~= flattened_items(sets@.take(i as int))
                + sets@[i as int].seq_view());
        }
        i += 1;
    }
    proof {
        assert(sets@.take(n as int) =~= sets@);
    }
    r
}

} // verus!
