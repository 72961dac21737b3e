use vstd::prelude::*;
use crate::outcome::ProviderOutcome;
use crate::subdomain_set::SubdomainSet;

verus! {

/// The union of the subdomain sets of the successful outcomes; failed
/// outcomes contribute nothing.
pub open spec fn union_of_successes(s: Seq<ProviderOutcome>) -> Set<Seq<char>>
    decreases s.len(),
{
    if s.len() == 0 {
        Set::empty()
    } else {
        union_of_successes(s.drop_last()).union(s.last().success_set())
    }
}

/// The subsequence of successful outcomes, in order.
pub open spec fn successes_of(s: Seq<ProviderOutcome>) -> Seq<ProviderOutcome>
    decreases s.len(),
{
    if s.len() == 0 {
        Seq::empty()
    } else {
        successes_of(s.drop_last()) + if s.last().is_success() {
            seq![s.last()]
        } else {
            Seq::empty()
        }
    }
}

/// Per-host fan-out result: the union of the sets of exactly those providers
/// that succeeded, deduplicated. A failure is discarded by design policy: it
/// neither aborts the host nor disturbs what the other providers contributed.
/// An empty set is a valid result when every provider fails.
pub fn aggregate(outcomes: &Vec<ProviderOutcome>) -> (r: SubdomainSet)
    requires
        forall|i: int| 0 <= i < outcomes@.len() ==> (#[trigger] outcomes@[i]).wf(),
    ensures
        r.wf(),
        r.set_view() =~= union_of_successes(outcomes@),
{
    let n = outcomes.len();
    let mut r = SubdomainSet::new();
    let mut i: usize = 0;
    while i < n
        invariant
            n == outcomes@.len(),
            i <= n,
            forall|j: int| 0 <= j < n ==> (#[trigger] outcomes@[j]).wf(),
            r.wf(),
            r.set_view() =~= union_of_successes(outcomes@.take(i as int)),
        decreases n - i,
    {
        match &outcomes[i] {
            ProviderOutcome::Success(set) => {
                r.union_with(set);
            },
            ProviderOutcome::Failure(_) => {},
        }
        proof {
            assert(outcomes@.take(i + 1).drop_last() =~= outcomes@.take(i as int));
            assert(outcomes@.take(i + 1).last() == outcomes@[i as int]);
            assert(r.set_view() =~= union_of_successes(outcomes@.take(i + 1)));
        }
        i += 1;
    }
    proof {
        assert(outcomes@.take(n as int) =~= outcomes@);
    }
    r
}

/// Failure isolation: the union over all outcomes equals the union over the
/// successful outcomes alone, so failed providers contribute nothing and do
/// not change what the others contribute.
pub proof fn lemma_failure_isolation(outcomes: Seq<ProviderOutcome>)
    ensures
        union_of_successes(outcomes) == union_of_successes(successes_of(outcomes)),
    decreases outcomes.len(),
{
    if outcomes.len() == 0 {
        assert(union_of_successes(outcomes) =~= union_of_successes(successes_of(outcomes)));
    } else {
        lemma_failure_isolation(outcomes.drop_last());
        if outcomes.last().is_success() {
            assert(successes_of(outcomes) =~= successes_of(outcomes.drop_last()).push(
                outcomes.last(),
            ));
            assert(successes_of(outcomes).drop_last() =~= successes_of(outcomes.drop_last()));
            assert(union_of_successes(outcomes) =~= union_of_successes(successes_of(outcomes)));
        } else {
            assert(successes_of(outcomes) =~= successes_of(outcomes.drop_last()));
            assert(union_of_successes(outcomes) =~= union_of_successes(successes_of(outcomes)));
        }
    }
}

/// Aggregation is idempotent on provider success sets: two outcome sequences
/// with the same successful outcomes aggregate to the same set, whatever
/// failures stand among them.
pub proof fn lemma_aggregate_idempotent(a: Seq<ProviderOutcome>, b: Seq<ProviderOutcome>)
    requires
        successes_of(a) == successes_of(b),
    ensures
        union_of_successes(a) == union_of_successes(b),
{
    lemma_failure_isolation(a);
    lemma_failure_isolation(b);
}

} // verus!
