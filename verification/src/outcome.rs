use vstd::prelude::*;
use crate::subdomain_set::SubdomainSet;

verus! {

/// Why one provider invocation produced nothing. Every failure of an adapter
/// is captured as one of these; none is allowed to cross the adapter boundary
/// as a panic.
#[derive(Clone, Copy, PartialEq, Eq, Structural, Debug)]
pub enum FailureReason {
    /// Network-level failure inside one adapter (timeout, connection refused,
    /// DNS failure).
    ProviderUnavailable,
    /// Non-success status code or malformed payload from one provider.
    ProviderProtocolError,
    /// A credentialed adapter has no usable credential configured.
    CredentialMissing,
    /// A paginating adapter could not establish page/total metadata.
    PaginationIncomplete,
}

/// The terminal outcome of one provider invocation: a set of subdomains, or a
/// failure reason. An invocation always resolves to exactly one of the two.
#[derive(Debug)]
pub enum ProviderOutcome {
    Success(SubdomainSet),
    Failure(FailureReason),
}

impl ProviderOutcome {
    pub open spec fn is_success(self) -> bool {
        self is Success
    }

    /// What this outcome contributes to a host's result: its set on success,
    /// nothing on failure.
    pub open spec fn success_set(self) -> Set<Seq<char>> {
        match self {
            ProviderOutcome::Success(s) => s.set_view(),
            ProviderOutcome::Failure(_) => Set::empty(),
        }
    }

    pub open spec fn wf(self) -> bool {
        match self {
            ProviderOutcome::Success(s) => s.wf(),
            ProviderOutcome::Failure(_) => true,
        }
    }
}

} // verus!
