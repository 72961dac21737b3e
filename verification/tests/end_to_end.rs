use vita::aggregate::aggregate;
use vita::merge::merge;
use vita::outcome::{FailureReason, ProviderOutcome};
use vita::registry::{default_registry, RunMode};
use vita::scheduler::Scheduler;
use vita::subdomain_set::SubdomainSet;

fn set_of(items: &[&str]) -> SubdomainSet {
    SubdomainSet::from_items(items.iter().map(|s| s.to_string()).collect())
}

// Drives a whole batch the way the async driver does, with the providers
// replaced by a stub that maps (host, provider index) to an outcome.
fn run_stubbed(
    hosts: Vec<String>,
    mode: RunMode,
    stub: impl Fn(&str, usize) -> ProviderOutcome,
) -> Vec<String> {
    let registry = default_registry();
    let providers = registry.providers_for(mode);
    let mut sched = Scheduler::new(hosts, 200);
    while !sched.is_done() {
        let host = sched.try_start().expect("a slot is always free here");
        let outcomes: Vec<ProviderOutcome> =
            (0..providers.len()).map(|k| stub(&host, k)).collect();
        sched.on_complete(aggregate(&outcomes));
    }
    merge(&sched.finish())
}

#[test]
fn one_host_three_stub_providers() {
    // hosts = ["example.com"], mode = Free; providers report
    // {"a.example.com"}, a failure, {"b.example.com","a.example.com"}
    let out = run_stubbed(
        vec!["example.com".to_string()],
        RunMode::Free,
        |_host, k| match k {
            0 => ProviderOutcome::Success(set_of(&["a.example.com"])),
            1 => ProviderOutcome::Failure(FailureReason::ProviderUnavailable),
            2 => ProviderOutcome::Success(set_of(&["b.example.com", "a.example.com"])),
            _ => ProviderOutcome::Failure(FailureReason::ProviderUnavailable),
        },
    );
    let mut out = out;
    out.sort();
    assert_eq!(out, vec!["a.example.com".to_string(), "b.example.com".to_string()]);
}

#[test]
fn failing_host_contributes_nothing() {
    // every provider fails for x.com and exactly one succeeds for y.com
    let out = run_stubbed(
        vec!["x.com".to_string(), "y.com".to_string()],
        RunMode::All,
        |host, k| {
            if host == "y.com" && k == 0 {
                ProviderOutcome::Success(set_of(&["z.y.com"]))
            } else {
                ProviderOutcome::Failure(FailureReason::ProviderUnavailable)
            }
        },
    );
    assert_eq!(out, vec!["z.y.com".to_string()]);
}

#[test]
fn credential_missing_still_lets_others_contribute() {
    // under All, a credentialed provider with no credential fails gracefully
    // while the free providers still fill the host's set
    let out = run_stubbed(
        vec!["example.com".to_string()],
        RunMode::All,
        |_host, k| match k {
            1 => ProviderOutcome::Failure(FailureReason::CredentialMissing),
            0 => ProviderOutcome::Success(set_of(&["a.example.com"])),
            _ => ProviderOutcome::Failure(FailureReason::ProviderUnavailable),
        },
    );
    assert_eq!(out, vec!["a.example.com".to_string()]);
}

#[test]
fn merge_keeps_per_host_duplicates() {
    // the final container is a flat sequence: a subdomain found under two
    // different input hosts appears once per host
    let per_host = vec![set_of(&["dup.example.com"]), set_of(&["dup.example.com"])];
    let out = merge(&per_host);
    assert_eq!(out, vec!["dup.example.com".to_string(), "dup.example.com".to_string()]);
}

#[test]
fn merge_of_no_sets_is_empty() {
    let out = merge(&Vec::new());
    assert_eq!(out, Vec::<String>::new());
}
