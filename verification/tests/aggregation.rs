use vita::aggregate::aggregate;
use vita::outcome::{FailureReason, ProviderOutcome};
use vita::subdomain_set::SubdomainSet;

fn set_of(items: &[&str]) -> SubdomainSet {
    SubdomainSet::from_items(items.iter().map(|s| s.to_string()).collect())
}

#[test]
fn aggregate_unions_only_successes() {
    let outcomes = vec![
        ProviderOutcome::Success(set_of(&["a.example.com"])),
        ProviderOutcome::Failure(FailureReason::ProviderUnavailable),
        ProviderOutcome::Success(set_of(&["b.example.com", "a.example.com"])),
    ];
    let r = aggregate(&outcomes);
    assert_eq!(r.len(), 2);
    assert!(r.contains(&"a.example.com".to_string()));
    assert!(r.contains(&"b.example.com".to_string()));
}

#[test]
fn aggregate_failure_does_not_disturb_others() {
    let with_failure = vec![
        ProviderOutcome::Success(set_of(&["a.example.com"])),
        ProviderOutcome::Failure(FailureReason::CredentialMissing),
        ProviderOutcome::Success(set_of(&["b.example.com"])),
    ];
    let without_failure = vec![
        ProviderOutcome::Success(set_of(&["a.example.com"])),
        ProviderOutcome::Success(set_of(&["b.example.com"])),
    ];
    let mut a: Vec<String> = aggregate(&with_failure).items;
    let mut b: Vec<String> = aggregate(&without_failure).items;
    a.sort();
    b.sort();
    assert_eq!(a, b);
}

#[test]
fn aggregate_ignores_every_failure_reason() {
    let outcomes = vec![
        ProviderOutcome::Failure(FailureReason::ProviderUnavailable),
        ProviderOutcome::Failure(FailureReason::ProviderProtocolError),
        ProviderOutcome::Failure(FailureReason::CredentialMissing),
        ProviderOutcome::Failure(FailureReason::PaginationIncomplete),
        ProviderOutcome::Success(set_of(&["only.example.com"])),
    ];
    let r = aggregate(&outcomes);
    assert_eq!(r.len(), 1);
    assert!(r.contains(&"only.example.com".to_string()));
}

#[test]
fn aggregate_all_failures_yields_empty_set() {
    let outcomes = vec![
        ProviderOutcome::Failure(FailureReason::ProviderUnavailable),
        ProviderOutcome::Failure(FailureReason::ProviderProtocolError),
    ];
    let r = aggregate(&outcomes);
    assert_eq!(r.len(), 0);
}

#[test]
fn aggregate_is_idempotent_on_success_sets() {
    let make = || {
        vec![
            ProviderOutcome::Success(set_of(&["a.example.com", "b.example.com"])),
            ProviderOutcome::Success(set_of(&["b.example.com", "c.example.com"])),
        ]
    };
    let mut first: Vec<String> = aggregate(&make()).items;
    let mut again: Vec<String> = aggregate(&make()).items;
    first.sort();
    again.sort();
    assert_eq!(first, again);
    assert_eq!(first, vec![
        "a.example.com".to_string(),
        "b.example.com".to_string(),
        "c.example.com".to_string(),
    ]);
}

#[test]
fn subdomain_set_dedupes_exact_repeats() {
    let s = set_of(&["a.example.com", "a.example.com", "a.example.com"]);
    assert_eq!(s.len(), 1);
    assert!(s.contains(&"a.example.com".to_string()));
    assert!(!s.contains(&"A.example.com".to_string()));
}
