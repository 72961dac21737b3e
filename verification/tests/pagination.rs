use vita::sources::binaryedge::{build_url, collect_pages, plan_pages, BinaryEdgeResponse};

fn page(n: i32, pagesize: i32, total: i32, events: &[&str]) -> BinaryEdgeResponse {
    BinaryEdgeResponse {
        page: n,
        pagesize,
        total,
        events: events.iter().map(|s| s.to_string()).collect(),
    }
}

#[test]
fn total_55_pagesize_20_takes_three_pages() {
    // first page is already fetched; two more are planned, three in all
    let plan = plan_pages(1, 20, 55).unwrap();
    assert_eq!(plan, vec![2, 3]);
}

#[test]
fn total_0_takes_exactly_one_page() {
    let plan = plan_pages(1, 20, 0).unwrap();
    assert_eq!(plan, Vec::<i32>::new());
}

#[test]
fn exact_multiple_stops_at_the_boundary() {
    let plan = plan_pages(1, 20, 40).unwrap();
    assert_eq!(plan, vec![2]);
}

#[test]
fn zero_pagesize_is_pagination_incomplete() {
    assert_eq!(plan_pages(1, 0, 10), None);
    assert_eq!(plan_pages(1, -5, 10), None);
}

#[test]
fn first_page_zero_with_zero_total_takes_one_page() {
    // the counters alone decide: a total of zero is already covered, whatever
    // page number the provider reported for the first page
    assert_eq!(plan_pages(0, 20, 0), Some(Vec::new()));
}

#[test]
fn nonpositive_first_page_is_pagination_incomplete() {
    assert_eq!(plan_pages(0, 20, 55), None);
    assert_eq!(plan_pages(-3, 20, 55), None);
}

#[test]
fn zero_pagesize_with_no_work_left_still_terminates() {
    // the stop condition already holds on the first page, so nothing more is
    // planned even though the page size is unusable
    assert_eq!(plan_pages(1, 0, 0), Some(Vec::new()));
}

#[test]
fn collect_pages_unions_all_pages() {
    let first = page(1, 20, 55, &["a.example.com", "b.example.com"]);
    let rest = vec![
        page(2, 20, 55, &["b.example.com", "c.example.com"]),
        page(3, 20, 55, &["d.example.com"]),
    ];
    let r = collect_pages(&first, &rest);
    assert_eq!(r.len(), 4);
    for s in ["a.example.com", "b.example.com", "c.example.com", "d.example.com"] {
        assert!(r.contains(&s.to_string()));
    }
}

#[test]
fn page_events_are_deduplicated() {
    let p = page(1, 20, 2, &["a.example.com", "a.example.com"]);
    let s = p.subdomains();
    assert_eq!(s.len(), 1);
}

#[test]
fn url_without_page_is_the_bare_endpoint() {
    let url = build_url("example.com", None);
    assert_eq!(
        url,
        "https://api.binaryedge.io/v2/query/domains/subdomain/example.com"
    );
}

#[test]
fn url_with_page_carries_the_page_number() {
    let url = build_url("example.com", Some(2));
    assert_eq!(
        url,
        "https://api.binaryedge.io/v2/query/domains/subdomain/example.com?page=2"
    );
    let url = build_url("example.com", Some(1234567890));
    assert_eq!(
        url,
        "https://api.binaryedge.io/v2/query/domains/subdomain/example.com?page=1234567890"
    );
}
