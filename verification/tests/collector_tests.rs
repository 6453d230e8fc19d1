use stargazer_report::collector::{
    collect_pages, Collector, CollectorAction, FetchError, PageOutcome, DEFAULT_LIMIT, PAGE_SIZE,
};

fn logins(names: &[&str]) -> Vec<String> {
    names.iter().map(|n| n.to_string()).collect()
}

#[test]
fn three_items_across_two_pages() {
    // Page size 2: a full page of 2, then a short page of 1; limit 10.
    let pages = vec![
        PageOutcome::Items(logins(&["a", "b"])),
        PageOutcome::Items(logins(&["c"])),
    ];
    let (items, requests) = collect_pages(&pages, 2, 10).unwrap();
    assert_eq!(items, logins(&["a", "b", "c"]));
    assert_eq!(requests, 2);
}

#[test]
fn http_error_on_second_page_aborts_with_no_partial_result() {
    let pages = vec![
        PageOutcome::Items(logins(&["a", "b"])),
        PageOutcome::Http(500, "server error".to_string()),
    ];
    let r = collect_pages(&pages, 2, 10);
    assert_eq!(r, Err(FetchError::Http(500, "server error".to_string())));
}

#[test]
fn decode_error_aborts() {
    let pages = vec![PageOutcome::Decode];
    let r = collect_pages(&pages, 2, 10);
    assert_eq!(r, Err(FetchError::Decode));
}

#[test]
fn collecting_twice_yields_identical_results() {
    let pages = vec![
        PageOutcome::Items(logins(&["a", "b"])),
        PageOutcome::Items(logins(&["c", "d"])),
        PageOutcome::Items(logins(&["e"])),
    ];
    let first = collect_pages(&pages, 2, 100).unwrap();
    let second = collect_pages(&pages, 2, 100).unwrap();
    assert_eq!(first, second);
}

#[test]
fn single_short_page_is_exhaustion_after_one_request() {
    let pages = vec![PageOutcome::Items(logins(&["only"]))];
    let (items, requests) = collect_pages(&pages, 2, 10).unwrap();
    assert_eq!(items, logins(&["only"]));
    assert_eq!(requests, 1);
}

#[test]
fn full_last_page_needs_one_more_request_to_see_exhaustion() {
    // One full page; the request for page 2 is answered by an empty page.
    let pages = vec![PageOutcome::Items(logins(&["a", "b"]))];
    let (items, requests) = collect_pages(&pages, 2, 10).unwrap();
    assert_eq!(items, logins(&["a", "b"]));
    assert_eq!(requests, 2);
}

#[test]
fn limit_reached_stops_before_exhaustion() {
    let pages = vec![
        PageOutcome::Items(logins(&["a", "b"])),
        PageOutcome::Items(logins(&["c", "d"])),
    ];
    let (items, requests) = collect_pages(&pages, 2, 2).unwrap();
    assert_eq!(items, logins(&["a", "b"]));
    assert_eq!(requests, 1);
}

#[test]
fn limit_may_be_overshot_by_part_of_one_page() {
    // Limit 3 is only seen to be crossed after the whole second page is in.
    let pages = vec![
        PageOutcome::Items(logins(&["a", "b"])),
        PageOutcome::Items(logins(&["c", "d"])),
    ];
    let (items, requests) = collect_pages(&pages, 2, 3).unwrap();
    assert_eq!(items, logins(&["a", "b", "c", "d"]));
    assert_eq!(requests, 2);
}

#[test]
fn duplicates_are_kept_in_delivery_order() {
    let pages = vec![
        PageOutcome::Items(logins(&["x", "y"])),
        PageOutcome::Items(logins(&["x"])),
    ];
    let (items, _) = collect_pages(&pages, 2, 10).unwrap();
    assert_eq!(items, logins(&["x", "y", "x"]));
}

#[test]
fn state_machine_asks_for_pages_in_order() {
    let mut c = Collector::new(2, 10);
    assert_eq!(c.next_action(), CollectorAction::Request(1));
    c.feed_page(logins(&["a", "b"]));
    assert_eq!(c.next_action(), CollectorAction::Request(2));
    c.feed_page(logins(&["c"]));
    assert_eq!(c.next_action(), CollectorAction::Finished);
    assert_eq!(c.items, logins(&["a", "b", "c"]));
    assert_eq!(c.pages_fetched, 2);
}

#[test]
fn state_machine_stops_at_limit() {
    let mut c = Collector::new(2, 1);
    assert_eq!(c.next_action(), CollectorAction::Request(1));
    c.feed_page(logins(&["a", "b"]));
    assert_eq!(c.next_action(), CollectorAction::Finished);
    assert_eq!(c.items.len(), 2);
}

#[test]
fn constants_match_the_documented_defaults() {
    assert_eq!(PAGE_SIZE, 100);
    assert_eq!(DEFAULT_LIMIT, 10000);
}
