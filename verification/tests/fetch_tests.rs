use mastodon_diary::fetch::{apply_page, lookup_url, next_request, timeline_url, FetchState, Post};

fn post(id: i64) -> Post {
    Post { id, created_at: String::from("2024-01-01T00:00:00Z"), content: String::from("x") }
}

#[test]
fn pagination_collects_all_pages_and_stops_on_the_empty_one() {
    let mut st = FetchState::new();
    let mut requests = 0;

    // Page one: ids 30, 20.
    assert_eq!(next_request(&st), Some(None));
    requests += 1;
    apply_page(&mut st, vec![post(30), post(20)]);

    // Page two: id 10, requested with max_id one less than the oldest id.
    assert_eq!(next_request(&st), Some(Some(19)));
    requests += 1;
    apply_page(&mut st, vec![post(10)]);

    // Page three: empty, ends the fetch.
    assert_eq!(next_request(&st), Some(Some(9)));
    requests += 1;
    apply_page(&mut st, Vec::new());

    assert_eq!(next_request(&st), None);
    let ids: Vec<i64> = st.posts.iter().map(|p| p.id).collect();
    assert_eq!(ids, vec![30, 20, 10]);
    // One request more than there are non-empty pages.
    assert_eq!(requests, 2 + 1);
}

#[test]
fn urls_are_built_exactly() {
    assert_eq!(
        lookup_url("example.org", "@alice"),
        "https://example.org/api/v1/accounts/lookup?acct=@alice"
    );
    assert_eq!(
        timeline_url("example.org", "17", None),
        "https://example.org/api/v1/accounts/17/statuses"
    );
    assert_eq!(
        timeline_url("example.org", "17", Some(41)),
        "https://example.org/api/v1/accounts/17/statuses?max_id=41"
    );
    assert_eq!(
        timeline_url("example.org", "17", Some(-1)),
        "https://example.org/api/v1/accounts/17/statuses?max_id=-1"
    );
}
