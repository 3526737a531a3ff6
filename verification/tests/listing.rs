use mcp_aggregator::client::HnClient;

#[test]
fn listing_is_cut_to_the_limit() {
    let listing = Ok(vec![11, 12, 13, 14, 15]);
    assert_eq!(HnClient::get_top_stories(listing, Some(3)), Ok(vec![11, 12, 13]));
}

#[test]
fn listing_without_a_limit_is_kept_whole() {
    let listing = Ok(vec![11, 12, 13]);
    assert_eq!(HnClient::get_latest_stories(listing, None), Ok(vec![11, 12, 13]));
}

#[test]
fn short_listing_is_kept_whole() {
    assert_eq!(HnClient::get_best_stories(Ok(vec![1, 2]), Some(5)), Ok(vec![1, 2]));
    assert_eq!(HnClient::get_best_stories(Ok(vec![1, 2]), Some(2)), Ok(vec![1, 2]));
    assert_eq!(HnClient::get_best_stories(Ok(Vec::new()), Some(2)), Ok(Vec::new()));
}

#[test]
fn limit_zero_keeps_nothing() {
    assert_eq!(HnClient::get_ask_stories(Ok(vec![1, 2]), Some(0)), Ok(Vec::new()));
}

#[test]
fn failed_listing_is_worded_by_category() {
    let reason = || Err(String::from("connection reset"));
    assert_eq!(
        HnClient::get_top_stories(reason(), Some(3)),
        Err(String::from("Failed to fetch top stories: connection reset"))
    );
    assert_eq!(
        HnClient::get_latest_stories(reason(), None),
        Err(String::from("Failed to fetch latest stories: connection reset"))
    );
    assert_eq!(
        HnClient::get_best_stories(reason(), None),
        Err(String::from("Failed to fetch best stories: connection reset"))
    );
    assert_eq!(
        HnClient::get_ask_stories(reason(), None),
        Err(String::from("Failed to fetch Ask HN stories: connection reset"))
    );
    assert_eq!(
        HnClient::get_show_stories(reason(), None),
        Err(String::from("Failed to fetch Show HN stories: connection reset"))
    );
}
