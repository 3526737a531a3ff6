use mcp_aggregator::client::FetchError;
use mcp_aggregator::client::HnClient;
use mcp_aggregator::ranking::sort_by_score;
use mcp_aggregator::rate_limit::RateLimitExceeded;
use mcp_aggregator::router::HnRouter;
use mcp_aggregator::story::Story;
use mcp_aggregator::text::decimal;
use mcp_aggregator::text::join;
use time::OffsetDateTime;

fn story(id: u32, score: u32) -> Story {
    Story {
        id,
        title: format!("Story {}", id),
        url: String::new(),
        text: String::new(),
        by: String::from("author"),
        score,
        created_at: 1_746_373_400,
        number_of_comments: 7,
        comments: Vec::new(),
    }
}

#[test]
fn decimal_numerals() {
    assert_eq!(decimal(0), "0");
    assert_eq!(decimal(7), "7");
    assert_eq!(decimal(10), "10");
    assert_eq!(decimal(39_617_316), "39617316");
    assert_eq!(decimal(u64::MAX), "18446744073709551615");
}

#[test]
fn join_puts_the_separator_between_neighbours() {
    assert_eq!(join(&Vec::new(), ", "), "");
    assert_eq!(join(&vec![String::from("a")], ", "), "a");
    let parts = vec![String::from("a"), String::new(), String::from("c")];
    assert_eq!(join(&parts, ", "), "a, , c");
}

#[test]
fn story_with_link_and_body() {
    let shown = Story {
        id: 39_617_316,
        title: String::from("Show HN: A thing"),
        url: String::from("https://example.com/thing"),
        text: String::from("I built a thing."),
        by: String::from("maker"),
        score: 256,
        created_at: 1_746_373_400,
        number_of_comments: 89,
        comments: vec![1, 2],
    };
    let date = OffsetDateTime::from_unix_timestamp(1_746_373_400).unwrap().to_string();
    assert!(date.starts_with("2025-05-04 15:43:20"));
    assert_eq!(
        HnClient::format_story(&shown),
        format!(
            "Title: Show HN: A thing\nURL: https://example.com/thing\nText: I built a thing.\nBy: maker\nScore: 256\nDate: {}\nComments: 89\nID: 39617316\n",
            date
        )
    );
}

#[test]
fn story_without_link_and_body_has_no_lines_for_them() {
    let text = HnClient::format_story(&story(5, 3));
    assert!(text.starts_with("Title: Story 5\nBy: author\nScore: 3\nDate: 2025-05-04 15:43:20"));
    assert!(text.ends_with("\nComments: 7\nID: 5\n"));
    assert!(!text.contains("URL: "));
    assert!(!text.contains("Text: "));
}

#[test]
fn story_is_dated_with_the_text_given() {
    assert_eq!(
        HnClient::format_dated_story(&story(5, 3), "yesterday"),
        "Title: Story 5\nBy: author\nScore: 3\nDate: yesterday\nComments: 7\nID: 5\n"
    );
}

#[test]
fn time_outside_the_calendar_is_shown_as_nothing() {
    let mut odd = story(5, 3);
    odd.created_at = i64::MIN;
    assert_eq!(
        HnClient::format_story(&odd),
        "Title: Story 5\nBy: author\nScore: 3\nDate: \nComments: 7\nID: 5\n"
    );
}

#[test]
fn stories_are_sorted_by_descending_score() {
    let stories = vec![story(1, 10), story(2, 30), story(3, 20), story(4, 30), story(5, 10)];
    let ids: Vec<u32> = sort_by_score(&stories).iter().map(|story| story.id).collect();
    assert_eq!(ids, vec![2, 4, 3, 1, 5]);
    assert!(sort_by_score(&Vec::new()).is_empty());
}

#[test]
fn story_count_is_ten_by_default_and_at_most_thirty() {
    assert_eq!(HnRouter::story_count(None), 10);
    assert_eq!(HnRouter::story_count(Some(0)), 0);
    assert_eq!(HnRouter::story_count(Some(7)), 7);
    assert_eq!(HnRouter::story_count(Some(30)), 30);
    assert_eq!(HnRouter::story_count(Some(31)), 30);
    assert_eq!(HnRouter::story_count(Some(usize::MAX)), 30);
}

#[test]
fn chunk_size_is_five_by_default_and_between_one_and_ten() {
    assert_eq!(HnRouter::chunk_size(None), 5);
    assert_eq!(HnRouter::chunk_size(Some(0)), 1);
    assert_eq!(HnRouter::chunk_size(Some(1)), 1);
    assert_eq!(HnRouter::chunk_size(Some(10)), 10);
    assert_eq!(HnRouter::chunk_size(Some(11)), 10);
}

#[test]
fn no_stories_are_reported_as_such() {
    assert_eq!(HnRouter::get_hacker_news_stories(&Vec::new()), "No stories found");
    assert_eq!(HnRouter::hn_top_stories(&Ok(Vec::new())), "No stories found");
}

#[test]
fn stories_are_shown_by_score_with_a_rule_between() {
    let stories = vec![story(1, 10), story(2, 30)];
    let expected = format!(
        "{}\n---\n{}",
        HnClient::format_story(&stories[1]),
        HnClient::format_story(&stories[0])
    );
    assert_eq!(HnRouter::get_hacker_news_stories(&stories), expected);
    assert_eq!(HnRouter::hn_best_stories(&Ok(stories)), expected);
}

#[test]
fn single_story_is_shown_without_a_rule() {
    let stories = vec![story(1, 10)];
    assert_eq!(HnRouter::get_hacker_news_stories(&stories), HnClient::format_story(&stories[0]));
}

#[test]
fn failed_listings_are_reported_by_category() {
    let failure = Err(String::from("Failed to fetch top stories: down"));
    assert_eq!(
        HnRouter::hn_top_stories(&failure),
        "Error fetching top stories: Failed to fetch top stories: down"
    );
    let failure = Err(String::from("down"));
    assert_eq!(HnRouter::hn_latest_stories(&failure), "Error fetching latest stories: down");
    assert_eq!(HnRouter::hn_best_stories(&failure), "Error fetching best stories: down");
    assert_eq!(HnRouter::hn_ask_stories(&failure), "Error fetching Ask HN stories: down");
    assert_eq!(HnRouter::hn_show_stories(&failure), "Error fetching Show HN stories: down");
}

#[test]
fn single_story_reply() {
    let found = story(9, 1);
    assert_eq!(HnRouter::hn_story_by_id(9, &Ok(story(9, 1))), HnClient::format_story(&found));
    assert_eq!(
        HnRouter::hn_story_by_id(9, &Err(FetchError::Upstream(String::from("no such item")))),
        "Error fetching story with ID 9: Failed to fetch story with ID 9: no such item"
    );
    assert_eq!(
        HnRouter::hn_story_by_id(12, &Err(FetchError::RateLimitExceeded)),
        "Error fetching story with ID 12: Failed to fetch story with ID 12: Rate limit exceeded"
    );
}

#[test]
fn failures_in_words() {
    assert_eq!(RateLimitExceeded.message(), "Rate limit exceeded");
    assert_eq!(
        FetchError::Upstream(String::from("timeout")).describe(42),
        "Failed to fetch story with ID 42: timeout"
    );
    assert_eq!(
        FetchError::RateLimitExceeded.describe(4_294_967_295),
        "Failed to fetch story with ID 4294967295: Rate limit exceeded"
    );
}

#[test]
fn router_keeps_its_client() {
    let mut client = HnClient::with_cache_size(3);
    assert!(client.store_story_details(1, Ok(story(1, 1))).is_ok());
    let mut router = HnRouter::new(client);
    assert_eq!(router.hn_client.cached_stories(), 1);
    assert!(router.hn_client.get_story_details(1).is_some());
}
