use mcp_aggregator::client::permit_fetch;
use mcp_aggregator::client::FetchError;
use mcp_aggregator::client::HnClient;
use mcp_aggregator::client::DEFAULT_CACHE_SIZE;
use mcp_aggregator::client::DEFAULT_CHUNK_SIZE;
use mcp_aggregator::rate_limit::RateLimiter;
use mcp_aggregator::story::Story;

fn story(id: u32) -> Story {
    Story {
        id,
        title: format!("Story {}", id),
        url: String::new(),
        text: String::new(),
        by: String::from("author"),
        score: id * 10,
        created_at: 1_700_000_000 + id as i64,
        number_of_comments: 0,
        comments: Vec::new(),
    }
}

fn sorted_ids(stories: &[Story]) -> Vec<u32> {
    let mut ids: Vec<u32> = stories.iter().map(|story| story.id).collect();
    ids.sort();
    ids
}

fn run_batch(
    client: &mut HnClient,
    ids: Vec<u32>,
    chunk_size: Option<usize>,
    failing: &[u32],
    asked: &mut Vec<Vec<u32>>,
) -> Vec<Story> {
    let mut batch = client.get_stories_details(ids, chunk_size);
    while !batch.is_done() {
        let group = batch.current_group();
        let outcomes = group
            .iter()
            .map(|id| {
                if failing.contains(id) {
                    Err(FetchError::Upstream(format!("no item {}", id)))
                } else {
                    Ok(story(*id))
                }
            })
            .collect();
        asked.push(group);
        client.store_stories_details(&mut batch, outcomes);
    }
    batch.into_stories()
}

#[test]
fn defaults() {
    assert_eq!(DEFAULT_CACHE_SIZE, 100);
    assert_eq!(DEFAULT_CHUNK_SIZE, 5);
    assert_eq!(HnClient::new().cached_stories(), 0);
}

#[test]
fn empty_batch_returns_nothing_and_asks_for_nothing() {
    let mut client = HnClient::new();
    let batch = client.get_stories_details(Vec::new(), Some(3));
    assert!(batch.is_done());
    assert!(batch.current_group().is_empty());
    assert!(batch.into_stories().is_empty());
    assert_eq!(client.cached_stories(), 0);
}

#[test]
fn five_ids_in_chunks_of_two() {
    let mut client = HnClient::new();
    let mut asked = Vec::new();
    let stories = run_batch(&mut client, vec![1, 2, 3, 4, 5], Some(2), &[], &mut asked);
    assert_eq!(asked, vec![vec![1, 2], vec![3, 4], vec![5]]);
    assert_eq!(stories.len(), 5);
    assert_eq!(sorted_ids(&stories), vec![1, 2, 3, 4, 5]);
    assert_eq!(client.cached_stories(), 5);
}

#[test]
fn cached_story_is_not_asked_for() {
    let mut client = HnClient::new();
    let stored = client.store_story_details(1, Ok(story(1)));
    assert!(stored.is_ok());
    let mut asked = Vec::new();
    let stories = run_batch(&mut client, vec![1, 2, 3, 4, 5], Some(2), &[], &mut asked);
    assert_eq!(asked, vec![vec![2, 3], vec![4, 5]]);
    assert_eq!(sorted_ids(&stories), vec![1, 2, 3, 4, 5]);
    assert_eq!(stories[0].id, 1);
    assert_eq!(stories[0].title, "Story 1");
    assert_eq!(stories[0].created_at, 1_700_000_001);
}

#[test]
fn second_batch_is_served_from_the_cache() {
    let mut client = HnClient::new();
    let mut asked = Vec::new();
    run_batch(&mut client, vec![10, 20, 30], Some(5), &[], &mut asked);
    assert_eq!(asked, vec![vec![10, 20, 30]]);
    let mut asked_again = Vec::new();
    let stories = run_batch(&mut client, vec![30, 10, 20], Some(5), &[], &mut asked_again);
    assert!(asked_again.is_empty());
    let ids: Vec<u32> = stories.iter().map(|story| story.id).collect();
    assert_eq!(ids, vec![30, 10, 20]);
}

#[test]
fn one_failure_leaves_the_other_stories() {
    let mut client = HnClient::new();
    let mut asked = Vec::new();
    let stories = run_batch(&mut client, vec![1, 2, 3, 4, 5], Some(2), &[3], &mut asked);
    assert_eq!(asked, vec![vec![1, 2], vec![3, 4], vec![5]]);
    assert_eq!(sorted_ids(&stories), vec![1, 2, 4, 5]);
    assert_eq!(client.cached_stories(), 4);
    let mut asked_again = Vec::new();
    run_batch(&mut client, vec![3], None, &[], &mut asked_again);
    assert_eq!(asked_again, vec![vec![3]]);
}

#[test]
fn batch_of_failures_is_empty_and_no_error() {
    let mut client = HnClient::new();
    let mut asked = Vec::new();
    let stories = run_batch(&mut client, vec![1, 2, 3], Some(2), &[1, 2, 3], &mut asked);
    assert!(stories.is_empty());
    assert_eq!(asked, vec![vec![1, 2], vec![3]]);
    assert_eq!(client.cached_stories(), 0);
}

#[test]
fn refused_calls_are_left_out_like_failures() {
    let mut client = HnClient::new();
    let mut batch = client.get_stories_details(vec![1, 2], Some(2));
    assert_eq!(batch.current_group(), vec![1, 2]);
    client.store_stories_details(&mut batch, vec![Err(FetchError::RateLimitExceeded), Ok(story(2))]);
    assert!(batch.is_done());
    let stories = batch.into_stories();
    assert_eq!(sorted_ids(&stories), vec![2]);
}

#[test]
fn chunk_size_defaults_to_five_and_is_at_least_one() {
    let mut client = HnClient::new();
    let ids: Vec<u32> = (1..=7).collect();
    let batch = client.get_stories_details(ids.clone(), None);
    assert_eq!(batch.current_group(), vec![1, 2, 3, 4, 5]);
    let batch = client.get_stories_details(ids.clone(), Some(0));
    assert_eq!(batch.current_group(), vec![1]);
    let batch = client.get_stories_details(ids.clone(), Some(1));
    assert_eq!(batch.current_group(), vec![1]);
    let batch = client.get_stories_details(ids, Some(100));
    assert_eq!(batch.current_group(), vec![1, 2, 3, 4, 5, 6, 7]);
}

#[test]
fn no_group_is_larger_than_the_chunk_size() {
    for chunk in 1..=6usize {
        let mut client = HnClient::new();
        let mut asked = Vec::new();
        let ids: Vec<u32> = (1..=13).collect();
        let stories = run_batch(&mut client, ids, Some(chunk), &[], &mut asked);
        assert_eq!(stories.len(), 13);
        assert!(asked.iter().all(|group| !group.is_empty() && group.len() <= chunk));
        assert_eq!(asked.len(), (13 + chunk - 1) / chunk);
    }
}

#[test]
fn repeated_identifier_is_resolved_each_time() {
    let mut client = HnClient::new();
    let mut asked = Vec::new();
    let stories = run_batch(&mut client, vec![7, 7, 8], Some(5), &[], &mut asked);
    assert_eq!(asked, vec![vec![7, 7, 8]]);
    assert_eq!(sorted_ids(&stories), vec![7, 7, 8]);
    assert_eq!(client.cached_stories(), 2);
}

#[test]
fn missing_answers_count_as_failures_and_extra_ones_are_ignored() {
    let mut client = HnClient::new();
    let mut batch = client.get_stories_details(vec![1, 2, 3], Some(2));
    client.store_stories_details(&mut batch, vec![Ok(story(1))]);
    assert_eq!(batch.current_group(), vec![3]);
    client.store_stories_details(&mut batch, vec![Ok(story(3)), Ok(story(99))]);
    assert!(batch.is_done());
    assert_eq!(sorted_ids(&batch.into_stories()), vec![1, 3]);
    assert_eq!(client.cached_stories(), 2);
    assert!(client.get_story_details(99).is_none());
}

#[test]
fn single_story_misses_then_hits() {
    let mut client = HnClient::new();
    assert!(client.get_story_details(5).is_none());
    let fetched = client.store_story_details(5, Ok(story(5))).expect("the story is handed on");
    assert_eq!(fetched.id, 5);
    let hit = client.get_story_details(5).expect("the story is cached");
    assert_eq!(hit.id, 5);
    assert_eq!(hit.title, "Story 5");
    assert_eq!(hit.score, 50);
    assert_eq!(hit.created_at, 1_700_000_005);
}

#[test]
fn single_story_failure_is_handed_on() {
    let mut client = HnClient::new();
    let refused = client.store_story_details(5, Err(FetchError::RateLimitExceeded));
    assert!(matches!(refused, Err(FetchError::RateLimitExceeded)));
    let failed = client.store_story_details(5, Err(FetchError::Upstream(String::from("timeout"))));
    match failed {
        Err(FetchError::Upstream(text)) => assert_eq!(text, "timeout"),
        _ => panic!("the failure is handed on"),
    }
    assert_eq!(client.cached_stories(), 0);
    assert!(client.get_story_details(5).is_none());
}

#[test]
fn story_is_cached_under_the_identifier_asked_for() {
    let mut client = HnClient::new();
    assert!(client.store_story_details(1, Ok(story(2))).is_ok());
    assert!(client.get_story_details(2).is_none());
    assert_eq!(client.get_story_details(1).map(|story| story.id), Some(2));
}

#[test]
fn entry_that_cannot_be_read_back_is_asked_for_again() {
    let mut client = HnClient::new();
    let mut broken = story(4);
    broken.created_at = i64::MAX;
    assert!(client.store_story_details(4, Ok(broken)).is_ok());
    assert_eq!(client.cached_stories(), 1);
    assert!(client.get_story_details(4).is_none());
    let mut asked = Vec::new();
    let stories = run_batch(&mut client, vec![4], Some(2), &[], &mut asked);
    assert_eq!(asked, vec![vec![4]]);
    assert_eq!(stories.len(), 1);
    assert_eq!(stories[0].created_at, 1_700_000_004);
    assert!(client.get_story_details(4).is_some());
}

#[test]
fn small_cache_forgets_the_least_recently_used_story() {
    let mut client = HnClient::with_cache_size(2);
    let mut asked = Vec::new();
    run_batch(&mut client, vec![1, 2, 3], Some(1), &[], &mut asked);
    assert_eq!(client.cached_stories(), 2);
    assert!(client.get_story_details(1).is_none());
    assert!(client.get_story_details(2).is_some());
    assert!(client.get_story_details(3).is_some());
}

#[test]
fn cache_size_zero_keeps_one_story() {
    let mut client = HnClient::with_cache_size(0);
    assert!(client.store_story_details(1, Ok(story(1))).is_ok());
    assert!(client.store_story_details(2, Ok(story(2))).is_ok());
    assert_eq!(client.cached_stories(), 1);
    assert!(client.get_story_details(1).is_none());
    assert!(client.get_story_details(2).is_some());
}

#[test]
fn lookup_in_a_batch_counts_as_use() {
    let mut client = HnClient::with_cache_size(2);
    assert!(client.store_story_details(1, Ok(story(1))).is_ok());
    assert!(client.store_story_details(2, Ok(story(2))).is_ok());
    let mut asked = Vec::new();
    run_batch(&mut client, vec![1, 3], Some(2), &[], &mut asked);
    assert_eq!(asked, vec![vec![3]]);
    assert!(client.get_story_details(2).is_none());
    assert!(client.get_story_details(1).is_some());
    assert!(client.get_story_details(3).is_some());
}

#[test]
fn default_client_is_a_new_client() {
    let mut client = HnClient::default();
    assert_eq!(client.cached_stories(), 0);
    for id in 0..=100 {
        assert!(client.store_story_details(id, Ok(story(id))).is_ok());
    }
    assert_eq!(client.cached_stories(), 100);
    assert!(client.get_story_details(0).is_none());
    assert!(client.get_story_details(1).is_some());
}

#[test]
fn fetch_is_permitted_while_the_budget_lasts() {
    let mut limiter = RateLimiter::with_limits(usize::MAX, 2);
    assert_eq!(permit_fetch(&mut limiter, 7), Ok(7));
    assert_eq!(permit_fetch(&mut limiter, 8), Ok(8));
    assert_eq!(permit_fetch(&mut limiter, 9), Err(FetchError::RateLimitExceeded));
    assert_eq!(limiter.request_count().month, 2);
}

#[test]
fn stored_story_is_handed_on_unchanged() {
    let mut client = HnClient::new();
    assert_eq!(client.store_story_details(3, Ok(story(3))), Ok(story(3)));
    assert_eq!(client.get_story_details(3), Some(story(3)));
}
