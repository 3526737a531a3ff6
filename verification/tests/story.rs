use mcp_aggregator::story::CacheConversionFailure;
use mcp_aggregator::story::CachedStory;
use mcp_aggregator::story::Story;

fn sample(id: u32, created_at: i64) -> Story {
    Story {
        id,
        title: format!("Story {}", id),
        url: format!("https://example.com/{}", id),
        text: String::from("Some text"),
        by: String::from("author"),
        score: 42,
        created_at,
        number_of_comments: 3,
        comments: vec![id + 1, id + 2, id + 3],
    }
}

#[test]
fn cached_form_writes_the_time_as_rfc3339() {
    let cached = CachedStory::from(sample(7, 1_746_373_400));
    assert_eq!(cached.created_at_string, "2025-05-04T15:43:20Z");
    assert_eq!(cached.id, 7);
    assert_eq!(cached.title, "Story 7");
    assert_eq!(cached.url, "https://example.com/7");
    assert_eq!(cached.text, "Some text");
    assert_eq!(cached.by, "author");
    assert_eq!(cached.score, 42);
    assert_eq!(cached.number_of_comments, 3);
    assert_eq!(cached.comments, vec![8, 9, 10]);
}

#[test]
fn cached_form_of_the_epoch() {
    let cached = CachedStory::from(sample(1, 0));
    assert_eq!(cached.created_at_string, "1970-01-01T00:00:00Z");
}

#[test]
fn cached_form_reads_back_as_the_story() {
    let story = sample(9, 1_546_300_800);
    let cached = CachedStory::from(story.clone());
    assert_eq!(cached.created_at_string, "2019-01-01T00:00:00Z");
    let restored = cached.to_story().expect("the entry reads back");
    assert_eq!(restored.id, story.id);
    assert_eq!(restored.title, story.title);
    assert_eq!(restored.url, story.url);
    assert_eq!(restored.text, story.text);
    assert_eq!(restored.by, story.by);
    assert_eq!(restored.score, story.score);
    assert_eq!(restored.created_at, 1_546_300_800);
    assert_eq!(restored.number_of_comments, story.number_of_comments);
    assert_eq!(restored.comments, story.comments);
}

#[test]
fn time_outside_the_calendar_is_kept_as_empty_text() {
    let cached = CachedStory::from(sample(3, i64::MAX));
    assert_eq!(cached.created_at_string, "");
    assert_eq!(cached.to_story().err(), Some(CacheConversionFailure));
}

#[test]
fn time_before_year_zero_is_kept_as_empty_text() {
    let cached = CachedStory::from(sample(3, -100_000_000_000));
    assert_eq!(cached.created_at_string, "");
}

#[test]
fn entry_with_unreadable_time_does_not_read_back() {
    let mut cached = CachedStory::from(sample(4, 1_000));
    cached.created_at_string = String::from("2025-05-04 15:43:20.0 +00:00:00");
    assert_eq!(cached.to_story().err(), Some(CacheConversionFailure));
    cached.created_at_string = String::from("not a date");
    assert_eq!(cached.to_story().err(), Some(CacheConversionFailure));
}

#[test]
fn entry_with_an_offset_reads_back_in_unix_seconds() {
    let mut cached = CachedStory::from(sample(4, 0));
    cached.created_at_string = String::from("1970-01-01T01:00:00+01:00");
    assert_eq!(cached.to_story().map(|story| story.created_at).ok(), Some(0));
    cached.created_at_string = String::from("1985-04-12T23:20:50.52Z");
    assert_eq!(cached.to_story().map(|story| story.created_at).ok(), Some(482_196_050));
}

#[test]
fn clones_hold_the_same_values() {
    let story = sample(11, 1_700_000_000);
    let copy = story.clone();
    assert_eq!(copy.id, 11);
    assert_eq!(copy.title, story.title);
    assert_eq!(copy.comments, story.comments);
    assert_eq!(copy.created_at, story.created_at);
    let cached = CachedStory::from(story);
    let second = cached.clone();
    assert_eq!(second.created_at_string, cached.created_at_string);
    assert_eq!(second.title, cached.title);
    assert_eq!(second.comments, cached.comments);
}
