//! The story tools: what a request asks for, and the text of the reply.
use crate::client::failure_text;
use crate::client::story_views;
use crate::client::FetchError;
use crate::client::HnClient;
use crate::ranking::ranked;
use crate::ranking::sort_by_score;
use crate::story::Story;
use crate::story::StoryView;
use crate::story_text::story_text;
use crate::text::decimal;
use crate::text::decimal_text;
use crate::text::join;
use crate::text::joined;
use crate::text::text_views;
use vstd::prelude::*;
use vstd::string::StringExecFns;

verus! {

/// Stories fetched where a request names no number.
pub const DEFAULT_STORY_COUNT: usize = 10;

/// Stories fetched at most.
pub const MAX_STORY_COUNT: usize = 30;

/// Stories fetched at a time where a request names no number.
pub const DEFAULT_PARALLEL_FETCHES: usize = 5;

/// Stories fetched at a time at most.
pub const MAX_PARALLEL_FETCHES: usize = 10;

/// The number of stories that a request is served with.
pub open spec fn requested_count(count: Option<usize>) -> usize {
    match count {
        Some(n) => if n < MAX_STORY_COUNT {
            n
        } else {
            MAX_STORY_COUNT
        },
        None => DEFAULT_STORY_COUNT,
    }
}

/// The number of stories that are fetched at a time for a request: between
/// one and ten.
pub open spec fn requested_chunk_size(chunk_size: Option<usize>) -> usize {
    match chunk_size {
        Some(n) => if n < 1 {
            1
        } else if n > MAX_PARALLEL_FETCHES {
            MAX_PARALLEL_FETCHES
        } else {
            n
        },
        None => DEFAULT_PARALLEL_FETCHES,
    }
}

/// The texts of the stories, one per story.
pub open spec fn story_texts(stories: Seq<StoryView>) -> Seq<Seq<char>> {
    stories.map_values(|story: StoryView| story_text(story))
}

/// The reply that shows a list of stories: the stories by descending score,
/// separated by a rule; a fixed sentence where there is none.
pub open spec fn stories_text(stories: Seq<StoryView>) -> Seq<char> {
    if stories.len() == 0 {
        "No stories found"@
    } else {
        joined(story_texts(ranked(stories)), "\n---\n"@)
    }
}

/// The reply to a request for a list of stories: the stories, or the failure
/// with `prefix` in front of it.
pub open spec fn listing_reply(outcome: Result<Vec<Story>, String>, prefix: Seq<char>) -> Seq<
    char,
> {
    match outcome {
        Ok(stories) => stories_text(story_views(stories@)),
        Err(reason) => prefix + reason@,
    }
}

/// The reply to a request for the single story `id`.
pub open spec fn story_reply(id: u32, outcome: Result<Story, FetchError>) -> Seq<char> {
    match outcome {
        Ok(story) => story_text(story@),
        Err(error) => "Error fetching story with ID "@ + decimal_text(id as nat) + ": "@
            + failure_text(error, id),
    }
}

/// Words the outcome of a request for a list of stories.
fn reply_to_listing(outcome: &Result<Vec<Story>, String>, prefix: &str) -> (text: String)
    ensures
        text@ == listing_reply(*outcome, prefix@),
{
    match outcome {
        Ok(stories) => HnRouter::get_hacker_news_stories(stories),
        Err(reason) => {
            let mut text: String = prefix.to_owned();
            text.append(reason.as_str());
            text
        },
    }
}

/// The story tools.
pub struct HnRouter {
    /// The client that serves the stories.
    pub hn_client: HnClient,
}

impl HnRouter {
    /// The tools on top of a client.
    pub fn new(hn_client: HnClient) -> (router: HnRouter)
        ensures
            router.hn_client == hn_client,
    {
        HnRouter { hn_client }
    }

    /// The number of stories to fetch: the number asked for, but ten where
    /// none is named and never more than thirty.
    pub fn story_count(count: Option<usize>) -> (n: usize)
        ensures
            n == requested_count(count),
    {
        match count {
            Some(n) => if n < MAX_STORY_COUNT {
                n
            } else {
                MAX_STORY_COUNT
            },
            None => DEFAULT_STORY_COUNT,
        }
    }

    /// The number of stories to fetch at a time: the number asked for, but
    /// five where none is named, at least one and at most ten.
    pub fn chunk_size(chunk_size: Option<usize>) -> (n: usize)
        ensures
            n == requested_chunk_size(chunk_size),
            1 <= n <= MAX_PARALLEL_FETCHES,
    {
        match chunk_size {
            Some(n) => if n < 1 {
                1
            } else if n > MAX_PARALLEL_FETCHES {
                MAX_PARALLEL_FETCHES
            } else {
                n
            },
            None => DEFAULT_PARALLEL_FETCHES,
        }
    }

    /// Writes the reply that shows `stories`: the stories by descending
    /// score, each as its text, with a rule between neighbours.
    pub fn get_hacker_news_stories(stories: &Vec<Story>) -> (text: String)
        ensures
            text@ == stories_text(story_views(stories@)),
    {
        if stories.len() == 0 {
            return "No stories found".to_owned();
        }
        let sorted: Vec<Story> = sort_by_score(stories);
        let ghost views = story_views(sorted@);
        let mut parts: Vec<String> = Vec::with_capacity(sorted.len());
        let mut i: usize = 0;
        assert(text_views(parts@) =~= story_texts(views.take(0)));
        while i < sorted.len()
            invariant
                i <= sorted.len(),
                views == story_views(sorted@),
                views.len() == sorted@.len(),
                parts@.len() == i,
                text_views(parts@) == story_texts(views.take(i as int)),
            decreases sorted.len() - i,
        {
            let part: String = HnClient::format_story(&sorted[i]);
            let ghost before = parts@;
            parts.push(part);
            i += 1;
            proof {
                let shown = story_texts(views.take(i as int));
                assert(views[i - 1] == sorted@[i - 1]@);
                assert(text_views(parts@).len() == shown.len());
                assert forall|k: int| 0 <= k < shown.len() implies text_views(parts@)[k]
                    == shown[k] by {
                    if k < i - 1 {
                        assert(text_views(before)[k] == story_texts(views.take(i - 1))[k]);
                    }
                }
                assert(text_views(parts@) =~= shown);
            }
        }
        assert(views.take(sorted@.len() as int) =~= views);
        join(&parts, "\n---\n")
    }

    /// The reply to a request for the top stories.
    pub fn hn_top_stories(outcome: &Result<Vec<Story>, String>) -> (text: String)
        ensures
            text@ == listing_reply(*outcome, "Error fetching top stories: "@),
    {
        reply_to_listing(outcome, "Error fetching top stories: ")
    }

    /// The reply to a request for the latest stories.
    pub fn hn_latest_stories(outcome: &Result<Vec<Story>, String>) -> (text: String)
        ensures
            text@ == listing_reply(*outcome, "Error fetching latest stories: "@),
    {
        reply_to_listing(outcome, "Error fetching latest stories: ")
    }

    /// The reply to a request for the best stories.
    pub fn hn_best_stories(outcome: &Result<Vec<Story>, String>) -> (text: String)
        ensures
            text@ == listing_reply(*outcome, "Error fetching best stories: "@),
    {
        reply_to_listing(outcome, "Error fetching best stories: ")
    }

    /// The reply to a request for the questions to the community.
    pub fn hn_ask_stories(outcome: &Result<Vec<Story>, String>) -> (text: String)
        ensures
            text@ == listing_reply(*outcome, "Error fetching Ask HN stories: "@),
    {
        reply_to_listing(outcome, "Error fetching Ask HN stories: ")
    }

    /// The reply to a request for the project showcases.
    pub fn hn_show_stories(outcome: &Result<Vec<Story>, String>) -> (text: String)
        ensures
            text@ == listing_reply(*outcome, "Error fetching Show HN stories: "@),
    {
        reply_to_listing(outcome, "Error fetching Show HN stories: ")
    }

    /// The reply to a request for the single story `id`: the story's text,
    /// or the report of the failure.
    pub fn hn_story_by_id(id: u32, outcome: &Result<Story, FetchError>) -> (text: String)
        ensures
            text@ == story_reply(id, *outcome),
    {
        match outcome {
            Ok(story) => HnClient::format_story(story),
            Err(error) => {
                let mut text: String = "Error fetching story with ID ".to_owned();
                text.append(decimal(id as u64).as_str());
                text.append(": ");
                text.append(error.describe(id).as_str());
                text
            },
        }
    }
}

} // verus!
