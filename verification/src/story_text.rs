//! Stories as readable text.
use crate::client::HnClient;
use crate::story::display_text;
use crate::story::display_timestamp;
use crate::story::Story;
use crate::story::StoryView;
use crate::text::decimal;
use crate::text::decimal_text;
use vstd::prelude::*;
use vstd::string::StringExecFns;

verus! {

/// A line of the form label, value, line feed; nothing where the value is
/// empty.
pub open spec fn optional_line(label: Seq<char>, value: Seq<char>) -> Seq<char> {
    if value.len() == 0 {
        Seq::empty()
    } else {
        label + value + "\n"@
    }
}

/// The text of one story with `date` as its date: a line each for title,
/// link, body, author, score, date, number of comments and identifier. The
/// lines for link and body are left out where the story has none.
pub open spec fn dated_story_text(story: StoryView, date: Seq<char>) -> Seq<char> {
    "Title: "@ + story.title + "\n"@ + optional_line("URL: "@, story.url) + optional_line(
        "Text: "@,
        story.text,
    ) + "By: "@ + story.by + "\nScore: "@ + decimal_text(story.score as nat) + "\nDate: "@
        + date + "\nComments: "@ + decimal_text(story.number_of_comments as nat) + "\nID: "@
        + decimal_text(story.id as nat) + "\n"@
}

/// The creation time as it is shown; nothing where it lies outside the
/// calendar.
pub open spec fn date_text(created_at: i64) -> Seq<char> {
    match display_text(created_at) {
        Some(text) => text,
        None => Seq::empty(),
    }
}

/// The text of one story, dated with its creation time.
pub open spec fn story_text(story: StoryView) -> Seq<char> {
    dated_story_text(story, date_text(story.created_at))
}

impl HnClient {
    /// Writes a story as readable text, dated with its creation time.
    pub fn format_story(story: &Story) -> (text: String)
        ensures
            text@ == story_text(story@),
    {
        match display_timestamp(story.created_at) {
            Some(date) => HnClient::format_dated_story(story, date.as_str()),
            None => {
                proof {
                    reveal_strlit("");
                    assert(""@ =~= Seq::<char>::empty());
                }
                HnClient::format_dated_story(story, "")
            },
        }
    }

    /// Writes a story as readable text with `date` as its date.
    pub fn format_dated_story(story: &Story, date: &str) -> (text: String)
        ensures
            text@ == dated_story_text(story@, date@),
    {
        let mut text: String = "Title: ".to_owned();
        text.append(story.title.as_str());
        text.append("\n");
        if !story.url.as_str().is_empty() {
            text.append("URL: ");
            text.append(story.url.as_str());
            text.append("\n");
        }
        assert(text@ =~= "Title: "@ + story@.title + "\n"@ + optional_line("URL: "@, story@.url));
        if !story.text.as_str().is_empty() {
            text.append("Text: ");
            text.append(story.text.as_str());
            text.append("\n");
        }
        assert(text@ =~= "Title: "@ + story@.title + "\n"@ + optional_line("URL: "@, story@.url)
            + optional_line("Text: "@, story@.text));
        text.append("By: ");
        text.append(story.by.as_str());
        text.append("\nScore: ");
        text.append(decimal(story.score as u64).as_str());
        text.append("\nDate: ");
        text.append(date);
        text.append("\nComments: ");
        text.append(decimal(story.number_of_comments as u64).as_str());
        text.append("\nID: ");
        text.append(decimal(story.id as u64).as_str());
        text.append("\n");
        assert(text@ =~= dated_story_text(story@, date@));
        text
    }
}

} // verus!
