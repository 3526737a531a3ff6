//! Items as the upstream source delivers them, and the form in which the cache
//! keeps them.
//!
//! A [`Story`] carries its creation time as seconds since the Unix epoch. The
//! cache keeps a [`CachedStory`], in which that time is written out as text;
//! reading an entry back succeeds only if the text is a date-time again.
use time::OffsetDateTime;
use time::format_description::well_known::Rfc3339;
use vstd::prelude::*;

verus! {

/// One item of the upstream source.
#[derive(Debug, PartialEq, Eq)]
pub struct Story {
    /// The item's identifier.
    pub id: u32,
    /// Title of the story.
    pub title: String,
    /// Link of the story; empty when it has none.
    pub url: String,
    /// Body text of the story; empty when it has none.
    pub text: String,
    /// Name of the author.
    pub by: String,
    /// Number of upvotes.
    pub score: u32,
    /// Creation time in seconds since the Unix epoch.
    pub created_at: i64,
    /// Total number of comments.
    pub number_of_comments: u32,
    /// Identifiers of the direct replies.
    pub comments: Vec<u32>,
}

/// What a [`Story`] holds, as mathematical values.
pub struct StoryView {
    pub id: u32,
    pub title: Seq<char>,
    pub url: Seq<char>,
    pub text: Seq<char>,
    pub by: Seq<char>,
    pub score: u32,
    pub created_at: i64,
    pub number_of_comments: u32,
    pub comments: Seq<u32>,
}

impl View for Story {
    type V = StoryView;

    open spec fn view(&self) -> StoryView {
        StoryView {
            id: self.id,
            title: self.title@,
            url: self.url@,
            text: self.text@,
            by: self.by@,
            score: self.score,
            created_at: self.created_at,
            number_of_comments: self.number_of_comments,
            comments: self.comments@,
        }
    }
}

impl Clone for Story {
    /// A second story that holds the same values.
    fn clone(&self) -> (copy: Story)
        ensures
            copy@ == self@,
    {
        let comments: Vec<u32> = self.comments.clone();
        assert(comments@ =~= self.comments@);
        Story {
            id: self.id,
            title: self.title.clone(),
            url: self.url.clone(),
            text: self.text.clone(),
            by: self.by.clone(),
            score: self.score,
            created_at: self.created_at,
            number_of_comments: self.number_of_comments,
            comments,
        }
    }
}

/// The form in which the cache keeps a story.
#[derive(Debug, PartialEq, Eq)]
pub struct CachedStory {
    pub id: u32,
    pub title: String,
    pub url: String,
    pub text: String,
    pub by: String,
    pub score: u32,
    /// The creation time as an RFC 3339 date-time; empty when the time cannot
    /// be written so.
    pub created_at_string: String,
    pub number_of_comments: u32,
    pub comments: Vec<u32>,
}

/// What a [`CachedStory`] holds, as mathematical values.
pub struct CachedStoryView {
    pub id: u32,
    pub title: Seq<char>,
    pub url: Seq<char>,
    pub text: Seq<char>,
    pub by: Seq<char>,
    pub score: u32,
    pub created_at_string: Seq<char>,
    pub number_of_comments: u32,
    pub comments: Seq<u32>,
}

impl View for CachedStory {
    type V = CachedStoryView;

    open spec fn view(&self) -> CachedStoryView {
        CachedStoryView {
            id: self.id,
            title: self.title@,
            url: self.url@,
            text: self.text@,
            by: self.by@,
            score: self.score,
            created_at_string: self.created_at_string@,
            number_of_comments: self.number_of_comments,
            comments: self.comments@,
        }
    }
}

impl Clone for CachedStory {
    /// A second entry that holds the same values.
    fn clone(&self) -> (copy: CachedStory)
        ensures
            copy@ == self@,
    {
        let comments: Vec<u32> = self.comments.clone();
        assert(comments@ =~= self.comments@);
        CachedStory {
            id: self.id,
            title: self.title.clone(),
            url: self.url.clone(),
            text: self.text.clone(),
            by: self.by.clone(),
            score: self.score,
            created_at_string: self.created_at_string.clone(),
            number_of_comments: self.number_of_comments,
            comments,
        }
    }
}

/// A cached entry whose creation time is no date-time.
#[derive(Clone, Copy, Debug, PartialEq, Eq)]
pub struct CacheConversionFailure;

/// The RFC 3339 text that the `time` crate writes for the UTC date-time
/// `unix` seconds after the Unix epoch, or `None` where it writes none.
pub uninterp spec fn rfc3339_text(unix: i64) -> Option<Seq<char>>;

/// The Unix time, in whole seconds, of the date-time that the `time` crate
/// reads from `text` as RFC 3339, or `None` where it reads none.
pub uninterp spec fn rfc3339_seconds(text: Seq<char>) -> Option<i64>;

/// The text that the `time` crate displays for the UTC date-time `unix`
/// seconds after the Unix epoch, or `None` where `unix` lies outside its
/// calendar.
pub uninterp spec fn display_text(unix: i64) -> Option<Seq<char>>;

/// `Display` of `time::OffsetDateTime`, applied to the date-time that
/// `OffsetDateTime::from_unix_timestamp` makes of `unix`. The text is a
/// function of `unix` alone, named [`display_text`]; it is `None` where
/// `from_unix_timestamp` reports an error.
#[verifier::external_body]
pub(crate) fn display_timestamp(unix: i64) -> (text: Option<String>)
    ensures
        match text {
            Some(t) => display_text(unix) == Some(t@),
            None => display_text(unix) is None,
        },
{
    match OffsetDateTime::from_unix_timestamp(unix) {
        Ok(moment) => Some(moment.to_string()),
        Err(_) => None,
    }
}

/// `time::OffsetDateTime::format` with `Rfc3339`, applied to the date-time
/// that `OffsetDateTime::from_unix_timestamp` makes of `unix`. The text is a
/// function of `unix` alone, named [`rfc3339_text`]; it is `None` where either
/// call reports an error.
#[verifier::external_body]
fn format_timestamp(unix: i64) -> (text: Option<String>)
    ensures
        match text {
            Some(t) => rfc3339_text(unix) == Some(t@),
            None => rfc3339_text(unix) is None,
        },
{
    match OffsetDateTime::from_unix_timestamp(unix) {
        Ok(moment) => moment.format(&Rfc3339).ok(),
        Err(_) => None,
    }
}

/// `time::OffsetDateTime::parse` with `Rfc3339`, followed by
/// `OffsetDateTime::unix_timestamp`. The number is a function of the text
/// alone, named [`rfc3339_seconds`]; it is `None` where the text is refused.
#[verifier::external_body]
fn parse_timestamp(text: &str) -> (unix: Option<i64>)
    ensures
        unix == rfc3339_seconds(text@),
{
    match OffsetDateTime::parse(text, &Rfc3339) {
        Ok(moment) => Some(moment.unix_timestamp()),
        Err(_) => None,
    }
}

impl StoryView {
    /// The cached form of this story with `time_text` as the written-out
    /// creation time; with empty text where there is none.
    pub open spec fn stored_with(self, time_text: Option<Seq<char>>) -> CachedStoryView {
        CachedStoryView {
            id: self.id,
            title: self.title,
            url: self.url,
            text: self.text,
            by: self.by,
            score: self.score,
            created_at_string: match time_text {
                Some(t) => t,
                None => Seq::empty(),
            },
            number_of_comments: self.number_of_comments,
            comments: self.comments,
        }
    }

    /// The form in which the cache keeps this story: the creation time is
    /// written as an RFC 3339 date-time.
    pub open spec fn stored(self) -> CachedStoryView {
        self.stored_with(rfc3339_text(self.created_at))
    }

    /// True when the cached form of this story reads back as this story.
    pub open spec fn survives_storage(self) -> bool {
        self.stored().restored() == Some(self)
    }
}

impl CachedStoryView {
    /// The story that this entry stands for when its creation time reads as
    /// `created_at`; none when the time does not read at all.
    pub open spec fn restored_with(self, created_at: Option<i64>) -> Option<StoryView> {
        match created_at {
            Some(unix) => Some(
                StoryView {
                    id: self.id,
                    title: self.title,
                    url: self.url,
                    text: self.text,
                    by: self.by,
                    score: self.score,
                    created_at: unix,
                    number_of_comments: self.number_of_comments,
                    comments: self.comments,
                },
            ),
            None => None,
        }
    }

    /// The story that this entry reads back as, if its creation time is an
    /// RFC 3339 date-time.
    pub open spec fn restored(self) -> Option<StoryView> {
        self.restored_with(rfc3339_seconds(self.created_at_string))
    }
}

impl CachedStory {
    /// The cached form of `story` with `time_text` as the written-out
    /// creation time, and with empty text where there is none.
    pub fn with_time_text(story: Story, time_text: Option<String>) -> (cached: CachedStory)
        ensures
            cached@ == story@.stored_with(
                match time_text {
                    Some(text) => Some(text@),
                    None => None,
                },
            ),
    {
        let created_at_string: String = match time_text {
            Some(text) => text,
            None => String::new(),
        };
        CachedStory {
            id: story.id,
            title: story.title,
            url: story.url,
            text: story.text,
            by: story.by,
            score: story.score,
            created_at_string,
            number_of_comments: story.number_of_comments,
            comments: story.comments,
        }
    }

    /// Writes the story in the form that the cache keeps.
    pub fn from(story: Story) -> (cached: CachedStory)
        ensures
            cached@ == story@.stored(),
    {
        let time_text: Option<String> = format_timestamp(story.created_at);
        CachedStory::with_time_text(story, time_text)
    }

    /// The story that the entry stands for when its creation time reads as
    /// `created_at`; a failure when the time does not read at all.
    pub fn restore(&self, created_at: Option<i64>) -> (result: Result<
        Story,
        CacheConversionFailure,
    >)
        ensures
            match result {
                Ok(story) => self@.restored_with(created_at) == Some(story@),
                Err(_) => self@.restored_with(created_at) is None,
            },
    {
        let created_at: i64 = match created_at {
            Some(unix) => unix,
            None => { return Err(CacheConversionFailure); },
        };
        let comments: Vec<u32> = self.comments.clone();
        assert(comments@ =~= self.comments@);
        Ok(
            Story {
                id: self.id,
                title: self.title.clone(),
                url: self.url.clone(),
                text: self.text.clone(),
                by: self.by.clone(),
                score: self.score,
                created_at,
                number_of_comments: self.number_of_comments,
                comments,
            },
        )
    }

    /// Reads the entry back as a story. Fails when the creation time is no
    /// date-time; the entry is then of no use to a reader.
    pub fn to_story(&self) -> (result: Result<Story, CacheConversionFailure>)
        ensures
            match result {
                Ok(story) => self@.restored() == Some(story@),
                Err(_) => self@.restored() is None,
            },
    {
        let created_at: Option<i64> = parse_timestamp(self.created_at_string.as_str());
        self.restore(created_at)
    }
}

} // verus!
