//! The story client: what is served from the cache, what is asked of the
//! upstream source, and in which groups.
//!
//! The client never calls the upstream source itself. A fetch is a short
//! exchange with the embedding program: the client looks into its cache and
//! names the identifiers that are missing; the program asks the upstream
//! source for them, one group at a time, and hands each group's answers back.
use crate::cache::distinct_keys;
use crate::cache::inserted;
use crate::cache::lemma_entry_outlives_few_uses;
use crate::cache::lemma_inserted_keeps_shape;
use crate::cache::lemma_touched_keeps_shape;
use crate::cache::lookup;
use crate::cache::touched;
use crate::cache::used;
use crate::cache::used_ids;
use crate::cache::CacheUse;
use crate::cache::ItemCache;
use crate::rate_limit::RateLimitExceeded;
use crate::rate_limit::RateLimiter;
use crate::story::CachedStory;
use crate::story::CachedStoryView;
use crate::story::Story;
use crate::story::StoryView;
use crate::text::decimal;
use crate::text::decimal_text;
use vstd::prelude::*;
use vstd::string::StringExecFns;

verus! {

/// Entries for which a client made with [`HnClient::new`] has room.
pub const DEFAULT_CACHE_SIZE: usize = 100;

/// Identifiers asked of the upstream source at a time where the caller names
/// no number.
pub const DEFAULT_CHUNK_SIZE: usize = 5;

/// Why the upstream source gave no story.
#[derive(Debug, PartialEq, Eq)]
pub enum FetchError {
    /// The request budget refused the call, which was not made.
    RateLimitExceeded,
    /// The upstream source failed; the text is its own description.
    Upstream(String),
}

/// The failure in words: the refusal of the request budget, or what the
/// upstream source said.
pub open spec fn failure_reason(error: FetchError) -> Seq<char> {
    match error {
        FetchError::RateLimitExceeded => "Rate limit exceeded"@,
        FetchError::Upstream(reason) => reason@,
    }
}

/// The report of a failed request for the story `id`.
pub open spec fn failure_text(error: FetchError, id: u32) -> Seq<char> {
    "Failed to fetch story with ID "@ + decimal_text(id as nat) + ": "@ + failure_reason(error)
}

impl FetchError {
    /// Reports the failure of a request for the story `id`.
    pub fn describe(&self, id: u32) -> (text: String)
        ensures
            text@ == failure_text(*self, id),
    {
        let mut text: String = "Failed to fetch story with ID ".to_owned();
        text.append(decimal(id as u64).as_str());
        text.append(": ");
        match self {
            FetchError::RateLimitExceeded => {
                text.append(RateLimitExceeded.message().as_str());
            },
            FetchError::Upstream(reason) => {
                text.append(reason.as_str());
            },
        }
        text
    }
}

/// Decides whether the upstream source may be asked for the story `id` now:
/// the request is counted against the budget, and where the budget refuses
/// it, the story counts as failed without a call.
pub fn permit_fetch(limiter: &mut RateLimiter, id: u32) -> (result: Result<u32, FetchError>)
    requires
        old(limiter).wf(),
    ensures
        RateLimiter::decided(*old(limiter), *final(limiter), result is Ok),
        match result {
            Ok(permitted) => permitted == id,
            Err(error) => error is RateLimitExceeded,
        },
{
    match limiter.check_rate_limit() {
        Ok(_) => Ok(id),
        Err(_) => Err(FetchError::RateLimitExceeded),
    }
}

/// The story that a cache with these entries serves for `id`: the entry kept
/// under `id`, read back. An entry that cannot be read back serves nothing.
pub open spec fn served(entries: Seq<(u32, CachedStoryView)>, id: u32) -> Option<StoryView> {
    match lookup(entries, id) {
        Some(entry) => entry.restored(),
        None => None,
    }
}

/// The outcome of looking a list of identifiers up, one after the other.
pub struct Partition {
    /// The cache's entries after the lookups.
    pub entries: Seq<(u32, CachedStoryView)>,
    /// The stories that the cache served, in the order of the identifiers.
    pub hits: Seq<StoryView>,
    /// The identifiers for which it served none, in their order.
    pub misses: Seq<u32>,
}

/// Looks `ids` up from left to right. Every lookup that finds an entry makes
/// it the most recently used one, whether or not it can be read back.
pub open spec fn partition(entries: Seq<(u32, CachedStoryView)>, ids: Seq<u32>) -> Partition
    decreases ids.len(),
{
    if ids.len() == 0 {
        Partition { entries, hits: Seq::empty(), misses: Seq::empty() }
    } else {
        let before = partition(entries, ids.drop_last());
        let id = ids.last();
        match served(before.entries, id) {
            Some(story) => Partition {
                entries: touched(before.entries, id),
                hits: before.hits.push(story),
                misses: before.misses,
            },
            None => Partition {
                entries: touched(before.entries, id),
                hits: before.hits,
                misses: before.misses.push(id),
            },
        }
    }
}

/// The story that an answer of the upstream source carries, if any.
pub open spec fn yielded(outcome: Result<Story, FetchError>) -> Option<StoryView> {
    match outcome {
        Ok(story) => Some(story@),
        Err(_) => None,
    }
}

/// The stories that a list of answers carries, one place per answer.
pub open spec fn yields(outcomes: Seq<Result<Story, FetchError>>) -> Seq<Option<StoryView>> {
    outcomes.map_values(|outcome: Result<Story, FetchError>| yielded(outcome))
}

/// The first identifiers of `pending` that are asked for together: at most
/// `chunk_size` of them.
pub open spec fn first_group(pending: Seq<u32>, chunk_size: nat) -> Seq<u32> {
    if pending.len() <= chunk_size {
        pending
    } else {
        pending.take(chunk_size as int)
    }
}

/// The cache's entries and the collected stories of a batch.
pub struct Progress {
    pub entries: Seq<(u32, CachedStoryView)>,
    pub stories: Seq<StoryView>,
}

/// Takes the answers for `group` in: the answer at a place belongs to the
/// identifier at that place. A story is kept in the cache under the
/// identifier it was asked for and joins the collected ones; an identifier
/// with a failure, or without an answer, leaves no trace.
pub open spec fn absorbed(
    start: Progress,
    capacity: nat,
    group: Seq<u32>,
    answers: Seq<Option<StoryView>>,
) -> Progress
    decreases group.len(),
{
    if group.len() == 0 {
        start
    } else {
        let before = absorbed(start, capacity, group.drop_last(), answers);
        let at = group.len() - 1;
        if at < answers.len() && answers[at] is Some {
            let story = answers[at]->Some_0;
            Progress {
                entries: inserted(before.entries, capacity, group[at], story.stored()),
                stories: before.stories.push(story),
            }
        } else {
            before
        }
    }
}

/// The stories of `stories` as mathematical values.
pub open spec fn story_views(stories: Seq<Story>) -> Seq<StoryView> {
    stories.map_values(|story: Story| story@)
}

/// A batch in progress: the stories collected so far and the identifiers that
/// the upstream source is still to be asked for.
pub struct BatchFetch {
    stories: Vec<Story>,
    to_fetch: Vec<u32>,
    next: usize,
    chunk_size: usize,
}

impl BatchFetch {
    /// The stories collected so far.
    pub closed spec fn collected(&self) -> Seq<StoryView> {
        story_views(self.stories@)
    }

    /// The identifiers that are still to be asked for, in order.
    pub closed spec fn pending(&self) -> Seq<u32> {
        self.to_fetch@.skip(self.next as int)
    }

    /// The largest number of identifiers asked for together.
    pub closed spec fn chunk_size(&self) -> nat {
        self.chunk_size as nat
    }

    /// The batch asks for at least one identifier at a time.
    pub closed spec fn wf(&self) -> bool {
        &&& self.next <= self.to_fetch@.len()
        &&& self.chunk_size >= 1
    }

    /// The identifiers that are to be asked for now, all at once.
    pub open spec fn group(&self) -> Seq<u32> {
        first_group(self.pending(), self.chunk_size())
    }

    /// True when nothing is left to ask for.
    pub fn is_done(&self) -> (done: bool)
        requires
            self.wf(),
        ensures
            done == (self.pending().len() == 0),
    {
        self.next == self.to_fetch.len()
    }

    /// The identifiers to ask the upstream source for now, all at once. There
    /// are never more of them than the batch's chunk size, and there is at
    /// least one unless the batch is done.
    pub fn current_group(&self) -> (group: Vec<u32>)
        requires
            self.wf(),
        ensures
            group@ == self.group(),
            group@.len() <= self.chunk_size(),
            (group@.len() == 0) == (self.pending().len() == 0),
    {
        let total: usize = self.to_fetch.len();
        let remaining: usize = total - self.next;
        let size: usize = if remaining <= self.chunk_size {
            remaining
        } else {
            self.chunk_size
        };
        let mut group: Vec<u32> = Vec::with_capacity(size);
        let mut i: usize = 0;
        while i < size
            invariant
                self.wf(),
                total == self.to_fetch@.len(),
                self.next + size <= total,
                i <= size,
                group@ == self.to_fetch@.subrange(self.next as int, self.next + i),
            decreases size - i,
        {
            group.push(self.to_fetch[self.next + i]);
            i += 1;
            assert(group@ =~= self.to_fetch@.subrange(self.next as int, self.next + i));
        }
        assert(group@ =~= self.group());
        group
    }

    /// Ends the batch and hands out the collected stories.
    pub fn into_stories(self) -> (stories: Vec<Story>)
        ensures
            story_views(stories@) == self.collected(),
            stories@.len() == self.collected().len(),
    {
        self.stories
    }
}

/// The story client: a cache in front of the upstream source.
pub struct HnClient {
    story_cache: ItemCache,
}

impl Default for HnClient {
    /// A client whose cache is empty and has room for a hundred stories.
    fn default() -> (client: HnClient)
        ensures
            client.wf(),
            client.entries().len() == 0,
            client.capacity() == DEFAULT_CACHE_SIZE,
    {
        HnClient::new()
    }
}

impl HnClient {
    /// The cache's entries, the most recently used first.
    pub closed spec fn entries(&self) -> Seq<(u32, CachedStoryView)> {
        self.story_cache.entries()
    }

    /// The number of entries that the cache holds at most.
    pub closed spec fn capacity(&self) -> nat {
        self.story_cache.capacity()
    }

    /// The cache is well formed.
    pub closed spec fn wf(&self) -> bool {
        self.story_cache.wf()
    }

    /// A client whose cache is empty and has room for a hundred stories.
    pub fn new() -> (client: HnClient)
        ensures
            client.wf(),
            client.entries().len() == 0,
            client.capacity() == DEFAULT_CACHE_SIZE,
    {
        HnClient { story_cache: ItemCache::new(DEFAULT_CACHE_SIZE) }
    }

    /// A client whose cache is empty and has room for `cache_size` stories;
    /// for one story where `cache_size` is zero.
    pub fn with_cache_size(cache_size: usize) -> (client: HnClient)
        ensures
            client.wf(),
            client.entries().len() == 0,
            client.capacity() == if cache_size == 0 {
                1
            } else {
                cache_size as nat
            },
    {
        HnClient { story_cache: ItemCache::new(cache_size) }
    }

    /// The number of stories in the cache.
    pub fn cached_stories(&self) -> (len: usize)
        ensures
            len == self.entries().len(),
    {
        self.story_cache.len()
    }

    /// Looks one story up in the cache. `Some` is the story that the cache
    /// serves; on `None` the upstream source has to be asked, and its answer
    /// goes to [`Self::store_story_details`]. An entry that is found becomes
    /// the most recently used one, also where it cannot be read back.
    pub fn get_story_details(&mut self, id: u32) -> (hit: Option<Story>)
        requires
            old(self).wf(),
        ensures
            final(self).wf(),
            final(self).capacity() == old(self).capacity(),
            final(self).entries() == touched(old(self).entries(), id),
            match hit {
                Some(story) => served(old(self).entries(), id) == Some(story@),
                None => served(old(self).entries(), id) is None,
            },
    {
        match self.story_cache.get(id) {
            Some(entry) => match entry.to_story() {
                Ok(story) => Some(story),
                Err(_) => None,
            },
            None => None,
        }
    }

    /// Takes in the upstream source's answer for the single story `id`. A
    /// story is kept in the cache under `id` and handed on; a failure is
    /// handed on as it is and leaves the cache alone.
    pub fn store_story_details(&mut self, id: u32, outcome: Result<Story, FetchError>) -> (result:
        Result<Story, FetchError>)
        requires
            old(self).wf(),
        ensures
            final(self).wf(),
            final(self).capacity() == old(self).capacity(),
            result == outcome,
            final(self).entries() == match yielded(outcome) {
                Some(story) => inserted(
                    old(self).entries(),
                    old(self).capacity(),
                    id,
                    story.stored(),
                ),
                None => old(self).entries(),
            },
    {
        match outcome {
            Ok(story) => {
                let entry: CachedStory = CachedStory::from(story.clone());
                self.story_cache.put(id, entry);
                Ok(story)
            },
            Err(error) => Err(error),
        }
    }

    /// Starts a batch: looks every identifier of `ids` up in the cache, in
    /// order and each occurrence for itself. The stories that the cache serves
    /// are collected; the other identifiers are left to ask the upstream
    /// source for, in groups of `chunk_size`. The chunk size is five where
    /// none is given, and one where zero is given.
    pub fn get_stories_details(&mut self, ids: Vec<u32>, chunk_size: Option<usize>) -> (batch:
        BatchFetch)
        requires
            old(self).wf(),
        ensures
            final(self).wf(),
            final(self).capacity() == old(self).capacity(),
            batch.wf(),
            batch.chunk_size() == effective_chunk_size(chunk_size),
            final(self).entries() == partition(old(self).entries(), ids@).entries,
            batch.collected() == partition(old(self).entries(), ids@).hits,
            batch.pending() == partition(old(self).entries(), ids@).misses,
    {
        let chunk_size: usize = match chunk_size {
            Some(size) => if size == 0 {
                1
            } else {
                size
            },
            None => DEFAULT_CHUNK_SIZE,
        };
        let ghost start = self.entries();
        let mut stories: Vec<Story> = Vec::with_capacity(ids.len());
        let mut to_fetch: Vec<u32> = Vec::new();
        let mut i: usize = 0;
        assert(ids@.take(0) =~= Seq::<u32>::empty());
        assert(story_views(stories@) =~= Seq::<StoryView>::empty());
        while i < ids.len()
            invariant
                i <= ids.len(),
                self.wf(),
                self.capacity() == old(self).capacity(),
                self.entries() == partition(start, ids@.take(i as int)).entries,
                story_views(stories@) == partition(start, ids@.take(i as int)).hits,
                to_fetch@ == partition(start, ids@.take(i as int)).misses,
            decreases ids.len() - i,
        {
            let id: u32 = ids[i];
            let ghost before = stories@;
            proof {
                assert(ids@.take(i + 1).drop_last() =~= ids@.take(i as int));
                assert(ids@.take(i + 1).last() == id);
            }
            match self.get_story_details(id) {
                Some(story) => {
                    stories.push(story);
                    assert(story_views(stories@) =~= story_views(before).push(story@));
                },
                None => {
                    to_fetch.push(id);
                },
            }
            i += 1;
        }
        assert(ids@.take(ids@.len() as int) =~= ids@);
        assert(to_fetch@.skip(0) =~= to_fetch@);
        BatchFetch { stories, to_fetch, next: 0, chunk_size }
    }

    /// Takes in the upstream source's answers for the group that `batch` is
    /// waiting for; the answer at a place belongs to the identifier at that
    /// place of [`BatchFetch::current_group`]. Each story is kept in the cache
    /// under the identifier it was asked for and joins the collected ones. A
    /// failure, or a missing answer, drops that identifier from the batch and
    /// touches nothing else; answers beyond the group are ignored. The batch
    /// then waits for its next group.
    pub fn store_stories_details(
        &mut self,
        batch: &mut BatchFetch,
        outcomes: Vec<Result<Story, FetchError>>,
    )
        requires
            old(self).wf(),
            old(batch).wf(),
        ensures
            final(self).wf(),
            final(self).capacity() == old(self).capacity(),
            final(batch).wf(),
            final(batch).chunk_size() == old(batch).chunk_size(),
            final(batch).pending() == old(batch).pending().skip(old(batch).group().len() as int),
            (Progress { entries: final(self).entries(), stories: final(batch).collected() })
                == absorbed(
                (Progress { entries: old(self).entries(), stories: old(batch).collected() }),
                old(self).capacity(),
                old(batch).group(),
                yields(outcomes@),
            ),
    {
        let total: usize = batch.to_fetch.len();
        let remaining: usize = total - batch.next;
        let size: usize = if remaining <= batch.chunk_size {
            remaining
        } else {
            batch.chunk_size
        };
        let ghost start = Progress { entries: self.entries(), stories: batch.collected() };
        let ghost group = batch.group();
        let ghost answers = yields(outcomes@);
        let ghost capacity = self.capacity();
        assert(group =~= batch.to_fetch@.subrange(batch.next as int, batch.next + size));
        assert(group.take(0) =~= Seq::<u32>::empty());
        let mut i: usize = 0;
        while i < size
            invariant
                i <= size,
                total == batch.to_fetch@.len(),
                batch.next + size <= total,
                batch.next == old(batch).next,
                batch.to_fetch@ == old(batch).to_fetch@,
                batch.chunk_size == old(batch).chunk_size,
                group == batch.to_fetch@.subrange(batch.next as int, batch.next + size),
                answers == yields(outcomes@),
                self.wf(),
                self.capacity() == capacity,
                (Progress { entries: self.entries(), stories: story_views(batch.stories@) })
                    == absorbed(start, capacity, group.take(i as int), answers),
            decreases size - i,
        {
            let id: u32 = batch.to_fetch[batch.next + i];
            let ghost before = batch.stories@;
            proof {
                assert(group.take(i + 1).drop_last() =~= group.take(i as int));
                assert(group.take(i + 1)[i as int] == id);
                if i < outcomes@.len() {
                    assert(answers[i as int] == yielded(outcomes@[i as int]));
                }
            }
            if i < outcomes.len() {
                match &outcomes[i] {
                    Ok(story) => {
                        let entry: CachedStory = CachedStory::from(story.clone());
                        self.story_cache.put(id, entry);
                        let kept: Story = story.clone();
                        batch.stories.push(kept);
                        assert(story_views(batch.stories@) =~= story_views(before).push(story@));
                    },
                    Err(_) => {},
                }
            }
            i += 1;
        }
        assert(group.take(size as int) =~= group);
        batch.next = batch.next + size;
        assert(batch.to_fetch@.skip(batch.next as int) =~= old(batch).pending().skip(
            group.len() as int,
        ));
    }
}

/// The chunk size that a batch works with: the one asked for, but five where
/// none is named and one in place of zero.
pub open spec fn effective_chunk_size(chunk_size: Option<usize>) -> nat {
    match chunk_size {
        Some(size) => if size == 0 {
            1
        } else {
            size as nat
        },
        None => DEFAULT_CHUNK_SIZE as nat,
    }
}

/// The stories among `answers`, in their order.
pub open spec fn successes(answers: Seq<Option<StoryView>>) -> Seq<StoryView>
    decreases answers.len(),
{
    if answers.len() == 0 {
        Seq::empty()
    } else if answers.last() is Some {
        successes(answers.drop_last()).push(answers.last()->Some_0)
    } else {
        successes(answers.drop_last())
    }
}

/// A batch of no identifiers is done at once: it collects nothing, asks for
/// nothing and leaves the cache as it is.
pub proof fn lemma_empty_batch_asks_nothing(entries: Seq<(u32, CachedStoryView)>, chunk_size: nat)
    ensures
        partition(entries, Seq::empty()).entries == entries,
        partition(entries, Seq::empty()).hits.len() == 0,
        partition(entries, Seq::empty()).misses.len() == 0,
        first_group(partition(entries, Seq::empty()).misses, chunk_size).len() == 0,
{
}

/// Every occurrence of an identifier is either served from the cache or
/// asked for, and the lookups neither add nor drop an entry.
pub proof fn lemma_partition_covers(entries: Seq<(u32, CachedStoryView)>, ids: Seq<u32>)
    requires
        distinct_keys(entries),
    ensures
        partition(entries, ids).hits.len() + partition(entries, ids).misses.len() == ids.len(),
        distinct_keys(partition(entries, ids).entries),
        partition(entries, ids).entries.len() == entries.len(),
        forall|id: u32| served(partition(entries, ids).entries, id) == served(entries, id),
    decreases ids.len(),
{
    if ids.len() > 0 {
        lemma_partition_covers(entries, ids.drop_last());
        lemma_touched_keeps_shape(partition(entries, ids.drop_last()).entries, ids.last());
    }
}

/// No group is larger than the chunk size, and as long as identifiers are
/// pending the group is not empty.
pub proof fn lemma_group_is_bounded(pending: Seq<u32>, chunk_size: nat)
    requires
        chunk_size >= 1,
    ensures
        first_group(pending, chunk_size).len() <= chunk_size,
        first_group(pending, chunk_size).len() <= pending.len(),
        pending.len() > 0 ==> first_group(pending, chunk_size).len() >= 1,
        first_group(pending, chunk_size) == pending.take(
            first_group(pending, chunk_size).len() as int,
        ),
{
    assert(pending.take(pending.len() as int) =~= pending);
}

/// Whatever is pending, a batch that was started with the concurrency bound
/// `concurrency`, which is at least one, never asks for more than that many
/// stories at a time.
pub proof fn lemma_batch_respects_concurrency(pending: Seq<u32>, concurrency: usize)
    requires
        concurrency >= 1,
    ensures
        effective_chunk_size(Some(concurrency)) == concurrency,
        first_group(pending, effective_chunk_size(Some(concurrency))).len() <= concurrency,
{
    lemma_group_is_bounded(pending, effective_chunk_size(Some(concurrency)));
}

/// A story that was taken into the cache is served from it afterwards, so
/// that a second request for its identifier asks the upstream source for
/// nothing. This holds for every story that can be read back from its cached
/// form.
pub proof fn lemma_stored_story_is_served(
    entries: Seq<(u32, CachedStoryView)>,
    capacity: nat,
    id: u32,
    story: StoryView,
)
    requires
        distinct_keys(entries),
        entries.len() <= capacity,
        capacity >= 1,
    ensures
        story.survives_storage() ==> served(
            inserted(entries, capacity, id, story.stored()),
            id,
        ) == Some(story),
        story.survives_storage() ==> partition(
            inserted(entries, capacity, id, story.stored()),
            seq![id],
        ).misses.len() == 0,
        story.survives_storage() ==> partition(
            inserted(entries, capacity, id, story.stored()),
            seq![id],
        ).hits == seq![story],
{
    let after = inserted(entries, capacity, id, story.stored());
    lemma_inserted_keeps_shape(entries, capacity, id, story.stored());
    let ids = seq![id];
    assert(ids.drop_last() =~= Seq::<u32>::empty());
    assert(partition(after, ids.drop_last()).entries == after);
    if story.survives_storage() {
        assert(partition(after, ids).hits =~= seq![story]);
    }
}

/// A story that was taken into the cache is still served from it after any
/// number of lookups and insertions, as long as these concern fewer other
/// identifiers than the cache has room for. This holds for every story that
/// can be read back from its cached form.
pub proof fn lemma_story_outlives_few_uses(
    entries: Seq<(u32, CachedStoryView)>,
    capacity: nat,
    id: u32,
    story: StoryView,
    uses: Seq<CacheUse>,
)
    requires
        distinct_keys(entries),
        entries.len() <= capacity,
        capacity >= 1,
        forall|i: int| 0 <= i < uses.len() ==> (#[trigger] uses[i]).id() != id,
        used_ids(uses).len() < capacity,
    ensures
        story.survives_storage() ==> served(
            used(inserted(entries, capacity, id, story.stored()), capacity, uses),
            id,
        ) == Some(story),
{
    lemma_entry_outlives_few_uses(entries, capacity, id, story.stored(), uses);
}

/// The lookups of a batch as uses of the cache.
pub open spec fn lookups(ids: Seq<u32>) -> Seq<CacheUse> {
    ids.map_values(|id: u32| CacheUse::Lookup(id))
}

/// Starting a batch uses the cache by looking its identifiers up, in order.
pub proof fn lemma_partition_uses_lookups(
    entries: Seq<(u32, CachedStoryView)>,
    capacity: nat,
    ids: Seq<u32>,
)
    ensures
        partition(entries, ids).entries == used(entries, capacity, lookups(ids)),
    decreases ids.len(),
{
    if ids.len() > 0 {
        lemma_partition_uses_lookups(entries, capacity, ids.drop_last());
        assert(lookups(ids).drop_last() =~= lookups(ids.drop_last()));
        assert(lookups(ids).last() == CacheUse::Lookup(ids.last()));
    }
}

/// A story that a batch was served with is served again by a batch that
/// starts right after it for the same identifier, without a request to the
/// upstream source, as long as the stories that came in after it in its group
/// concern fewer other identifiers than the cache has room for. This holds
/// for every story that can be read back from its cached form.
pub proof fn lemma_fetched_story_is_served_again(
    start: Progress,
    capacity: nat,
    group: Seq<u32>,
    answers: Seq<Option<StoryView>>,
    at: int,
)
    requires
        distinct_keys(start.entries),
        start.entries.len() <= capacity,
        capacity >= 1,
        0 <= at < group.len(),
        at < answers.len(),
        answers[at] is Some,
        forall|i: int| at < i < group.len() ==> #[trigger] group[i] != group[at],
        group.len() - at <= capacity,
    ensures
        answers[at]->Some_0.survives_storage() ==> served(
            absorbed(start, capacity, group, answers).entries,
            group[at],
        ) == Some(answers[at]->Some_0),
        answers[at]->Some_0.survives_storage() ==> partition(
            absorbed(start, capacity, group, answers).entries,
            seq![group[at]],
        ).misses.len() == 0,
{
    let story = answers[at]->Some_0;
    let id = group[at];
    let head = group.take(at + 1);
    let reached = absorbed(start, capacity, head, answers);
    let earlier = absorbed(start, capacity, head.drop_last(), answers);
    lemma_absorbed_keeps_shape(start, capacity, head.drop_last(), answers);
    assert(head[at] == id);
    assert(reached.entries == inserted(earlier.entries, capacity, id, story.stored()));
    lemma_absorbed_resumes(start, capacity, group, answers, at + 1);
    let rest = later_insertions(group, answers, at + 1);
    lemma_later_insertions_concern_the_rest(group, answers, at + 1);
    assert(used_ids(rest).len() < capacity) by {
        broadcast use vstd::seq_lib::seq_to_set_is_finite;

        let tail = group.skip(at + 1);
        tail.lemma_cardinality_of_set();
        vstd::set_lib::lemma_len_subset(used_ids(rest), tail.to_set());
    }
    assert forall|i: int| 0 <= i < rest.len() implies (#[trigger] rest[i]).id() != id by {
        let ids = rest.map_values(|one: CacheUse| one.id());
        assert(ids[i] == rest[i].id());
        assert(used_ids(rest).contains(rest[i].id()));
        let tail = group.skip(at + 1);
        assert(tail.to_set().contains(rest[i].id()));
        let k = choose|k: int| 0 <= k < tail.len() && tail[k] == rest[i].id();
        assert(group[at + 1 + k] != group[at]);
    }
    lemma_entry_outlives_few_uses(earlier.entries, capacity, id, story.stored(), rest);
    let after = absorbed(start, capacity, group, answers).entries;
    if story.survives_storage() {
        let ids = seq![id];
        assert(ids.drop_last() =~= Seq::<u32>::empty());
        assert(partition(after, ids.drop_last()).entries == after);
    }
}

/// The insertions that the answers bring about for the identifiers of
/// `group` from place `from` on, as uses of the cache: one for every story
/// among those answers, in their order.
pub open spec fn later_insertions(
    group: Seq<u32>,
    answers: Seq<Option<StoryView>>,
    from: int,
) -> Seq<CacheUse>
    decreases group.len(),
{
    if group.len() <= from || group.len() == 0 {
        Seq::empty()
    } else {
        let before = later_insertions(group.drop_last(), answers, from);
        let at = group.len() - 1;
        if at < answers.len() && answers[at] is Some {
            before.push(CacheUse::Insert(group[at], answers[at]->Some_0.stored()))
        } else {
            before
        }
    }
}

/// Taking the answers of a whole group in is taking those of its first
/// `from` identifiers in and then inserting the stories of the others, in
/// their order.
pub proof fn lemma_absorbed_resumes(
    start: Progress,
    capacity: nat,
    group: Seq<u32>,
    answers: Seq<Option<StoryView>>,
    from: int,
)
    requires
        0 <= from <= group.len(),
    ensures
        absorbed(start, capacity, group, answers).entries == used(
            absorbed(start, capacity, group.take(from), answers).entries,
            capacity,
            later_insertions(group, answers, from),
        ),
    decreases group.len(),
{
    if group.len() <= from {
        assert(group.take(from) =~= group);
    } else {
        lemma_absorbed_resumes(start, capacity, group.drop_last(), answers, from);
        assert(group.drop_last().take(from) =~= group.take(from));
        let at = group.len() - 1;
        if at < answers.len() && answers[at] is Some {
            let before = later_insertions(group.drop_last(), answers, from);
            let one = CacheUse::Insert(group[at], answers[at]->Some_0.stored());
            assert(before.push(one).drop_last() =~= before);
            assert(before.push(one).last() == one);
        }
    }
}

/// The later insertions concern identifiers of the group from `from` on.
proof fn lemma_later_insertions_concern_the_rest(
    group: Seq<u32>,
    answers: Seq<Option<StoryView>>,
    from: int,
)
    requires
        0 <= from <= group.len(),
    ensures
        used_ids(later_insertions(group, answers, from)).subset_of(group.skip(from).to_set()),
    decreases group.len(),
{
    let rest = later_insertions(group, answers, from);
    let ids = rest.map_values(|one: CacheUse| one.id());
    if group.len() > from {
        lemma_later_insertions_concern_the_rest(group.drop_last(), answers, from);
        let before = later_insertions(group.drop_last(), answers, from);
        let ids_before = before.map_values(|one: CacheUse| one.id());
        let at = group.len() - 1;
        assert forall|key: u32| used_ids(rest).contains(key) implies group.skip(from).to_set().contains(
            key,
        ) by {
            let a = choose|a: int| 0 <= a < ids.len() && ids[a] == key;
            if a < before.len() {
                assert(ids_before[a] == key);
                assert(used_ids(before).contains(key));
                let shorter = group.drop_last().skip(from);
                assert(shorter.to_set().contains(key));
                let k = choose|k: int| 0 <= k < shorter.len() && shorter[k] == key;
                assert(group.skip(from)[k] == key);
            } else {
                assert(key == group[at]);
                assert(group.skip(from)[at - from] == key);
            }
        }
    } else {
        assert forall|key: u32| used_ids(rest).contains(key) implies group.skip(from).to_set().contains(
            key,
        ) by {
            let a = choose|a: int| 0 <= a < ids.len() && ids[a] == key;
        }
    }
}

/// Taking answers in keeps the cache in shape.
pub proof fn lemma_absorbed_keeps_shape(
    start: Progress,
    capacity: nat,
    group: Seq<u32>,
    answers: Seq<Option<StoryView>>,
)
    requires
        distinct_keys(start.entries),
        start.entries.len() <= capacity,
        capacity >= 1,
    ensures
        distinct_keys(absorbed(start, capacity, group, answers).entries),
        absorbed(start, capacity, group, answers).entries.len() <= capacity,
    decreases group.len(),
{
    if group.len() > 0 {
        lemma_absorbed_keeps_shape(start, capacity, group.drop_last(), answers);
        let before = absorbed(start, capacity, group.drop_last(), answers);
        let at = group.len() - 1;
        if at < answers.len() && answers[at] is Some {
            lemma_inserted_keeps_shape(
                before.entries,
                capacity,
                group[at],
                answers[at]->Some_0.stored(),
            );
        }
    }
}

/// What a group adds to the collected stories is exactly the stories among
/// its answers, in their order: failures are left out and raise nothing.
pub proof fn lemma_absorbed_collects_successes(
    start: Progress,
    capacity: nat,
    group: Seq<u32>,
    answers: Seq<Option<StoryView>>,
)
    requires
        answers.len() == group.len(),
    ensures
        absorbed(start, capacity, group, answers).stories == start.stories + successes(answers),
    decreases group.len(),
{
    if group.len() == 0 {
        assert(start.stories + successes(answers) =~= start.stories);
    } else {
        lemma_absorbed_prefix(start, capacity, group.drop_last(), answers, answers.drop_last());
        lemma_absorbed_collects_successes(
            start,
            capacity,
            group.drop_last(),
            answers.drop_last(),
        );
        let before = absorbed(start, capacity, group.drop_last(), answers);
        if answers.last() is Some {
            assert(before.stories.push(answers.last()->Some_0) =~= start.stories + successes(
                answers,
            ));
        }
    }
}

/// Answers beyond the group's length play no part.
proof fn lemma_absorbed_prefix(
    start: Progress,
    capacity: nat,
    group: Seq<u32>,
    answers: Seq<Option<StoryView>>,
    shorter: Seq<Option<StoryView>>,
)
    requires
        group.len() <= shorter.len() <= answers.len(),
        shorter == answers.take(shorter.len() as int),
    ensures
        absorbed(start, capacity, group, answers) == absorbed(start, capacity, group, shorter),
    decreases group.len(),
{
    if group.len() > 0 {
        lemma_absorbed_prefix(start, capacity, group.drop_last(), answers, shorter);
    }
}

/// Takes the answers for `pending` in group by group: the first group with
/// the first answers, then the next group with the next answers, until
/// nothing is pending.
pub open spec fn absorbed_in_groups(
    start: Progress,
    capacity: nat,
    pending: Seq<u32>,
    chunk_size: nat,
    answers: Seq<Option<StoryView>>,
) -> Progress
    decreases pending.len(),
{
    if pending.len() == 0 || chunk_size == 0 {
        start
    } else {
        let group = first_group(pending, chunk_size);
        absorbed_in_groups(
            absorbed(start, capacity, group, answers.take(group.len() as int)),
            capacity,
            pending.skip(group.len() as int),
            chunk_size,
            answers.skip(group.len() as int),
        )
    }
}

/// Taking the answers for two lists of identifiers in, one list after the
/// other, is taking them in for both lists in a row.
proof fn lemma_absorbed_splits(
    start: Progress,
    capacity: nat,
    first: Seq<u32>,
    second: Seq<u32>,
    answers: Seq<Option<StoryView>>,
)
    requires
        first.len() <= answers.len(),
    ensures
        absorbed(start, capacity, first + second, answers) == absorbed(
            absorbed(start, capacity, first, answers.take(first.len() as int)),
            capacity,
            second,
            answers.skip(first.len() as int),
        ),
    decreases second.len(),
{
    let whole = first + second;
    if second.len() == 0 {
        assert(whole =~= first);
        lemma_absorbed_prefix(start, capacity, first, answers, answers.take(first.len() as int));
    } else {
        lemma_absorbed_splits(start, capacity, first, second.drop_last(), answers);
        assert(whole.drop_last() =~= first + second.drop_last());
        let at = whole.len() - 1;
        assert(whole[at] == second[second.len() - 1]);
        if at < answers.len() {
            assert(answers.skip(first.len() as int)[second.len() - 1] == answers[at]);
        }
    }
}

/// The size of the groups does not matter for what a batch collects and
/// what it leaves in the cache: with an answer for every pending
/// identifier, taking the answers in group by group gives what taking them
/// in all at once gives.
pub proof fn lemma_groups_do_not_matter(
    start: Progress,
    capacity: nat,
    pending: Seq<u32>,
    chunk_size: nat,
    answers: Seq<Option<StoryView>>,
)
    requires
        chunk_size >= 1,
        answers.len() == pending.len(),
    ensures
        absorbed_in_groups(start, capacity, pending, chunk_size, answers) == absorbed(
            start,
            capacity,
            pending,
            answers,
        ),
        absorbed_in_groups(start, capacity, pending, chunk_size, answers).stories == start.stories
            + successes(answers),
    decreases pending.len(),
{
    lemma_absorbed_collects_successes(start, capacity, pending, answers);
    if pending.len() > 0 {
        let group = first_group(pending, chunk_size);
        let size = group.len() as int;
        lemma_group_is_bounded(pending, chunk_size);
        let reached = absorbed(start, capacity, group, answers.take(size));
        lemma_groups_do_not_matter(
            reached,
            capacity,
            pending.skip(size),
            chunk_size,
            answers.skip(size),
        );
        lemma_absorbed_splits(start, capacity, group, pending.skip(size), answers);
        assert(group + pending.skip(size) =~= pending);
    }
}

/// Where one answer of a group is a failure and all the others are stories,
/// the group adds exactly those stories.
pub proof fn lemma_one_failure_is_left_out(
    start: Progress,
    capacity: nat,
    group: Seq<u32>,
    answers: Seq<Option<StoryView>>,
    failed: int,
)
    requires
        answers.len() == group.len(),
        0 <= failed < answers.len(),
        answers[failed] is None,
        forall|i: int| 0 <= i < answers.len() && i != failed ==> (#[trigger] answers[i]) is Some,
    ensures
        absorbed(start, capacity, group, answers).stories.len() == start.stories.len()
            + group.len() - 1,
        forall|i: int|
            0 <= i < failed ==> #[trigger] absorbed(start, capacity, group, answers).stories[start.stories.len()
                + i] == answers[i]->Some_0,
        forall|i: int|
            failed < i < answers.len() ==> #[trigger] absorbed(
                start,
                capacity,
                group,
                answers,
            ).stories[start.stories.len() + i - 1] == answers[i]->Some_0,
{
    lemma_absorbed_collects_successes(start, capacity, group, answers);
    lemma_successes_around_failure(answers, failed, answers.len() as int);
    assert(answers.take(answers.len() as int) =~= answers);
    let stories = absorbed(start, capacity, group, answers).stories;
    let base = start.stories.len() as int;
    assert forall|i: int| 0 <= i < failed implies #[trigger] stories[base + i]
        == answers[i]->Some_0 by {
        assert(stories[base + i] == successes(answers)[i]);
    }
    assert forall|i: int| failed < i < answers.len() implies #[trigger] stories[base + i - 1]
        == answers[i]->Some_0 by {
        assert(stories[base + i - 1] == successes(answers)[i - 1]);
    }
}

/// The stories among the first `n` answers, where all but the answer at
/// `failed` are stories.
proof fn lemma_successes_around_failure(answers: Seq<Option<StoryView>>, failed: int, n: int)
    requires
        0 <= failed < answers.len(),
        0 <= n <= answers.len(),
        answers[failed] is None,
        forall|i: int| 0 <= i < answers.len() && i != failed ==> (#[trigger] answers[i]) is Some,
    ensures
        successes(answers.take(n)).len() == if n <= failed {
            n
        } else {
            n - 1
        },
        forall|i: int|
            0 <= i < n && i < failed ==> #[trigger] successes(answers.take(n))[i]
                == answers[i]->Some_0,
        forall|i: int|
            failed < i < n ==> #[trigger] successes(answers.take(n))[i - 1] == answers[i]->Some_0,
    decreases n,
{
    if n > 0 {
        lemma_successes_around_failure(answers, failed, n - 1);
        assert(answers.take(n).drop_last() =~= answers.take(n - 1));
        assert(answers.take(n).last() == answers[n - 1]);
    }
}

} // verus!
