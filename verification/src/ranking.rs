//! Stories in the order of their scores.
use crate::client::story_views;
use crate::story::Story;
use crate::story::StoryView;
use vstd::prelude::*;

verus! {

/// `ranked` with `story` put behind the last story whose score is not lower.
pub open spec fn placed(ranked: Seq<StoryView>, story: StoryView) -> Seq<StoryView>
    decreases ranked.len(),
{
    if ranked.len() == 0 {
        seq![story]
    } else if ranked.last().score >= story.score {
        ranked.push(story)
    } else {
        placed(ranked.drop_last(), story).push(ranked.last())
    }
}

/// The stories with the highest score first; stories of the same score keep
/// their order.
pub open spec fn ranked(stories: Seq<StoryView>) -> Seq<StoryView>
    decreases stories.len(),
{
    if stories.len() == 0 {
        Seq::empty()
    } else {
        placed(ranked(stories.drop_last()), stories.last())
    }
}

/// No story stands behind one with a lower score.
pub open spec fn descending(stories: Seq<StoryView>) -> bool {
    forall|i: int, j: int|
        0 <= i < j < stories.len() ==> (#[trigger] stories[i]).score >= (#[trigger] stories[j]).score
}

/// Placing a story is inserting it at the place behind which all scores are
/// lower and before which none is.
proof fn lemma_placed_is_insert(ranked: Seq<StoryView>, story: StoryView, at: int)
    requires
        0 <= at <= ranked.len(),
        forall|k: int| at <= k < ranked.len() ==> (#[trigger] ranked[k]).score < story.score,
        at > 0 ==> ranked[at - 1].score >= story.score,
    ensures
        placed(ranked, story) == ranked.insert(at, story),
    decreases ranked.len() - at,
{
    if ranked.len() == 0 {
        assert(ranked.insert(at, story) =~= seq![story]);
    } else if at == ranked.len() {
        assert(ranked.insert(at, story) =~= ranked.push(story));
    } else {
        assert(ranked.last().score < story.score);
        lemma_placed_is_insert(ranked.drop_last(), story, at);
        assert(ranked.drop_last().insert(at, story).push(ranked.last()) =~= ranked.insert(
            at,
            story,
        ));
    }
}

/// Placing a story keeps a descending order descending, and adds that story
/// and nothing else.
pub proof fn lemma_placed_keeps_order(ranked: Seq<StoryView>, story: StoryView)
    requires
        descending(ranked),
    ensures
        descending(placed(ranked, story)),
        placed(ranked, story).to_multiset() == ranked.to_multiset().insert(story),
        placed(ranked, story).len() == ranked.len() + 1,
    decreases ranked.len(),
{
    broadcast use vstd::seq_lib::group_to_multiset_ensures;

    if ranked.len() == 0 {
        assert(ranked =~= Seq::<StoryView>::empty());
        assert(placed(ranked, story) =~= Seq::<StoryView>::empty().push(story));
    } else if ranked.last().score >= story.score {
        let after = ranked.push(story);
        assert forall|i: int, j: int| 0 <= i < j < after.len() implies (#[trigger] after[i]).score
            >= (#[trigger] after[j]).score by {
            if j == ranked.len() {
                if i < ranked.len() - 1 {
                    assert(ranked[i].score >= ranked[ranked.len() - 1].score);
                }
            }
        }
    } else {
        let shorter = ranked.drop_last();
        lemma_placed_keeps_order(shorter, story);
        let inner = placed(shorter, story);
        let after = inner.push(ranked.last());
        assert(ranked =~= shorter.push(ranked.last()));
        assert forall|i: int| 0 <= i < inner.len() implies (#[trigger] inner[i]).score
            >= ranked.last().score by {
            assert(inner.to_multiset().count(inner[i]) > 0);
            if inner[i] != story {
                assert(shorter.to_multiset().count(inner[i]) > 0);
                assert(shorter.contains(inner[i]));
                let k = choose|k: int| 0 <= k < shorter.len() && shorter[k] == inner[i];
                assert(ranked[k].score >= ranked[ranked.len() - 1].score);
            }
        }
        assert forall|i: int, j: int| 0 <= i < j < after.len() implies (#[trigger] after[i]).score
            >= (#[trigger] after[j]).score by {
            if j < inner.len() {
                assert(inner[i].score >= inner[j].score);
            }
        }
        assert(after.to_multiset() =~= ranked.to_multiset().insert(story));
    }
}

/// The ranked stories are in descending order of score, and they are the
/// given stories, each as often as it was given.
pub proof fn lemma_ranked_is_sorted_permutation(stories: Seq<StoryView>)
    ensures
        descending(ranked(stories)),
        ranked(stories).to_multiset() == stories.to_multiset(),
        ranked(stories).len() == stories.len(),
    decreases stories.len(),
{
    broadcast use vstd::seq_lib::group_to_multiset_ensures;

    if stories.len() == 0 {
        assert(stories =~= Seq::<StoryView>::empty());
    } else {
        lemma_ranked_is_sorted_permutation(stories.drop_last());
        lemma_placed_keeps_order(ranked(stories.drop_last()), stories.last());
        assert(stories =~= stories.drop_last().push(stories.last()));
    }
}

/// Orders the stories by score, the highest first. Stories of the same score
/// keep their order.
pub fn sort_by_score(stories: &Vec<Story>) -> (sorted: Vec<Story>)
    ensures
        story_views(sorted@) == ranked(story_views(stories@)),
        sorted@.len() == stories@.len(),
        descending(story_views(sorted@)),
        story_views(sorted@).to_multiset() == story_views(stories@).to_multiset(),
{
    let mut sorted: Vec<Story> = Vec::with_capacity(stories.len());
    let ghost views = story_views(stories@);
    let mut i: usize = 0;
    assert(views.take(0) =~= Seq::<StoryView>::empty());
    assert(story_views(sorted@) =~= Seq::<StoryView>::empty());
    while i < stories.len()
        invariant
            i <= stories.len(),
            views == story_views(stories@),
            sorted@.len() == i,
            story_views(sorted@) == ranked(views.take(i as int)),
        decreases stories.len() - i,
    {
        let story: Story = stories[i].clone();
        let ghost before = story_views(sorted@);
        let mut at: usize = sorted.len();
        while at > 0 && sorted[at - 1].score < story.score
            invariant
                at <= sorted@.len(),
                before == story_views(sorted@),
                forall|k: int| at <= k < before.len() ==> (#[trigger] before[k]).score < story.score,
            decreases at,
        {
            assert(before[at - 1] == sorted@[at - 1]@);
            at -= 1;
        }
        proof {
            if at > 0 {
                assert(before[at - 1] == sorted@[at - 1]@);
            }
            lemma_placed_is_insert(before, story@, at as int);
            assert(views.take(i + 1).drop_last() =~= views.take(i as int));
            assert(views.take(i + 1).last() == story@);
        }
        sorted.insert(at, story);
        assert(story_views(sorted@) =~= before.insert(at as int, story@));
        i += 1;
    }
    proof {
        assert(views.take(stories@.len() as int) =~= views);
        lemma_ranked_is_sorted_permutation(views);
    }
    sorted
}

} // verus!
