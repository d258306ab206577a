//! Merging the posts of each slot: posts whose two dates fall in the same pair
//! of minutes become one post.

use vstd::prelude::*;
use crate::consolidate::{dated_views, ids_distinct, DatedPost, DatedView};
use crate::dates::round_to_minute;
use crate::model::{texts, PostView};

verus! {

/// The test for belonging to a slot.
pub open spec fn in_slot(slot: (int, int)) -> spec_fn(DatedView) -> bool {
    |d: DatedView| d.slot() == slot
}

/// The last caption that is not empty, or the empty text if there is none.
pub open spec fn last_text(members: Seq<DatedView>) -> Seq<char>
    decreases members.len(),
{
    if members.len() == 0 {
        Seq::empty()
    } else if members.last().post.text.len() > 0 {
        members.last().post.text
    } else {
        last_text(members.drop_last())
    }
}

/// The photos of all the posts, in their order.
pub open spec fn all_photos(members: Seq<DatedView>) -> Seq<Seq<char>>
    decreases members.len(),
{
    if members.len() == 0 {
        Seq::empty()
    } else {
        all_photos(members.drop_last()) + members.last().post.photos
    }
}

/// The videos of all the posts, in their order.
pub open spec fn all_videos(members: Seq<DatedView>) -> Seq<Seq<char>>
    decreases members.len(),
{
    if members.len() == 0 {
        Seq::empty()
    } else {
        all_videos(members.drop_last()) + members.last().post.videos
    }
}

/// The one post that a group becomes: the first of the group, with the
/// media of all and the last caption that is not empty.
pub open spec fn merged(members: Seq<DatedView>) -> DatedView {
    DatedView {
        post: PostView {
            id: members[0].post.id,
            date: members[0].post.date,
            forward_date: members[0].post.forward_date,
            text: last_text(members),
            photos: all_photos(members),
            videos: all_videos(members),
        },
        date: members[0].date,
        forward_date: members[0].forward_date,
    }
}

/// The slots that the posts fall in, each once, in the order in which they
/// first occur.
pub open spec fn slots(posts: Seq<DatedView>) -> Seq<(int, int)>
    decreases posts.len(),
{
    if posts.len() == 0 {
        Seq::empty()
    } else {
        let before = slots(posts.drop_last());
        if before.contains(posts.last().slot()) {
            before
        } else {
            before.push(posts.last().slot())
        }
    }
}

/// The merged posts, one for each slot, in the order in which the slots first
/// occur.
pub open spec fn grouped(posts: Seq<DatedView>) -> Seq<DatedView> {
    slots(posts).map_values(|slot: (int, int)| merged(posts.filter(in_slot(slot))))
}

/// What one more post does to the members of a slot.
pub proof fn lemma_members_push(posts: Seq<DatedView>, d: DatedView, slot: (int, int))
    ensures
        posts.push(d).filter(in_slot(slot)) == if d.slot() == slot {
            posts.filter(in_slot(slot)).push(d)
        } else {
            posts.filter(in_slot(slot))
        },
{
    reveal(Seq::filter);
    assert(posts.push(d).drop_last() =~= posts);
}

/// A slot is listed exactly when it has a member.
pub proof fn lemma_slots_have_members(posts: Seq<DatedView>, slot: (int, int))
    ensures
        slots(posts).contains(slot) <==> posts.filter(in_slot(slot)).len() > 0,
    decreases posts.len(),
{
    reveal(Seq::filter);
    if posts.len() > 0 {
        let rest = posts.drop_last();
        let d = posts.last();
        lemma_slots_have_members(rest, slot);
        assert(rest.push(d) =~= posts);
        lemma_members_push(rest, d, slot);
        let before = slots(rest);
        if before.contains(d.slot()) {
        } else {
            let after = before.push(d.slot());
            assert(after[before.len() as int] == d.slot());
            if before.contains(slot) {
                let i = choose|i: int| 0 <= i < before.len() && before[i] == slot;
                assert(after[i] == slot);
            }
        }
    }
}

/// No slot is listed twice.
pub proof fn lemma_slots_distinct(posts: Seq<DatedView>)
    ensures
        slots(posts).no_duplicates(),
    decreases posts.len(),
{
    if posts.len() > 0 {
        lemma_slots_distinct(posts.drop_last());
    }
}

/// What one more member does to the post that a group becomes.
pub proof fn lemma_merged_push(members: Seq<DatedView>, d: DatedView)
    ensures
        merged(members.push(d)) == if members.len() == 0 {
            d
        } else {
            DatedView {
                post: PostView {
                    text: if d.post.text.len() > 0 {
                        d.post.text
                    } else {
                        merged(members).post.text
                    },
                    photos: merged(members).post.photos + d.post.photos,
                    videos: merged(members).post.videos + d.post.videos,
                    ..merged(members).post
                },
                ..merged(members)
            }
        },
{
    let next = members.push(d);
    assert(next.drop_last() =~= members);
    assert(next.last() == d);
    if members.len() == 0 {
        assert(all_photos(members) =~= Seq::empty());
        assert(all_videos(members) =~= Seq::empty());
        assert(all_photos(next) =~= d.post.photos);
        assert(all_videos(next) =~= d.post.videos);
        assert(last_text(members) =~= Seq::empty());
        assert(last_text(next) =~= d.post.text);
    } else {
        assert(next[0] == members[0]);
    }
}

/// What a group's post becomes when one more member joins it.
pub open spec fn joined(group: DatedView, d: DatedView) -> DatedView {
    DatedView {
        post: PostView {
            text: if d.post.text.len() > 0 {
                d.post.text
            } else {
                group.post.text
            },
            photos: group.post.photos + d.post.photos,
            videos: group.post.videos + d.post.videos,
            ..group.post
        },
        ..group
    }
}

/// Appends copies of the strings of `more` to `list`.
fn extend_strings(list: &mut Vec<String>, more: &Vec<String>)
    ensures
        texts(final(list)@) == texts(old(list)@) + texts(more@),
{
    let ghost start = list@;
    let mut i: usize = 0;
    while i < more.len()
        invariant
            i <= more.len(),
            texts(list@) == texts(start) + texts(more@.take(i as int)),
        decreases more.len() - i,
    {
        let ghost prev = list@;
        list.push(more[i].clone());
        proof {
            assert(more@.take(i + 1) =~= more@.take(i as int).push(more@[i as int]));
            assert(texts(list@) =~= texts(prev).push(more@[i as int]@));
            assert(texts(more@.take(i + 1)) =~= texts(more@.take(i as int)).push(
                more@[i as int]@,
            ));
            assert(texts(list@) =~= texts(start) + texts(more@.take(i + 1)));
        }
        i += 1;
    }
    assert(more@.take(i as int) =~= more@);
}

/// Lets one more member join a group: its media are appended, and its
/// caption, if not empty, takes the place of the group's.
fn absorb(group: &mut DatedPost, d: &DatedPost)
    ensures
        final(group)@ == joined(old(group)@, d@),
{
    extend_strings(&mut group.post.photos, &d.post.photos);
    extend_strings(&mut group.post.videos, &d.post.videos);
    if !d.post.text.as_str().is_empty() {
        group.post.text = d.post.text.clone();
    }
}

/// The place of the group that falls in the slot, if there is one.
fn find_group(groups: &Vec<DatedPost>, minute: i64, forward_minute: i64) -> (r: Option<usize>)
    ensures
        match r {
            Some(j) => j < groups.len() && groups@[j as int]@.slot() == (
                minute as int,
                forward_minute as int,
            ),
            None => forall|j: int|
                0 <= j < groups.len() ==> (#[trigger] groups@[j])@.slot() != (
                    minute as int,
                    forward_minute as int,
                ),
        },
{
    let mut j: usize = 0;
    while j < groups.len()
        invariant
            j <= groups.len(),
            forall|x: int|
                0 <= x < j ==> (#[trigger] groups@[x])@.slot() != (
                    minute as int,
                    forward_minute as int,
                ),
        decreases groups.len() - j,
    {
        if round_to_minute(groups[j].date) == minute && round_to_minute(groups[j].forward_date)
            == forward_minute {
            return Some(j);
        }
        j += 1;
    }
    None
}

/// Every merged post falls in the slot that it was made for.
pub proof fn lemma_grouped_slots(posts: Seq<DatedView>, j: int)
    requires
        0 <= j < slots(posts).len(),
    ensures
        grouped(posts).len() == slots(posts).len(),
        grouped(posts)[j].slot() == slots(posts)[j],
{
    let slot = slots(posts)[j];
    let members = posts.filter(in_slot(slot));
    lemma_slots_have_members(posts, slot);
    posts.lemma_filter_pred(in_slot(slot), 0);
    assert(in_slot(slot)(members[0]));
}

/// What one more post does to the merged posts: it joins the group of its
/// slot, or opens a new group at the end.
pub proof fn lemma_grouped_push(posts: Seq<DatedView>, d: DatedView)
    ensures
        grouped(posts.push(d)) == if slots(posts).contains(d.slot()) {
            let j = slots(posts).index_of(d.slot());
            grouped(posts).update(j, joined(grouped(posts)[j], d))
        } else {
            grouped(posts).push(d)
        },
{
    let next = posts.push(d);
    assert(next.drop_last() =~= posts);
    assert(next.last() == d);
    lemma_slots_distinct(posts);
    lemma_slots_have_members(posts, d.slot());
    let before = slots(posts);
    let after = slots(next);
    if before.contains(d.slot()) {
        let j = before.index_of(d.slot());
        assert(before[j] == d.slot());
        let want = grouped(posts).update(j, joined(grouped(posts)[j], d));
        assert forall|x: int| 0 <= x < after.len() implies grouped(next)[x] == want[x] by {
            lemma_members_push(posts, d, before[x]);
            if x == j {
                lemma_merged_push(posts.filter(in_slot(before[x])), d);
            }
        }
        assert(grouped(next) =~= want);
    } else {
        let want = grouped(posts).push(d);
        assert forall|x: int| 0 <= x < after.len() implies grouped(next)[x] == want[x] by {
            lemma_members_push(posts, d, after[x]);
            if x == before.len() {
                lemma_merged_push(posts.filter(in_slot(d.slot())), d);
            }
        }
        assert(grouped(next) =~= want);
    }
}

/// Merges the posts that fall in the same slot: one post for each slot, in
/// the order in which the slots first occur.
pub fn group_posts(posts: &Vec<DatedPost>) -> (r: Vec<DatedPost>)
    ensures
        dated_views(r@) == grouped(dated_views(posts@)),
{
    let ghost all = dated_views(posts@);
    let mut groups: Vec<DatedPost> = Vec::new();
    let mut i: usize = 0;
    assert(all.take(0) =~= Seq::<DatedView>::empty());
    assert(dated_views(groups@) =~= grouped(all.take(0)));
    while i < posts.len()
        invariant
            i <= posts.len(),
            all == dated_views(posts@),
            dated_views(groups@) == grouped(all.take(i as int)),
        decreases posts.len() - i,
    {
        let ghost seen = all.take(i as int);
        let ghost d = posts@[i as int]@;
        let ghost before = dated_views(groups@);
        proof {
            assert(all.take(i + 1) =~= seen.push(d));
            lemma_grouped_push(seen, d);
            lemma_slots_distinct(seen);
            assert(before.len() == groups.len());
            assert(grouped(seen).len() == slots(seen).len());
            assert forall|j: int| 0 <= j < groups.len() implies (#[trigger] groups@[j])@.slot()
                == slots(seen)[j] by {
                lemma_grouped_slots(seen, j);
                assert(before[j] == groups@[j]@);
            }
        }
        let minute = round_to_minute(posts[i].date);
        let forward_minute = round_to_minute(posts[i].forward_date);
        match find_group(&groups, minute, forward_minute) {
            Some(j) => {
                proof {
                    assert(slots(seen)[j as int] == d.slot());
                    assert(slots(seen).contains(d.slot()));
                    assert(slots(seen).index_of(d.slot()) == j);
                }
                absorb(&mut groups[j], &posts[i]);
                assert(dated_views(groups@) =~= before.update(j as int, joined(before[j as int], d)));
            },
            None => {
                proof {
                    if slots(seen).contains(d.slot()) {
                        let x = choose|x: int| 0 <= x < slots(seen).len() && slots(seen)[x] == d.slot();
                        assert(groups@[x]@.slot() == d.slot());
                    }
                }
                groups.push(posts[i].clone());
                assert(dated_views(groups@) =~= before.push(d));
            },
        }
        i += 1;
    }
    assert(all.take(i as int) =~= all);
    groups
}

/// Every merged post carries the identifier and the dates of a post that went
/// in, the first of its group.
pub proof fn lemma_grouped_leader(posts: Seq<DatedView>, j: int) -> (leader: DatedView)
    requires
        0 <= j < grouped(posts).len(),
    ensures
        posts.contains(leader),
        leader.slot() == slots(posts)[j],
        grouped(posts)[j].date == leader.date,
        grouped(posts)[j].forward_date == leader.forward_date,
        grouped(posts)[j].post.id == leader.post.id,
        grouped(posts)[j].post.date == leader.post.date,
        grouped(posts)[j].post.forward_date == leader.post.forward_date,
{
    let slot = slots(posts)[j];
    let members = posts.filter(in_slot(slot));
    lemma_slots_have_members(posts, slot);
    assert(members.contains(members[0]));
    posts.lemma_filter_contains_rev(in_slot(slot), members[0]);
    posts.lemma_filter_pred(in_slot(slot), 0);
    assert(in_slot(slot)(members[0]));
    members[0]
}

/// Merging the posts of each slot keeps their identifiers distinct.
pub proof fn lemma_grouped_keeps_ids_distinct(input: Seq<DatedView>)
    requires
        ids_distinct(input),
    ensures
        ids_distinct(grouped(input)),
{
    let g = grouped(input);
    lemma_slots_distinct(input);
    assert forall|i: int, j: int| 0 <= i < j < g.len() implies (#[trigger] g[i]).post.id != (
    #[trigger] g[j]).post.id by {
        let first = lemma_grouped_leader(input, i);
        let second = lemma_grouped_leader(input, j);
        let a = choose|a: int| 0 <= a < input.len() && input[a] == first;
        let b = choose|b: int| 0 <= b < input.len() && input[b] == second;
        assert(slots(input)[i] != slots(input)[j]);
        if a < b {
            assert(input[a].post.id != input[b].post.id);
        } else if b < a {
            assert(input[b].post.id != input[a].post.id);
        }
    }
}

} // verus!
