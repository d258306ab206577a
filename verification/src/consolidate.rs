//! Merging the posts that the origin platform split into several messages.
//!
//! Posts of one channel belong together when both their date and their
//! forward date fall in the same minute. Each such group becomes one post: the
//! first of the group, with the media of all of them and the last caption that
//! is not empty. The merged posts are then put in the order of their dates.

pub mod grouping;
pub mod order;

use vstd::prelude::*;
use crate::consolidate::grouping::{
    group_posts, grouped, lemma_grouped_keeps_ids_distinct, lemma_grouped_leader,
};
use crate::consolidate::order::{
    is_sorted_form, lemma_same_order_unique, lemma_sorted_form_keeps_ids_distinct,
    lemma_sorted_form_members, on_date, sort_by_date,
};
use crate::dates::{minute_of, parse_date, timestamp_of};
use crate::error::ArchiveError;
use crate::model::{
    post_views, posts_distinct, ChannelView, PostView, TelegramChannel, TelegramData, TelegramPost,
};

verus! {

/// A post with its two dates read as Unix timestamps.
#[derive(Debug, PartialEq, Eq)]
pub struct DatedPost {
    pub post: TelegramPost,
    pub date: i64,
    pub forward_date: i64,
}

/// A dated post, as specifications see it.
pub struct DatedView {
    pub post: PostView,
    pub date: int,
    pub forward_date: int,
}

impl View for DatedPost {
    type V = DatedView;

    open spec fn view(&self) -> DatedView {
        DatedView { post: self.post@, date: self.date as int, forward_date: self.forward_date as int }
    }
}

/// The dated posts that a list holds, as specifications see them.
pub open spec fn dated_views(v: Seq<DatedPost>) -> Seq<DatedView> {
    v.map_values(|d: DatedPost| d@)
}

impl DatedView {
    /// The pair of minutes that the post's two dates fall in.
    pub open spec fn slot(self) -> (int, int) {
        (minute_of(self.date), minute_of(self.forward_date))
    }
}

impl Clone for DatedPost {
    fn clone(&self) -> (r: Self)
        ensures
            r@ == self@,
    {
        DatedPost { post: self.post.clone(), date: self.date, forward_date: self.forward_date }
    }
}

/// No two of the posts have the same identifier.
pub open spec fn ids_distinct(posts: Seq<DatedView>) -> bool {
    forall|i: int, j: int|
        0 <= i < j < posts.len() ==> (#[trigger] posts[i]).post.id != (#[trigger] posts[j]).post.id
}

/// Whether `out` is what consolidation makes of `input`.
pub open spec fn is_consolidation(out: Seq<DatedView>, input: Seq<DatedView>) -> bool {
    is_sorted_form(out, grouped(input))
}

/// Consolidation has one result: two lists that both are what consolidation
/// makes of the same posts are the same list.
pub proof fn lemma_consolidation_unique(a: Seq<DatedView>, b: Seq<DatedView>, input: Seq<DatedView>)
    requires
        is_consolidation(a, input),
        is_consolidation(b, input),
    ensures
        a == b,
{
    let g = grouped(input);
    assert forall|date: int| #[trigger] a.filter(on_date(date)) == b.filter(on_date(date)) by {
        assert(a.filter(on_date(date)) == g.filter(on_date(date)));
        assert(b.filter(on_date(date)) == g.filter(on_date(date)));
    }
    lemma_same_order_unique(a, b);
}

/// Merges the posts that fall in the same slot and puts the merged posts in
/// the order of their dates.
pub fn consolidate_posts(posts: &Vec<DatedPost>) -> (r: Vec<DatedPost>)
    ensures
        is_consolidation(dated_views(r@), dated_views(posts@)),
{
    sort_by_date(group_posts(posts))
}

/// The post with its two dates as the archive's date form reads them.
pub open spec fn stamped(post: PostView) -> DatedView {
    DatedView {
        post,
        date: timestamp_of(post.date).unwrap() as int,
        forward_date: timestamp_of(post.forward_date).unwrap() as int,
    }
}

/// The posts with their dates read.
pub open spec fn stamped_posts(posts: Seq<PostView>) -> Seq<DatedView> {
    posts.map_values(|p: PostView| stamped(p))
}

/// Whether both dates of the post can be read.
pub open spec fn is_readable(post: PostView) -> bool {
    timestamp_of(post.date) is Some && timestamp_of(post.forward_date) is Some
}

/// Whether the dates of all the posts can be read.
pub open spec fn all_readable(posts: Seq<PostView>) -> bool {
    forall|i: int| 0 <= i < posts.len() ==> is_readable(#[trigger] posts[i])
}

/// Whether the dates of all the posts of all the channels can be read.
pub open spec fn archive_readable(a: Seq<ChannelView>) -> bool {
    forall|k: int| 0 <= k < a.len() ==> all_readable((#[trigger] a[k]).posts)
}

/// Whether the dated post carries the timestamps of its own two dates.
pub open spec fn is_stamped(d: DatedView) -> bool {
    is_readable(d.post) && d == stamped(d.post)
}

/// Reads the dates of the posts. `None` if one of them cannot be read.
pub fn date_posts(posts: &Vec<TelegramPost>) -> (r: Option<Vec<DatedPost>>)
    ensures
        r is Some <==> all_readable(post_views(posts@)),
        r matches Some(v) ==> dated_views(v@) == stamped_posts(post_views(posts@)),
{
    let ghost views = post_views(posts@);
    let mut out: Vec<DatedPost> = Vec::new();
    let mut i: usize = 0;
    while i < posts.len()
        invariant
            i <= posts.len(),
            views == post_views(posts@),
            out.len() == i,
            forall|j: int| 0 <= j < i ==> is_readable(#[trigger] views[j]),
            forall|j: int| 0 <= j < i ==> (#[trigger] out@[j])@ == stamped(views[j]),
        decreases posts.len() - i,
    {
        let date = match parse_date(posts[i].date.as_str()) {
            Some(t) => t,
            None => {
                assert(!is_readable(views[i as int]));
                return None;
            },
        };
        let forward_date = match parse_date(posts[i].forward_date.as_str()) {
            Some(t) => t,
            None => {
                assert(!is_readable(views[i as int]));
                return None;
            },
        };
        out.push(DatedPost { post: posts[i].clone(), date, forward_date });
        i += 1;
    }
    assert(dated_views(out@) =~= stamped_posts(views));
    Some(out)
}

/// The posts of the dated posts, without their timestamps.
pub fn undated(posts: Vec<DatedPost>) -> (r: Vec<TelegramPost>)
    ensures
        r.len() == posts.len(),
        forall|i: int| 0 <= i < r.len() ==> (#[trigger] r@[i])@ == posts@[i]@.post,
{
    let ghost input = posts@;
    let mut out: Vec<TelegramPost> = Vec::new();
    for d in it: posts
        invariant
            it.seq() == input,
            out.len() == it.index(),
            forall|i: int| 0 <= i < out.len() ==> (#[trigger] out@[i])@ == input[i]@.post,
    {
        out.push(d.post);
    }
    out
}

/// Consolidation keeps each post with the timestamps of its own dates.
pub proof fn lemma_consolidation_keeps_stamps(out: Seq<DatedView>, input: Seq<DatedView>)
    requires
        is_consolidation(out, input),
        forall|i: int| 0 <= i < input.len() ==> is_stamped(#[trigger] input[i]),
    ensures
        forall|i: int| 0 <= i < out.len() ==> is_stamped(#[trigger] out[i]),
{
    assert forall|i: int| 0 <= i < out.len() implies is_stamped(#[trigger] out[i]) by {
        lemma_sorted_form_members(out, grouped(input), i);
        let j = choose|j: int| 0 <= j < grouped(input).len() && grouped(input)[j] == out[i];
        let leader = lemma_grouped_leader(input, j);
        let x = choose|x: int| 0 <= x < input.len() && input[x] == leader;
        assert(is_stamped(input[x]));
    }
}

/// Whether `out` is what consolidation makes of the channel: the same
/// channel, with its posts merged and put in the order of their dates.
pub open spec fn is_consolidated_channel(out: ChannelView, channel: ChannelView) -> bool {
    &&& out.id == channel.id
    &&& out.title == channel.title
    &&& out.description == channel.description
    &&& out.username == channel.username
    &&& is_consolidation(stamped_posts(out.posts), stamped_posts(channel.posts))
}

/// Consolidates the posts of one channel. `None` if a date of one of them
/// cannot be read.
pub fn consolidate_channel(channel: &TelegramChannel) -> (r: Option<TelegramChannel>)
    ensures
        r is Some <==> all_readable(channel@.posts),
        r matches Some(out) ==> is_consolidated_channel(out@, channel@),
{
    let dated = match date_posts(&channel.posts) {
        Some(d) => d,
        None => {
            return None;
        },
    };
    let merged = consolidate_posts(&dated);
    let ghost merged_views = dated_views(merged@);
    let posts = undated(merged);
    proof {
        let input = stamped_posts(channel@.posts);
        assert forall|i: int| 0 <= i < input.len() implies is_stamped(#[trigger] input[i]) by {
            assert(is_readable(channel@.posts[i]));
        }
        lemma_consolidation_keeps_stamps(merged_views, input);
        assert(stamped_posts(post_views(posts@)) =~= merged_views) by {
            assert forall|i: int| 0 <= i < posts.len() implies stamped(post_views(posts@)[i])
                == merged_views[i] by {
                assert(is_stamped(merged_views[i]));
            }
        }
    }
    Some(
        TelegramChannel {
            id: channel.id,
            title: channel.title.clone(),
            description: channel.description.clone(),
            username: channel.username.clone(),
            posts,
        },
    )
}

/// Consolidates the posts of every channel of the archive.
///
/// Fails with `NoAlbums` if the archive has no channel, and with
/// `CorruptData` if a date of a post cannot be read; the archive is then as
/// it was.
pub fn consolidate_media(data: &mut TelegramData) -> (r: Result<(), ArchiveError>)
    ensures
        match r {
            Ok(_) => {
                &&& old(data)@.len() > 0
                &&& archive_readable(old(data)@)
                &&& final(data)@.len() == old(data)@.len()
                &&& forall|k: int|
                    0 <= k < old(data)@.len() ==> is_consolidated_channel(
                        #[trigger] final(data)@[k],
                        old(data)@[k],
                    )
            },
            Err(e) => {
                &&& final(data)@ == old(data)@
                &&& old(data)@.len() == 0 ==> e == ArchiveError::NoAlbums
                &&& old(data)@.len() > 0 ==> e == ArchiveError::CorruptData && !archive_readable(
                    old(data)@,
                )
            },
        },
{
    if data.channels.len() == 0 {
        return Err(ArchiveError::NoAlbums);
    }
    let mut channels: Vec<TelegramChannel> = Vec::new();
    let mut k: usize = 0;
    while k < data.channels.len()
        invariant
            k <= data.channels.len(),
            channels.len() == k,
            forall|j: int| 0 <= j < k ==> all_readable((#[trigger] data@[j]).posts),
            forall|j: int|
                0 <= j < k ==> is_consolidated_channel((#[trigger] channels@[j])@, data@[j]),
        decreases data.channels.len() - k,
    {
        match consolidate_channel(&data.channels[k]) {
            Some(c) => {
                channels.push(c);
            },
            None => {
                assert(!all_readable(data@[k as int].posts));
                return Err(ArchiveError::CorruptData);
            },
        }
        k += 1;
    }
    data.channels = channels;
    Ok(())
}

/// Consolidation keeps the identifiers of the posts of a channel distinct.
pub proof fn lemma_consolidation_keeps_posts_distinct(out: ChannelView, channel: ChannelView)
    requires
        is_consolidated_channel(out, channel),
        posts_distinct(channel),
    ensures
        posts_distinct(out),
{
    let input = stamped_posts(channel.posts);
    let result = stamped_posts(out.posts);
    assert(ids_distinct(input)) by {
        assert forall|i: int, j: int| 0 <= i < j < input.len() implies (
        #[trigger] input[i]).post.id != (#[trigger] input[j]).post.id by {
            assert(channel.posts[i].id != channel.posts[j].id);
        }
    }
    lemma_grouped_keeps_ids_distinct(input);
    lemma_sorted_form_keeps_ids_distinct(result, grouped(input));
    assert forall|i: int, j: int| 0 <= i < j < out.posts.len() implies (
    #[trigger] out.posts[i]).id != (#[trigger] out.posts[j]).id by {
        assert(result[i].post.id != result[j].post.id);
    }
}

} // verus!
