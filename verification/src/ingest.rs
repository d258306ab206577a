//! Adding an incoming message to the archive.

use vstd::prelude::*;
use crate::error::ArchiveError;
use crate::media::is_mp4;
use crate::message::{opt_download, MediaDownload, Message, MessageView};
use crate::model::{
    all_posts_distinct, keys_distinct, posts_distinct, ChannelView, PostView, TelegramChannel,
    TelegramData,
};
use crate::quota::{check_sizes, size_verdict, QuotaConfig};

verus! {

/// Whether `k` is the place of the first channel with the identifier.
pub open spec fn is_first_channel(a: Seq<ChannelView>, id: int, k: int) -> bool {
    &&& 0 <= k < a.len()
    &&& a[k].id == id
    &&& forall|j: int| 0 <= j < k ==> (#[trigger] a[j]).id != id
}

/// Whether the archive has a channel with the identifier.
pub open spec fn has_channel(a: Seq<ChannelView>, id: int) -> bool {
    exists|k: int| 0 <= k < a.len() && (#[trigger] a[k]).id == id
}

/// The place of the first channel with the identifier, where there is one.
pub open spec fn channel_index(a: Seq<ChannelView>, id: int) -> int {
    choose|k: int| is_first_channel(a, id, k)
}

/// Whether the channel has a post with the identifier.
pub open spec fn has_post(c: ChannelView, id: int) -> bool {
    exists|i: int| 0 <= i < c.posts.len() && (#[trigger] c.posts[i]).id == id
}

/// The channel with one more post at its end.
pub open spec fn channel_with(c: ChannelView, post: PostView) -> ChannelView {
    ChannelView { posts: c.posts.push(post), ..c }
}

/// The archive with the post added: at the end of the first channel that has
/// the message's album identifier, or else in a new channel at the end.
pub open spec fn with_post(a: Seq<ChannelView>, m: MessageView, post: PostView) -> Seq<
    ChannelView,
> {
    if has_channel(a, m.album_id()) {
        let k = channel_index(a, m.album_id());
        a.update(k, channel_with(a[k], post))
    } else {
        a.push(m.as_channel(post))
    }
}

/// What becomes of the archive when the message is added, given whether its
/// video is an MP4 and how large the user's folder is: a post that the album
/// already has is refused before anything else; then the media kept of the
/// message must pass the limits; then the post is added.
pub open spec fn ingested(
    a: Seq<ChannelView>,
    m: MessageView,
    mp4: bool,
    folder_size: u64,
    limits: QuotaConfig,
) -> Result<Seq<ChannelView>, ArchiveError> {
    if has_channel(a, m.album_id()) && has_post(a[channel_index(a, m.album_id())], m.post_id()) {
        Err(ArchiveError::DuplicatePost)
    } else {
        match m.kept_media(mp4) {
            Some(item) => match size_verdict(item.kind, item.file_size, folder_size, limits) {
                Ok(_) => Ok(with_post(a, m, m.as_post(Some(item)))),
                Err(e) => Err(e),
            },
            None => Ok(with_post(a, m, m.as_post(None))),
        }
    }
}

/// The first channel with an identifier is the only place that
/// `is_first_channel` holds of.
pub proof fn lemma_first_channel(a: Seq<ChannelView>, id: int, k: int)
    requires
        is_first_channel(a, id, k),
    ensures
        has_channel(a, id),
        channel_index(a, id) == k,
{
    let c = channel_index(a, id);
    assert(is_first_channel(a, id, c));
    if c < k {
        assert(a[c].id != id);
    } else if k < c {
        assert(a[k].id != id);
    }
}

/// An archive that has a channel with the identifier has a first one.
pub proof fn lemma_has_first_channel(a: Seq<ChannelView>, id: int)
    requires
        has_channel(a, id),
    ensures
        is_first_channel(a, id, channel_index(a, id)),
{
    let w = choose|k: int| 0 <= k < a.len() && (#[trigger] a[k]).id == id;
    lemma_first_below(a, id, w);
}

proof fn lemma_first_below(a: Seq<ChannelView>, id: int, w: int)
    requires
        0 <= w < a.len(),
        a[w].id == id,
    ensures
        is_first_channel(a, id, channel_index(a, id)),
    decreases w,
{
    if forall|j: int| 0 <= j < w ==> (#[trigger] a[j]).id != id {
        assert(is_first_channel(a, id, w));
    } else {
        let j = choose|j: int| 0 <= j < w && (#[trigger] a[j]).id == id;
        lemma_first_below(a, id, j);
    }
}

/// Finds the first channel with the identifier.
pub fn find_channel(data: &TelegramData, id: i64) -> (r: Option<usize>)
    ensures
        r is Some <==> has_channel(data@, id as int),
        r matches Some(k) ==> is_first_channel(data@, id as int, k as int) && channel_index(
            data@,
            id as int,
        ) == k,
{
    let mut i: usize = 0;
    while i < data.channels.len()
        invariant
            i <= data.channels.len(),
            forall|j: int| 0 <= j < i ==> (#[trigger] data@[j]).id != id,
        decreases data.channels.len() - i,
    {
        if data.channels[i].id == id {
            proof {
                assert(data@[i as int].id == id);
                lemma_first_channel(data@, id as int, i as int);
            }
            return Some(i);
        }
        i += 1;
    }
    None
}

/// Whether the channel has a post with the identifier.
pub fn contains_post(channel: &TelegramChannel, id: i32) -> (r: bool)
    ensures
        r == has_post(channel@, id as int),
{
    let mut i: usize = 0;
    while i < channel.posts.len()
        invariant
            i <= channel.posts.len(),
            forall|j: int| 0 <= j < i ==> (#[trigger] channel@.posts[j]).id != id,
        decreases channel.posts.len() - i,
    {
        if channel.posts[i].id == id {
            assert(channel@.posts[i as int].id == id);
            return true;
        }
        i += 1;
    }
    false
}

/// Adds the message to the archive, given whether its video is an MP4 and
/// the size of the user's folder before anything is fetched.
///
/// On success the archive holds the new post, and the result names the file
/// that the caller has to fetch and store, if one is kept. On failure the
/// archive is as it was.
pub fn record_post(
    data: &mut TelegramData,
    msg: &Message,
    mp4: bool,
    folder_size: u64,
    limits: &QuotaConfig,
) -> (r: Result<Option<MediaDownload>, ArchiveError>)
    ensures
        match ingested(old(data)@, msg@, mp4, folder_size, *limits) {
            Ok(a) => final(data)@ == a && r is Ok && opt_download(r->Ok_0) == msg@.download(mp4),
            Err(e) => final(data)@ == old(data)@ && r is Err && r->Err_0 == e,
        },
{
    let found = find_channel(data, msg.album_id());
    match found {
        Some(k) => {
            if contains_post(&data.channels[k], msg.post_id()) {
                return Err(ArchiveError::DuplicatePost);
            }
        },
        None => {},
    }
    let media = msg.select_media(mp4);
    match &media {
        Some(item) => {
            match check_sizes(item.kind, item.file_size, folder_size, limits) {
                Ok(_) => {},
                Err(e) => {
                    return Err(e);
                },
            }
        },
        None => {},
    }
    let post = msg.to_post(&media);
    let ghost before = data@;
    let ghost pv = post@;
    match found {
        Some(k) => {
            data.channels[k].posts.push(post);
            proof {
                assert(data@[k as int].posts =~= before[k as int].posts.push(pv));
                assert(data@ =~= before.update(k as int, channel_with(before[k as int], pv)));
            }
        },
        None => {
            let channel = msg.to_channel(post);
            data.channels.push(channel);
            assert(data@ =~= before.push(msg@.as_channel(pv)));
        },
    }
    let download = match media {
        Some(item) => {
            let file_name = item.file_name();
            Some(
                MediaDownload {
                    kind: item.kind,
                    file_name,
                    file_id: item.file_id,
                    album: msg.album_key(),
                    file_size: item.file_size,
                },
            )
        },
        None => None,
    };
    Ok(download)
}

/// Adds the message to the archive.
///
/// The album is the first channel with the identifier of the message's origin
/// chat, or a new one. A post that the album already has is refused before
/// anything else. Of a photo the largest rendition is kept, of a video the
/// file if its declared type is MP4; the file kept must pass the limits,
/// measured against `folder_size`, the size of the user's folder before
/// anything is fetched. A message whose media is not kept is archived with its
/// text alone.
///
/// On success the archive holds the new post, and the result names the file
/// that the caller has to fetch and store before it saves the archive, if one
/// is kept. On failure the archive is as it was.
pub fn add_new_post(
    data: &mut TelegramData,
    msg: &Message,
    folder_size: u64,
    limits: &QuotaConfig,
) -> (r: Result<Option<MediaDownload>, ArchiveError>)
    ensures
        match ingested(old(data)@, msg@, msg@.video_is_mp4(), folder_size, *limits) {
            Ok(a) => final(data)@ == a && r is Ok && opt_download(r->Ok_0) == msg@.download(
                msg@.video_is_mp4(),
            ),
            Err(e) => final(data)@ == old(data)@ && r is Err && r->Err_0 == e,
        },
{
    let mp4 = match &msg.video {
        Some(v) => is_mp4(v),
        None => false,
    };
    record_post(data, msg, mp4, folder_size, limits)
}

/// A message that is added a second time is refused: once a message has been
/// added, any message with the same album identifier and the same post
/// identifier fails with `DuplicatePost`, whatever else it holds.
pub proof fn lemma_repeated_post_is_refused(
    a: Seq<ChannelView>,
    first: MessageView,
    first_mp4: bool,
    first_folder_size: u64,
    first_limits: QuotaConfig,
    second: MessageView,
    second_mp4: bool,
    second_folder_size: u64,
    second_limits: QuotaConfig,
)
    requires
        ingested(a, first, first_mp4, first_folder_size, first_limits) is Ok,
        second.album_id() == first.album_id(),
        second.post_id() == first.post_id(),
    ensures
        ingested(
            ingested(a, first, first_mp4, first_folder_size, first_limits)->Ok_0,
            second,
            second_mp4,
            second_folder_size,
            second_limits,
        ) == Err::<Seq<ChannelView>, ArchiveError>(ArchiveError::DuplicatePost),
{
    let id = first.album_id();
    let post = first.as_post(first.kept_media(first_mp4));
    let b = ingested(a, first, first_mp4, first_folder_size, first_limits)->Ok_0;
    assert(b == with_post(a, first, post));
    if has_channel(a, id) {
        lemma_has_first_channel(a, id);
        let k = channel_index(a, id);
        assert(is_first_channel(b, id, k));
        lemma_first_channel(b, id, k);
        let n = a[k].posts.len() as int;
        assert(b[k].posts[n].id == first.post_id());
    } else {
        let k = a.len() as int;
        assert(is_first_channel(b, id, k));
        lemma_first_channel(b, id, k);
        assert(b[k].posts[0].id == first.post_id());
    }
}

/// Adding a message keeps post identifiers distinct within every channel.
pub proof fn lemma_ingest_keeps_posts_distinct(
    a: Seq<ChannelView>,
    m: MessageView,
    mp4: bool,
    folder_size: u64,
    limits: QuotaConfig,
)
    requires
        all_posts_distinct(a),
        ingested(a, m, mp4, folder_size, limits) is Ok,
    ensures
        all_posts_distinct(ingested(a, m, mp4, folder_size, limits)->Ok_0),
{
    let id = m.album_id();
    let post = m.as_post(m.kept_media(mp4));
    let b = ingested(a, m, mp4, folder_size, limits)->Ok_0;
    assert(b == with_post(a, m, post));
    if has_channel(a, id) {
        lemma_has_first_channel(a, id);
        let k = channel_index(a, id);
        assert(!has_post(a[k], m.post_id()));
        assert forall|c: int| 0 <= c < b.len() implies posts_distinct(#[trigger] b[c]) by {
            assert(posts_distinct(a[c]));
            if c == k {
                assert forall|i: int, j: int| 0 <= i < j < b[c].posts.len() implies (
                #[trigger] b[c].posts[i]).id != (#[trigger] b[c].posts[j]).id by {
                    if j == a[k].posts.len() {
                        assert(a[k].posts[i].id != m.post_id());
                    } else {
                        assert(a[k].posts[i].id != a[k].posts[j].id);
                    }
                }
            }
        }
    } else {
        assert forall|c: int| 0 <= c < b.len() implies posts_distinct(#[trigger] b[c]) by {
            if c < a.len() {
                assert(posts_distinct(a[c]));
            }
        }
    }
}

/// Adding a message keeps album keys distinct exactly when they were distinct
/// and the message either joins an album or opens one under a key that no
/// album has.
pub proof fn lemma_ingest_and_distinct_keys(
    a: Seq<ChannelView>,
    m: MessageView,
    mp4: bool,
    folder_size: u64,
    limits: QuotaConfig,
)
    requires
        ingested(a, m, mp4, folder_size, limits) is Ok,
    ensures
        keys_distinct(ingested(a, m, mp4, folder_size, limits)->Ok_0) <==> keys_distinct(a) && (
        has_channel(a, m.album_id()) || forall|k: int|
            0 <= k < a.len() ==> (#[trigger] a[k]).username != m.album_key()),
{
    let id = m.album_id();
    let post = m.as_post(m.kept_media(mp4));
    let b = ingested(a, m, mp4, folder_size, limits)->Ok_0;
    assert(b == with_post(a, m, post));
    if has_channel(a, id) {
        lemma_has_first_channel(a, id);
        let k = channel_index(a, id);
        assert(forall|c: int| 0 <= c < a.len() ==> (#[trigger] b[c]).username == a[c].username);
        if keys_distinct(a) {
            assert forall|i: int, j: int| 0 <= i < j < b.len() implies (#[trigger] b[i]).username
                != (#[trigger] b[j]).username by {
                assert(a[i].username != a[j].username);
            }
        }
        if keys_distinct(b) {
            assert forall|i: int, j: int| 0 <= i < j < a.len() implies (#[trigger] a[i]).username
                != (#[trigger] a[j]).username by {
                assert(b[i].username != b[j].username);
            }
        }
    } else {
        let n = a.len() as int;
        assert(b[n].username == m.album_key());
        assert(forall|c: int| 0 <= c < n ==> (#[trigger] b[c]) == a[c]);
        if keys_distinct(b) {
            assert forall|i: int, j: int| 0 <= i < j < a.len() implies (#[trigger] a[i]).username
                != (#[trigger] a[j]).username by {
                assert(b[i].username != b[j].username);
            }
            assert forall|k: int| 0 <= k < a.len() implies (#[trigger] a[k]).username
                != m.album_key() by {
                assert(b[k].username != b[n].username);
            }
        }
        if keys_distinct(a) && forall|k: int|
            0 <= k < a.len() ==> (#[trigger] a[k]).username != m.album_key() {
            assert forall|i: int, j: int| 0 <= i < j < b.len() implies (#[trigger] b[i]).username
                != (#[trigger] b[j]).username by {
                if j < n {
                    assert(a[i].username != a[j].username);
                } else {
                    assert(a[i].username != m.album_key());
                }
            }
        }
    }
}

/// A file over the limit for its kind is refused whatever room the folder
/// has; a file within it is refused exactly when it does not fit the room.
pub proof fn lemma_limits_decide(
    a: Seq<ChannelView>,
    m: MessageView,
    mp4: bool,
    folder_size: u64,
    limits: QuotaConfig,
)
    requires
        !(has_channel(a, m.album_id()) && has_post(
            a[channel_index(a, m.album_id())],
            m.post_id(),
        )),
        m.kept_media(mp4) is Some,
    ensures
        ({
            let item = m.kept_media(mp4)->Some_0;
            let r = ingested(a, m, mp4, folder_size, limits);
            if item.file_size > limits.spec_file_limit(item.kind) {
                r == Err::<Seq<ChannelView>, ArchiveError>(ArchiveError::MediaTooLarge(item.kind))
            } else if folder_size + item.file_size > limits.max_user_folder_bytes {
                r == Err::<Seq<ChannelView>, ArchiveError>(ArchiveError::QuotaExceeded)
            } else {
                r is Ok
            }
        }),
{
}

} // verus!
