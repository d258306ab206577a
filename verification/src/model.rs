//! The archive of one user: channels in the order in which they were first
//! seen, each with its posts in the order in which they were added.

use vstd::prelude::*;

verus! {

/// The texts that a list of strings holds.
pub open spec fn texts(v: Seq<String>) -> Seq<Seq<char>> {
    v.map_values(|s: String| s@)
}

/// One archived post, as specifications see it.
pub struct PostView {
    pub id: int,
    pub date: Seq<char>,
    pub forward_date: Seq<char>,
    pub text: Seq<char>,
    pub photos: Seq<Seq<char>>,
    pub videos: Seq<Seq<char>>,
}

/// One archived post: a caption and the names of its stored media files.
#[derive(Debug, PartialEq, Eq)]
pub struct TelegramPost {
    /// Identifier of the message in its origin chat.
    pub id: i32,
    /// When the message reached the archive.
    pub date: String,
    /// When the message was first sent; equal to `date` if it was not
    /// forwarded.
    pub forward_date: String,
    pub text: String,
    pub photos: Vec<String>,
    pub videos: Vec<String>,
}

impl View for TelegramPost {
    type V = PostView;

    open spec fn view(&self) -> PostView {
        PostView {
            id: self.id as int,
            date: self.date@,
            forward_date: self.forward_date@,
            text: self.text@,
            photos: texts(self.photos@),
            videos: texts(self.videos@),
        }
    }
}

/// Copies a list of strings.
pub fn clone_strings(v: &Vec<String>) -> (r: Vec<String>)
    ensures
        texts(r@) == texts(v@),
{
    let mut out: Vec<String> = Vec::new();
    let mut i: usize = 0;
    while i < v.len()
        invariant
            i <= v.len(),
            out.len() == i,
            forall|j: int| 0 <= j < i ==> out@[j]@ == v@[j]@,
        decreases v.len() - i,
    {
        out.push(v[i].clone());
        i += 1;
    }
    assert(texts(out@) =~= texts(v@));
    out
}

impl Clone for TelegramPost {
    fn clone(&self) -> (r: Self)
        ensures
            r@ == self@,
    {
        TelegramPost {
            id: self.id,
            date: self.date.clone(),
            forward_date: self.forward_date.clone(),
            text: self.text.clone(),
            photos: clone_strings(&self.photos),
            videos: clone_strings(&self.videos),
        }
    }
}

/// The posts that a list holds, as specifications see them.
pub open spec fn post_views(v: Seq<TelegramPost>) -> Seq<PostView> {
    v.map_values(|p: TelegramPost| p@)
}

/// Copies a list of posts.
pub fn clone_posts(v: &Vec<TelegramPost>) -> (r: Vec<TelegramPost>)
    ensures
        post_views(r@) == post_views(v@),
{
    let mut out: Vec<TelegramPost> = Vec::new();
    let mut i: usize = 0;
    while i < v.len()
        invariant
            i <= v.len(),
            out.len() == i,
            forall|j: int| 0 <= j < i ==> out@[j]@ == v@[j]@,
        decreases v.len() - i,
    {
        out.push(v[i].clone());
        i += 1;
    }
    assert(post_views(out@) =~= post_views(v@));
    out
}

/// One album, as specifications see it.
pub struct ChannelView {
    pub id: int,
    pub title: Seq<char>,
    pub description: Seq<char>,
    pub username: Seq<char>,
    pub posts: Seq<PostView>,
}

/// One album: the posts archived from one origin chat.
#[derive(Debug, PartialEq, Eq)]
pub struct TelegramChannel {
    /// Identifier of the origin chat; 0 for posts without one.
    pub id: i64,
    pub title: String,
    pub description: String,
    /// The album's key: the name of its media folder, and the name by which
    /// a user asks for it.
    pub username: String,
    pub posts: Vec<TelegramPost>,
}

impl View for TelegramChannel {
    type V = ChannelView;

    open spec fn view(&self) -> ChannelView {
        ChannelView {
            id: self.id as int,
            title: self.title@,
            description: self.description@,
            username: self.username@,
            posts: post_views(self.posts@),
        }
    }
}

impl Clone for TelegramChannel {
    fn clone(&self) -> (r: Self)
        ensures
            r@ == self@,
    {
        TelegramChannel {
            id: self.id,
            title: self.title.clone(),
            description: self.description.clone(),
            username: self.username.clone(),
            posts: clone_posts(&self.posts),
        }
    }
}

impl TelegramChannel {
    pub fn get_username(&self) -> (r: &str)
        ensures
            r@ == self@.username,
    {
        self.username.as_str()
    }

    pub fn get_title(&self) -> (r: &str)
        ensures
            r@ == self@.title,
    {
        self.title.as_str()
    }

    pub fn get_post_count(&self) -> (r: usize)
        ensures
            r == self@.posts.len(),
    {
        self.posts.len()
    }
}

/// The channels that a list holds, as specifications see them.
pub open spec fn channel_views(v: Seq<TelegramChannel>) -> Seq<ChannelView> {
    v.map_values(|c: TelegramChannel| c@)
}

/// The whole archive of one user.
#[derive(Debug, PartialEq, Eq)]
pub struct TelegramData {
    pub channels: Vec<TelegramChannel>,
}

impl View for TelegramData {
    type V = Seq<ChannelView>;

    open spec fn view(&self) -> Seq<ChannelView> {
        channel_views(self.channels@)
    }
}

/// No two posts of the channel have the same identifier.
pub open spec fn posts_distinct(c: ChannelView) -> bool {
    forall|i: int, j: int|
        0 <= i < j < c.posts.len() ==> (#[trigger] c.posts[i]).id != (#[trigger] c.posts[j]).id
}

/// In every channel of the archive, no two posts have the same identifier.
pub open spec fn all_posts_distinct(a: Seq<ChannelView>) -> bool {
    forall|k: int| 0 <= k < a.len() ==> posts_distinct(#[trigger] a[k])
}

/// No two channels of the archive have the same key.
pub open spec fn keys_distinct(a: Seq<ChannelView>) -> bool {
    forall|i: int, j: int|
        0 <= i < j < a.len() ==> (#[trigger] a[i]).username != (#[trigger] a[j]).username
}

impl TelegramData {
    /// An archive without channels.
    pub fn new() -> (r: Self)
        ensures
            r@ == Seq::<ChannelView>::empty(),
    {
        let r = TelegramData { channels: Vec::new() };
        assert(r@ =~= Seq::<ChannelView>::empty());
        r
    }
}

impl Clone for TelegramData {
    fn clone(&self) -> (r: Self)
        ensures
            r@ == self@,
    {
        let mut out: Vec<TelegramChannel> = Vec::new();
        let mut i: usize = 0;
        while i < self.channels.len()
            invariant
                i <= self.channels.len(),
                out.len() == i,
                forall|j: int| 0 <= j < i ==> out@[j]@ == self.channels@[j]@,
            decreases self.channels.len() - i,
        {
            out.push(self.channels[i].clone());
            i += 1;
        }
        let r = TelegramData { channels: out };
        assert(r@ =~= self@);
        r
    }
}

} // verus!
