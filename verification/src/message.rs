//! An incoming message, reduced to what the archive reads of it, and what
//! becomes of it in the archive.

use vstd::prelude::*;
use vstd::string::*;
use crate::error::FileType;
use crate::media::{
    declares_mp4, largest_photo, largest_photo_index, photo_views, MediaItem, MediaItemView,
    PhotoSize, PhotoSizeView, Video, VideoView,
};
use crate::model::{ChannelView, PostView, TelegramChannel, TelegramPost};

verus! {

/// The text of an optional string.
pub open spec fn opt_text(o: Option<String>) -> Option<Seq<char>> {
    match o {
        Some(s) => Some(s@),
        None => None,
    }
}

/// The text where there is one, else the default.
pub open spec fn text_or(o: Option<Seq<char>>, default: Seq<char>) -> Seq<char> {
    match o {
        Some(s) => s,
        None => default,
    }
}

/// The chat that a forwarded message first appeared in.
#[derive(Debug, PartialEq, Eq)]
pub struct Chat {
    pub id: i64,
    pub title: Option<String>,
    pub description: Option<String>,
    pub username: Option<String>,
}

/// An origin chat, as specifications see it.
pub struct ChatView {
    pub id: int,
    pub title: Option<Seq<char>>,
    pub description: Option<Seq<char>>,
    pub username: Option<Seq<char>>,
}

impl View for Chat {
    type V = ChatView;

    open spec fn view(&self) -> ChatView {
        ChatView {
            id: self.id as int,
            title: opt_text(self.title),
            description: opt_text(self.description),
            username: opt_text(self.username),
        }
    }
}

/// A message that a user sent or forwarded, reduced to what the archive reads
/// of it.
#[derive(Debug, PartialEq, Eq)]
pub struct Message {
    /// Identifier of the message in the user's own chat.
    pub id: i32,
    pub date: String,
    /// When the message was first sent, if it was forwarded.
    pub forward_date: Option<String>,
    /// Identifier of the message in its origin chat, if it was forwarded.
    pub forward_from_message_id: Option<i32>,
    pub forward_from_chat: Option<Chat>,
    /// The text of a message without media.
    pub text: Option<String>,
    /// The text beside the media of a message.
    pub caption: Option<String>,
    /// The renditions of the message's photo.
    pub photo: Option<Vec<PhotoSize>>,
    pub video: Option<Video>,
}

/// An incoming message, as specifications see it.
pub struct MessageView {
    pub id: int,
    pub date: Seq<char>,
    pub forward_date: Option<Seq<char>>,
    pub forward_from_message_id: Option<int>,
    pub forward_from_chat: Option<ChatView>,
    pub text: Option<Seq<char>>,
    pub caption: Option<Seq<char>>,
    pub photo: Option<Seq<PhotoSizeView>>,
    pub video: Option<VideoView>,
}

impl View for Message {
    type V = MessageView;

    open spec fn view(&self) -> MessageView {
        MessageView {
            id: self.id as int,
            date: self.date@,
            forward_date: opt_text(self.forward_date),
            forward_from_message_id: match self.forward_from_message_id {
                Some(i) => Some(i as int),
                None => None,
            },
            forward_from_chat: match self.forward_from_chat {
                Some(c) => Some(c@),
                None => None,
            },
            text: opt_text(self.text),
            caption: opt_text(self.caption),
            photo: match self.photo {
                Some(p) => Some(photo_views(p@)),
                None => None,
            },
            video: match self.video {
                Some(v) => Some(v@),
                None => None,
            },
        }
    }
}

/// The key of the album for posts without a named origin.
pub open spec fn default_key() -> Seq<char> {
    "(default)"@
}

/// The title of an album whose origin gives none.
pub open spec fn default_title() -> Seq<char> {
    "Default album"@
}

impl MessageView {
    /// Identifier of the album that the message belongs to: that of its
    /// origin chat, or 0.
    pub open spec fn album_id(self) -> int {
        match self.forward_from_chat {
            Some(c) => c.id,
            None => 0,
        }
    }

    /// Key of the album that the message belongs to: the user name of its
    /// origin chat, or `(default)`.
    pub open spec fn album_key(self) -> Seq<char> {
        match self.forward_from_chat {
            Some(c) => text_or(c.username, default_key()),
            None => default_key(),
        }
    }

    /// Title of the album, should the message open it.
    pub open spec fn album_title(self) -> Seq<char> {
        match self.forward_from_chat {
            Some(c) => text_or(c.title, default_title()),
            None => default_title(),
        }
    }

    /// Description of the album, should the message open it.
    pub open spec fn album_description(self) -> Seq<char> {
        match self.forward_from_chat {
            Some(c) => text_or(c.description, Seq::empty()),
            None => Seq::empty(),
        }
    }

    /// Identifier under which the message is archived: that in its origin
    /// chat, or its own.
    pub open spec fn post_id(self) -> int {
        match self.forward_from_message_id {
            Some(i) => i,
            None => self.id,
        }
    }

    /// The text that is archived: the caption of a message with a photo or a
    /// video, the text of any other.
    pub open spec fn post_text(self) -> Seq<char> {
        if self.photo is Some || self.video is Some {
            text_or(self.caption, Seq::empty())
        } else {
            text_or(self.text, Seq::empty())
        }
    }

    /// The media file that is kept, given whether the video is an MP4: the
    /// largest rendition of the photo, or else the video if it is an MP4.
    pub open spec fn kept_media(self, mp4: bool) -> Option<MediaItemView> {
        match self.photo {
            Some(photos) => {
                if photos.len() > 0 {
                    let p = photos[largest_photo_index(photos)];
                    Some(
                        MediaItemView {
                            kind: FileType::Photo,
                            file_id: p.file_id,
                            file_size: p.file_size,
                        },
                    )
                } else {
                    None
                }
            },
            None => match self.video {
                Some(v) => {
                    if mp4 {
                        Some(
                            MediaItemView {
                                kind: FileType::Video,
                                file_id: v.file_id,
                                file_size: v.file_size,
                            },
                        )
                    } else {
                        None
                    }
                },
                None => None,
            },
        }
    }

    /// Whether the message carries a video whose declared type is MP4.
    pub open spec fn video_is_mp4(self) -> bool {
        self.video matches Some(v) && declares_mp4(v)
    }

    /// The post that the message is archived as, with the media kept of it.
    pub open spec fn as_post(self, media: Option<MediaItemView>) -> PostView {
        PostView {
            id: self.post_id(),
            date: self.date,
            forward_date: text_or(self.forward_date, self.date),
            text: self.post_text(),
            photos: match media {
                Some(item) => if item.kind == FileType::Photo {
                    seq![item.file_name()]
                } else {
                    Seq::empty()
                },
                None => Seq::empty(),
            },
            videos: match media {
                Some(item) => if item.kind == FileType::Video {
                    seq![item.file_name()]
                } else {
                    Seq::empty()
                },
                None => Seq::empty(),
            },
        }
    }

    /// The album that the message opens, holding the one post.
    pub open spec fn as_channel(self, post: PostView) -> ChannelView {
        ChannelView {
            id: self.album_id(),
            title: self.album_title(),
            description: self.album_description(),
            username: self.album_key(),
            posts: seq![post],
        }
    }
}

/// The media file that the caller fetches and stores before it saves the
/// archive.
#[derive(Debug, PartialEq, Eq)]
pub struct MediaDownload {
    pub kind: FileType,
    /// Identifier by which the platform hands out the file.
    pub file_id: String,
    /// Name under which the file is stored.
    pub file_name: String,
    /// Key of the album in whose folder the file is stored.
    pub album: String,
    /// Length of the file in bytes.
    pub file_size: u64,
}

/// A file to fetch, as specifications see it.
pub struct MediaDownloadView {
    pub kind: FileType,
    pub file_id: Seq<char>,
    pub file_name: Seq<char>,
    pub album: Seq<char>,
    pub file_size: u64,
}

impl View for MediaDownload {
    type V = MediaDownloadView;

    open spec fn view(&self) -> MediaDownloadView {
        MediaDownloadView {
            kind: self.kind,
            file_id: self.file_id@,
            file_name: self.file_name@,
            album: self.album@,
            file_size: self.file_size,
        }
    }
}

/// The file to fetch of an optional download.
pub open spec fn opt_download(o: Option<MediaDownload>) -> Option<MediaDownloadView> {
    match o {
        Some(d) => Some(d@),
        None => None,
    }
}

/// The media item of an optional one.
pub open spec fn opt_item(o: Option<MediaItem>) -> Option<MediaItemView> {
    match o {
        Some(i) => Some(i@),
        None => None,
    }
}

impl MessageView {
    /// The file to fetch for the message, given whether its video is an MP4.
    pub open spec fn download(self, mp4: bool) -> Option<MediaDownloadView> {
        match self.kept_media(mp4) {
            Some(item) => Some(
                MediaDownloadView {
                    kind: item.kind,
                    file_id: item.file_id,
                    file_name: item.file_name(),
                    album: self.album_key(),
                    file_size: item.file_size,
                },
            ),
            None => None,
        }
    }
}

/// The string where there is one, else the default.
fn string_or(o: &Option<String>, default: &str) -> (r: String)
    ensures
        r@ == text_or(opt_text(*o), default@),
{
    match o {
        Some(s) => s.clone(),
        None => default.to_owned(),
    }
}

impl Message {
    /// Identifier of the album that the message belongs to.
    pub fn album_id(&self) -> (r: i64)
        ensures
            r == self@.album_id(),
    {
        match &self.forward_from_chat {
            Some(c) => c.id,
            None => 0,
        }
    }

    /// Key of the album that the message belongs to.
    pub fn album_key(&self) -> (r: String)
        ensures
            r@ == self@.album_key(),
    {
        match &self.forward_from_chat {
            Some(c) => string_or(&c.username, "(default)"),
            None => "(default)".to_owned(),
        }
    }

    /// Identifier under which the message is archived.
    pub fn post_id(&self) -> (r: i32)
        ensures
            r == self@.post_id(),
    {
        match self.forward_from_message_id {
            Some(i) => i,
            None => self.id,
        }
    }

    /// The media file that is kept of the message, given whether its video is
    /// an MP4.
    pub fn select_media(&self, mp4: bool) -> (r: Option<MediaItem>)
        ensures
            opt_item(r) == self@.kept_media(mp4),
    {
        match &self.photo {
            Some(photos) => match largest_photo(photos) {
                Some(i) => {
                    let p = &photos[i];
                    Some(
                        MediaItem {
                            kind: FileType::Photo,
                            file_id: p.file_id.clone(),
                            file_size: p.file_size,
                        },
                    )
                },
                None => None,
            },
            None => match &self.video {
                Some(v) => {
                    if mp4 {
                        Some(
                            MediaItem {
                                kind: FileType::Video,
                                file_id: v.file_id.clone(),
                                file_size: v.file_size,
                            },
                        )
                    } else {
                        None
                    }
                },
                None => None,
            },
        }
    }

    /// The post that the message is archived as, with the media kept of it.
    pub fn to_post(&self, media: &Option<MediaItem>) -> (r: TelegramPost)
        ensures
            r@ == self@.as_post(opt_item(*media)),
    {
        let text = if self.photo.is_some() || self.video.is_some() {
            string_or(&self.caption, "")
        } else {
            string_or(&self.text, "")
        };
        let mut photos: Vec<String> = Vec::new();
        let mut videos: Vec<String> = Vec::new();
        match media {
            Some(item) => {
                let name = item.file_name();
                match item.kind {
                    FileType::Photo => {
                        photos.push(name);
                    },
                    FileType::Video => {
                        videos.push(name);
                    },
                }
            },
            None => {},
        }
        let post = TelegramPost {
            id: self.post_id(),
            date: self.date.clone(),
            forward_date: match &self.forward_date {
                Some(d) => d.clone(),
                None => self.date.clone(),
            },
            text,
            photos,
            videos,
        };
        proof {
            reveal_strlit("");
            assert(""@ =~= Seq::<char>::empty());
            let want = self@.as_post(opt_item(*media));
            assert(post@.photos =~= want.photos);
            assert(post@.videos =~= want.videos);
        }
        post
    }

    /// The album that the message opens, holding the one post.
    pub fn to_channel(&self, post: TelegramPost) -> (r: TelegramChannel)
        ensures
            r@ == self@.as_channel(post@),
    {
        let ghost pv = post@;
        let mut posts: Vec<TelegramPost> = Vec::new();
        posts.push(post);
        let channel = match &self.forward_from_chat {
            Some(c) => TelegramChannel {
                id: c.id,
                title: string_or(&c.title, "Default album"),
                description: string_or(&c.description, ""),
                username: string_or(&c.username, "(default)"),
                posts,
            },
            None => TelegramChannel {
                id: 0,
                title: "Default album".to_owned(),
                description: "".to_owned(),
                username: "(default)".to_owned(),
                posts,
            },
        };
        proof {
            reveal_strlit("");
            assert(""@ =~= Seq::<char>::empty());
            assert(channel@.posts =~= seq![pv]);
        }
        channel
    }
}

} // verus!
