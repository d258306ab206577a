use archivegram::error::{ArchiveError, FileType};
use archivegram::ingest::{add_new_post, find_channel, record_post};
use archivegram::message::{Chat, MediaDownload, Message};
use archivegram::media::{is_mp4, largest_photo, PhotoSize, Video};
use archivegram::model::{TelegramChannel, TelegramData, TelegramPost};
use archivegram::quota::{get_folder_size, QuotaConfig, WalkEntry};

const MB: u64 = 1024 * 1024;

fn limits() -> QuotaConfig {
    QuotaConfig { max_photo_bytes: 5 * MB, max_video_bytes: 20 * MB, max_user_folder_bytes: 10 * MB }
}

fn plain(id: i32, text: &str) -> Message {
    Message {
        id,
        date: "2024-03-01 12:00:05 UTC".to_string(),
        forward_date: None,
        forward_from_message_id: None,
        forward_from_chat: None,
        text: Some(text.to_string()),
        caption: None,
        photo: None,
        video: None,
    }
}

fn origin() -> Chat {
    Chat {
        id: -1001234,
        title: Some("Travel".to_string()),
        description: Some("Photos of the road".to_string()),
        username: Some("travel_notes".to_string()),
    }
}

fn forwarded(id: i32, origin_message: i32) -> Message {
    Message {
        id,
        date: "2024-03-01 12:00:05 UTC".to_string(),
        forward_date: Some("2024-02-28 08:30:00 UTC".to_string()),
        forward_from_message_id: Some(origin_message),
        forward_from_chat: Some(origin()),
        text: None,
        caption: Some("On the road".to_string()),
        photo: None,
        video: None,
    }
}

fn photo(file_id: &str, size: u64, width: u32, height: u32) -> PhotoSize {
    PhotoSize { file_id: file_id.to_string(), file_size: size, width, height }
}

fn with_photo(mut msg: Message, size: u64) -> Message {
    msg.photo = Some(vec![photo("small", 1000, 90, 60), photo("large", size, 1280, 853)]);
    msg
}

fn with_video(mut msg: Message, size: u64, mime: Option<&str>) -> Message {
    msg.video = Some(Video {
        file_id: "clip".to_string(),
        file_size: size,
        mime_type: mime.map(|m| m.to_string()),
    });
    msg
}

#[test]
fn first_message_opens_the_default_album() {
    let mut data = TelegramData::new();
    let r = add_new_post(&mut data, &plain(7, "hello"), 0, &limits());
    assert_eq!(r, Ok(None));
    assert_eq!(
        data,
        TelegramData {
            channels: vec![TelegramChannel {
                id: 0,
                title: "Default album".to_string(),
                description: "".to_string(),
                username: "(default)".to_string(),
                posts: vec![TelegramPost {
                    id: 7,
                    date: "2024-03-01 12:00:05 UTC".to_string(),
                    forward_date: "2024-03-01 12:00:05 UTC".to_string(),
                    text: "hello".to_string(),
                    photos: vec![],
                    videos: vec![],
                }],
            }],
        }
    );
}

#[test]
fn forwarded_message_opens_an_album_of_its_origin() {
    let mut data = TelegramData::new();
    let r = add_new_post(&mut data, &with_photo(forwarded(7, 41), MB), 0, &limits());
    assert_eq!(
        r,
        Ok(Some(MediaDownload {
            kind: FileType::Photo,
            file_id: "large".to_string(),
            file_name: "large.jpg".to_string(),
            album: "travel_notes".to_string(),
            file_size: MB,
        }))
    );
    assert_eq!(data.channels.len(), 1);
    let channel = &data.channels[0];
    assert_eq!(channel.id, -1001234);
    assert_eq!(channel.get_title(), "Travel");
    assert_eq!(channel.description, "Photos of the road");
    assert_eq!(channel.get_username(), "travel_notes");
    assert_eq!(channel.get_post_count(), 1);
    assert_eq!(
        channel.posts[0],
        TelegramPost {
            id: 41,
            date: "2024-03-01 12:00:05 UTC".to_string(),
            forward_date: "2024-02-28 08:30:00 UTC".to_string(),
            text: "On the road".to_string(),
            photos: vec!["large.jpg".to_string()],
            videos: vec![],
        }
    );
}

#[test]
fn origin_without_names_falls_back_to_defaults() {
    let mut msg = forwarded(7, 41);
    msg.forward_from_chat =
        Some(Chat { id: -55, title: None, description: None, username: None });
    let mut data = TelegramData::new();
    assert_eq!(add_new_post(&mut data, &msg, 0, &limits()), Ok(None));
    let channel = &data.channels[0];
    assert_eq!(channel.id, -55);
    assert_eq!(channel.title, "Default album");
    assert_eq!(channel.description, "");
    assert_eq!(channel.username, "(default)");
    assert_eq!(msg.album_id(), -55);
    assert_eq!(msg.album_key(), "(default)");
    assert_eq!(msg.post_id(), 41);
}

#[test]
fn later_message_joins_the_album_of_its_origin() {
    let mut data = TelegramData::new();
    assert!(add_new_post(&mut data, &plain(1, "own"), 0, &limits()).is_ok());
    assert!(add_new_post(&mut data, &forwarded(2, 41), 0, &limits()).is_ok());
    assert!(add_new_post(&mut data, &plain(3, "own again"), 0, &limits()).is_ok());
    assert!(add_new_post(&mut data, &forwarded(4, 42), 0, &limits()).is_ok());
    assert_eq!(data.channels.len(), 2);
    assert_eq!(data.channels[0].username, "(default)");
    assert_eq!(data.channels[1].username, "travel_notes");
    let own: Vec<i32> = data.channels[0].posts.iter().map(|p| p.id).collect();
    let theirs: Vec<i32> = data.channels[1].posts.iter().map(|p| p.id).collect();
    assert_eq!(own, vec![1, 3]);
    assert_eq!(theirs, vec![41, 42]);
    assert_eq!(find_channel(&data, -1001234), Some(1));
    assert_eq!(find_channel(&data, 0), Some(0));
    assert_eq!(find_channel(&data, 5), None);
}

#[test]
fn second_post_with_the_same_origin_id_is_a_duplicate() {
    let mut data = TelegramData::new();
    assert!(add_new_post(&mut data, &with_photo(forwarded(7, 41), MB), 0, &limits()).is_ok());
    let after_first = data.clone();
    let again = with_video(forwarded(8, 41), MB, Some("video/mp4"));
    assert_eq!(add_new_post(&mut data, &again, 0, &limits()), Err(ArchiveError::DuplicatePost));
    assert_eq!(data, after_first);
}

#[test]
fn duplicate_is_refused_before_limits_are_tested() {
    let mut data = TelegramData::new();
    assert!(add_new_post(&mut data, &forwarded(7, 41), 0, &limits()).is_ok());
    let again = with_photo(forwarded(8, 41), 6 * MB);
    assert_eq!(add_new_post(&mut data, &again, 0, &limits()), Err(ArchiveError::DuplicatePost));
}

#[test]
fn same_post_id_in_another_album_is_no_duplicate() {
    let mut data = TelegramData::new();
    assert!(add_new_post(&mut data, &plain(41, "own"), 0, &limits()).is_ok());
    assert!(add_new_post(&mut data, &forwarded(8, 41), 0, &limits()).is_ok());
    assert_eq!(data.channels.len(), 2);
}

#[test]
fn photo_beyond_the_quota_is_refused() {
    let mut data = TelegramData::new();
    let r = add_new_post(&mut data, &with_photo(plain(1, ""), 2 * MB), 9 * MB, &limits());
    assert_eq!(r, Err(ArchiveError::QuotaExceeded));
    assert_eq!(data, TelegramData::new());
}

#[test]
fn photo_within_the_quota_is_kept_and_counts() {
    let mut data = TelegramData::new();
    let r = add_new_post(&mut data, &with_photo(plain(1, ""), MB / 2), 9 * MB, &limits());
    let download = r.unwrap().unwrap();
    assert_eq!(download.file_size, MB / 2);
    let folder = vec![
        WalkEntry { is_file: true, len: Some(9 * MB) },
        WalkEntry { is_file: true, len: Some(download.file_size) },
    ];
    assert_eq!(get_folder_size(&folder), Some(9 * MB + MB / 2));
    assert_eq!(data.channels[0].posts[0].photos, vec!["large.jpg".to_string()]);
}

#[test]
fn photo_that_fills_the_quota_exactly_is_kept() {
    let mut data = TelegramData::new();
    let r = add_new_post(&mut data, &with_photo(plain(1, ""), MB), 9 * MB, &limits());
    assert!(r.is_ok());
    let mut data = TelegramData::new();
    let r = add_new_post(&mut data, &with_photo(plain(1, ""), MB + 1), 9 * MB, &limits());
    assert_eq!(r, Err(ArchiveError::QuotaExceeded));
}

#[test]
fn photo_over_its_own_limit_is_refused_whatever_room_is_left() {
    let mut data = TelegramData::new();
    let r = add_new_post(&mut data, &with_photo(plain(1, ""), 6 * MB), 0, &limits());
    assert_eq!(r, Err(ArchiveError::MediaTooLarge(FileType::Photo)));
    let roomy = QuotaConfig { max_user_folder_bytes: 1000 * MB, ..limits() };
    let r = add_new_post(&mut data, &with_photo(plain(1, ""), 6 * MB), 0, &roomy);
    assert_eq!(r, Err(ArchiveError::MediaTooLarge(FileType::Photo)));
    let full = add_new_post(&mut data, &with_photo(plain(1, ""), 6 * MB), 10 * MB, &limits());
    assert_eq!(full, Err(ArchiveError::MediaTooLarge(FileType::Photo)));
    assert_eq!(data, TelegramData::new());
}

#[test]
fn video_over_its_own_limit_is_refused() {
    let mut data = TelegramData::new();
    let roomy = QuotaConfig { max_user_folder_bytes: 1000 * MB, ..limits() };
    let msg = with_video(plain(1, ""), 20 * MB + 1, Some("video/mp4"));
    assert_eq!(
        add_new_post(&mut data, &msg, 0, &roomy),
        Err(ArchiveError::MediaTooLarge(FileType::Video))
    );
    let msg = with_video(plain(1, ""), 20 * MB, Some("video/mp4"));
    assert!(add_new_post(&mut data, &msg, 0, &roomy).is_ok());
}

#[test]
fn mp4_video_is_kept() {
    let mut data = TelegramData::new();
    let mut msg = with_video(plain(1, "ignored"), 3 * MB, Some("video/mp4"));
    msg.caption = Some("A clip".to_string());
    let r = add_new_post(&mut data, &msg, 0, &limits());
    assert_eq!(
        r,
        Ok(Some(MediaDownload {
            kind: FileType::Video,
            file_id: "clip".to_string(),
            file_name: "clip.mp4".to_string(),
            album: "(default)".to_string(),
            file_size: 3 * MB,
        }))
    );
    let post = &data.channels[0].posts[0];
    assert_eq!(post.videos, vec!["clip.mp4".to_string()]);
    assert!(post.photos.is_empty());
    assert_eq!(post.text, "A clip");
}

#[test]
fn other_video_becomes_a_text_only_post() {
    let mut data = TelegramData::new();
    let mut msg = with_video(plain(1, "ignored"), 100 * MB, Some("video/quicktime"));
    msg.caption = Some("A clip".to_string());
    assert_eq!(add_new_post(&mut data, &msg, 0, &limits()), Ok(None));
    let post = &data.channels[0].posts[0];
    assert!(post.videos.is_empty());
    assert!(post.photos.is_empty());
    assert_eq!(post.text, "A clip");
}

#[test]
fn video_without_a_type_becomes_a_text_only_post() {
    let mut data = TelegramData::new();
    let msg = with_video(plain(1, "ignored"), MB, None);
    assert_eq!(add_new_post(&mut data, &msg, 0, &limits()), Ok(None));
    assert_eq!(data.channels[0].posts[0].text, "");
}

#[test]
fn media_type_is_compared_as_a_media_type() {
    let video = |mime: &str| Video {
        file_id: "clip".to_string(),
        file_size: 1,
        mime_type: Some(mime.to_string()),
    };
    assert!(is_mp4(&video("video/mp4")));
    assert!(is_mp4(&video("VIDEO/MP4")));
    assert!(!is_mp4(&video("video/mpeg")));
    assert!(!is_mp4(&video("video/mp4; codecs=avc1")));
    assert!(!is_mp4(&video("not a media type")));
    assert!(!is_mp4(&video("")));
    assert!(!is_mp4(&Video { file_id: "clip".to_string(), file_size: 1, mime_type: None }));
}

#[test]
fn photo_takes_precedence_over_video() {
    let mut data = TelegramData::new();
    let msg = with_video(with_photo(plain(1, ""), MB), MB, Some("video/mp4"));
    let download = add_new_post(&mut data, &msg, 0, &limits()).unwrap().unwrap();
    assert_eq!(download.kind, FileType::Photo);
}

#[test]
fn message_with_an_empty_photo_list_is_text_only() {
    let mut data = TelegramData::new();
    let mut msg = plain(1, "ignored");
    msg.photo = Some(vec![]);
    msg.caption = Some("Nothing to see".to_string());
    assert_eq!(add_new_post(&mut data, &msg, 0, &limits()), Ok(None));
    assert_eq!(data.channels[0].posts[0].text, "Nothing to see");
}

#[test]
fn largest_photo_is_the_first_with_the_most_pixels() {
    assert_eq!(largest_photo(&vec![]), None);
    let photos = vec![
        photo("a", 1, 100, 100),
        photo("b", 1, 200, 100),
        photo("c", 1, 100, 200),
        photo("d", 1, 50, 50),
    ];
    assert_eq!(largest_photo(&photos), Some(1));
    let wide = vec![photo("a", 1, 65536, 65536), photo("b", 1, 4294967295, 4294967295)];
    assert_eq!(largest_photo(&wide), Some(1));
}

#[test]
fn record_post_takes_the_verdict_on_the_video_as_given() {
    let msg = with_video(plain(1, ""), MB, Some("video/quicktime"));
    let mut data = TelegramData::new();
    let kept = record_post(&mut data, &msg, true, 0, &limits()).unwrap();
    assert_eq!(kept.unwrap().file_name, "clip.mp4");
    let mut data = TelegramData::new();
    assert_eq!(record_post(&mut data, &msg, false, 0, &limits()), Ok(None));
}
