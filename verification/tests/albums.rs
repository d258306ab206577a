use archivegram::albums::{
    delete_user_album, find_album, generate_albums, generation_result, get_album_descriptions,
    ChannelInfo, Selector,
};
use archivegram::error::ArchiveError;
use archivegram::model::{TelegramChannel, TelegramData, TelegramPost};

fn channel(id: i64, key: &str, posts: usize) -> TelegramChannel {
    TelegramChannel {
        id,
        title: format!("Album {}", key),
        description: String::new(),
        username: key.to_string(),
        posts: (0..posts)
            .map(|i| TelegramPost {
                id: i as i32,
                date: "2024-03-01 12:00:05 UTC".to_string(),
                forward_date: "2024-03-01 12:00:05 UTC".to_string(),
                text: String::new(),
                photos: vec![],
                videos: vec![],
            })
            .collect(),
    }
}

fn archive() -> TelegramData {
    TelegramData {
        channels: vec![channel(0, "(default)", 2), channel(-5, "travel", 1), channel(-6, "food", 0)],
    }
}

fn key(name: &str) -> Selector {
    Selector::Key(name.to_string())
}

#[test]
fn key_that_no_album_has_is_not_found() {
    assert_eq!(generate_albums(&archive(), &key("music")), Err(ArchiveError::AlbumNotFound));
    assert_eq!(generate_albums(&archive(), &key("")), Err(ArchiveError::AlbumNotFound));
    assert_eq!(generate_albums(&archive(), &key("Travel")), Err(ArchiveError::AlbumNotFound));
    assert_eq!(generate_albums(&TelegramData::new(), &key("travel")), Err(ArchiveError::AlbumNotFound));
}

#[test]
fn all_albums_of_an_empty_archive_generate_nothing() {
    assert_eq!(generate_albums(&TelegramData::new(), &Selector::All), Err(ArchiveError::NothingGenerated));
}

#[test]
fn all_albums_are_generated_in_their_order() {
    assert_eq!(generate_albums(&archive(), &Selector::All), Ok(vec![0, 1, 2]));
}

#[test]
fn one_key_selects_the_first_album_that_has_it() {
    assert_eq!(generate_albums(&archive(), &key("travel")), Ok(vec![1]));
    assert_eq!(generate_albums(&archive(), &key("(default)")), Ok(vec![0]));
    let mut twice = archive();
    twice.channels.push(channel(-9, "travel", 4));
    assert_eq!(generate_albums(&twice, &key("travel")), Ok(vec![1]));
    assert_eq!(find_album(&twice, &"travel".to_string()), Some(1));
    assert_eq!(find_album(&twice, &"music".to_string()), None);
}

#[test]
fn generation_counts_the_albums_that_were_rendered() {
    assert_eq!(generation_result(&vec![true, false, true]), Ok(2));
    assert_eq!(generation_result(&vec![true]), Ok(1));
    assert_eq!(generation_result(&vec![false, false]), Err(ArchiveError::NothingGenerated));
    assert_eq!(generation_result(&vec![]), Err(ArchiveError::NothingGenerated));
}

#[test]
fn deleting_removes_the_first_album_with_the_key() {
    let mut data = archive();
    assert_eq!(delete_user_album(&mut data, &"travel".to_string()), Ok(()));
    assert_eq!(data, TelegramData { channels: vec![channel(0, "(default)", 2), channel(-6, "food", 0)] });
    let mut twice = archive();
    twice.channels.push(channel(-9, "travel", 4));
    assert_eq!(delete_user_album(&mut twice, &"travel".to_string()), Ok(()));
    assert_eq!(twice.channels.len(), 3);
    assert_eq!(twice.channels[2], channel(-9, "travel", 4));
}

#[test]
fn deleting_an_album_that_is_not_there_changes_nothing() {
    let mut data = archive();
    assert_eq!(delete_user_album(&mut data, &"music".to_string()), Err(ArchiveError::AlbumNotFound));
    assert_eq!(data, archive());
    assert_eq!(delete_user_album(&mut data, &"".to_string()), Err(ArchiveError::AlbumNotFound));
    let mut empty = TelegramData::new();
    assert_eq!(delete_user_album(&mut empty, &"travel".to_string()), Err(ArchiveError::AlbumNotFound));
}

#[test]
fn albums_are_listed_with_their_folder_sizes() {
    let list = get_album_descriptions(&archive(), &vec![10, 0, 3000]).unwrap();
    assert_eq!(
        list,
        vec![
            ChannelInfo { channel: channel(0, "(default)", 2), folder_size: 10 },
            ChannelInfo { channel: channel(-5, "travel", 1), folder_size: 0 },
            ChannelInfo { channel: channel(-6, "food", 0), folder_size: 3000 },
        ]
    );
    assert_eq!(list[0].channel.get_post_count(), 2);
    assert_eq!(list[1].channel.get_title(), "Album travel");
    assert_eq!(list[2].channel.get_username(), "food");
}

#[test]
fn archive_without_albums_has_nothing_to_list() {
    assert_eq!(get_album_descriptions(&TelegramData::new(), &vec![]), Err(ArchiveError::NoAlbums));
}
