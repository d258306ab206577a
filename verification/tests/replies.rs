use archivegram::error::{ArchiveError, FileType};
use archivegram::package::{archive_name, archive_name_for, zip_folder, TreeEntry};
use archivegram::quota::Config;
use archivegram::text::decimal_text;
use archivegram::replies::{
    add_post_reply, can_deliver, classify, consolidate_reply, delete_all_reply,
    delete_reply, generate_all_reply, generate_reply, Request, INVALID_COMMAND, NOT_AUTHORIZED,
    NO_ALBUMS, PACKAGE_TOO_LARGE, WAITING,
};

fn config() -> Config {
    Config {
        teloxide_token: "token".to_string(),
        data_folder: "data".to_string(),
        max_photo_size: 5,
        max_video_size: 20,
        max_user_folder_size: 1024,
        result_folder: "result".to_string(),
        log_path: "bot.log".to_string(),
        restrict_access: false,
        allowed_users: vec![],
    }
}

fn entry(path: &str, is_file: bool) -> TreeEntry {
    TreeEntry { path: path.to_string(), is_file }
}

#[test]
fn kinds_have_names_and_extensions() {
    assert_eq!(FileType::Photo.name(), "photo");
    assert_eq!(FileType::Video.name(), "video");
    assert_eq!(FileType::Photo.extension(), "jpg");
    assert_eq!(FileType::Video.extension(), "mp4");
}

#[test]
fn numbers_are_written_in_decimal() {
    assert_eq!(decimal_text(0), "0");
    assert_eq!(decimal_text(7), "7");
    assert_eq!(decimal_text(10), "10");
    assert_eq!(decimal_text(1024), "1024");
    assert_eq!(decimal_text(9876543210), "9876543210");
    assert_eq!(decimal_text(u64::MAX), "18446744073709551615");
}

#[test]
fn texts_are_taken_as_greeting_command_or_post() {
    assert_eq!(classify(Some("/start")), Request::Start);
    assert_eq!(classify(Some("/help me")), Request::InvalidCommand);
    assert_eq!(classify(Some("/")), Request::InvalidCommand);
    assert_eq!(classify(Some("/start now")), Request::InvalidCommand);
    assert_eq!(classify(Some("hello /start")), Request::Post);
    assert_eq!(classify(Some("")), Request::Post);
    assert_eq!(classify(None), Request::Post);
}

#[test]
fn packages_up_to_twenty_megabytes_are_sent() {
    assert!(can_deliver(0));
    assert!(can_deliver(20 * 1024 * 1024));
    assert!(!can_deliver(20 * 1024 * 1024 + 1));
}

#[test]
fn adding_a_post_is_answered_by_its_outcome() {
    let c = config();
    assert_eq!(add_post_reply(Ok(()), &c), "✅ Message added to archive.");
    assert_eq!(add_post_reply(Err(ArchiveError::DuplicatePost), &c), "❗ Post already exists!");
    assert_eq!(
        add_post_reply(Err(ArchiveError::MediaTooLarge(FileType::Photo)), &c),
        "❗ Photo file size exceeds 5 MB size limit!"
    );
    assert_eq!(
        add_post_reply(Err(ArchiveError::MediaTooLarge(FileType::Video)), &c),
        "❗ Video file size exceeds 20 MB size limit!"
    );
    assert_eq!(
        add_post_reply(Err(ArchiveError::QuotaExceeded), &c),
        "❗ User folder cannot exceed 1024 MB size limit!"
    );
    for e in [ArchiveError::IoError, ArchiveError::CorruptData, ArchiveError::NotFound] {
        assert_eq!(add_post_reply(Err(e), &c), "❌ Error adding message! Please contact bot owners!");
    }
}

#[test]
fn other_operations_are_answered_by_their_outcomes() {
    assert_eq!(consolidate_reply(Ok(())), "✅ Posts in all albums have been successfully consolidated.");
    assert_eq!(consolidate_reply(Err(ArchiveError::NoAlbums)), "❗ No albums found!");
    assert_eq!(consolidate_reply(Err(ArchiveError::CorruptData)), "❗ No albums found!");
    assert_eq!(generate_all_reply(Ok(12)), "✅ Successfully generated 12 albums.");
    assert_eq!(generate_all_reply(Err(ArchiveError::NothingGenerated)), "❗ Error generating albums!");
    assert_eq!(generate_reply(Ok(1), "travel"), "✅ Successfully generated album \"travel\".");
    assert_eq!(generate_reply(Err(ArchiveError::AlbumNotFound), "travel"), "❌ Album not found!");
    assert_eq!(
        generate_reply(Err(ArchiveError::NothingGenerated), "travel"),
        "❌ Error generating album \"travel\"!"
    );
    assert_eq!(delete_all_reply(Ok(())), "✅ All data deleted.");
    assert_eq!(delete_all_reply(Err(ArchiveError::NotFound)), "❗ No data found!");
    assert_eq!(
        delete_all_reply(Err(ArchiveError::IoError)),
        "❌ Error deleting data. Please contact bot owners!"
    );
    assert_eq!(delete_reply(Ok(())), "✅ Album deleted.");
    assert_eq!(delete_reply(Err(ArchiveError::AlbumNotFound)), "✅ Album not found.");
    assert_eq!(
        delete_reply(Err(ArchiveError::IoError)),
        "❌ Error deleting album. Please check album username and/or contact bot owners!"
    );
}

#[test]
fn fixed_answers_are_worded() {
    assert_eq!(WAITING, "⌛️");
    assert_eq!(NO_ALBUMS, "❗ No albums found!");
    assert_eq!(NOT_AUTHORIZED, "❗ You are not authorized to use this bot.");
    assert!(INVALID_COMMAND.starts_with("❌ Invalid command!"));
    assert!(PACKAGE_TOO_LARGE.starts_with("❗ Archive size exceeds 20 MB"));
}

#[test]
fn package_is_named_by_the_moment_it_is_made() {
    assert_eq!(archive_name(1709294405), Some("ArchiveGramBot-Archive-2024-03-01_12-00-05.zip".to_string()));
    assert_eq!(archive_name(0), Some("ArchiveGramBot-Archive-1970-01-01_00-00-00.zip".to_string()));
    assert_eq!(archive_name(-1), Some("ArchiveGramBot-Archive-1969-12-31_23-59-59.zip".to_string()));
    assert_eq!(archive_name(i64::MAX), None);
    assert_eq!(archive_name(i64::MIN), None);
    assert_eq!(archive_name_for("now"), "ArchiveGramBot-Archive-now.zip");
}

#[test]
fn package_holds_the_files_of_the_tree_under_their_paths() {
    let tree = vec![
        entry("", false),
        entry("travel", false),
        entry("travel/index.html", true),
        entry("travel/css", false),
        entry("travel/css/style.css", true),
        entry("travel/gallery", false),
        entry("travel/gallery/large.jpg", true),
        entry("food", false),
        entry("food/index.html", true),
    ];
    assert_eq!(
        zip_folder(&tree),
        vec![
            "travel/index.html".to_string(),
            "travel/css/style.css".to_string(),
            "travel/gallery/large.jpg".to_string(),
            "food/index.html".to_string(),
        ]
    );
    assert_eq!(zip_folder(&vec![]), Vec::<String>::new());
    assert_eq!(zip_folder(&vec![entry("", false)]), Vec::<String>::new());
}
