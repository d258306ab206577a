use archivegram::error::{ArchiveError, FileType};
use archivegram::quota::{check_sizes, get_folder_size, Config, QuotaConfig, WalkEntry};
use archivegram::text::truncate_string;

const MB: u64 = 1024 * 1024;

fn config() -> Config {
    Config {
        teloxide_token: "token".to_string(),
        data_folder: "data".to_string(),
        max_photo_size: 5,
        max_video_size: 20,
        max_user_folder_size: 10,
        result_folder: "result".to_string(),
        log_path: "bot.log".to_string(),
        restrict_access: true,
        allowed_users: vec![11, 22],
    }
}

fn file(len: u64) -> WalkEntry {
    WalkEntry { is_file: true, len: Some(len) }
}

#[test]
fn limits_are_converted_from_megabytes() {
    let limits = config().quota();
    assert_eq!(
        limits,
        QuotaConfig { max_photo_bytes: 5242880, max_video_bytes: 20971520, max_user_folder_bytes: 10485760 }
    );
    assert_eq!(limits.file_limit(FileType::Photo), 5242880);
    assert_eq!(limits.file_limit(FileType::Video), 20971520);
    let large = Config { max_user_folder_size: u32::MAX, ..config() };
    assert_eq!(large.quota().max_user_folder_bytes, 4503599626321920);
}

#[test]
fn file_limit_is_tested_before_the_folder() {
    let limits = config().quota();
    assert_eq!(check_sizes(FileType::Photo, 2 * MB, 9 * MB, &limits), Err(ArchiveError::QuotaExceeded));
    assert_eq!(check_sizes(FileType::Photo, MB / 2, 9 * MB, &limits), Ok(()));
    assert_eq!(check_sizes(FileType::Photo, 6 * MB, 0, &limits), Err(ArchiveError::MediaTooLarge(FileType::Photo)));
    assert_eq!(check_sizes(FileType::Photo, 6 * MB, 9 * MB, &limits), Err(ArchiveError::MediaTooLarge(FileType::Photo)));
    assert_eq!(check_sizes(FileType::Video, 6 * MB, 0, &limits), Ok(()));
    assert_eq!(check_sizes(FileType::Video, 21 * MB, 0, &limits), Err(ArchiveError::MediaTooLarge(FileType::Video)));
    assert_eq!(check_sizes(FileType::Photo, 5 * MB, 5 * MB, &limits), Ok(()));
    assert_eq!(check_sizes(FileType::Photo, 5 * MB, 5 * MB + 1, &limits), Err(ArchiveError::QuotaExceeded));
    assert_eq!(check_sizes(FileType::Photo, 0, 10 * MB, &limits), Ok(()));
    assert_eq!(check_sizes(FileType::Photo, 0, 10 * MB + 1, &limits), Err(ArchiveError::QuotaExceeded));
}

#[test]
fn sizes_beyond_the_machine_word_exceed_every_quota() {
    let open = QuotaConfig { max_photo_bytes: u64::MAX, max_video_bytes: u64::MAX, max_user_folder_bytes: u64::MAX };
    assert_eq!(check_sizes(FileType::Photo, u64::MAX, 1, &open), Err(ArchiveError::QuotaExceeded));
    assert_eq!(check_sizes(FileType::Photo, u64::MAX, 0, &open), Ok(()));
}

#[test]
fn folder_size_is_the_sum_of_its_files() {
    assert_eq!(get_folder_size(&vec![]), Some(0));
    assert_eq!(get_folder_size(&vec![file(9 * MB), file(MB / 2)]), Some(9961472));
    let mixed = vec![
        WalkEntry { is_file: false, len: Some(4096) },
        file(100),
        WalkEntry { is_file: true, len: None },
        WalkEntry { is_file: false, len: None },
        file(23),
    ];
    assert_eq!(get_folder_size(&mixed), Some(123));
}

#[test]
fn folder_size_beyond_the_machine_word_is_none() {
    assert_eq!(get_folder_size(&vec![file(u64::MAX)]), Some(u64::MAX));
    assert_eq!(get_folder_size(&vec![file(u64::MAX), file(1)]), None);
    assert_eq!(get_folder_size(&vec![file(u64::MAX), file(1), file(5)]), None);
    assert_eq!(get_folder_size(&vec![file(u64::MAX), WalkEntry { is_file: false, len: Some(1) }]), Some(u64::MAX));
}

#[test]
fn restricted_access_keeps_out_who_is_not_listed() {
    assert!(!config().denies(11));
    assert!(!config().denies(22));
    assert!(config().denies(33));
    let open = Config { restrict_access: false, ..config() };
    assert!(!open.denies(33));
    let closed = Config { allowed_users: vec![], ..config() };
    assert!(closed.denies(11));
}

#[test]
fn long_text_is_cut_and_marked() {
    assert_eq!(truncate_string("hello world", 5), "hello...");
    assert_eq!(truncate_string("hello", 5), "hello");
    assert_eq!(truncate_string("hello", 6), "hello");
    assert_eq!(truncate_string("hello", 4), "hell...");
    assert_eq!(truncate_string("hello", 0), "...");
    assert_eq!(truncate_string("", 0), "");
    assert_eq!(truncate_string("", 3), "");
}

#[test]
fn text_is_cut_by_characters_not_bytes() {
    assert_eq!(truncate_string("привет мир", 6), "привет...");
    assert_eq!(truncate_string("привет", 6), "привет");
    assert_eq!(truncate_string("日本語のテキスト", 3), "日本語...");
}
