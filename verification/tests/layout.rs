use archivegram::layout::{
    album_folder_path, data_file_path, media_file_path, user_folder, DATA_FILE, GALLERY_FOLDER,
    IMAGE_FOLDER, INDEX_FILE, STYLE_FOLDER,
};

#[test]
fn user_folder_is_named_by_the_user_identifier() {
    assert_eq!(user_folder(0), "0");
    assert_eq!(user_folder(123456789), "123456789");
    assert_eq!(user_folder(u64::MAX), "18446744073709551615");
}

#[test]
fn archive_document_lies_in_the_user_folder() {
    assert_eq!(data_file_path(42), vec!["42".to_string(), "data.json".to_string()]);
}

#[test]
fn album_folder_lies_in_the_user_folder() {
    assert_eq!(album_folder_path(42, "travel_notes"), vec!["42".to_string(), "travel_notes".to_string()]);
    assert_eq!(album_folder_path(42, "(default)"), vec!["42".to_string(), "(default)".to_string()]);
}

#[test]
fn media_file_lies_in_the_album_folder() {
    assert_eq!(
        media_file_path(42, "travel_notes", "large.jpg"),
        vec!["42".to_string(), "travel_notes".to_string(), "large.jpg".to_string()]
    );
}

#[test]
fn fixed_names_are_as_laid_out() {
    assert_eq!(DATA_FILE, "data.json");
    assert_eq!(INDEX_FILE, "index.html");
    assert_eq!(GALLERY_FOLDER, "gallery");
    assert_eq!(STYLE_FOLDER, "css");
    assert_eq!(IMAGE_FOLDER, "img");
}
