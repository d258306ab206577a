//! Where things lie on disk, as paths relative to the data root and to the
//! result root. A path is given by its components, for the caller to join.

use vstd::prelude::*;
use vstd::string::*;
use crate::model::texts;
use crate::text::{decimal, decimal_text};

verus! {

/// The name of the archive document in a user's folder.
pub const DATA_FILE: &'static str = "data.json";

/// The name of the rendered document in an album's result folder.
pub const INDEX_FILE: &'static str = "index.html";

/// The name of the folder of media files in an album's result folder.
pub const GALLERY_FOLDER: &'static str = "gallery";

/// The names of the folders of shared assets, in the template folder and in
/// every album's result folder.
pub const STYLE_FOLDER: &'static str = "css";

pub const IMAGE_FOLDER: &'static str = "img";

/// The name of a user's folder under either root: the user's identifier in
/// decimal digits.
pub fn user_folder(user_id: u64) -> (r: String)
    ensures
        r@ == decimal(user_id as nat),
{
    decimal_text(user_id)
}

/// The path of a user's archive document under the data root.
pub fn data_file_path(user_id: u64) -> (r: Vec<String>)
    ensures
        texts(r@) == seq![decimal(user_id as nat), DATA_FILE@],
{
    let mut path: Vec<String> = Vec::new();
    path.push(user_folder(user_id));
    path.push(DATA_FILE.to_owned());
    assert(texts(path@) =~= seq![decimal(user_id as nat), DATA_FILE@]);
    path
}

/// The path of an album's folder: under the data root the folder of its
/// media files, under the result root the folder of its gallery.
pub fn album_folder_path(user_id: u64, album: &str) -> (r: Vec<String>)
    ensures
        texts(r@) == seq![decimal(user_id as nat), album@],
{
    let mut path: Vec<String> = Vec::new();
    path.push(user_folder(user_id));
    path.push(album.to_owned());
    assert(texts(path@) =~= seq![decimal(user_id as nat), album@]);
    path
}

/// The path of a stored media file under the data root.
pub fn media_file_path(user_id: u64, album: &str, file_name: &str) -> (r: Vec<String>)
    ensures
        texts(r@) == seq![decimal(user_id as nat), album@, file_name@],
{
    let mut path = album_folder_path(user_id, album);
    let ghost before = path@;
    path.push(file_name.to_owned());
    assert(texts(path@) =~= texts(before).push(file_name@));
    path
}

} // verus!
