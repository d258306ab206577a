//! The outcomes that an archive operation can fail with.

use vstd::prelude::*;

verus! {

/// The kind of media file that a post carries.
#[derive(Clone, Copy, Debug, PartialEq, Eq, Structural)]
pub enum FileType {
    Photo,
    Video,
}

impl FileType {
    /// The lower-case name of the kind.
    pub open spec fn spec_name(self) -> Seq<char> {
        match self {
            FileType::Photo => "photo"@,
            FileType::Video => "video"@,
        }
    }

    /// The extension under which a file of this kind is stored.
    pub open spec fn spec_extension(self) -> Seq<char> {
        match self {
            FileType::Photo => "jpg"@,
            FileType::Video => "mp4"@,
        }
    }

    /// The lower-case name of the kind, `photo` or `video`.
    pub fn name(&self) -> (r: String)
        ensures
            r@ == self.spec_name(),
    {
        match self {
            FileType::Photo => "photo".to_owned(),
            FileType::Video => "video".to_owned(),
        }
    }

    /// The extension under which a file of this kind is stored, `jpg` or
    /// `mp4`.
    pub fn extension(&self) -> (r: String)
        ensures
            r@ == self.spec_extension(),
    {
        match self {
            FileType::Photo => "jpg".to_owned(),
            FileType::Video => "mp4".to_owned(),
        }
    }
}

/// Why an archive operation did not succeed.
///
/// The first seven are outcomes that a user can cause and understand; the
/// last two are faults of the stored data or of the storage itself.
#[derive(Clone, Copy, Debug, PartialEq, Eq, Structural)]
pub enum ArchiveError {
    /// The user has no archive.
    NotFound,
    /// The user's archive holds no album.
    NoAlbums,
    /// The album already holds a post with the same identifier.
    DuplicatePost,
    /// The media file is larger than the limit for its kind.
    MediaTooLarge(FileType),
    /// The media file would take the user's folder over its limit.
    QuotaExceeded,
    /// No album has the requested key.
    AlbumNotFound,
    /// None of the selected albums could be rendered.
    NothingGenerated,
    /// The stored archive cannot be read as an archive.
    CorruptData,
    /// Reading or writing storage failed.
    IoError,
}

} // verus!
