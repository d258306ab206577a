//! What the bot answers: how an incoming text is taken, and the wording of
//! each outcome. The operations themselves return typed outcomes; only this
//! module turns them into words.

use vstd::prelude::*;
use vstd::string::*;
use crate::error::{ArchiveError, FileType};
use crate::quota::Config;
use crate::text::{decimal, decimal_text};

verus! {

/// How an incoming text is taken.
#[derive(Clone, Copy, Debug, PartialEq, Eq, Structural)]
pub enum Request {
    /// The greeting that opens a chat: nothing is done.
    Start,
    /// A command that the bot does not know.
    InvalidCommand,
    /// Anything else: a message for the archive.
    Post,
}

/// How a text is taken: `/start` opens a chat, any other text that begins
/// with a slash is a command that the bot does not know, and everything else,
/// a message without text too, is for the archive.
pub open spec fn request_of(text: Option<Seq<char>>) -> Request {
    match text {
        Some(t) => if t == "/start"@ {
            Request::Start
        } else if t.len() > 0 && t[0] == '/' {
            Request::InvalidCommand
        } else {
            Request::Post
        },
        None => Request::Post,
    }
}

/// Decides how an incoming text that is no known command is taken.
pub fn classify(text: Option<&str>) -> (r: Request)
    ensures
        r == request_of(
            match text {
                Some(t) => Some(t@),
                None => None,
            },
        ),
{
    match text {
        Some(t) => {
            if t.to_owned() == "/start".to_owned() {
                Request::Start
            } else if t.unicode_len() > 0 && t.get_char(0) == '/' {
                Request::InvalidCommand
            } else {
                Request::Post
            }
        },
        None => Request::Post,
    }
}

/// The largest package that is sent to the user, in bytes.
pub const MAX_DELIVERY_BYTES: u64 = 20971520;

/// Whether a package of this size is sent to the user: one over the limit is
/// kept for the operator to hand over.
pub fn can_deliver(package_size: u64) -> (r: bool)
    ensures
        r == (package_size <= MAX_DELIVERY_BYTES),
{
    package_size <= MAX_DELIVERY_BYTES
}

/// The answer to a message that was added to the archive.
pub open spec fn post_added_text() -> Seq<char> {
    "✅ Message added to archive."@
}

/// The answer to a message that could not be added, for a reason the user
/// cannot mend.
pub open spec fn post_failed_text() -> Seq<char> {
    "❌ Error adding message! Please contact bot owners!"@
}

/// The answer to a message whose file is over the limit for its kind.
pub open spec fn media_too_large_text(kind: FileType, limit_mb: nat) -> Seq<char> {
    (match kind {
        FileType::Photo => "❗ Photo"@,
        FileType::Video => "❗ Video"@,
    }) + " file size exceeds "@ + decimal(limit_mb) + " MB size limit!"@
}

/// The answer to a message whose file does not fit the user's folder.
pub open spec fn quota_exceeded_text(limit_mb: nat) -> Seq<char> {
    "❗ User folder cannot exceed "@ + decimal(limit_mb) + " MB size limit!"@
}

/// The answer to the outcome of adding a message: the three refusals that a
/// user can act on are told with their limits, every other failure as a
/// fault.
pub open spec fn add_post_text(outcome: Result<(), ArchiveError>, config: Config) -> Seq<char> {
    match outcome {
        Ok(_) => post_added_text(),
        Err(ArchiveError::DuplicatePost) => "❗ Post already exists!"@,
        Err(ArchiveError::MediaTooLarge(FileType::Photo)) => media_too_large_text(
            FileType::Photo,
            config.max_photo_size as nat,
        ),
        Err(ArchiveError::MediaTooLarge(FileType::Video)) => media_too_large_text(
            FileType::Video,
            config.max_video_size as nat,
        ),
        Err(ArchiveError::QuotaExceeded) => quota_exceeded_text(config.max_user_folder_size as nat),
        Err(_) => post_failed_text(),
    }
}

/// Words the outcome of adding a message.
pub fn add_post_reply(outcome: Result<(), ArchiveError>, config: &Config) -> (r: String)
    ensures
        r@ == add_post_text(outcome, *config),
{
    match outcome {
        Ok(_) => "✅ Message added to archive.".to_owned(),
        Err(ArchiveError::DuplicatePost) => "❗ Post already exists!".to_owned(),
        Err(ArchiveError::MediaTooLarge(kind)) => {
            let (head, limit) = match kind {
                FileType::Photo => ("❗ Photo", config.max_photo_size),
                FileType::Video => ("❗ Video", config.max_video_size),
            };
            let mut text = head.to_owned();
            text.append(" file size exceeds ");
            text.append(decimal_text(limit as u64).as_str());
            text.append(" MB size limit!");
            text
        },
        Err(ArchiveError::QuotaExceeded) => {
            let mut text = "❗ User folder cannot exceed ".to_owned();
            text.append(decimal_text(config.max_user_folder_size as u64).as_str());
            text.append(" MB size limit!");
            text
        },
        Err(_) => "❌ Error adding message! Please contact bot owners!".to_owned(),
    }
}

/// Shown while a message is being added.
pub const WAITING: &'static str = "⌛️";

/// The answer to a command that the bot does not know.
pub const INVALID_COMMAND: &'static str =
    "❌ Invalid command! Please call /help to see the list of available commands.";

/// The answer to a user whom the settings keep out.
pub const NOT_AUTHORIZED: &'static str = "❗ You are not authorized to use this bot.";

/// The answer where there are no albums to show or to consolidate.
pub const NO_ALBUMS: &'static str = "❗ No albums found!";

/// The answer where a package is too large to be sent.
pub const PACKAGE_TOO_LARGE: &'static str =
    "❗ Archive size exceeds 20 MB and cannot be sent automatically. In order to get it, please contact bot owners.";

/// The answer to the outcome of consolidating: every failure is told as an
/// archive without albums.
pub open spec fn consolidate_text(outcome: Result<(), ArchiveError>) -> Seq<char> {
    match outcome {
        Ok(_) => "✅ Posts in all albums have been successfully consolidated."@,
        Err(_) => NO_ALBUMS@,
    }
}

/// Words the outcome of consolidating.
pub fn consolidate_reply(outcome: Result<(), ArchiveError>) -> (r: String)
    ensures
        r@ == consolidate_text(outcome),
{
    match outcome {
        Ok(_) => "✅ Posts in all albums have been successfully consolidated.".to_owned(),
        Err(_) => NO_ALBUMS.to_owned(),
    }
}

/// The answer to the outcome of generating every album: the number of
/// albums generated, or that nothing came of it.
pub open spec fn generate_all_text(outcome: Result<u64, ArchiveError>) -> Seq<char> {
    match outcome {
        Ok(count) => "✅ Successfully generated "@ + decimal(count as nat) + " albums."@,
        Err(_) => "❗ Error generating albums!"@,
    }
}

/// Words the outcome of generating every album.
pub fn generate_all_reply(outcome: Result<u64, ArchiveError>) -> (r: String)
    ensures
        r@ == generate_all_text(outcome),
{
    match outcome {
        Ok(count) => {
            let mut text = "✅ Successfully generated ".to_owned();
            text.append(decimal_text(count).as_str());
            text.append(" albums.");
            text
        },
        Err(_) => "❗ Error generating albums!".to_owned(),
    }
}

/// The answer to the outcome of generating the album with a key.
pub open spec fn generate_text(outcome: Result<u64, ArchiveError>, key: Seq<char>) -> Seq<char> {
    match outcome {
        Ok(_) => "✅ Successfully generated album \""@ + key + "\"."@,
        Err(ArchiveError::AlbumNotFound) => "❌ Album not found!"@,
        Err(_) => "❌ Error generating album \""@ + key + "\"!"@,
    }
}

/// Words the outcome of generating the album with a key.
pub fn generate_reply(outcome: Result<u64, ArchiveError>, key: &str) -> (r: String)
    ensures
        r@ == generate_text(outcome, key@),
{
    match outcome {
        Ok(_) => {
            let mut text = "✅ Successfully generated album \"".to_owned();
            text.append(key);
            text.append("\".");
            text
        },
        Err(ArchiveError::AlbumNotFound) => "❌ Album not found!".to_owned(),
        Err(_) => {
            let mut text = "❌ Error generating album \"".to_owned();
            text.append(key);
            text.append("\"!");
            text
        },
    }
}

/// The answer to the outcome of deleting all of a user's data.
pub open spec fn delete_all_text(outcome: Result<(), ArchiveError>) -> Seq<char> {
    match outcome {
        Ok(_) => "✅ All data deleted."@,
        Err(ArchiveError::NotFound) => "❗ No data found!"@,
        Err(_) => "❌ Error deleting data. Please contact bot owners!"@,
    }
}

/// Words the outcome of deleting all of a user's data.
pub fn delete_all_reply(outcome: Result<(), ArchiveError>) -> (r: String)
    ensures
        r@ == delete_all_text(outcome),
{
    match outcome {
        Ok(_) => "✅ All data deleted.".to_owned(),
        Err(ArchiveError::NotFound) => "❗ No data found!".to_owned(),
        Err(_) => "❌ Error deleting data. Please contact bot owners!".to_owned(),
    }
}

/// The answer to the outcome of deleting one album. An album that is not
/// there is told as done: nothing of it is left.
pub open spec fn delete_text(outcome: Result<(), ArchiveError>) -> Seq<char> {
    match outcome {
        Ok(_) => "✅ Album deleted."@,
        Err(ArchiveError::AlbumNotFound) => "✅ Album not found."@,
        Err(_) => "❌ Error deleting album. Please check album username and/or contact bot owners!"@,
    }
}

/// Words the outcome of deleting one album.
pub fn delete_reply(outcome: Result<(), ArchiveError>) -> (r: String)
    ensures
        r@ == delete_text(outcome),
{
    match outcome {
        Ok(_) => "✅ Album deleted.".to_owned(),
        Err(ArchiveError::AlbumNotFound) => "✅ Album not found.".to_owned(),
        Err(_) =>
            "❌ Error deleting album. Please check album username and/or contact bot owners!".to_owned(),
    }
}

} // verus!
