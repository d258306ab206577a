//! Disk budget: the size of a user's folder, and the limits that a media file
//! must keep before it is stored.

use vstd::prelude::*;
use crate::error::{ArchiveError, FileType};

verus! {

/// The number of bytes in one megabyte, as the limits of `Config` count them.
pub const BYTES_PER_MB: u64 = 1048576;

/// The settings that the operator gives.
#[derive(Debug)]
pub struct Config {
    pub teloxide_token: String,
    pub data_folder: String,
    /// Largest photo that is stored, in megabytes.
    pub max_photo_size: u32,
    /// Largest video that is stored, in megabytes.
    pub max_video_size: u32,
    /// Largest size that one user's folder may reach, in megabytes.
    pub max_user_folder_size: u32,
    pub result_folder: String,
    pub log_path: String,
    pub restrict_access: bool,
    pub allowed_users: Vec<u64>,
}

/// The limits that a media file must keep, in bytes.
#[derive(Clone, Copy, Debug, PartialEq, Eq, Structural)]
pub struct QuotaConfig {
    pub max_photo_bytes: u64,
    pub max_video_bytes: u64,
    pub max_user_folder_bytes: u64,
}

impl QuotaConfig {
    /// The limit on one file of the given kind.
    pub open spec fn spec_file_limit(self, kind: FileType) -> u64 {
        match kind {
            FileType::Photo => self.max_photo_bytes,
            FileType::Video => self.max_video_bytes,
        }
    }

    /// The limit on one file of the given kind.
    pub fn file_limit(&self, kind: FileType) -> (r: u64)
        ensures
            r == self.spec_file_limit(kind),
    {
        match kind {
            FileType::Photo => self.max_photo_bytes,
            FileType::Video => self.max_video_bytes,
        }
    }
}

impl Clone for Config {
    fn clone(&self) -> (r: Self)
        ensures
            r.teloxide_token@ == self.teloxide_token@,
            r.data_folder@ == self.data_folder@,
            r.max_photo_size == self.max_photo_size,
            r.max_video_size == self.max_video_size,
            r.max_user_folder_size == self.max_user_folder_size,
            r.result_folder@ == self.result_folder@,
            r.log_path@ == self.log_path@,
            r.restrict_access == self.restrict_access,
            r.allowed_users@ == self.allowed_users@,
    {
        Config {
            teloxide_token: self.teloxide_token.clone(),
            data_folder: self.data_folder.clone(),
            max_photo_size: self.max_photo_size,
            max_video_size: self.max_video_size,
            max_user_folder_size: self.max_user_folder_size,
            result_folder: self.result_folder.clone(),
            log_path: self.log_path.clone(),
            restrict_access: self.restrict_access,
            allowed_users: self.allowed_users.clone(),
        }
    }
}

impl Config {
    /// The limits of the settings, in bytes.
    pub open spec fn spec_quota(self) -> QuotaConfig {
        QuotaConfig {
            max_photo_bytes: (self.max_photo_size * BYTES_PER_MB) as u64,
            max_video_bytes: (self.max_video_size * BYTES_PER_MB) as u64,
            max_user_folder_bytes: (self.max_user_folder_size * BYTES_PER_MB) as u64,
        }
    }

    /// The limits of the settings, converted from megabytes to bytes.
    pub fn quota(&self) -> (r: QuotaConfig)
        ensures
            r == self.spec_quota(),
            r.max_photo_bytes == self.max_photo_size * 1048576,
            r.max_video_bytes == self.max_video_size * 1048576,
            r.max_user_folder_bytes == self.max_user_folder_size * 1048576,
    {
        let photo: u64 = self.max_photo_size as u64;
        let video: u64 = self.max_video_size as u64;
        let folder: u64 = self.max_user_folder_size as u64;
        QuotaConfig {
            max_photo_bytes: photo * BYTES_PER_MB,
            max_video_bytes: video * BYTES_PER_MB,
            max_user_folder_bytes: folder * BYTES_PER_MB,
        }
    }

    /// Whether the settings keep this user out: access is restricted and the
    /// user is not among those allowed.
    pub open spec fn spec_denies(self, user_id: u64) -> bool {
        self.restrict_access && !self.allowed_users@.contains(user_id)
    }

    /// Whether the settings keep this user out.
    pub fn denies(&self, user_id: u64) -> (r: bool)
        ensures
            r == self.spec_denies(user_id),
    {
        if !self.restrict_access {
            return false;
        }
        let mut i: usize = 0;
        while i < self.allowed_users.len()
            invariant
                i <= self.allowed_users.len(),
                forall|j: int| 0 <= j < i ==> self.allowed_users@[j] != user_id,
            decreases self.allowed_users.len() - i,
        {
            if self.allowed_users[i] == user_id {
                return false;
            }
            i += 1;
        }
        true
    }
}

/// What `check_sizes` decides: the file's own limit is tested first, then the
/// room left in the user's folder.
pub open spec fn size_verdict(
    kind: FileType,
    file_size: u64,
    folder_size: u64,
    limits: QuotaConfig,
) -> Result<(), ArchiveError> {
    if file_size > limits.spec_file_limit(kind) {
        Err(ArchiveError::MediaTooLarge(kind))
    } else if file_size + folder_size > limits.max_user_folder_bytes {
        Err(ArchiveError::QuotaExceeded)
    } else {
        Ok(())
    }
}

/// Tests a media file of `file_size` bytes against the limit for its kind and
/// against the room left in a folder that holds `folder_size` bytes.
pub fn check_sizes(kind: FileType, file_size: u64, folder_size: u64, limits: &QuotaConfig) -> (r:
    Result<(), ArchiveError>)
    ensures
        r == size_verdict(kind, file_size, folder_size, *limits),
{
    if file_size > limits.file_limit(kind) {
        return Err(ArchiveError::MediaTooLarge(kind));
    }
    match file_size.checked_add(folder_size) {
        Some(total) => {
            if total > limits.max_user_folder_bytes {
                Err(ArchiveError::QuotaExceeded)
            } else {
                Ok(())
            }
        },
        None => Err(ArchiveError::QuotaExceeded),
    }
}

/// One entry met while walking a folder.
#[derive(Clone, Copy, Debug, PartialEq, Eq, Structural)]
pub struct WalkEntry {
    /// Whether the entry is a regular file.
    pub is_file: bool,
    /// The entry's length in bytes, where it could be read.
    pub len: Option<u64>,
}

impl WalkEntry {
    /// The bytes that the entry adds to its folder's size: its length if it is
    /// a file whose length is known, else nothing.
    pub open spec fn weight(self) -> nat {
        if self.is_file {
            match self.len {
                Some(n) => n as nat,
                None => 0,
            }
        } else {
            0
        }
    }
}

/// The sum of the weights of the entries.
pub open spec fn total_weight(entries: Seq<WalkEntry>) -> nat
    decreases entries.len(),
{
    if entries.len() == 0 {
        0
    } else {
        total_weight(entries.drop_last()) + entries.last().weight()
    }
}

/// The size of a folder, from the entries met while walking it: the sum of
/// the lengths of its files, or `None` where that sum is beyond `u64`.
/// A folder that does not exist has no entries, and size 0.
pub fn get_folder_size(entries: &Vec<WalkEntry>) -> (r: Option<u64>)
    ensures
        r == (if total_weight(entries@) <= u64::MAX {
            Some(total_weight(entries@) as u64)
        } else {
            None
        }),
{
    let mut total: u64 = 0;
    let mut i: usize = 0;
    while i < entries.len()
        invariant
            i <= entries.len(),
            total == total_weight(entries@.take(i as int)),
        decreases entries.len() - i,
    {
        let e = entries[i];
        let w: u64 = if e.is_file {
            match e.len {
                Some(n) => n,
                None => 0,
            }
        } else {
            0
        };
        proof {
            assert(entries@.take(i + 1).drop_last() =~= entries@.take(i as int));
            assert(entries@.take(i + 1).last() == e);
            assert(w == e.weight());
        }
        match total.checked_add(w) {
            Some(t) => {
                total = t;
            },
            None => {
                proof {
                    lemma_total_weight_grows(entries@, i + 1);
                }
                return None;
            },
        }
        i += 1;
    }
    assert(entries@.take(i as int) =~= entries@);
    Some(total)
}

/// The weight of the first `n` entries is no more than that of all.
pub proof fn lemma_total_weight_grows(entries: Seq<WalkEntry>, n: int)
    requires
        0 <= n <= entries.len(),
    ensures
        total_weight(entries.take(n)) <= total_weight(entries),
    decreases entries.len(),
{
    if n == entries.len() {
        assert(entries.take(n) =~= entries);
    } else {
        assert(entries.drop_last().take(n) =~= entries.take(n));
        lemma_total_weight_grows(entries.drop_last(), n);
    }
}

} // verus!
