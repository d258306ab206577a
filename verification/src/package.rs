//! Packaging the generated albums: the name of the package, and the files
//! that go into it.

use vstd::prelude::*;
use vstd::string::*;
use crate::message::opt_text;
use crate::model::texts;

verus! {

/// The text that `chrono::DateTime::format` gives for the moment `timestamp`
/// seconds after the Unix epoch, in UTC, under `format`; `None` where the
/// moment is beyond what `chrono::DateTime::from_timestamp` takes, or the
/// format is not one.
pub uninterp spec fn formatted_timestamp(timestamp: i64, format: Seq<char>) -> Option<Seq<char>>;

/// Makes the moment with `chrono::DateTime::from_timestamp` and writes it
/// with `chrono::DateTime::format`. Nothing is proved of it: the contract only
/// names the result.
#[verifier::external_body]
fn format_timestamp(timestamp: i64, format: &str) -> (r: Option<String>)
    ensures
        opt_text(r) == formatted_timestamp(timestamp, format@),
{
    let time = chrono::DateTime::from_timestamp(timestamp, 0)?;
    let mut text = String::new();
    match time.format(format).write_to(&mut text) {
        Ok(_) => Some(text),
        Err(_) => None,
    }
}

/// The form of the moment in a package's name, such as `2024-03-01_12-00-05`.
pub open spec fn stamp_format() -> Seq<char> {
    "%Y-%m-%d_%H-%M-%S"@
}

/// The name of the package made at a moment, given the moment's text.
pub open spec fn package_name(stamp: Seq<char>) -> Seq<char> {
    "ArchiveGramBot-Archive-"@ + stamp + ".zip"@
}

/// The name of the package made at the moment `now`, in seconds since the
/// Unix epoch: `ArchiveGramBot-Archive-`, the moment in UTC, and `.zip`.
/// `None` for a moment beyond the calendar.
pub fn archive_name(now: i64) -> (r: Option<String>)
    ensures
        opt_text(r) == match formatted_timestamp(now, stamp_format()) {
            Some(stamp) => Some(package_name(stamp)),
            None => None,
        },
{
    match format_timestamp(now, "%Y-%m-%d_%H-%M-%S") {
        Some(stamp) => Some(archive_name_for(stamp.as_str())),
        None => None,
    }
}

/// The name of the package made at a moment, given the moment's text.
pub fn archive_name_for(stamp: &str) -> (r: String)
    ensures
        r@ == package_name(stamp@),
{
    let mut name = "ArchiveGramBot-Archive-".to_owned();
    name.append(stamp);
    name.append(".zip");
    name
}

/// One entry met while walking the tree of generated albums.
#[derive(Debug, PartialEq, Eq)]
pub struct TreeEntry {
    /// The entry's path, relative to the root of the tree.
    pub path: String,
    /// Whether the entry is a regular file.
    pub is_file: bool,
}

/// An entry of the tree, as specifications see it.
pub struct TreeEntryView {
    pub path: Seq<char>,
    pub is_file: bool,
}

impl View for TreeEntry {
    type V = TreeEntryView;

    open spec fn view(&self) -> TreeEntryView {
        TreeEntryView { path: self.path@, is_file: self.is_file }
    }
}

/// The entries that a list holds, as specifications see them.
pub open spec fn entry_views(v: Seq<TreeEntry>) -> Seq<TreeEntryView> {
    v.map_values(|e: TreeEntry| e@)
}

/// The names under which the files of the tree go into the package: the
/// paths of the entries that are files, in the order of the walk.
pub open spec fn member_names(entries: Seq<TreeEntryView>) -> Seq<Seq<char>>
    decreases entries.len(),
{
    if entries.len() == 0 {
        Seq::empty()
    } else if entries.last().is_file {
        member_names(entries.drop_last()).push(entries.last().path)
    } else {
        member_names(entries.drop_last())
    }
}

/// The members of the package for a tree: each file of the tree under its
/// relative path, so that unpacking gives the tree back. Folders get no
/// member of their own.
pub fn zip_folder(entries: &Vec<TreeEntry>) -> (r: Vec<String>)
    ensures
        texts(r@) == member_names(entry_views(entries@)),
{
    let ghost views = entry_views(entries@);
    let mut names: Vec<String> = Vec::new();
    let mut i: usize = 0;
    assert(texts(names@) =~= member_names(views.take(0)));
    while i < entries.len()
        invariant
            i <= entries.len(),
            views == entry_views(entries@),
            texts(names@) == member_names(views.take(i as int)),
        decreases entries.len() - i,
    {
        let ghost before = names@;
        proof {
            assert(views.take(i + 1).drop_last() =~= views.take(i as int));
            assert(views.take(i + 1).last() == entries@[i as int]@);
        }
        if entries[i].is_file {
            names.push(entries[i].path.clone());
            assert(texts(names@) =~= texts(before).push(entries@[i as int]@.path));
        }
        i += 1;
    }
    assert(views.take(i as int) =~= views);
    names
}

/// Every member of the package is a file of the tree, and every file of the
/// tree is a member.
pub proof fn lemma_members_are_files(entries: Seq<TreeEntryView>, path: Seq<char>)
    ensures
        member_names(entries).contains(path) <==> exists|i: int|
            0 <= i < entries.len() && (#[trigger] entries[i]).is_file && entries[i].path == path,
    decreases entries.len(),
{
    if entries.len() > 0 {
        let rest = entries.drop_last();
        let last = entries.last();
        lemma_members_are_files(rest, path);
        let names = member_names(rest);
        if member_names(entries).contains(path) {
            let j = choose|j: int|
                0 <= j < member_names(entries).len() && member_names(entries)[j] == path;
            if last.is_file && j == names.len() {
                assert(entries[entries.len() - 1].is_file);
            } else {
                assert(names[j] == path);
                let i = choose|i: int|
                    0 <= i < rest.len() && (#[trigger] rest[i]).is_file && rest[i].path == path;
                assert(entries[i] == rest[i]);
            }
        }
        if exists|i: int|
            0 <= i < entries.len() && (#[trigger] entries[i]).is_file && entries[i].path == path {
            let i = choose|i: int|
                0 <= i < entries.len() && (#[trigger] entries[i]).is_file && entries[i].path
                    == path;
            if i == entries.len() - 1 {
                assert(member_names(entries)[names.len() as int] == path);
            } else {
                assert(rest[i] == entries[i]);
                let j = choose|j: int| 0 <= j < names.len() && names[j] == path;
                assert(member_names(entries)[j] == path);
            }
        }
    }
}

} // verus!
