//! Looking at the albums of an archive: which of them a request selects,
//! what is listed of them, and how one is removed.

use vstd::prelude::*;
use crate::error::ArchiveError;
use crate::model::{
    all_posts_distinct, keys_distinct, posts_distinct, ChannelView, TelegramChannel, TelegramData,
};

verus! {

/// The albums that a request is for.
#[derive(Debug, PartialEq, Eq)]
pub enum Selector {
    /// Every album of the archive.
    All,
    /// The album with this key.
    Key(String),
}

/// A selector, as specifications see it.
pub enum SelectorView {
    All,
    Key(Seq<char>),
}

impl View for Selector {
    type V = SelectorView;

    open spec fn view(&self) -> SelectorView {
        match self {
            Selector::All => SelectorView::All,
            Selector::Key(k) => SelectorView::Key(k@),
        }
    }
}

/// Whether the archive has an album with the key.
pub open spec fn has_key(a: Seq<ChannelView>, key: Seq<char>) -> bool {
    exists|k: int| 0 <= k < a.len() && (#[trigger] a[k]).username == key
}

/// Whether `k` is the place of the first album with the key.
pub open spec fn is_first_with_key(a: Seq<ChannelView>, key: Seq<char>, k: int) -> bool {
    &&& 0 <= k < a.len()
    &&& a[k].username == key
    &&& forall|j: int| 0 <= j < k ==> (#[trigger] a[j]).username != key
}

/// The place of the first album with the key, where there is one.
pub open spec fn key_index(a: Seq<ChannelView>, key: Seq<char>) -> int {
    choose|k: int| is_first_with_key(a, key, k)
}

/// The first album with a key is the only place that `is_first_with_key`
/// holds of.
pub proof fn lemma_first_with_key(a: Seq<ChannelView>, key: Seq<char>, k: int)
    requires
        is_first_with_key(a, key, k),
    ensures
        has_key(a, key),
        key_index(a, key) == k,
{
    let c = key_index(a, key);
    assert(is_first_with_key(a, key, c));
    if c < k {
        assert(a[c].username != key);
    } else if k < c {
        assert(a[k].username != key);
    }
}

/// Finds the first album with the key.
pub fn find_album(data: &TelegramData, key: &String) -> (r: Option<usize>)
    ensures
        r is Some <==> has_key(data@, key@),
        r matches Some(k) ==> is_first_with_key(data@, key@, k as int) && key_index(data@, key@)
            == k,
{
    let mut i: usize = 0;
    while i < data.channels.len()
        invariant
            i <= data.channels.len(),
            forall|j: int| 0 <= j < i ==> (#[trigger] data@[j]).username != key@,
        decreases data.channels.len() - i,
    {
        if data.channels[i].username == *key {
            proof {
                assert(data@[i as int].username == key@);
                lemma_first_with_key(data@, key@, i as int);
            }
            return Some(i);
        }
        i += 1;
    }
    None
}

/// The places of the albums that a request selects, in the order in which
/// they are generated: all of them, or the first with the key. A key that no
/// album has is `AlbumNotFound`; all the albums of an archive that has none
/// is `NothingGenerated`.
pub open spec fn selected(a: Seq<ChannelView>, selector: SelectorView) -> Result<
    Seq<usize>,
    ArchiveError,
> {
    match selector {
        SelectorView::All => if a.len() == 0 {
            Err(ArchiveError::NothingGenerated)
        } else {
            Ok(Seq::new(a.len(), |i: int| i as usize))
        },
        SelectorView::Key(key) => if has_key(a, key) {
            Ok(seq![key_index(a, key) as usize])
        } else {
            Err(ArchiveError::AlbumNotFound)
        },
    }
}

/// The albums to generate for a request, as places in the archive, in the
/// order in which they are to be rendered.
pub fn generate_albums(data: &TelegramData, selector: &Selector) -> (r: Result<
    Vec<usize>,
    ArchiveError,
>)
    ensures
        match selected(data@, selector@) {
            Ok(plan) => r is Ok && r->Ok_0@ == plan,
            Err(e) => r is Err && r->Err_0 == e,
        },
{
    match selector {
        Selector::All => {
            if data.channels.len() == 0 {
                return Err(ArchiveError::NothingGenerated);
            }
            let mut plan: Vec<usize> = Vec::new();
            let mut i: usize = 0;
            while i < data.channels.len()
                invariant
                    i <= data.channels.len(),
                    plan.len() == i,
                    forall|j: int| 0 <= j < i ==> plan@[j] == j,
                decreases data.channels.len() - i,
            {
                plan.push(i);
                i += 1;
            }
            assert(plan@ =~= Seq::new(data@.len(), |i: int| i as usize));
            Ok(plan)
        },
        Selector::Key(key) => match find_album(data, key) {
            Some(k) => {
                let mut plan: Vec<usize> = Vec::new();
                plan.push(k);
                assert(plan@ =~= seq![k]);
                Ok(plan)
            },
            None => Err(ArchiveError::AlbumNotFound),
        },
    }
}

/// The number of albums that were rendered, among the outcomes of rendering
/// each selected album.
pub open spec fn successes(outcomes: Seq<bool>) -> nat
    decreases outcomes.len(),
{
    if outcomes.len() == 0 {
        0
    } else {
        successes(outcomes.drop_last()) + if outcomes.last() {
            1nat
        } else {
            0nat
        }
    }
}

/// What a generation comes to, from the outcomes of rendering each selected
/// album: the number of albums rendered, or `NothingGenerated` if none was.
pub fn generation_result(outcomes: &Vec<bool>) -> (r: Result<u64, ArchiveError>)
    ensures
        r == (if successes(outcomes@) == 0 {
            Err::<u64, ArchiveError>(ArchiveError::NothingGenerated)
        } else {
            Ok::<u64, ArchiveError>(successes(outcomes@) as u64)
        }),
{
    let mut count: u64 = 0;
    let mut i: usize = 0;
    while i < outcomes.len()
        invariant
            i <= outcomes.len(),
            count == successes(outcomes@.take(i as int)),
            count <= i,
        decreases outcomes.len() - i,
    {
        proof {
            assert(outcomes@.take(i + 1).drop_last() =~= outcomes@.take(i as int));
        }
        if outcomes[i] {
            count += 1;
        }
        i += 1;
    }
    assert(outcomes@.take(i as int) =~= outcomes@);
    if count == 0 {
        Err(ArchiveError::NothingGenerated)
    } else {
        Ok(count)
    }
}

/// Removes the first album with the key from the archive. The caller then
/// removes the album's media folder.
///
/// Fails with `AlbumNotFound` if no album has the key; the archive is then
/// as it was.
pub fn delete_user_album(data: &mut TelegramData, key: &String) -> (r: Result<(), ArchiveError>)
    ensures
        r is Ok <==> has_key(old(data)@, key@),
        r is Ok ==> final(data)@ == old(data)@.remove(key_index(old(data)@, key@)),
        r is Err ==> r->Err_0 == ArchiveError::AlbumNotFound && final(data)@ == old(data)@,
{
    match find_album(data, key) {
        Some(k) => {
            let ghost before = data@;
            let _ = data.channels.remove(k);
            assert(data@ =~= before.remove(k as int));
            Ok(())
        },
        None => Err(ArchiveError::AlbumNotFound),
    }
}

/// Removing an album keeps album keys distinct, and post identifiers distinct
/// within every album.
pub proof fn lemma_remove_keeps_distinct(a: Seq<ChannelView>, k: int)
    requires
        0 <= k < a.len(),
    ensures
        keys_distinct(a) ==> keys_distinct(a.remove(k)),
        all_posts_distinct(a) ==> all_posts_distinct(a.remove(k)),
{
    let b = a.remove(k);
    assert forall|i: int| 0 <= i < b.len() implies #[trigger] b[i] == a[if i < k {
        i
    } else {
        i + 1
    }] by {}
    if keys_distinct(a) {
        assert forall|i: int, j: int| 0 <= i < j < b.len() implies (#[trigger] b[i]).username != (
        #[trigger] b[j]).username by {
            let x = if i < k { i } else { i + 1 };
            let y = if j < k { j } else { j + 1 };
            assert(a[x].username != a[y].username);
        }
    }
    if all_posts_distinct(a) {
        assert forall|i: int| 0 <= i < b.len() implies posts_distinct(#[trigger] b[i]) by {
            let x = if i < k { i } else { i + 1 };
            assert(posts_distinct(a[x]));
        }
    }
}

/// What is listed of an album.
#[derive(Debug, PartialEq, Eq)]
pub struct ChannelInfo {
    pub channel: TelegramChannel,
    /// The size of the album's media folder in bytes.
    pub folder_size: u64,
}

/// What is listed of an album, as specifications see it.
pub struct ChannelInfoView {
    pub channel: ChannelView,
    pub folder_size: u64,
}

impl View for ChannelInfo {
    type V = ChannelInfoView;

    open spec fn view(&self) -> ChannelInfoView {
        ChannelInfoView { channel: self.channel@, folder_size: self.folder_size }
    }
}

/// Lists the albums of the archive, each with the size of its media folder:
/// `folder_sizes` holds, album by album, the size that the caller measured.
///
/// Fails with `NoAlbums` if the archive has no album.
pub fn get_album_descriptions(data: &TelegramData, folder_sizes: &Vec<u64>) -> (r: Result<
    Vec<ChannelInfo>,
    ArchiveError,
>)
    requires
        folder_sizes.len() == data@.len(),
    ensures
        r is Ok <==> data@.len() > 0,
        r is Err ==> r->Err_0 == ArchiveError::NoAlbums,
        r matches Ok(list) ==> list.len() == data@.len() && forall|k: int|
            0 <= k < list.len() ==> (#[trigger] list@[k])@ == (ChannelInfoView {
                channel: data@[k],
                folder_size: folder_sizes@[k],
            }),
{
    if data.channels.len() == 0 {
        return Err(ArchiveError::NoAlbums);
    }
    let mut list: Vec<ChannelInfo> = Vec::new();
    let mut k: usize = 0;
    while k < data.channels.len()
        invariant
            k <= data.channels.len(),
            folder_sizes.len() == data.channels.len(),
            list.len() == k,
            forall|j: int|
                0 <= j < k ==> (#[trigger] list@[j])@ == (ChannelInfoView {
                    channel: data@[j],
                    folder_size: folder_sizes@[j],
                }),
        decreases data.channels.len() - k,
    {
        list.push(
            ChannelInfo { channel: data.channels[k].clone(), folder_size: folder_sizes[k] },
        );
        k += 1;
    }
    Ok(list)
}

} // verus!
