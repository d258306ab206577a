//! The media that an incoming message carries, and which of it is kept.

use vstd::prelude::*;
use vstd::string::*;
use std::str::FromStr;
use crate::error::FileType;

verus! {

/// One rendition of a photo, as the origin platform offers it.
#[derive(Debug, PartialEq, Eq)]
pub struct PhotoSize {
    pub file_id: String,
    /// Length of the file in bytes.
    pub file_size: u64,
    pub width: u32,
    pub height: u32,
}

/// A rendition of a photo, as specifications see it.
pub struct PhotoSizeView {
    pub file_id: Seq<char>,
    pub file_size: u64,
    pub width: u32,
    pub height: u32,
}

impl PhotoSizeView {
    /// The number of pixels of the rendition.
    pub open spec fn area(self) -> int {
        self.width * self.height
    }
}

impl View for PhotoSize {
    type V = PhotoSizeView;

    open spec fn view(&self) -> PhotoSizeView {
        PhotoSizeView {
            file_id: self.file_id@,
            file_size: self.file_size,
            width: self.width,
            height: self.height,
        }
    }
}

/// The renditions that a list holds, as specifications see them.
pub open spec fn photo_views(v: Seq<PhotoSize>) -> Seq<PhotoSizeView> {
    v.map_values(|p: PhotoSize| p@)
}

/// A video, as the origin platform offers it.
#[derive(Debug, PartialEq, Eq)]
pub struct Video {
    pub file_id: String,
    /// Length of the file in bytes.
    pub file_size: u64,
    /// The media type that the platform declares for the file.
    pub mime_type: Option<String>,
}

/// A video, as specifications see it.
pub struct VideoView {
    pub file_id: Seq<char>,
    pub file_size: u64,
    pub mime_type: Option<Seq<char>>,
}

impl View for Video {
    type V = VideoView;

    open spec fn view(&self) -> VideoView {
        VideoView {
            file_id: self.file_id@,
            file_size: self.file_size,
            mime_type: match self.mime_type {
                Some(t) => Some(t@),
                None => None,
            },
        }
    }
}

/// The media file that is kept of a message, as specifications see it.
pub struct MediaItemView {
    pub kind: FileType,
    pub file_id: Seq<char>,
    pub file_size: u64,
}

impl MediaItemView {
    /// The name under which the file is stored: its identifier, a dot and the
    /// extension of its kind.
    pub open spec fn file_name(self) -> Seq<char> {
        self.file_id + seq!['.'] + self.kind.spec_extension()
    }
}

/// The media file that is kept of a message.
#[derive(Debug, PartialEq, Eq)]
pub struct MediaItem {
    pub kind: FileType,
    pub file_id: String,
    /// Length of the file in bytes.
    pub file_size: u64,
}

impl View for MediaItem {
    type V = MediaItemView;

    open spec fn view(&self) -> MediaItemView {
        MediaItemView { kind: self.kind, file_id: self.file_id@, file_size: self.file_size }
    }
}

impl MediaItem {
    /// The name under which the file is stored.
    pub fn file_name(&self) -> (r: String)
        ensures
            r@ == self@.file_name(),
    {
        let mut name = self.file_id.clone();
        name.append(".");
        let ext = self.kind.extension();
        name.append(ext.as_str());
        proof {
            reveal_strlit(".");
            assert("."@ =~= seq!['.']);
        }
        name
    }
}

/// Whether `i` is the place of the rendition that is kept: none has more
/// pixels, and none before it has as many.
pub open spec fn is_largest_photo(photos: Seq<PhotoSizeView>, i: int) -> bool {
    &&& 0 <= i < photos.len()
    &&& forall|j: int| 0 <= j < photos.len() ==> (#[trigger] photos[j]).area() <= photos[i].area()
    &&& forall|j: int| 0 <= j < i ==> (#[trigger] photos[j]).area() < photos[i].area()
}

/// The place of the rendition that is kept.
pub open spec fn largest_photo_index(photos: Seq<PhotoSizeView>) -> int {
    choose|i: int| is_largest_photo(photos, i)
}

/// The place that `is_largest_photo` holds of is the only one.
pub proof fn lemma_largest_photo_unique(photos: Seq<PhotoSizeView>, i: int, j: int)
    requires
        is_largest_photo(photos, i),
        is_largest_photo(photos, j),
    ensures
        i == j,
{
    if i < j {
        assert(photos[i].area() < photos[j].area());
    } else if j < i {
        assert(photos[j].area() < photos[i].area());
    }
}

/// The number of pixels of a rendition.
fn pixels(photo: &PhotoSize) -> (r: u64)
    ensures
        r == photo@.area(),
{
    let w: u64 = photo.width as u64;
    let h: u64 = photo.height as u64;
    assert(w * h <= u64::MAX) by (nonlinear_arith)
        requires
            w <= u32::MAX,
            h <= u32::MAX,
    ;
    w * h
}

/// Finds the rendition with the most pixels, the first of them where several
/// have as many. `None` for an empty list.
pub fn largest_photo(photos: &Vec<PhotoSize>) -> (r: Option<usize>)
    ensures
        photos.len() == 0 <==> r is None,
        r matches Some(i) ==> is_largest_photo(photo_views(photos@), i as int)
            && largest_photo_index(photo_views(photos@)) == i,
{
    if photos.len() == 0 {
        return None;
    }
    let ghost views = photo_views(photos@);
    let mut best: usize = 0;
    let mut best_area: u64 = pixels(&photos[0]);
    let mut i: usize = 1;
    while i < photos.len()
        invariant
            1 <= i <= photos.len(),
            views == photo_views(photos@),
            best < i,
            best_area == views[best as int].area(),
            forall|j: int| 0 <= j < i ==> (#[trigger] views[j]).area() <= best_area,
            forall|j: int| 0 <= j < best ==> (#[trigger] views[j]).area() < best_area,
        decreases photos.len() - i,
    {
        let area: u64 = pixels(&photos[i]);
        if area > best_area {
            best = i;
            best_area = area;
        }
        i += 1;
    }
    proof {
        assert(is_largest_photo(views, best as int));
        lemma_largest_photo_unique(views, best as int, largest_photo_index(views));
    }
    Some(best)
}

/// Whether two texts name the same media type: what `==` gives for the two
/// values that `mime::Mime::from_str` reads from them, where it reads both;
/// `None` where it refuses one.
pub uninterp spec fn media_types_equal(declared: Seq<char>, wanted: Seq<char>) -> Option<bool>;

/// Reads both texts with `mime::Mime::from_str` and compares the two media
/// types with `==`, which ignores letter case and the layout of parameters.
/// Nothing is proved of it: the contract only names the result. The
/// comparison walks the parameters of both sides by byte positions of the
/// declared one; the wanted type is given without parameters, for which that
/// walk ends at once on every declared type.
#[verifier::external_body]
fn same_media_type(declared: &str, wanted: &str) -> (r: Option<bool>)
    requires
        !wanted@.contains(';'),
    ensures
        r == media_types_equal(declared@, wanted@),
{
    match (mime::Mime::from_str(declared), mime::Mime::from_str(wanted)) {
        (Ok(a), Ok(b)) => Some(a == b),
        _ => None,
    }
}

/// The one media type of video that is kept.
pub open spec fn mp4_type() -> Seq<char> {
    "video/mp4"@
}

/// Whether the video's declared media type is the one that is kept.
pub open spec fn declares_mp4(video: VideoView) -> bool {
    video.mime_type matches Some(t) && media_types_equal(t, mp4_type()) == Some(true)
}

/// Whether the video's declared media type is MP4. A video without a
/// declared type, or with one that cannot be read, is not.
pub fn is_mp4(video: &Video) -> (r: bool)
    ensures
        r == declares_mp4(video@),
{
    match &video.mime_type {
        Some(t) => {
            proof {
                reveal_strlit("video/mp4");
                assert(!"video/mp4"@.contains(';'));
            }
            match same_media_type(t.as_str(), "video/mp4") {
                Some(same) => same,
                None => false,
            }
        },
        None => false,
    }
}

} // verus!
