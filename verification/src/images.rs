//! Candidate images: filtering directory listings and choosing one file.
//!
//! The caller lists each configured directory and hands the listings over;
//! [`load_images`] returns the paths of the files with an allowed extension,
//! and [`select_image`] one of them, drawn at random.

use vstd::prelude::*;
use crate::random::random_below;

verus! {

/// Why no image could be selected.
#[derive(Clone, Copy, Debug, PartialEq, Eq, Structural)]
pub enum ImageError {
    /// No listed directory holds a file with an allowed extension.
    NoImagesFound,
    /// The directory at this position of the listings exists but could not be
    /// read.
    Io { directory: usize },
}

/// One entry of a directory.
#[derive(Clone, Debug, PartialEq, Eq)]
pub struct FileEntry {
    /// The path of the entry.
    pub path: String,
    /// Whether the entry is a file, and not a directory or something else.
    pub is_file: bool,
    /// The extension of the file name, without the dot, if the name has one.
    pub extension: Option<String>,
}

/// A [`FileEntry`] as mathematical values.
pub struct FileEntryView {
    pub path: Seq<char>,
    pub is_file: bool,
    pub extension: Option<Seq<char>>,
}

impl View for FileEntry {
    type V = FileEntryView;

    open spec fn view(&self) -> FileEntryView {
        FileEntryView {
            path: self.path@,
            is_file: self.is_file,
            extension: match self.extension {
                Some(extension) => Some(extension@),
                None => None,
            },
        }
    }
}

impl DeepView for FileEntry {
    type V = FileEntryView;

    open spec fn deep_view(&self) -> FileEntryView {
        self@
    }
}

/// What was found at one configured directory.
#[derive(Clone, Debug, PartialEq, Eq)]
pub enum DirListing {
    /// There is no such directory. It is passed over.
    Missing,
    /// The directory exists but it, or one of its entries, could not be read.
    Unreadable,
    /// The entries of the directory.
    Entries(Vec<FileEntry>),
}

/// A [`DirListing`] as mathematical values.
pub enum DirListingView {
    Missing,
    Unreadable,
    Entries(Seq<FileEntryView>),
}

impl View for DirListing {
    type V = DirListingView;

    open spec fn view(&self) -> DirListingView {
        match *self {
            DirListing::Missing => DirListingView::Missing,
            DirListing::Unreadable => DirListingView::Unreadable,
            DirListing::Entries(entries) => DirListingView::Entries(entries.deep_view()),
        }
    }
}

impl DeepView for DirListing {
    type V = DirListingView;

    open spec fn deep_view(&self) -> DirListingView {
        self@
    }
}

/// Whether an entry is a candidate: a file whose extension is one of the
/// allowed ones, letter for letter.
pub open spec fn is_image(entry: FileEntryView, allowed: Seq<Seq<char>>) -> bool {
    &&& entry.is_file
    &&& entry.extension matches Some(extension)
    &&& allowed.contains(extension)
}

/// The paths of the candidates among `entries`, in order.
pub open spec fn images_among(entries: Seq<FileEntryView>, allowed: Seq<Seq<char>>) -> Seq<
    Seq<char>,
> {
    entries.filter(|entry: FileEntryView| is_image(entry, allowed)).map_values(
        |entry: FileEntryView| entry.path,
    )
}

/// The paths of the candidates in one listing. A directory that is missing
/// has none.
pub open spec fn images_in(listing: DirListingView, allowed: Seq<Seq<char>>) -> Seq<Seq<char>> {
    match listing {
        DirListingView::Entries(entries) => images_among(entries, allowed),
        _ => Seq::empty(),
    }
}

/// The paths of the candidates of all listings: those of the first directory,
/// then those of the second, and so on.
pub open spec fn candidates(listings: Seq<DirListingView>, allowed: Seq<Seq<char>>) -> Seq<
    Seq<char>,
>
    decreases listings.len(),
{
    if listings.len() == 0 {
        Seq::empty()
    } else {
        candidates(listings.drop_last(), allowed) + images_in(listings.last(), allowed)
    }
}

/// No listing is unreadable.
pub open spec fn all_readable(listings: Seq<DirListingView>) -> bool {
    forall|i: int| 0 <= i < listings.len() ==> !((#[trigger] listings[i]) is Unreadable)
}

/// The listing at `directory` is the first unreadable one.
pub open spec fn is_first_unreadable(listings: Seq<DirListingView>, directory: int) -> bool {
    &&& 0 <= directory < listings.len()
    &&& listings[directory] is Unreadable
    &&& all_readable(listings.take(directory))
}

/// No entry of the listing is a candidate.
pub open spec fn holds_no_image(listing: DirListingView, allowed: Seq<Seq<char>>) -> bool {
    listing matches DirListingView::Entries(entries) ==> forall|j: int|
        0 <= j < entries.len() ==> !is_image(#[trigger] entries[j], allowed)
}

/// No entry of any listing is a candidate.
pub open spec fn nothing_matches(listings: Seq<DirListingView>, allowed: Seq<Seq<char>>) -> bool {
    forall|i: int| 0 <= i < listings.len() ==> holds_no_image(#[trigger] listings[i], allowed)
}

/// Whether `result` is what loading the images of `listings` comes to.
///
/// An unreadable directory fails the whole, and the first of them is named.
/// Otherwise all candidates are returned, in order; that there is none is an
/// error of its own. No two results fit the same input.
pub open spec fn is_load_result(
    listings: Seq<DirListingView>,
    allowed: Seq<Seq<char>>,
    result: Result<Seq<Seq<char>>, ImageError>,
) -> bool {
    match result {
        Ok(images) => {
            &&& all_readable(listings)
            &&& images == candidates(listings, allowed)
            &&& images.len() > 0
        },
        Err(ImageError::NoImagesFound) => {
            &&& all_readable(listings)
            &&& candidates(listings, allowed).len() == 0
        },
        Err(ImageError::Io { directory }) => is_first_unreadable(listings, directory as int),
    }
}

/// The result of [`load_images`] as mathematical values.
pub open spec fn paths_of(result: Result<Vec<String>, ImageError>) -> Result<
    Seq<Seq<char>>,
    ImageError,
> {
    match result {
        Ok(images) => Ok(images.deep_view()),
        Err(error) => Err(error),
    }
}

/// Whether `ext` is one of `image_extentions`.
pub fn is_allowed_extension(ext: &str, image_extentions: &Vec<String>) -> (allowed: bool)
    ensures
        allowed == image_extentions.deep_view().contains(ext@),
{
    let wanted = ext.to_owned();
    let mut i: usize = 0;
    while i < image_extentions.len()
        invariant
            wanted@ == ext@,
            i <= image_extentions.len(),
            forall|j: int| 0 <= j < i ==> image_extentions.deep_view()[j] != ext@,
        decreases image_extentions.len() - i,
    {
        if image_extentions[i] == wanted {
            assert(image_extentions.deep_view()[i as int] == ext@);
            return true;
        }
        i += 1;
    }
    false
}

/// Appends to `images` the paths of the candidates among `entries`.
fn append_images(images: &mut Vec<String>, entries: &Vec<FileEntry>, image_extentions: &Vec<String>)
    ensures
        final(images).deep_view() == old(images).deep_view() + images_among(
            entries.deep_view(),
            image_extentions.deep_view(),
        ),
{
    let ghost before = images.deep_view();
    let ghost all = entries.deep_view();
    let ghost allowed = image_extentions.deep_view();
    let mut j: usize = 0;
    assert(images_among(all.take(0), allowed) =~= Seq::<Seq<char>>::empty()) by {
        reveal(Seq::filter);
    }
    while j < entries.len()
        invariant
            all == entries.deep_view(),
            allowed == image_extentions.deep_view(),
            j <= entries.len(),
            images.deep_view() == before + images_among(all.take(j as int), allowed),
        decreases entries.len() - j,
    {
        let entry = &entries[j];
        let is_candidate = entry.is_file && match &entry.extension {
            Some(extension) => is_allowed_extension(extension.as_str(), image_extentions),
            None => false,
        };
        proof {
            lemma_images_among_step(all, allowed, j as int);
        }
        if is_candidate {
            let ghost earlier = images.deep_view();
            images.push(entry.path.clone());
            assert(images.deep_view() =~= earlier.push(entry.path@));
        }
        j += 1;
    }
    assert(all.take(j as int) =~= all);
}

/// Returns the paths of all files in `listings` whose extension is one of
/// `image_extentions`, directory by directory.
///
/// Fails with the position of the first unreadable directory if there is
/// one, and with [`ImageError::NoImagesFound`] if no file qualifies. A
/// directory that is missing is passed over.
pub fn load_images(listings: &Vec<DirListing>, image_extentions: &Vec<String>) -> (result: Result<
    Vec<String>,
    ImageError,
>)
    ensures
        is_load_result(listings.deep_view(), image_extentions.deep_view(), paths_of(result)),
        all_readable(listings.deep_view()) && nothing_matches(
            listings.deep_view(),
            image_extentions.deep_view(),
        ) ==> result == Err::<Vec<String>, ImageError>(ImageError::NoImagesFound),
{
    let ghost all = listings.deep_view();
    let ghost allowed = image_extentions.deep_view();
    proof {
        if nothing_matches(all, allowed) {
            lemma_nothing_matches_nothing_found(all, allowed);
        }
    }
    let mut images: Vec<String> = Vec::new();
    let mut i: usize = 0;
    while i < listings.len()
        invariant
            all == listings.deep_view(),
            allowed == image_extentions.deep_view(),
            i <= listings.len(),
            all_readable(all.take(i as int)),
            images.deep_view() == candidates(all.take(i as int), allowed),
        decreases listings.len() - i,
    {
        assert(all.take(i + 1).drop_last() =~= all.take(i as int));
        match &listings[i] {
            DirListing::Missing => {},
            DirListing::Unreadable => {
                assert(all[i as int] is Unreadable);
                return Err(ImageError::Io { directory: i });
            },
            DirListing::Entries(entries) => {
                append_images(&mut images, entries, image_extentions);
            },
        }
        i += 1;
    }
    assert(all.take(i as int) =~= all);
    if images.len() == 0 {
        Err(ImageError::NoImagesFound)
    } else {
        Ok(images)
    }
}

/// The image at position `index` of `images`.
pub fn image_at(images: &Vec<String>, index: usize) -> (path: String)
    requires
        index < images.len(),
    ensures
        path@ == images.deep_view()[index as int],
{
    images[index].clone()
}

/// Selects one image from `listings`: loads the candidates as [`load_images`]
/// does and draws one of them at random.
///
/// Fails exactly where [`load_images`] fails, with the same error. Which
/// candidate is returned depends on the number drawn; it is always one of
/// them.
pub fn select_image(listings: &Vec<DirListing>, image_extentions: &Vec<String>) -> (result: Result<
    String,
    ImageError,
>)
    ensures
        match result {
            Ok(path) => {
                &&& all_readable(listings.deep_view())
                &&& candidates(listings.deep_view(), image_extentions.deep_view()).contains(path@)
            },
            Err(error) => is_load_result(
                listings.deep_view(),
                image_extentions.deep_view(),
                Err(error),
            ),
        },
        all_readable(listings.deep_view()) && nothing_matches(
            listings.deep_view(),
            image_extentions.deep_view(),
        ) ==> result == Err::<String, ImageError>(ImageError::NoImagesFound),
{
    match load_images(listings, image_extentions) {
        Ok(images) => {
            let mut generator = rand::rng();
            let index = random_below(&mut generator, images.len());
            Ok(image_at(&images, index))
        },
        Err(error) => Err(error),
    }
}

/// Taking one more entry into account adds its path to the candidates if it
/// is one, and changes nothing if it is not.
proof fn lemma_images_among_step(entries: Seq<FileEntryView>, allowed: Seq<Seq<char>>, j: int)
    requires
        0 <= j < entries.len(),
    ensures
        images_among(entries.take(j + 1), allowed) == if is_image(entries[j], allowed) {
            images_among(entries.take(j), allowed).push(entries[j].path)
        } else {
            images_among(entries.take(j), allowed)
        },
{
    reveal(Seq::filter);
    assert(entries.take(j + 1).drop_last() =~= entries.take(j));
    let is_one = |entry: FileEntryView| is_image(entry, allowed);
    let path_of = |entry: FileEntryView| entry.path;
    let earlier = entries.take(j).filter(is_one);
    if is_image(entries[j], allowed) {
        assert(earlier.push(entries[j]).map_values(path_of) =~= earlier.map_values(path_of).push(
            entries[j].path,
        ));
    }
}

/// Only one listing can be the first unreadable one.
proof fn lemma_first_unreadable_is_unique(listings: Seq<DirListingView>, first: int, other: int)
    requires
        is_first_unreadable(listings, first),
        is_first_unreadable(listings, other),
    ensures
        first == other,
{
    if other < first {
        assert(listings.take(first)[other] is Unreadable);
    } else if first < other {
        assert(listings.take(other)[first] is Unreadable);
    }
}

/// Loading has one result: two results that fit the same listings are equal.
pub proof fn lemma_load_result_is_unique(
    listings: Seq<DirListingView>,
    allowed: Seq<Seq<char>>,
    one: Result<Seq<Seq<char>>, ImageError>,
    other: Result<Seq<Seq<char>>, ImageError>,
)
    requires
        is_load_result(listings, allowed, one),
        is_load_result(listings, allowed, other),
    ensures
        one == other,
{
    if let Err(ImageError::Io { directory }) = one {
        assert(!all_readable(listings));
        if let Err(ImageError::Io { directory: second }) = other {
            lemma_first_unreadable_is_unique(listings, directory as int, second as int);
        }
    } else if let Err(ImageError::Io { directory }) = other {
        assert(!all_readable(listings));
    }
}

/// Listings without a single candidate yield no image: if they can all be
/// read, loading them fails with [`ImageError::NoImagesFound`], and with
/// nothing else.
pub proof fn lemma_nothing_matches_nothing_found(
    listings: Seq<DirListingView>,
    allowed: Seq<Seq<char>>,
)
    requires
        nothing_matches(listings, allowed),
    ensures
        candidates(listings, allowed).len() == 0,
        all_readable(listings) ==> forall|result: Result<Seq<Seq<char>>, ImageError>|
            is_load_result(listings, allowed, result) <==> result == Err::<
                Seq<Seq<char>>,
                ImageError,
            >(ImageError::NoImagesFound),
    decreases listings.len(),
{
    if listings.len() > 0 {
        lemma_nothing_matches_nothing_found(listings.drop_last(), allowed);
        if let DirListingView::Entries(entries) = listings.last() {
            lemma_no_image_among(entries, allowed);
        }
    }
    if all_readable(listings) {
        assert forall|result: Result<Seq<Seq<char>>, ImageError>|
            is_load_result(listings, allowed, result) implies result == Err::<
            Seq<Seq<char>>,
            ImageError,
        >(ImageError::NoImagesFound) by {
            if let Err(ImageError::Io { directory }) = result {
                assert(listings[directory as int] is Unreadable);
            }
        }
    }
}

/// Entries of which none is a candidate yield no path.
proof fn lemma_no_image_among(entries: Seq<FileEntryView>, allowed: Seq<Seq<char>>)
    requires
        forall|j: int| 0 <= j < entries.len() ==> !is_image(#[trigger] entries[j], allowed),
    ensures
        images_among(entries, allowed).len() == 0,
    decreases entries.len(),
{
    reveal(Seq::filter);
    if entries.len() > 0 {
        lemma_no_image_among(entries.drop_last(), allowed);
    }
}

} // verus!
