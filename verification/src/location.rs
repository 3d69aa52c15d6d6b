//! Locations: the absolute URLs that name where a table, or the root of an
//! adapter, lies. What a URL is and how its path is edited is the `url`
//! crate's business; the library keeps of a location the text, the scheme
//! and the path that the crate reports.

use vstd::prelude::*;
use vstd::string::StrSliceExecFns;
use crate::error::StorageError;

verus! {

/// What the library knows of a location.
pub struct LocationView {
    /// The URL as the `url` crate writes it.
    pub text: Seq<char>,
    /// Its scheme, without the colon.
    pub scheme: Seq<char>,
    /// Its path, percent-encoded.
    pub path: Seq<char>,
}

/// An absolute URL, held by its text, its scheme and its path.
#[derive(Clone, Debug, PartialEq, Eq)]
pub struct Location {
    text: String,
    scheme: String,
    path: String,
}

impl View for Location {
    type V = LocationView;

    closed spec fn view(&self) -> LocationView {
        LocationView { text: self.text@, scheme: self.scheme@, path: self.path@ }
    }
}

impl DeepView for Location {
    type V = LocationView;

    open spec fn deep_view(&self) -> LocationView {
        self@
    }
}

/// The URL that `url::Url::parse` reads from `input`, or `None` where it
/// refuses the input.
pub uninterp spec fn parsed_url(input: Seq<char>) -> Option<LocationView>;

/// The `file` URL that `url::Url::from_file_path` gives for `path` on the
/// platform the library is built for, or `None` where it gives none.
pub uninterp spec fn file_url_of_path(path: Seq<char>) -> Option<LocationView>;

/// The text of the URL `url` after `PathSegmentsMut::pop_if_empty`, or
/// `None` where `url` is no URL whose path has segments.
pub uninterp spec fn url_without_trailing_slash(url: Seq<char>) -> Option<Seq<char>>;

/// The text of the URL `url` after `PathSegmentsMut::extend` has appended
/// `segments` to its path, or `None` where `url` is no URL whose path has
/// segments.
pub uninterp spec fn url_with_segments(url: Seq<char>, segments: Seq<Seq<char>>) -> Option<
    Seq<char>,
>;

/// The file-system path that `url::Url::to_file_path` gives for the URL
/// `url` on the platform the library is built for, or `None` where it gives
/// none or one that is not Unicode.
pub uninterp spec fn url_file_path(url: Seq<char>) -> Option<Seq<char>>;

/// The characters of `segments`, counting one more for each as its
/// separator.
pub open spec fn segments_size(segments: Seq<Seq<char>>) -> nat
    decreases segments.len(),
{
    if segments.len() == 0 {
        0
    } else {
        segments_size(segments.drop_last()) + segments.last().len() + 1
    }
}

/// The most characters that a URL and the segments appended to it may hold
/// together when its path is edited. A URL keeps 32-bit offsets into its
/// text; a character takes at most four bytes, and an edit writes at most
/// three bytes for each byte it is given, so below this limit no edit
/// outgrows the offsets.
pub const URL_TEXT_LIMIT: usize = 0x0400_0000;

/// `url::Url::parse`, with `Url::as_str`, `Url::scheme` and `Url::path` to
/// keep the three parts of the result. Nothing is claimed of the result but
/// that it is a function of the input.
#[verifier::external_body]
pub(crate) fn parse_url(input: &str) -> (found: Option<Location>)
    ensures
        found.deep_view() == parsed_url(input@),
{
    let url = url::Url::parse(input).ok()?;
    Some(Location { text: url.as_str().to_owned(), scheme: url.scheme().to_owned(), path: url.path().to_owned() })
}

/// `url::Url::from_file_path`, with `Url::as_str`, `Url::scheme` and
/// `Url::path` to keep the three parts of the result. Nothing is claimed of
/// the result but that it is a function of the path.
#[verifier::external_body]
pub(crate) fn file_url(path: &str) -> (found: Option<Location>)
    ensures
        found.deep_view() == file_url_of_path(path@),
{
    let url = url::Url::from_file_path(path).ok()?;
    Some(Location { text: url.as_str().to_owned(), scheme: url.scheme().to_owned(), path: url.path().to_owned() })
}

/// `url::PathSegmentsMut::pop_if_empty` on the URL that `url` parses to:
/// the URL without one trailing slash of its path. Nothing is claimed of the
/// result but that it is a function of the URL. The limit keeps the text
/// within the offsets of a URL, beyond which the call panics.
#[verifier::external_body]
pub(crate) fn url_pop_if_empty(url: &str) -> (edited: Option<String>)
    requires
        url@.len() <= URL_TEXT_LIMIT,
    ensures
        edited.deep_view() == url_without_trailing_slash(url@),
{
    let mut parsed = url::Url::parse(url).ok()?;
    parsed.path_segments_mut().ok()?.pop_if_empty();
    Some(String::from(parsed))
}

/// `url::PathSegmentsMut::extend` on the URL that `url` parses to: the URL
/// with `segments` appended to its path. Nothing is claimed of the result
/// but that it is a function of the URL and the segments. The limit keeps
/// the text within the offsets of a URL, beyond which the call panics.
#[verifier::external_body]
pub(crate) fn url_extend(url: &str, segments: &Vec<String>) -> (edited: Option<String>)
    requires
        url@.len() + segments_size(segments.deep_view()) <= URL_TEXT_LIMIT,
    ensures
        edited.deep_view() == url_with_segments(url@, segments.deep_view()),
{
    let mut parsed = url::Url::parse(url).ok()?;
    parsed.path_segments_mut().ok()?.extend(segments);
    Some(String::from(parsed))
}

/// `url::Url::to_file_path` on the URL that `url` parses to, as a string.
/// Nothing is claimed of the result but that it is a function of the URL.
#[verifier::external_body]
pub(crate) fn url_to_file_path(url: &str) -> (path: Option<String>)
    ensures
        path.deep_view() == url_file_path(url@),
{
    let parsed = url::Url::parse(url).ok()?;
    parsed.to_file_path().ok()?.into_os_string().into_string().ok()
}

/// What is reported for an outcome of the `url` crate: its value, or
/// `failure` where it gave none.
pub fn found_or<T>(found: Option<T>, failure: StorageError) -> (reported: Result<T, StorageError>)
    ensures
        reported == match found {
            Some(value) => Ok::<T, StorageError>(value),
            None => Err::<T, StorageError>(failure),
        },
{
    match found {
        Some(value) => Ok(value),
        None => Err(failure),
    }
}

/// Whether a URL and the segments to append to it are within the limit.
pub open spec fn within_limit(url: Seq<char>, segments: Seq<Seq<char>>) -> bool {
    url.len() + segments_size(segments) <= URL_TEXT_LIMIT
}

/// The size of the first segments is no more than that of all.
pub proof fn lemma_segments_size_grows(segments: Seq<Seq<char>>, count: int)
    requires
        0 <= count <= segments.len(),
    ensures
        segments_size(segments.take(count)) <= segments_size(segments),
    decreases segments.len(),
{
    if count < segments.len() {
        lemma_segments_size_grows(segments.drop_last(), count);
        assert(segments.drop_last().take(count) =~= segments.take(count));
    } else {
        assert(segments.take(count) =~= segments);
    }
}

/// Measures a URL and the segments to append to it against the limit.
pub fn fits(url: &str, segments: &Vec<String>) -> (within: bool)
    ensures
        within == within_limit(url@, segments.deep_view()),
{
    let ghost all = segments.deep_view();
    let mut used: usize = url.unicode_len();
    if used > URL_TEXT_LIMIT {
        return false;
    }
    let mut done: usize = 0;
    while done < segments.len()
        invariant
            done <= segments.len(),
            all == segments.deep_view(),
            used == url@.len() + segments_size(all.take(done as int)),
            used <= URL_TEXT_LIMIT,
        decreases segments.len() - done,
    {
        let size: usize = segments[done].as_str().unicode_len();
        proof {
            assert(all.take(done as int + 1).drop_last() =~= all.take(done as int));
            assert(all.take(done as int + 1).last() == segments[done as int]@);
            lemma_segments_size_grows(all, done as int + 1);
        }
        if size >= URL_TEXT_LIMIT - used {
            return false;
        }
        used = used + size + 1;
        done = done + 1;
    }
    proof {
        assert(all.take(done as int) =~= all);
    }
    true
}

impl Location {
    /// Reads `input` as an absolute URL, and refuses it as an invalid
    /// location where it is none.
    pub fn parse(input: &str) -> (parsed: Result<Location, StorageError>)
        ensures
            match parsed_url(input@) {
                Some(url) => parsed matches Ok(location) && location@ == url,
                None => parsed == Err::<Location, StorageError>(StorageError::InvalidLocation),
            },
    {
        found_or(parse_url(input), StorageError::InvalidLocation)
    }

    /// A second value of the same location.
    pub fn duplicate(&self) -> (copy: Location)
        ensures
            copy@ == self@,
    {
        Location { text: self.text.clone(), scheme: self.scheme.clone(), path: self.path.clone() }
    }

    /// The URL as text.
    pub fn as_str(&self) -> (text: &str)
        ensures
            text@ == self@.text,
    {
        self.text.as_str()
    }

    /// The scheme of the URL, without the colon.
    pub fn scheme(&self) -> (scheme: &str)
        ensures
            scheme@ == self@.scheme,
    {
        self.scheme.as_str()
    }

    /// The path of the URL, percent-encoded.
    pub fn path(&self) -> (path: &str)
        ensures
            path@ == self@.path,
    {
        self.path.as_str()
    }
}

} // verus!
