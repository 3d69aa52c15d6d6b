//! The adapter between the engine's storage operations and the client of
//! the file system: where its root lies, which request each operation sends
//! to the client, and how the client's answer is reported.

use vstd::prelude::*;
use vstd::string::StrSliceExecFns;
use crate::error::{classification, classify, NativeFailure, StorageError};
use crate::location::{
    file_url, file_url_of_path, fits, found_or, url_extend, url_file_path,
    url_pop_if_empty, url_to_file_path, url_with_segments, url_without_trailing_slash,
    within_limit, Location, LocationView, URL_TEXT_LIMIT,
};
use crate::path::{lemma_trailing_delimiter_ignored, parsed_path, LogicalPath};

verus! {

/// The file-system path of the object that `segments` name below the URL
/// `root`: the root without a trailing slash, then the segments appended,
/// then the URL turned into a path. `None` where the `url` crate gives no
/// result at one of the steps, or where the texts are over the limit.
pub open spec fn filesystem_path(root: Seq<char>, segments: Seq<Seq<char>>) -> Option<Seq<char>> {
    if root.len() > URL_TEXT_LIMIT {
        None
    } else {
        match url_without_trailing_slash(root) {
            None => None,
            Some(base) => if within_limit(base, segments) {
                match url_with_segments(base, segments) {
                    None => None,
                    Some(full) => url_file_path(full),
                }
            } else {
                None
            },
        }
    }
}

/// Joining a path text with a trailing empty segment onto a root gives what
/// joining the text without that segment gives.
pub proof fn lemma_join_ignores_trailing_delimiter(root: Seq<char>, text: Seq<char>)
    requires
        text.len() > 0,
        text.last() == '/',
        parsed_path(text) is Some,
    ensures
        parsed_path(text.drop_last()) is Some,
        filesystem_path(root, parsed_path(text).unwrap()) == filesystem_path(
            root,
            parsed_path(text.drop_last()).unwrap(),
        ),
{
    lemma_trailing_delimiter_ignored(text);
}

/// An operation of the generic storage interface, as the engine asks for
/// it. `Payload` is what is written, and the three kinds of options are
/// those of writing, of reading and of a multipart upload: the adapter
/// hands them on and never looks inside.
#[allow(inconsistent_fields)]
#[derive(Debug, PartialEq, Eq)]
pub enum Operation<Payload, WriteOptions, ReadOptions, UploadOptions> {
    Put { location: LogicalPath, payload: Payload },
    PutOpts { location: LogicalPath, payload: Payload, options: WriteOptions },
    Get { location: LogicalPath },
    GetOpts { location: LogicalPath, options: ReadOptions },
    GetRange { location: LogicalPath, start: usize, end: usize },
    Head { location: LogicalPath },
    Delete { location: LogicalPath },
    List { prefix: Option<LogicalPath> },
    ListWithDelimiter { prefix: Option<LogicalPath> },
    Copy { from: LogicalPath, to: LogicalPath },
    CopyIfNotExists { from: LogicalPath, to: LogicalPath },
    RenameIfNotExists { from: LogicalPath, to: LogicalPath },
    PutMultipartOpts { location: LogicalPath, options: UploadOptions },
}

/// One request to the client of the file system. Each is a single
/// primitive of the client: what must be atomic is asked of the client as
/// one request, never put together from several.
#[allow(inconsistent_fields)]
#[derive(Debug, PartialEq, Eq)]
pub enum NativeCall<Payload, WriteOptions, ReadOptions> {
    Put { location: LogicalPath, payload: Payload },
    PutOpts { location: LogicalPath, payload: Payload, options: WriteOptions },
    Get { location: LogicalPath },
    GetOpts { location: LogicalPath, options: ReadOptions },
    GetRange { location: LogicalPath, start: usize, end: usize },
    Head { location: LogicalPath },
    Delete { location: LogicalPath },
    List { prefix: Option<LogicalPath> },
    ListWithDelimiter { prefix: Option<LogicalPath> },
    Copy { from: LogicalPath, to: LogicalPath },
    CopyIfNotExists { from: LogicalPath, to: LogicalPath },
    RenameIfNotExists { from: LogicalPath, to: LogicalPath },
}

/// The request that answers an operation: the same operation on the same
/// paths, payload and options, for every operation but the multipart
/// upload, which the backend does not support and for which nothing is
/// asked of the client.
pub open spec fn planned<P, W, R, U>(operation: Operation<P, W, R, U>) -> Result<
    NativeCall<P, W, R>,
    StorageError,
> {
    match operation {
        Operation::Put { location, payload } => Ok(NativeCall::Put { location, payload }),
        Operation::PutOpts { location, payload, options } => Ok(
            NativeCall::PutOpts { location, payload, options },
        ),
        Operation::Get { location } => Ok(NativeCall::Get { location }),
        Operation::GetOpts { location, options } => Ok(NativeCall::GetOpts { location, options }),
        Operation::GetRange { location, start, end } => Ok(
            NativeCall::GetRange { location, start, end },
        ),
        Operation::Head { location } => Ok(NativeCall::Head { location }),
        Operation::Delete { location } => Ok(NativeCall::Delete { location }),
        Operation::List { prefix } => Ok(NativeCall::List { prefix }),
        Operation::ListWithDelimiter { prefix } => Ok(NativeCall::ListWithDelimiter { prefix }),
        Operation::Copy { from, to } => Ok(NativeCall::Copy { from, to }),
        Operation::CopyIfNotExists { from, to } => Ok(NativeCall::CopyIfNotExists { from, to }),
        Operation::RenameIfNotExists { from, to } => Ok(
            NativeCall::RenameIfNotExists { from, to },
        ),
        Operation::PutMultipartOpts { .. } => Err(StorageError::NotSupported),
    }
}

/// What the adapter reports for the client's answer to a request: the
/// answer itself, or the client's failure sorted into the storage errors.
/// A failure is never reported as a success.
pub open spec fn reported<T>(outcome: Result<T, NativeFailure>) -> Result<T, StorageError> {
    match outcome {
        Ok(answer) => Ok(answer),
        Err(failure) => Err(classification(failure)),
    }
}

/// What the adapter reports for the client's answer to a read of the bytes
/// from `start` up to `end`: the bytes delivered where they are as many as
/// were asked for, a range error where they are not, and the client's
/// failure where it failed.
pub open spec fn reported_span(start: usize, end: usize, outcome: Result<Vec<u8>, NativeFailure>)
    -> Result<Vec<u8>, StorageError> {
    match outcome {
        Ok(bytes) => if start <= end && bytes@.len() == end - start {
            Ok(bytes)
        } else {
            Err(StorageError::OutOfRange)
        },
        Err(failure) => Err(classification(failure)),
    }
}

/// What the adapter reports for the client's answer to a listing: the
/// answer itself; `nothing` where the client found no object under the
/// prefix, which is no error; and the client's failure otherwise.
pub open spec fn reported_listing<T>(outcome: Result<T, NativeFailure>, nothing: T) -> Result<
    T,
    StorageError,
> {
    match outcome {
        Ok(answer) => Ok(answer),
        Err(NativeFailure::NotFound) => Ok(nothing),
        Err(failure) => Err(classification(failure)),
    }
}

/// The adapter's share in a write that is read back: the payload goes to
/// the client as it was given, under the path it was given for, the read
/// asks for that same path, and the bytes that the client answers with are
/// reported as they are.
pub proof fn lemma_written_and_read_unchanged<P, W, R, U>(
    location: LogicalPath,
    payload: P,
    answer: Vec<u8>,
)
    ensures
        planned::<P, W, R, U>(Operation::Put { location, payload }) == Ok::<
            NativeCall<P, W, R>,
            StorageError,
        >(NativeCall::Put { location, payload }),
        planned::<P, W, R, U>(Operation::Get { location }) == Ok::<
            NativeCall<P, W, R>,
            StorageError,
        >(NativeCall::Get { location }),
        reported(Ok::<Vec<u8>, NativeFailure>(answer)) == Ok::<Vec<u8>, StorageError>(answer),
{
}

/// The adapter's share in a rename to a destination that must be absent:
/// it is one request to the client, for the two paths as they were given,
/// so that the client alone decides; its success is reported as success,
/// and its refusal of a present destination as that.
pub proof fn lemma_rename_is_one_request<P, W, R, U>(from: LogicalPath, to: LogicalPath)
    ensures
        planned::<P, W, R, U>(Operation::RenameIfNotExists { from, to }) == Ok::<
            NativeCall<P, W, R>,
            StorageError,
        >(NativeCall::RenameIfNotExists { from, to }),
        reported(Ok::<(), NativeFailure>(())) == Ok::<(), StorageError>(()),
        reported(Err::<(), NativeFailure>(NativeFailure::AlreadyExists)) == Err::<
            (),
            StorageError,
        >(StorageError::AlreadyExists),
{
}

/// A ranged read is reported as a success only with as many bytes as the
/// range spans, and then with the bytes that the client delivered; a read
/// that the client answers with fewer bytes is a range error.
pub proof fn lemma_span_exact_or_refused(start: usize, end: usize, bytes: Vec<u8>)
    ensures
        reported_span(start, end, Ok(bytes)) is Ok ==> start <= end && bytes@.len() == end - start
            && reported_span(start, end, Ok(bytes)) == Ok::<Vec<u8>, StorageError>(bytes),
        start <= end && bytes@.len() < end - start ==> reported_span(start, end, Ok(bytes)) == Err::<
            Vec<u8>,
            StorageError,
        >(StorageError::OutOfRange),
{
}

/// A multipart upload is refused as not supported, whatever its path and
/// options, and no request to the client is planned for it.
pub proof fn lemma_multipart_refused<P, W, R, U>(location: LogicalPath, options: U)
    ensures
        planned::<P, W, R, U>(Operation::PutMultipartOpts { location, options }) == Err::<
            NativeCall<P, W, R>,
            StorageError,
        >(StorageError::NotSupported),
{
}

/// Reports the client's answer to a request.
pub fn report<T>(outcome: Result<T, NativeFailure>) -> (result: Result<T, StorageError>)
    ensures
        result == reported(outcome),
        result is Ok <==> outcome is Ok,
{
    match outcome {
        Ok(answer) => Ok(answer),
        Err(failure) => Err(classify(failure)),
    }
}

/// Reports the client's answer to a read of the bytes from `start` up to
/// `end`. A read that delivers fewer or more bytes than the span holds has
/// run past the object, and is a range error.
pub fn report_span(start: usize, end: usize, outcome: Result<Vec<u8>, NativeFailure>) -> (result:
    Result<Vec<u8>, StorageError>)
    ensures
        result == reported_span(start, end, outcome),
{
    match outcome {
        Ok(bytes) => {
            if start <= end && bytes.len() == end - start {
                Ok(bytes)
            } else {
                Err(StorageError::OutOfRange)
            }
        },
        Err(failure) => Err(classify(failure)),
    }
}

/// Reports the client's answer to a listing, with `nothing` for the empty
/// listing. That nothing lies under a prefix is an empty listing and no
/// error.
pub fn report_listing<T>(outcome: Result<T, NativeFailure>, nothing: T) -> (result: Result<
    T,
    StorageError,
>)
    ensures
        result == reported_listing(outcome, nothing),
{
    match outcome {
        Ok(answer) => Ok(answer),
        Err(NativeFailure::NotFound) => Ok(nothing),
        Err(failure) => Err(classify(failure)),
    }
}

/// The adapter for one root of a Hadoop file system.
#[derive(Debug)]
pub struct HadoopFileStorageBackend {
    root_url: Location,
}

impl HadoopFileStorageBackend {
    /// The root of the adapter.
    pub closed spec fn root(&self) -> LocationView {
        self.root_url@
    }

    /// The URL of the root directory whose canonical path is `canonical`;
    /// `None` stands for a directory that could not be resolved. Fails with
    /// a construction failure there, and where the path has no URL.
    pub fn path_to_root_url(canonical: Option<&str>) -> (root: Result<Location, StorageError>)
        ensures
            match canonical {
                Some(path) if file_url_of_path(path@) is Some => root matches Ok(url) && url@
                    == file_url_of_path(path@).unwrap(),
                _ => root == Err::<Location, StorageError>(StorageError::ConstructionFailure),
            },
    {
        match canonical {
            Some(path) => found_or(file_url(path), StorageError::ConstructionFailure),
            None => Err(StorageError::ConstructionFailure),
        }
    }

    /// Creates the adapter for the root directory whose canonical path is
    /// `canonical`; `None` stands for a directory that could not be
    /// resolved. No adapter comes out of a failure.
    pub fn try_new(canonical: Option<&str>) -> (made: Result<Self, StorageError>)
        ensures
            match canonical {
                Some(path) if file_url_of_path(path@) is Some => made matches Ok(backend)
                    && backend.root() == file_url_of_path(path@).unwrap(),
                _ => made == Err::<Self, StorageError>(StorageError::ConstructionFailure),
            },
    {
        match Self::path_to_root_url(canonical) {
            Ok(root_url) => Ok(HadoopFileStorageBackend { root_url }),
            Err(failure) => Err(failure),
        }
    }

    /// The adapter whose root is `root_url`.
    pub fn from_root_url(root_url: Location) -> (backend: Self)
        ensures
            backend.root() == root_url@,
    {
        HadoopFileStorageBackend { root_url }
    }

    /// The name by which the adapter shows itself.
    pub fn describe(&self) -> (name: String)
        ensures
            name@ == "HadoopFileStorageBackend"@,
    {
        "HadoopFileStorageBackend".to_owned()
    }

    /// The root of the adapter.
    pub fn root_url(&self) -> (url: &Location)
        ensures
            url@ == self.root(),
    {
        &self.root_url
    }

    /// The absolute file-system path of `location` below the root. A
    /// trailing slash of the root is dropped before the segments are
    /// appended, so that none is doubled. Fails with an invalid location
    /// where the root and the path have no such path.
    pub fn path_to_filesystem(&self, location: &LogicalPath) -> (path: Result<String, StorageError>)
        ensures
            match filesystem_path(self.root().text, location@) {
                Some(text) => path matches Ok(found) && found@ == text,
                None => path == Err::<String, StorageError>(StorageError::InvalidLocation),
            },
    {
        let root = self.root_url.as_str();
        if root.unicode_len() > URL_TEXT_LIMIT {
            return Err(StorageError::InvalidLocation);
        }
        let base = match url_pop_if_empty(root) {
            Some(base) => base,
            None => {
                return Err(StorageError::InvalidLocation);
            },
        };
        let segments = location.segments();
        if !fits(base.as_str(), segments) {
            return Err(StorageError::InvalidLocation);
        }
        match url_extend(base.as_str(), segments) {
            Some(full) => found_or(url_to_file_path(full.as_str()), StorageError::InvalidLocation),
            None => Err(StorageError::InvalidLocation),
        }
    }

    /// The request to send to the client for `operation`. Every operation is
    /// handed on as it is, but the multipart upload: it fails as not
    /// supported before anything is asked of the client, so that no part of
    /// the data is ever written.
    pub fn dispatch<P, W, R, U>(&self, operation: Operation<P, W, R, U>) -> (request: Result<
        NativeCall<P, W, R>,
        StorageError,
    >)
        ensures
            request == planned(operation),
            request is Err <==> operation is PutMultipartOpts,
            operation is PutMultipartOpts ==> request == Err::<NativeCall<P, W, R>, StorageError>(
                StorageError::NotSupported,
            ),
    {
        match operation {
            Operation::Put { location, payload } => Ok(NativeCall::Put { location, payload }),
            Operation::PutOpts { location, payload, options } => Ok(
                NativeCall::PutOpts { location, payload, options },
            ),
            Operation::Get { location } => Ok(NativeCall::Get { location }),
            Operation::GetOpts { location, options } => Ok(
                NativeCall::GetOpts { location, options },
            ),
            Operation::GetRange { location, start, end } => Ok(
                NativeCall::GetRange { location, start, end },
            ),
            Operation::Head { location } => Ok(NativeCall::Head { location }),
            Operation::Delete { location } => Ok(NativeCall::Delete { location }),
            Operation::List { prefix } => Ok(NativeCall::List { prefix }),
            Operation::ListWithDelimiter { prefix } => Ok(NativeCall::ListWithDelimiter { prefix }),
            Operation::Copy { from, to } => Ok(NativeCall::Copy { from, to }),
            Operation::CopyIfNotExists { from, to } => Ok(
                NativeCall::CopyIfNotExists { from, to },
            ),
            Operation::RenameIfNotExists { from, to } => Ok(
                NativeCall::RenameIfNotExists { from, to },
            ),
            Operation::PutMultipartOpts { location, options } => Err(StorageError::NotSupported),
        }
    }
}

} // verus!
