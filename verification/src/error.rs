//! The failures that the storage layer reports, and how the failures of the
//! file-system client are sorted into them.

use vstd::prelude::*;

verus! {

/// What an operation of the storage layer can fail with.
#[derive(Clone, Copy, Debug, PartialEq, Eq, Structural)]
pub enum StorageError {
    /// The scheme of a location has no handler, or the location cannot be
    /// turned into a path of the backend.
    InvalidLocation,
    /// The root directory cannot be resolved, or the client cannot be set up
    /// with the options given.
    ConstructionFailure,
    /// The object is absent.
    NotFound,
    /// The destination is already present.
    AlreadyExists,
    /// The client reports that access is denied.
    PermissionDenied,
    /// The backend does not implement the operation.
    NotSupported,
    /// Any other failure of transport or storage.
    IoError,
    /// A ranged read asked for bytes that the object does not have.
    OutOfRange,
}

/// The words for a storage error.
pub open spec fn message_of(error: StorageError) -> Seq<char> {
    match error {
        StorageError::InvalidLocation => "the location is not valid for this backend"@,
        StorageError::ConstructionFailure => "the backend could not be set up"@,
        StorageError::NotFound => "the object was not found"@,
        StorageError::AlreadyExists => "the object already exists"@,
        StorageError::PermissionDenied => "permission was denied"@,
        StorageError::NotSupported => "the operation is not supported by this backend"@,
        StorageError::IoError => "the storage failed"@,
        StorageError::OutOfRange => "the range lies outside the object"@,
    }
}

impl StorageError {
    /// The error in words.
    pub fn message(&self) -> (text: String)
        ensures
            text@ == message_of(*self),
    {
        match self {
            StorageError::InvalidLocation => "the location is not valid for this backend".to_owned(),
            StorageError::ConstructionFailure => "the backend could not be set up".to_owned(),
            StorageError::NotFound => "the object was not found".to_owned(),
            StorageError::AlreadyExists => "the object already exists".to_owned(),
            StorageError::PermissionDenied => "permission was denied".to_owned(),
            StorageError::NotSupported => "the operation is not supported by this backend".to_owned(),
            StorageError::IoError => "the storage failed".to_owned(),
            StorageError::OutOfRange => "the range lies outside the object".to_owned(),
        }
    }
}

/// The kinds of failure that a file-system client reports through the
/// generic storage interface.
#[derive(Clone, Copy, Debug, PartialEq, Eq, Structural)]
pub enum NativeFailure {
    /// A failure of no other kind.
    Generic,
    /// No object lies at the location.
    NotFound,
    /// The path is not one that the client takes.
    InvalidPath,
    /// A task of the client did not run to its end.
    JoinError,
    /// The client does not support the operation.
    NotSupported,
    /// An object lies at the location already.
    AlreadyExists,
    /// A condition set on the operation did not hold.
    Precondition,
    /// The object has not changed since the time given.
    NotModified,
    /// The client does not implement the operation.
    NotImplemented,
    /// The credentials do not permit the operation.
    PermissionDenied,
    /// The credentials are not valid.
    Unauthenticated,
    /// An option has a key that the client does not know.
    UnknownConfigurationKey,
}

/// The storage error that stands for a failure of the client.
pub open spec fn classification(failure: NativeFailure) -> StorageError {
    match failure {
        NativeFailure::NotFound => StorageError::NotFound,
        NativeFailure::AlreadyExists => StorageError::AlreadyExists,
        NativeFailure::PermissionDenied | NativeFailure::Unauthenticated => StorageError::PermissionDenied,
        NativeFailure::NotSupported | NativeFailure::NotImplemented => StorageError::NotSupported,
        NativeFailure::InvalidPath => StorageError::InvalidLocation,
        NativeFailure::UnknownConfigurationKey => StorageError::ConstructionFailure,
        NativeFailure::Generic
        | NativeFailure::JoinError
        | NativeFailure::Precondition
        | NativeFailure::NotModified => StorageError::IoError,
    }
}

/// Sorts a failure of the client into the errors of the storage layer.
pub fn classify(failure: NativeFailure) -> (error: StorageError)
    ensures
        error == classification(failure),
{
    match failure {
        NativeFailure::NotFound => StorageError::NotFound,
        NativeFailure::AlreadyExists => StorageError::AlreadyExists,
        NativeFailure::PermissionDenied => StorageError::PermissionDenied,
        NativeFailure::Unauthenticated => StorageError::PermissionDenied,
        NativeFailure::NotSupported => StorageError::NotSupported,
        NativeFailure::NotImplemented => StorageError::NotSupported,
        NativeFailure::InvalidPath => StorageError::InvalidLocation,
        NativeFailure::UnknownConfigurationKey => StorageError::ConstructionFailure,
        _ => StorageError::IoError,
    }
}

} // verus!
