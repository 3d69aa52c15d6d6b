//! The factory that serves the locations of a Hadoop file system: what it
//! takes to build the storage backend for a location, and the log store
//! over a backend.

use vstd::prelude::*;
use crate::error::StorageError;
use crate::location::Location;
use crate::path::{parsed_path, LogicalPath};

verus! {

/// Options for a backend: keys with their values, in the order given. The
/// factory reads none of them; they go to the client as they are.
#[derive(Clone, Debug, PartialEq, Eq)]
pub struct StorageOptions(pub Vec<(String, String)>);

impl View for StorageOptions {
    type V = Seq<(Seq<char>, Seq<char>)>;

    open spec fn view(&self) -> Seq<(Seq<char>, Seq<char>)> {
        self.0.deep_view()
    }
}

impl StorageOptions {
    /// A second value of the same options.
    pub fn duplicate(&self) -> (copy: StorageOptions)
        ensures
            copy@ == self@,
    {
        let mut entries: Vec<(String, String)> = Vec::new();
        let mut done: usize = 0;
        while done < self.0.len()
            invariant
                done <= self.0.len(),
                entries@ == self.0@.take(done as int),
            decreases self.0.len() - done,
        {
            let entry = &self.0[done];
            entries.push((entry.0.clone(), entry.1.clone()));
            done = done + 1;
            assert(entries@ =~= self.0@.take(done as int));
        }
        assert(entries@ =~= self.0@);
        StorageOptions(entries)
    }
}

/// What it takes to build the storage backend of a location: the URL and
/// the options to set the client up with, and the prefix below which the
/// client is to be confined, which is the path the engine treats as the
/// root.
#[derive(Debug, PartialEq, Eq)]
pub struct StorePlan {
    pub url: String,
    pub options: StorageOptions,
    pub prefix: LogicalPath,
}

/// The default composition of a log store: the backend it writes to, the
/// location of the table and the options, each as it was given.
#[derive(Clone, Debug, PartialEq, Eq)]
pub struct DefaultLogStore<S> {
    pub store: S,
    pub location: Location,
    pub options: StorageOptions,
}

/// Whether `scheme` is one that the factory serves.
pub open spec fn handled_scheme(scheme: Seq<char>) -> bool {
    scheme == "hdfs"@ || scheme == "viewfs"@
}

/// The schemes that the factory serves.
pub fn schemes() -> (served: Vec<&'static str>)
    ensures
        served@.len() == 2,
        served@[0]@ == "hdfs"@,
        served@[1]@ == "viewfs"@,
        forall|scheme: Seq<char>|
            handled_scheme(scheme) <==> exists|i: int|
                0 <= i < served@.len() && (#[trigger] served@[i])@ == scheme,
{
    let mut served: Vec<&'static str> = Vec::new();
    served.push("hdfs");
    served.push("viewfs");
    assert forall|scheme: Seq<char>| handled_scheme(scheme) implies exists|i: int|
        0 <= i < served@.len() && (#[trigger] served@[i])@ == scheme by {
        if scheme == "hdfs"@ {
            assert(served@[0]@ == scheme);
        } else {
            assert(served@[1]@ == scheme);
        }
    }
    served
}

/// Whether `scheme` is one that the factory serves.
pub fn handles(scheme: &str) -> (handled: bool)
    ensures
        handled == handled_scheme(scheme@),
{
    let scheme = scheme.to_owned();
    scheme == "hdfs".to_owned() || scheme == "viewfs".to_owned()
}

/// The factory for `hdfs` and `viewfs` locations.
#[derive(Clone, Copy, Debug, Default, PartialEq, Eq, Structural)]
pub struct HdfsFactory {}

impl HdfsFactory {
    /// The plan for the storage backend of `url`. The scheme is checked
    /// once more, though the registry has chosen the factory by it. Fails
    /// with an invalid location where the scheme is not one of the
    /// factory's, or the path of the URL is no logical path.
    pub fn parse_url_opts(&self, url: &Location, options: &StorageOptions) -> (plan: Result<
        StorePlan,
        StorageError,
    >)
        ensures
            match parsed_path(url@.path) {
                Some(prefix) if handled_scheme(url@.scheme) => plan matches Ok(made) && made.url@
                    == url@.text && made.options@ == options@ && made.prefix@ == prefix,
                _ => plan == Err::<StorePlan, StorageError>(StorageError::InvalidLocation),
            },
    {
        if !handles(url.scheme()) {
            return Err(StorageError::InvalidLocation);
        }
        match LogicalPath::parse(url.path()) {
            Ok(prefix) => Ok(
                StorePlan { url: url.as_str().to_owned(), options: options.duplicate(), prefix },
            ),
            Err(_) => Err(StorageError::InvalidLocation),
        }
    }

    /// The log store over `store` for the table at `location`: the default
    /// composition, which has nothing of the file system in it. It always
    /// succeeds, and changes nothing of what it is given.
    pub fn with_options<S>(&self, store: S, location: &Location, options: &StorageOptions) -> (made:
        Result<DefaultLogStore<S>, StorageError>)
        ensures
            made matches Ok(logstore) && logstore.store == store && logstore.location@ == location@
                && logstore.options@ == options@,
    {
        Ok(DefaultLogStore { store, location: location.duplicate(), options: options.duplicate() })
    }
}

} // verus!
