use deltalake_hdfs::backend::HadoopFileStorageBackend;
use deltalake_hdfs::error::StorageError;
use deltalake_hdfs::location::{Location, URL_TEXT_LIMIT};
use deltalake_hdfs::path::LogicalPath;

fn backend_at(root: &str) -> HadoopFileStorageBackend {
    HadoopFileStorageBackend::from_root_url(Location::parse(root).unwrap())
}

fn joined(backend: &HadoopFileStorageBackend, path: &str) -> Result<String, StorageError> {
    backend.path_to_filesystem(&LogicalPath::parse(path).unwrap())
}

#[test]
fn the_root_url_of_a_canonical_directory_is_a_file_url() {
    let root = HadoopFileStorageBackend::path_to_root_url(Some("/tmp/data")).unwrap();
    assert_eq!(root.as_str(), "file:///tmp/data");
    assert_eq!(root.scheme(), "file");
    assert_eq!(root.path(), "/tmp/data");
}

#[test]
fn the_root_url_of_the_top_directory() {
    let root = HadoopFileStorageBackend::path_to_root_url(Some("/")).unwrap();
    assert_eq!(root.as_str(), "file:///");
}

#[test]
fn the_root_url_encodes_what_a_url_cannot_hold() {
    let root = HadoopFileStorageBackend::path_to_root_url(Some("/tmp/my data")).unwrap();
    assert_eq!(root.as_str(), "file:///tmp/my%20data");
}

#[test]
fn an_unresolved_directory_is_a_construction_failure() {
    assert_eq!(
        HadoopFileStorageBackend::path_to_root_url(None).unwrap_err(),
        StorageError::ConstructionFailure
    );
    assert_eq!(HadoopFileStorageBackend::try_new(None).unwrap_err(), StorageError::ConstructionFailure);
}

#[test]
fn a_directory_that_is_not_absolute_is_a_construction_failure() {
    assert_eq!(
        HadoopFileStorageBackend::path_to_root_url(Some("data/tables")).unwrap_err(),
        StorageError::ConstructionFailure
    );
    assert_eq!(
        HadoopFileStorageBackend::try_new(Some("../data")).unwrap_err(),
        StorageError::ConstructionFailure
    );
    assert_eq!(HadoopFileStorageBackend::try_new(Some("")).unwrap_err(), StorageError::ConstructionFailure);
}

#[test]
fn try_new_roots_the_adapter_at_the_directory() {
    let backend = HadoopFileStorageBackend::try_new(Some("/tmp/data")).unwrap();
    assert_eq!(backend.root_url().as_str(), "file:///tmp/data");
}

#[test]
fn a_path_is_joined_below_the_root() {
    let backend = HadoopFileStorageBackend::try_new(Some("/tmp/data")).unwrap();
    assert_eq!(joined(&backend, "a/b.parquet").unwrap(), "/tmp/data/a/b.parquet");
}

#[test]
fn the_root_path_is_the_root_directory() {
    let backend = HadoopFileStorageBackend::try_new(Some("/tmp/data")).unwrap();
    assert_eq!(backend.path_to_filesystem(&LogicalPath::root()).unwrap(), "/tmp/data");
}

#[test]
fn below_the_top_directory_no_separator_is_doubled() {
    let backend = HadoopFileStorageBackend::try_new(Some("/")).unwrap();
    assert_eq!(joined(&backend, "a/b").unwrap(), "/a/b");
}

#[test]
fn a_trailing_slash_of_the_root_is_not_doubled() {
    let backend = backend_at("file:///tmp/data/");
    assert_eq!(joined(&backend, "a/b").unwrap(), "/tmp/data/a/b");
    assert_eq!(backend.path_to_filesystem(&LogicalPath::root()).unwrap(), "/tmp/data");
}

#[test]
fn only_one_trailing_slash_of_the_root_is_dropped() {
    let backend = backend_at("file:///tmp/data//");
    assert_eq!(joined(&backend, "a").unwrap(), "/tmp/data//a");
}

#[test]
fn a_path_with_a_trailing_empty_segment_joins_like_the_path_without() {
    let backend = HadoopFileStorageBackend::try_new(Some("/tmp/data")).unwrap();
    let with = joined(&backend, "year=2024/month=01/").unwrap();
    let without = joined(&backend, "year=2024/month=01").unwrap();
    assert_eq!(with, without);
    assert_eq!(with, "/tmp/data/year=2024/month=01");
}

#[test]
fn segments_come_back_as_they_were_given() {
    let backend = HadoopFileStorageBackend::try_new(Some("/tmp/data")).unwrap();
    assert_eq!(joined(&backend, "my file/50%25 off/\u{e9}t\u{e9}").unwrap(), "/tmp/data/my file/50%25 off/\u{e9}t\u{e9}");
    assert_eq!(joined(&backend, "a?b/c#d").unwrap(), "/tmp/data/a?b/c#d");
}

#[test]
fn a_root_with_an_encoded_directory_is_decoded() {
    let backend = HadoopFileStorageBackend::try_new(Some("/tmp/my data")).unwrap();
    assert_eq!(joined(&backend, "t").unwrap(), "/tmp/my data/t");
}

#[test]
fn a_root_on_another_host_has_no_file_system_path() {
    let backend = backend_at("hdfs://namenode:8020/warehouse");
    assert_eq!(joined(&backend, "t1").unwrap_err(), StorageError::InvalidLocation);
}

#[test]
fn a_root_without_path_segments_has_no_file_system_path() {
    let backend = backend_at("mailto:someone@example.com");
    assert_eq!(joined(&backend, "t1").unwrap_err(), StorageError::InvalidLocation);
}

#[test]
fn a_path_over_the_limit_is_an_invalid_location() {
    let backend = HadoopFileStorageBackend::try_new(Some("/tmp/data")).unwrap();
    let long = "x".repeat(URL_TEXT_LIMIT);
    assert_eq!(joined(&backend, &long).unwrap_err(), StorageError::InvalidLocation);
}

#[test]
fn describe_names_the_adapter() {
    let backend = HadoopFileStorageBackend::try_new(Some("/tmp/data")).unwrap();
    assert_eq!(backend.describe(), "HadoopFileStorageBackend");
}

#[test]
fn resolving_the_root_again_gives_the_same_root() {
    let root = HadoopFileStorageBackend::path_to_root_url(Some("/tmp/my data/t1")).unwrap();
    let backend = HadoopFileStorageBackend::from_root_url(root.duplicate());
    let directory = backend.path_to_filesystem(&LogicalPath::root()).unwrap();
    assert_eq!(directory, "/tmp/my data/t1");
    let again = HadoopFileStorageBackend::path_to_root_url(Some(&directory)).unwrap();
    assert_eq!(again, root);
    assert_eq!(again.as_str(), "file:///tmp/my%20data/t1");
}

#[test]
fn a_last_segment_that_reads_as_a_drive_ends_in_a_slash() {
    let backend = HadoopFileStorageBackend::try_new(Some("/tmp/data")).unwrap();
    assert_eq!(joined(&backend, "t/C:").unwrap(), "/tmp/data/t/C:/");
    assert_eq!(joined(&backend, "C:/t").unwrap(), "/tmp/data/C:/t");
}
