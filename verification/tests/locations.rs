use deltalake_hdfs::error::StorageError;
use deltalake_hdfs::location::{fits, found_or, Location, URL_TEXT_LIMIT};

#[test]
fn parse_keeps_text_scheme_and_path() {
    let location = Location::parse("hdfs://namenode:8020/warehouse/t1").unwrap();
    assert_eq!(location.as_str(), "hdfs://namenode:8020/warehouse/t1");
    assert_eq!(location.scheme(), "hdfs");
    assert_eq!(location.path(), "/warehouse/t1");
}

#[test]
fn parse_lowers_the_scheme() {
    let location = Location::parse("VIEWFS://cluster/data").unwrap();
    assert_eq!(location.scheme(), "viewfs");
    assert_eq!(location.as_str(), "viewfs://cluster/data");
}

#[test]
fn parse_leaves_query_and_fragment_out_of_the_path() {
    let location = Location::parse("hdfs://namenode/a/b?x=1#top").unwrap();
    assert_eq!(location.path(), "/a/b");
    assert_eq!(location.as_str(), "hdfs://namenode/a/b?x=1#top");
}

#[test]
fn parse_encodes_the_path() {
    let location = Location::parse("hdfs://namenode/my table").unwrap();
    assert_eq!(location.path(), "/my%20table");
}

#[test]
fn parse_reads_a_location_without_a_path() {
    let location = Location::parse("hdfs://namenode:8020").unwrap();
    assert_eq!(location.scheme(), "hdfs");
    assert_eq!(location.path(), "");
}

#[test]
fn parse_refuses_what_is_no_absolute_url() {
    assert_eq!(Location::parse("warehouse/t1").unwrap_err(), StorageError::InvalidLocation);
    assert_eq!(Location::parse("").unwrap_err(), StorageError::InvalidLocation);
    assert_eq!(Location::parse("://namenode").unwrap_err(), StorageError::InvalidLocation);
}

#[test]
fn duplicate_gives_an_equal_location() {
    let location = Location::parse("hdfs://namenode:8020/warehouse").unwrap();
    let copy = location.duplicate();
    assert_eq!(copy, location);
    assert_eq!(copy.as_str(), "hdfs://namenode:8020/warehouse");
    assert_eq!(copy.scheme(), "hdfs");
    assert_eq!(copy.path(), "/warehouse");
}

#[test]
fn found_or_reports_the_value_or_the_failure() {
    assert_eq!(found_or(Some(7u32), StorageError::InvalidLocation), Ok(7));
    assert_eq!(found_or(None::<u32>, StorageError::InvalidLocation), Err(StorageError::InvalidLocation));
    assert_eq!(found_or(None::<u32>, StorageError::ConstructionFailure), Err(StorageError::ConstructionFailure));
}

#[test]
fn fits_counts_characters_and_separators() {
    let segments = vec!["ab".to_string(), "cde".to_string()];
    assert!(fits("file:///tmp", &segments));
    assert!(fits("", &Vec::new()));
    let long = "x".repeat(URL_TEXT_LIMIT - 11 - 1);
    assert!(fits("file:///tmp", &vec![long.clone()]));
    let too_long = "x".repeat(URL_TEXT_LIMIT - 11);
    assert!(!fits("file:///tmp", &vec![too_long]));
    assert!(!fits("file:///tmp", &vec![long, String::new()]));
}

#[test]
fn fits_counts_characters_not_bytes() {
    let long = "\u{e9}".repeat(URL_TEXT_LIMIT - 1);
    assert!(fits("", &vec![long.clone()]));
    assert!(!fits("f", &vec![long]));
}

#[test]
fn fits_refuses_a_url_over_the_limit() {
    let url = "x".repeat(URL_TEXT_LIMIT + 1);
    assert!(!fits(&url, &Vec::new()));
    let url = "x".repeat(URL_TEXT_LIMIT);
    assert!(fits(&url, &Vec::new()));
}
