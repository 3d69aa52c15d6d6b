use deltalake_hdfs::error::StorageError;
use deltalake_hdfs::factory::HdfsFactory;
use deltalake_hdfs::location::Location;
use deltalake_hdfs::register_handlers;
use deltalake_hdfs::registry::{Handlers, SchemeRegistry};

#[test]
fn an_empty_registry_holds_nothing() {
    let registry: SchemeRegistry<u32> = SchemeRegistry::new();
    assert_eq!(registry.lookup("hdfs"), None);
}

#[test]
fn the_second_registration_of_a_scheme_wins() {
    let mut registry: SchemeRegistry<&str> = SchemeRegistry::new();
    assert!(!registry.register("hdfs", "first"));
    assert!(registry.register("hdfs", "second"));
    assert_eq!(registry.lookup("hdfs"), Some(&"second"));
    let location = Location::parse("hdfs://namenode:8020/warehouse").unwrap();
    assert_eq!(registry.resolve(&location), Ok(&"second"));
}

#[test]
fn an_unregistered_scheme_is_an_invalid_location() {
    let mut registry: SchemeRegistry<&str> = SchemeRegistry::new();
    registry.register("hdfs", "first");
    registry.register("hdfs", "second");
    let location = Location::parse("s3x://bucket/key").unwrap();
    assert_eq!(registry.resolve(&location), Err(StorageError::InvalidLocation));
    assert_eq!(registry.lookup("s3x"), None);
}

#[test]
fn one_factory_serves_several_schemes() {
    let mut registry: SchemeRegistry<u32> = SchemeRegistry::new();
    registry.register("hdfs", 1);
    registry.register("viewfs", 1);
    assert_eq!(registry.lookup("hdfs"), Some(&1));
    assert_eq!(registry.lookup("viewfs"), Some(&1));
}

#[test]
fn replacing_one_scheme_leaves_the_others() {
    let mut registry: SchemeRegistry<u32> = SchemeRegistry::new();
    registry.register("hdfs", 1);
    registry.register("viewfs", 2);
    registry.register("file", 3);
    assert!(registry.register("viewfs", 4));
    assert_eq!(registry.lookup("hdfs"), Some(&1));
    assert_eq!(registry.lookup("viewfs"), Some(&4));
    assert_eq!(registry.lookup("file"), Some(&3));
    assert!(registry.register("hdfs", 5));
    assert!(registry.register("file", 6));
    assert_eq!(registry.lookup("hdfs"), Some(&5));
    assert_eq!(registry.lookup("viewfs"), Some(&4));
    assert_eq!(registry.lookup("file"), Some(&6));
}

#[test]
fn the_order_of_different_schemes_does_not_matter() {
    let mut one: SchemeRegistry<u32> = SchemeRegistry::new();
    one.register("hdfs", 1);
    one.register("viewfs", 2);
    let mut other: SchemeRegistry<u32> = SchemeRegistry::new();
    other.register("viewfs", 2);
    other.register("hdfs", 1);
    for scheme in ["hdfs", "viewfs", "file"] {
        assert_eq!(one.lookup(scheme), other.lookup(scheme));
    }
}

#[test]
fn a_lookup_goes_by_the_scheme_alone() {
    let mut registry: SchemeRegistry<u32> = SchemeRegistry::new();
    registry.register("hdfs", 7);
    let one = Location::parse("hdfs://namenode-a:8020/warehouse/t1").unwrap();
    let other = Location::parse("hdfs://namenode-b/other").unwrap();
    let upper = Location::parse("HDFS://namenode-c").unwrap();
    assert_eq!(registry.resolve(&one), Ok(&7));
    assert_eq!(registry.resolve(&other), Ok(&7));
    assert_eq!(registry.resolve(&upper), Ok(&7));
}

#[test]
fn a_scheme_is_matched_whole() {
    let mut registry: SchemeRegistry<u32> = SchemeRegistry::new();
    registry.register("hdfs", 7);
    assert_eq!(registry.lookup("hdf"), None);
    assert_eq!(registry.lookup("hdfss"), None);
    assert_eq!(registry.lookup(""), None);
    assert_eq!(registry.lookup("HDFS"), None);
}

#[test]
fn register_handlers_enters_both_schemes_in_both_registries() {
    let mut handlers: Handlers<HdfsFactory> = Handlers::new();
    register_handlers(&mut handlers, None);
    for scheme in ["hdfs", "viewfs"] {
        assert_eq!(handlers.factories.lookup(scheme), Some(&HdfsFactory {}));
        assert_eq!(handlers.logstores.lookup(scheme), Some(&HdfsFactory {}));
    }
    assert_eq!(handlers.factories.lookup("s3"), None);
    assert_eq!(handlers.logstores.lookup("file"), None);
}

#[test]
fn register_handlers_twice_is_as_once() {
    let mut handlers: Handlers<HdfsFactory> = Handlers::new();
    register_handlers(&mut handlers, None);
    register_handlers(&mut handlers, None);
    assert!(handlers.factories.register("hdfs", HdfsFactory {}));
    assert!(handlers.factories.register("viewfs", HdfsFactory {}));
    assert!(!handlers.factories.register("file", HdfsFactory {}));
    assert_eq!(handlers.logstores.lookup("hdfs"), Some(&HdfsFactory {}));
}

#[test]
fn register_handlers_takes_no_notice_of_additional_prefixes() {
    let extra = Location::parse("abfs://container/dir").unwrap();
    let mut handlers: Handlers<HdfsFactory> = Handlers::new();
    register_handlers(&mut handlers, Some(&extra));
    assert_eq!(handlers.factories.lookup("hdfs"), Some(&HdfsFactory {}));
    assert_eq!(handlers.factories.lookup("viewfs"), Some(&HdfsFactory {}));
    assert_eq!(handlers.factories.lookup("abfs"), None);
    assert_eq!(handlers.factories.resolve(&extra), Err(StorageError::InvalidLocation));
}

#[test]
fn registered_locations_resolve_to_the_factory() {
    let mut handlers: Handlers<HdfsFactory> = Handlers::new();
    register_handlers(&mut handlers, None);
    let table = Location::parse("viewfs://cluster/warehouse/t1").unwrap();
    assert_eq!(handlers.factories.resolve(&table), Ok(&HdfsFactory {}));
    assert_eq!(handlers.logstores.resolve(&table), Ok(&HdfsFactory {}));
}
