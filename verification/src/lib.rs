//! Storage adapter that lets a table engine reach an HDFS or ViewFS
//! namespace through its generic object-storage interface.
//!
//! The crate holds the decisions of that adapter: how locations and logical
//! paths are read, ordered and joined, which request goes to the
//! file-system client for each storage operation and how its answer is
//! reported, what a factory hands out for a location, and which factory
//! serves a scheme. Talking to the file system, and binding the adapter to
//! the engine, is left to the caller.

pub mod error;
pub mod path;
pub mod order;
pub mod location;
pub mod backend;
pub mod factory;
pub mod registry;

pub use backend::HadoopFileStorageBackend;
pub use factory::HdfsFactory;
pub use registry::register_handlers;
