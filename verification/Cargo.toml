[package]
name = "deltalake-hdfs"
version = "0.1.0"
edition = "2021"
publish = false

[dependencies]
url = "=2.5.8"
object_store = "=0.11.2"
bytes = "1"
futures = "0.3"
async-trait = "0.1"
log = "0.4"
deltalake-core = { version = "0.22", default-features = false }
hdfs-native-object-store = "0.12"
