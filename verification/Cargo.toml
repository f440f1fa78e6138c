[package]
name = "openapiv3-resolve"
version = "0.2.0"
edition = "2021"
publish = false

[dependencies]
indexmap = "2"
openapiv3 = "2"
serde_json = "1"
thiserror = "2"
