[package]
name = "hnsw_index"
version = "0.1.0"
edition = "2021"
publish = false

[dependencies]
hnsw_rs = "0.3"
thiserror = "*"
uniffi = "*"
