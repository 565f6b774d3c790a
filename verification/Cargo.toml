[package]
name = "term_indexer"
version = "0.1.0"
edition = "2021"
publish = false

[dependencies]
moby-name-gen = "=0.1.0"
rocksdb = { version = "=0.25.0", default-features = false }
serde = { version = "=1.0.229", features = ["derive"] }
serde_json = "=1.0.154"
tide = "=0.16.0"
unidecode = "=0.3.0"
