[package]
name = "treehash"
version = "0.1.0"
edition = "2021"
publish = false

[dependencies]
blake2 = "0.10"
clap = { version = "4", features = ["derive"] }
crc32fast = "1"
glob = "0.3"
md5 = "0.7"
rayon = "1"
serde = { version = "1", features = ["derive"] }
serde_json = "1"
sha2 = "0.10"
walkdir = "2"
xxhash-rust = { version = "0.8", features = ["xxh3"] }
