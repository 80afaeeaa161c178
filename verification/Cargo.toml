[package]
name = "corpus"
version = "0.1.0"
edition = "2021"
publish = false

[dependencies]
clap = "2.34"
pg_query = "*"
regex = "1"
rusqlite = { version = "*", features = ["bundled"] }
textwrap = "0.16"
xxhash-rust = { version = "0.8", features = ["xxh3"] }
