[package]
name = "lyrics_filter"
version = "0.1.0"
edition = "2021"
publish = false

[dependencies]
md-5 = "*"
rusqlite = { version = "*", features = ["bundled"] }
