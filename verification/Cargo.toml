[package]
name = "vigyl"
version = "0.1.0"
edition = "2021"
publish = false

[dependencies]
sha2 = "0.10"
serde = { version = "1", features = ["derive"] }
serde-big-array = "0.5"
thiserror = "2"
anchor-lang = "0.31"
