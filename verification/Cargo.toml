[package]
name = "jtcpp"
version = "0.1.0"
edition = "2021"
publish = false

[dependencies]
clap = { version = "4", features = ["derive"] }
smallvec = "1"
zip = { version = "*", default-features = false, features = ["deflate"] }
include_dir = "0.7"
