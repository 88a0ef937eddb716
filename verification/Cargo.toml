[package]
name = "objc2"
version = "0.1.0"
edition = "2021"
publish = false

[dependencies]
basic-toml = "0.1"
clang = { version = "2.0", features = ["runtime", "clang_10_0"] }
heck = "0.5"
lenient_semver_parser = { version = "0.4.2", default-features = false, features = ["semver"] }
semver = "1.0"
serde = { version = "1.0", features = ["derive"] }
