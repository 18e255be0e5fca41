[package]
name = "ranobe"
version = "0.1.0"
edition = "2021"
publish = false

[dependencies]
fuzzy-matcher = "=0.3.7"
console = "*"
once_cell = "*"
clap = { version = "*", features = ["derive"] }
surf = { version = "*", default-features = false, features = ["h1-client-rustls"] }
async-std = { version = "*", features = ["attributes"] }
termsize = "*"
regex = "*"
lazy_static = "*"
