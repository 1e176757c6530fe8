[package]
name = "nodekeeper"
version = "0.1.0"
edition = "2021"
publish = false

[dependencies]
lz4 = "*"
tar = "*"
clap = { version = "*", features = ["derive"] }
reqwest = { version = "*", default-features = false, features = ["stream"] }
tokio = { version = "*", features = ["macros", "rt-multi-thread"] }
futures = "*"
indicatif = "*"
colored = "*"
color-eyre = "*"
fs_extra = "*"
tempfile = "*"
which = "*"
