[package]
name = "file_share"
version = "0.1.0"
edition = "2021"
publish = false

[dependencies]
sanitize-filename = "0.5"
actix-web = { version = "4", default-features = false, features = ["macros"] }
actix-files = "0.6"
actix-multipart = "0.6"
anyhow = "1"
clap = { version = "4", features = ["derive"] }
colored = "2"
futures = "0.3"
get_if_addrs = "0.5"
qr2term = "0.3"
