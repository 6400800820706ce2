[package]
name = "marv"
version = "0.1.0"
edition = "2021"
publish = false

[dependencies]
anyhow = "1"
clap = { version = "4", features = ["derive"] }
dirs = "5"
futures = "0.3"
html-escape = "0.2"
maud = "0.26"
md5 = "0.7"
notify = "6"
pulldown-cmark = "0.10"
regex = "1"
syntect = { version = "5", default-features = false, features = ["default-fancy"] }
tokio = { version = "1", features = ["full"] }
tokio-stream = "0.1"
tracing = "0.1"
tracing-subscriber = "0.3"
warp = "0.3"
