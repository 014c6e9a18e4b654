[package]
name = "webtools"
version = "0.1.0"
edition = "2021"
publish = false

[dependencies]
calamine = "0.16"
chrono = "0.4"
clap = "2.33"
fern = { version = "0.6", features = ["colored"] }
log = "0.4"
reqwest = "0.10"
select = "0.5"
serde_json = "1"
tokio = { version = "0.2", features = ["rt-threaded"] }
url = "2"
