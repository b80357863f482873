[package]
name = "libcfhdb"
version = "0.1.0"
edition = "2021"
publish = false

[dependencies]
serde_json = "*"
duct = "*"
reqwest = { version = "*", default-features = false, features = ["blocking"] }
rusb = { version = "*", features = ["vendored"] }
bluer = { version = "*", features = ["bluetoothd"] }
tokio = { version = "*", features = ["rt-multi-thread", "time"] }
users = "*"
regex = "*"
