[package]
name = "navipod"
version = "0.1.0"
edition = "2021"
publish = false

[dependencies]
anyhow = "1"
dirs = "6"
image = { version = "0.25", default-features = false, features = ["jpeg", "png"] }
md5 = "0.7"
rand = "0.8"
reqwest = { version = "0.12", default-features = false, features = ["json"] }
rodio = { version = "0.22", default-features = false, features = ["playback", "mp3", "flac"] }
rusqlite = { version = "0.32", features = ["bundled"] }
serde = { version = "1", features = ["derive"] }
slint = { version = "1", default-features = false, features = ["std", "compat-1-2"] }
tokio = { version = "1", features = ["macros", "rt-multi-thread", "sync", "time", "net", "process", "io-util", "fs"] }
toml = "0.8"
tracing = "0.1"
tracing-subscriber = { version = "0.3", default-features = false, features = ["fmt"] }
