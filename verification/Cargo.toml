[package]
name = "pokebot"
version = "0.1.0"
edition = "2021"
publish = false

[dependencies]
anyhow = "1"
askama = { version = "0.12", default-features = false, features = ["urlencode"] }
async-trait = "0.1"
axum = { version = "0.8", default-features = false, features = ["http1", "tokio", "json", "form"] }
base64 = "0.13"
futures = "0.3"
gstreamer = "0.18"
gstreamer-app = "0.18"
gstreamer-audio = "0.18"
humantime = "=2.4.0"
id3 = "1"
metaflac = "0.2"
rand = { version = "=0.8.8", features = ["small_rng"] }
serde = { version = "1", features = ["derive"] }
serde_json = "1"
structopt = { version = "0.3", default-features = false }
tokio = { version = "1", features = ["rt-multi-thread", "macros", "signal", "process", "io-std", "io-util", "sync", "net"] }
toml = "0.5"
tracing = "0.1"
tsclientlib = "*"
tsproto-packets = "*"
walkdir = "2"
xtra = { version = "0.5", features = ["with-tokio-1"] }
