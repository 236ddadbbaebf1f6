[package]
name = "hotpatch"
version = "0.1.0"
edition = "2021"
publish = false

[dependencies]
ar = "=0.9.0"
clap = { version = "=4.6.7", features = ["derive"] }
dioxus-devtools = "=0.7.10"
itertools = "=0.15.0"
multiqueue = "=0.3.2"
object = { version = "=0.40.0", features = ["write"] }
serde = { version = "=1.0.229", features = ["derive"] }
serde_json = "=1.0.154"
subsecond = "=0.7.10"
target-lexicon = "=0.13.5"
tempfile = "=3.27.0"
tracing = "=0.1.44"
tracing-subscriber = "=0.3.23"
tungstenite = "=0.30.0"
uuid = { version = "=1.29.0", features = ["v5"] }
walrus = "=0.27.3"
wasm-bindgen-cli-support = "=0.2.129"
