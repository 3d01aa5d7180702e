[package]
name = "tranquil"
version = "0.1.0"
edition = "2021"
publish = false

[dependencies]
base91 = "0.1"
uuid = { version = "1", features = ["v4", "serde"] }
convert_case = "0.6"
unicode-script = "0.5"
itertools = "0.13"
bincode = "1"
serde = { version = "1", features = ["derive"] }
serenity = "0.12"
tokio = { version = "1", features = ["full"] }
futures = "0.3"
async-trait = "0.1"
anyhow = "1"
thiserror = "2"
tracing = "0.1"
toml = "0.8"
dotenvy = "0.15"
enumset = "1"
bounded-integer = { version = "0.5", features = ["types"] }
syn = { version = "2", features = ["full"] }
quote = "1"
proc-macro2 = "1"
darling = "0.20"
