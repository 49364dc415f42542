[package]
name = "dart_dec"
version = "0.1.0"
edition = "2021"
publish = false

[dependencies]
ahash = "0.8"
anyhow = "1"
bumpalo = "3"
capstone = "0.12"
clap = { version = "4", features = ["derive"] }
ctrlc = "3"
goblin = "0.8"
hex = "0.4"
indicatif = "0.17"
memchr = "2"
memmap2 = "0.9"
owo-colors = "4"
petgraph = "0.6"
rayon = "1"
regex = "1"
rusqlite = { version = "0.31", features = ["bundled"] }
serde = { version = "1", features = ["derive"] }
serde_json = "1"
sha2 = "0.10"
thiserror = "1"
toml = "0.8"
tracing = "0.1"
tracing-subscriber = { version = "0.3", features = ["env-filter"] }
