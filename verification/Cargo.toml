[package]
name = "vuln_lsp"
version = "0.1.0"
edition = "2021"
publish = false

[dependencies]
anyhow = "1.0.75"
async-trait = "0.1.74"
cargo_toml = "0.17"
clap = { version = "4.4.11", features = ["derive", "cargo"] }
futures = "0.3.29"
rand = "0.8.5"
reqwest = { version = "0.11.22", default-features = false, features = ["json"] }
serde = { version = "1.0.193", features = ["derive"] }
serde-xml-rs = "0.6.0"
serde_json = "1.0.108"
thiserror = "1.0.50"
tokio = { version = "1.34.0", features = ["rt-multi-thread", "macros", "io-std", "sync"] }
toml = "0.8.8"
tower-lsp = { version = "0.20.0", features = ["proposed"] }
tracing = "0.1.40"
tracing-subscriber = { version = "0.3.18", features = ["env-filter"] }
