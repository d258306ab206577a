[package]
name = "archivegram"
version = "0.1.0"
edition = "2021"
publish = false

[dependencies]
chrono = "=0.4.45"
dptree = "=0.3.0"
log2 = "=0.1.14"
mime = "=0.3.17"
serde = { version = "=1.0.229", features = ["derive"] }
serde_json = "=1.0.154"
takecell = "=0.1.1"
teloxide = { version = "=0.12.2", features = ["macros"] }
tera = "=1.20.1"
tokio = { version = "=1.54.1", features = ["rt-multi-thread", "macros", "fs"] }
toml = "=0.8.23"
walkdir = "=2.5.0"
zip = { version = "=0.6.6", default-features = false }
