[package]
name = "loveletters"
version = "0.1.0"
edition = "2021"
publish = false

[dependencies]
bytes = "=1.12.1"
serde = { version = "=1.0.229", features = ["derive"] }
tar = "=0.4.46"
thiserror = "=1.0.69"
time = { version = "=0.3.55", features = ["serde", "parsing", "formatting"] }
tokio = { version = "=1.54.1", features = ["rt", "macros"] }
toml = "=0.8.23"
typst = "=0.14.2"
typst-html = "=0.14.2"
typst-kit = { version = "=0.14.2", default-features = false, features = ["fonts"] }
ureq = "=3.5.0"
url = { version = "=2.5.8", features = ["serde"] }
walkdir = "=2.5.0"
zune-inflate = "=0.2.54"
