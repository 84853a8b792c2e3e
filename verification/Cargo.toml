[package]
name = "build_eips"
version = "0.1.0"
edition = "2021"
publish = false

[dependencies]
chrono = { version = "=0.4.45", default-features = false, features = ["alloc", "std"] }
citationberg = "0.5"
clap = { version = "4", features = ["derive"] }
duct = "1.1"
eipw-preamble = "=0.4.0"
env_logger = "0.11"
fslock = "0.2"
git2 = { version = "0.20", default-features = false }
hayagriva = { version = "0.8", default-features = false, features = ["archive", "csl-json"] }
iref = "=3.2.2"
log = "0.4"
notify = "8"
pulldown-cmark = { version = "=0.13.6", default-features = false }
pulldown-cmark-to-cmark = "=21.1.0"
regex = "=1.13.1"
semver = "=1.0.28"
serde = { version = "1", features = ["derive"] }
serde_json = "=1.0.154"
snafu = "0.8"
tiny_http = "0.12"
toml = "0.8"
toml_datetime = "=0.6.11"
url = "=2.5.8"
walkdir = "2"
