[package]
name = "grarr"
version = "0.1.0"
edition = "2021"
publish = false

[dependencies]
url = "2"
pulldown-cmark = { version = "0.12", default-features = false, features = ["html"] }
rust-crypto = "0.2"
gravatar = "*"
lru_time_cache = "*"
git2 = { version = "*", default-features = false }
iron = "0.6"
router = "0.6"
hyper = "0.10"
unicase = "1"
time = "0.1"
flate2 = "1"
walkdir = "2"
toml = "0.5"
serde = "1"
serde_derive = "1"
