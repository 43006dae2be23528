[package]
name = "typven"
version = "0.1.0"
edition = "2021"
publish = false

[dependencies]
anyhow = "1"
clap = { version = "4", features = ["derive"] }
codespan-reporting = "0.11"
comfy-table = "7"
dirs = "5"
fs_extra = "1"
git-url-parse = "0.4"
open = "5"
semver = { version = "1", features = ["serde"] }
serde = { version = "1", features = ["derive"] }
toml = "0.7"
toml_edit = "0.19"
ureq = { version = "2", features = ["json"] }
url = "2"
walkdir = "2"
