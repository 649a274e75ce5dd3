[package]
name = "leven"
version = "0.1.0"
edition = "2021"
publish = false

[dependencies]
chrono = "0.4"
slug = "0.1"
toml = "0.5"
pulldown-cmark = { version = "0.9", default-features = false }
glob = "0.3"
handlebars = "4"
serde_json = "1"
git2 = { version = "*", default-features = false }
log = "0.4"
badlog = "*"
clap = "4"
tenjin = "*"
