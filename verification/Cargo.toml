[package]
name = "chord"
version = "0.1.0"
edition = "2021"
publish = false

[dependencies]
regex = "1"
csv = "1"
serde_json = "1"
snailquote = "0.3"
serde_yaml = "0.9"
handlebars = "4"
jsonpath-rust = "*"
hocon = "*"
dirs = "*"
chrono = "0.4"
structopt = "0.3"
futures = "0.3"
log = "0.4"
thiserror = "1"
anyhow = "1"
