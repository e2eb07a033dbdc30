[package]
name = "transformer"
version = "0.1.0"
edition = "2021"
publish = false

[dependencies]
scraper = "=0.29.0"
html2md = "=0.2.17"
xmltree = { version = "=0.12.0", features = ["attribute-sorted"] }
regex = "=1.13.1"
indexmap = "=2.14.2"
openapiv3 = "=2.2.0"
serde_json = "=1.0.154"
zip = { version = "=9.2.2", default-features = false, features = ["deflate"] }
anyhow = "=1.0.104"
env_logger = "=0.11.11"
log = "=0.4.35"
unhtml = "*"
