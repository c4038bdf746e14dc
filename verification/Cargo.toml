[package]
name = "scrape_ct_log"
version = "0.1.0"
edition = "2021"
publish = false

[dependencies]
base64 = "*"
serde_json = "1"
rand = "0.8"
url = "2"
ureq = "2"
clap = { version = "4", features = ["derive"] }
log = "*"

[dev-dependencies]
ciborium = "*"
x509-parser = "*"
