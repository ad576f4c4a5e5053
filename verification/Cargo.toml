[package]
name = "uwe"
version = "0.1.0"
edition = "2021"
publish = false

[dependencies]
rusoto_core = { version = "0.48", default-features = false, features = ["rustls"] }
rusoto_route53 = { version = "0.48", default-features = false, features = ["rustls"] }
rusoto_acm = { version = "0.48", default-features = false, features = ["rustls"] }
rusoto_cloudfront = { version = "0.48", default-features = false, features = ["rustls"] }
rusoto_s3 = { version = "0.48", default-features = false, features = ["rustls"] }
slug = "0.1"
url = "2"
serde = { version = "1", features = ["derive"] }
serde_json = "1"
toml = "0.5"
trust-dns-client = "0.22"
tokio = { version = "1", features = ["rt-multi-thread", "macros", "net"] }
async-trait = "0.1"
log = "0.4"
thiserror = "1"
rand = "0.8"
crossterm = "0.26"
ignore = "0.4"
crossbeam = "0.8"
fs2 = "0.4"
