[package]
name = "xcp"
version = "0.1.0"
edition = "2021"
publish = false

[dependencies]
rustix = { version = "*", features = ["fs"] }
xattr = "*"
glob = "*"
log = "*"
simplelog = "*"

[dev-dependencies]
tempfile = "*"
