[package]
name = "digester"
version = "0.1.0"
edition = "2021"
publish = false

[dependencies]
anyhow = "1"
digest = { version = "0.10", features = ["alloc"] }
md-5 = "0.10"
sha1 = "0.10"
sha2 = "0.10"
structopt = "0.3"
