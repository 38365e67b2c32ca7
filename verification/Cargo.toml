[package]
name = "rspack_cacheable"
version = "0.1.0"
edition = "2021"
publish = false

[dependencies]
rkyv = { version = "0.7", features = ["validation"] }
json = "0.12"
rustc-hash = "1"
rspack_sources = "0.2"
syn = { version = "2", features = ["full"] }
quote = "1"
proc-macro2 = "1"
inventory = "0.3"
once_cell = "1"
