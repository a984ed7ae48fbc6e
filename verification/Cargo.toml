[package]
name = "query_string"
version = "0.1.0"
edition = "2021"
publish = false

[dependencies]
url = "0.5"
hyper = { version = "0.8", default-features = false }
plugin = "0.2"
typemap = "0.3"
