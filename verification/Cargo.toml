[package]
name = "parquet_ruby_adapter"
version = "0.1.0"
edition = "2021"
publish = false

[dependencies]
parquet = { version = "55", default-features = false }
magnus = "0.7"
tempfile = "3"
