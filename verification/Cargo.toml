[package]
name = "glaciers"
version = "0.1.0"
edition = "2021"
publish = false

[dependencies]
polars = { version = "*", default-features = false, features = ["lazy"] }
thiserror = "*"
