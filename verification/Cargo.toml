[package]
name = "metrics_helper_macros"
version = "0.1.0"
edition = "2021"
publish = false

[dependencies]
darling = "0.20"
syn = { version = "2", features = ["full", "extra-traits"] }
quote = "1"
proc-macro2 = "1"
