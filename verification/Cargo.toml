[package]
name = "lokalise_key_usage"
version = "0.1.0"
edition = "2021"
publish = false

[dependencies]
anyhow = "1"
swc_core = { version = "*", features = ["common", "ecma_ast", "ecma_visit", "ecma_parser", "ecma_transforms"] }
swc_ecma_parser = "*"
