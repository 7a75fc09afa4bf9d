[package]
name = "unused_imports"
version = "0.1.0"
edition = "2021"
publish = false

[dependencies]
serde = "=1.0.219"
swc_common = "=0.33.26"
swc_ecma_ast = "=0.112.8"
swc_ecma_parser = "=0.143.16"
swc_ecma_visit = "=0.98.7"
