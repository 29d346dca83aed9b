[package]
name = "ctsolver"
version = "0.1.0"
edition = "2021"
publish = false

[dependencies]
chrono = "0.4"
rand = "0.8"
sha2 = "0.10"
hex = "0.4"
unicode-segmentation = "1"
rustc-hash = "1"
serde_json = "1"
oxc_allocator = "0.30"
oxc_ast = "0.30"
oxc_parser = "0.30"
oxc_semantic = "0.30"
oxc_span = "0.30"
