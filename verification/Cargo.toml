[package]
name = "shacl_shapes"
version = "0.1.0"
edition = "2021"
publish = false

[dependencies]
sophia = { version = "0.8", features = ["jsonld", "xml"] }
uuid = { version = "1", features = ["v4"] }
