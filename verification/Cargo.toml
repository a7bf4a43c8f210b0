[package]
name = "render_engine"
version = "0.1.0"
edition = "2021"
publish = false

[dependencies]
ash = { version = "0.38", default-features = false, features = ["std", "debug"] }
log = "0.4"
thiserror = "2"
