[package]
name = "cst_kernel"
version = "0.1.0"
edition = "2021"
publish = false

[dependencies]
earcutr = "=0.5.0"
glam = { version = "=0.33.12", features = ["serde"] }
serde = { version = "=1.0.229", features = ["derive"] }
slotmap = "=1.1.1"
thiserror = "=2.0.21"
