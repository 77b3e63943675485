[package]
name = "boxdd"
version = "0.1.0"
edition = "2021"
publish = false

[dependencies]
boxdd-sys = "*"
thiserror = "2"
serde = { version = "1", features = ["derive"] }
glam = "*"
mint = "*"
smallvec = "1"
