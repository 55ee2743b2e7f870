[package]
name = "librashader_reflect"
version = "0.1.0"
edition = "2021"
publish = false

[dependencies]
rspirv = "=0.12.0"
spirv = "=0.3.0"
spirv-cross2 = { version = "=0.4.6", default-features = false, features = ["hlsl", "glsl", "msl"] }
rustc-hash = "=2.1.3"
bitflags = "=2.13.2"
thiserror = "=2.0.21"
serde = { version = "=1.0.229", features = ["derive"] }
