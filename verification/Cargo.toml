[package]
name = "memorypack"
version = "0.1.0"
edition = "2021"
publish = false

[dependencies]
simdutf8 = "=0.1.5"
hashbrown = "=0.17.1"
allocator-api2 = "=0.2.21"
uuid = "=1.29.0"
rust_decimal = "=1.43.0"
half = "=2.7.1"
num-bigint = "=0.5.1"
num-complex = "=0.4.6"
url = "=2.5.8"
glam = "=0.34.2"
serde = { version = "=1.0.229", features = ["derive"] }
thiserror = "=2.0.21"
syn = { version = "=2.0.119", features = ["full"] }
quote = "=1.0.47"
proc-macro2 = "=1.0.107"
