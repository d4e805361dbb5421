[package]
name = "steel_recipes"
version = "0.1.0"
edition = "2021"
publish = false

[dependencies]
rustc-hash = "2"
smallvec = "1"
rand = "*"
glam = "*"
simdnbt = "*"
thiserror = "2"
tokio = { version = "1", features = ["io-util"] }
aes = "*"
cfb8 = "*"
