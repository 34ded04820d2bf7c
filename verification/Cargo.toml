[package]
name = "moodbar"
version = "0.1.0"
edition = "2021"
publish = false

[dependencies]
image = { version = "0.25", default-features = false, features = ["png"] }
serde_json = "1"
base64 = "0.22"
serde = { version = "1", features = ["derive"] }
anyhow = "1"
clap = { version = "4", features = ["derive"] }
walkdir = "2"
symphonia = "0.5"
rustfft = "6"
num-complex = "0.4"
once_cell = "1"
thiserror = "1"
jni = "0.21"
wasm-bindgen = "0.2"
serde-wasm-bindgen = "0.6"
console_error_panic_hook = "0.1"
