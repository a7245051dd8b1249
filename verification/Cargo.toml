[package]
name = "project_commentator"
version = "0.1.0"
edition = "2021"
publish = false

[dependencies]
base64 = "0.22"
image = { version = "0.25", default-features = false, features = ["png"] }
serde = { version = "1", features = ["derive"] }
serde_json = "1"
minijinja = "2"
chrono = "0.4"
dirs = "*"
tokio = { version = "1", features = ["sync", "time", "macros", "rt"] }
encoding_rs = "0.8"
libc = "0.2"
reqwest = { version = "0.12", default-features = false, features = ["blocking", "rustls-tls"] }
xcap = "*"
llama-cpp-2 = "*"
