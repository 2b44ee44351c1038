[package]
name = "mergefox"
version = "0.1.0"
edition = "2021"
publish = false

[dependencies]
anyhow = "1"
dirs = "5"
egui = "0.29"
gix = { version = "*", default-features = false, features = ["sha1"] }
image = { version = "=0.25.10", default-features = false, features = ["bmp", "exr", "gif", "hdr", "ico", "jpeg", "png", "qoi", "tga", "tiff", "webp"] }
rand_core = { version = "=0.6.4", features = ["getrandom"] }
reqwest = { version = "0.12", default-features = false, features = ["json", "rustls-tls"] }
secrecy = "=0.8.0"
serde = { version = "1", features = ["derive"] }
serde_json = "1"
ssh-key = { version = "=0.6.7", features = ["ed25519"] }
thiserror = "1"
tokio = { version = "1", features = ["rt-multi-thread", "sync", "time"] }
tracing = "0.1"
